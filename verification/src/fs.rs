//! Names of the build directories of test cases.
use vstd::prelude::*;
use crate::text::{chars_of, string_from};

verus! {

/// What `char::is_alphanumeric` answers for `c`: whether it is alphabetic
/// or numeric in Unicode.
pub uninterp spec fn is_alphanumeric_char(c: char) -> bool;

/// `char::is_alphanumeric`. Its documentation defines it by the Unicode
/// Alphabetic and Numeric properties; among ASCII characters these are
/// exactly the letters and digits, which is all the contract states beyond
/// naming the result.
#[verifier::external_body]
fn char_is_alphanumeric(c: char) -> (r: bool)
    ensures
        r == is_alphanumeric_char(c),
        (c as u32) < 128 ==> (r <==> (('a' <= c && c <= 'z') || ('A' <= c && c <= 'Z') || ('0' <= c && c <= '9'))),
{
    c.is_alphanumeric()
}

/// `name` with every character that is not alphanumeric replaced by '_'.
pub open spec fn sanitized(name: Seq<char>) -> Seq<char> {
    name.map_values(|c: char| if is_alphanumeric_char(c) {
        c
    } else {
        '_'
    })
}

/// The name of a case's build directory: "matrix_runner_" followed by the
/// case's name with every character that is not alphanumeric replaced by '_'.
pub fn build_dir_name(case_name: &str) -> (r: String)
    ensures
        r@ == "matrix_runner_"@ + sanitized(case_name@),
{
    let cs = chars_of(case_name);
    let mut out: Vec<char> = Vec::new();
    let mut i: usize = 0;
    while i < cs.len()
        invariant
            i <= cs@.len(),
            out@ == sanitized(cs@.take(i as int)),
        decreases cs@.len() - i,
    {
        let c = cs[i];
        if char_is_alphanumeric(c) {
            out.push(c);
        } else {
            out.push('_');
        }
        assert(sanitized(cs@.take(i + 1)) =~= sanitized(cs@.take(i as int)).push(out@.last()));
        i += 1;
    }
    assert(cs@.take(i as int) =~= cs@);
    let mut name = String::from_str("matrix_runner_");
    name.append(string_from(out.as_slice()).as_str());
    name
}

} // verus!
