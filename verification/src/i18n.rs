//! Translation of the runner's messages.
//!
//! Each language has a table of messages, a TOML document of quoted keys and
//! string values. A message may hold named placeholders, written `%{name}`,
//! and positional ones, written `{}`.
use vstd::prelude::*;
use crate::locales::{has_locale, locale_file, locale_source};
use crate::text::{chars_of, concat, push_char, replace_all, replace_all_chars, str_equal, string_from, string_from_range};

verus! {

/// What `toml::from_str` makes of a document read as a map from string keys
/// to string values, listed in increasing key order; `None` if the document
/// is not such a map.
pub uninterp spec fn toml_string_table(text: Seq<char>) -> Option<Seq<(Seq<char>, Seq<char>)>>;

/// The characters of each key and value.
pub open spec fn pairs_view(v: Seq<(String, String)>) -> Seq<(Seq<char>, Seq<char>)> {
    v.map_values(|p: (String, String)| (p.0@, p.1@))
}

/// Parses a TOML document whose top-level keys all have string values, with
/// `toml::from_str` into a `BTreeMap<String, String>`, whose entries are
/// handed back in the map's (increasing key) order. The contract claims that
/// the result is `toml_string_table` of the text: a function of the text alone.
#[verifier::external_body]
fn parse_string_table(text: &str) -> (r: Option<Vec<(String, String)>>)
    ensures
        r is Some <==> toml_string_table(text@) is Some,
        r matches Some(v) ==> pairs_view(v@) == toml_string_table(text@)->Some_0,
{
    match toml::from_str::<std::collections::BTreeMap<String, String>>(text) {
        Ok(m) => Some(m.into_iter().collect()),
        Err(_) => None,
    }
}

/// The value of the first entry with key `key`.
pub open spec fn lookup_entry(e: Seq<(Seq<char>, Seq<char>)>, key: Seq<char>) -> Option<Seq<char>>
    decreases e.len(),
{
    if e.len() == 0 {
        None
    } else if e[0].0 == key {
        Some(e[0].1)
    } else {
        lookup_entry(e.drop_first(), key)
    }
}

/// The parsed table of language `code`.
pub open spec fn loaded_table(code: Seq<char>) -> Option<Seq<(Seq<char>, Seq<char>)>> {
    match locale_file(code) {
        Some(text) => toml_string_table(text),
        None => None,
    }
}

/// The language asked for: English when none is named.
pub open spec fn requested_code(language: Seq<char>) -> Seq<char> {
    if language.len() == 0 {
        "en"@
    } else {
        language
    }
}

/// The language and table chosen for `language`: its own table, or the
/// English one when it has none.
pub open spec fn initial_table(language: Seq<char>) -> Option<(Seq<char>, Seq<(Seq<char>, Seq<char>)>)> {
    let code = requested_code(language);
    match loaded_table(code) {
        Some(t) => Some((code, t)),
        None => if code != "en"@ {
            match loaded_table("en"@) {
                Some(t) => Some(("en"@, t)),
                None => None,
            }
        } else {
            None
        },
    }
}

/// The message for `key`, or the key itself when the table has none.
pub open spec fn translated(e: Seq<(Seq<char>, Seq<char>)>, key: Seq<char>) -> Seq<char> {
    match lookup_entry(e, key) {
        Some(v) => v,
        None => key,
    }
}

/// A `{}` placeholder starts `s`.
pub open spec fn starts_with_placeholder(s: Seq<char>) -> bool {
    s.len() >= 2 && s[0] == '{' && s[1] == '}'
}

/// `s` with its `{}` placeholders filled in order by `args`: scanning `s`
/// from the left, each placeholder takes the next argument, and the scan
/// goes on past it, so a placeholder inside an argument is left as it is.
/// Placeholders beyond the last argument stay; extra arguments are unused.
pub open spec fn fill_positional(s: Seq<char>, args: Seq<Seq<char>>) -> Seq<char>
    decreases s.len(),
{
    if args.len() == 0 || s.len() == 0 {
        s
    } else if starts_with_placeholder(s) {
        args[0] + fill_positional(s.skip(2), args.drop_first())
    } else {
        seq![s[0]] + fill_positional(s.drop_first(), args)
    }
}

/// The placeholder of the argument named `name`.
pub open spec fn placeholder(name: Seq<char>) -> Seq<char> {
    "%{"@ + name + "}"@
}

/// `s` with every placeholder `%{name}` of each argument replaced by its value,
/// the arguments taken in order.
pub open spec fn interpolate(s: Seq<char>, args: Seq<(Seq<char>, Seq<char>)>) -> Seq<char>
    decreases args.len(),
{
    if args.len() == 0 {
        s
    } else {
        replace_all(interpolate(s, args.drop_last()), placeholder(args.last().0), args.last().1)
    }
}

/// A loaded translation table.
#[derive(Debug, Clone)]
pub struct Translations {
    /// The language whose table this is.
    pub locale: String,
    /// The messages, by key.
    pub entries: Vec<(String, String)>,
}

impl Translations {
    /// The language and the table's keys and values.
    pub open spec fn view(&self) -> (Seq<char>, Seq<(Seq<char>, Seq<char>)>) {
        (self.locale@, pairs_view(self.entries@))
    }

    /// The table's keys and values.
    pub open spec fn table(&self) -> Seq<(Seq<char>, Seq<char>)> {
        pairs_view(self.entries@)
    }
}

/// Loads the translation table of `language` ("en" when empty). A language
/// without a table falls back to English. `None` only when the table to use
/// cannot be parsed.
pub fn init(language: &str) -> (r: Option<Translations>)
    ensures
        r is Some <==> initial_table(language@) is Some,
        r matches Some(t) ==> t.view() == initial_table(language@)->Some_0,
{
    let code: &str = if language.is_empty() {
        "en"
    } else {
        language
    };
    match load_table(code) {
        Some(entries) => Some(Translations { locale: String::from_str(code), entries }),
        None => {
            if !str_equal(code, "en") {
                match load_table("en") {
                    Some(entries) => Some(Translations { locale: String::from_str("en"), entries }),
                    None => None,
                }
            } else {
                None
            }
        },
    }
}

/// The parsed table of language `code`.
fn load_table(code: &str) -> (r: Option<Vec<(String, String)>>)
    ensures
        r is Some <==> loaded_table(code@) is Some,
        r matches Some(v) ==> pairs_view(v@) == loaded_table(code@)->Some_0,
{
    match locale_source(code) {
        Some(text) => parse_string_table(text),
        None => None,
    }
}

/// The message for `key`, if the table has one.
pub fn lookup(tr: &Translations, key: &str) -> (r: Option<String>)
    ensures
        r is Some <==> lookup_entry(tr.table(), key@) is Some,
        r matches Some(v) ==> v@ == lookup_entry(tr.table(), key@)->Some_0,
{
    let mut i: usize = 0;
    assert(tr.table().skip(0) =~= tr.table());
    while i < tr.entries.len()
        invariant
            i <= tr.entries@.len(),
            lookup_entry(tr.table(), key@) == lookup_entry(tr.table().skip(i as int), key@),
        decreases tr.entries@.len() - i,
    {
        proof {
            assert(tr.table().skip(i as int).drop_first() =~= tr.table().skip(i + 1));
            assert(tr.table().skip(i as int)[0] == tr.table()[i as int]);
        }
        if str_equal(tr.entries[i].0.as_str(), key) {
            return Some(tr.entries[i].1.clone());
        }
        i += 1;
    }
    None
}

/// The message for `key`, which the table must hold.
pub fn t(tr: &Translations, key: &str) -> (r: String)
    requires
        lookup_entry(tr.table(), key@) is Some,
    ensures
        r@ == lookup_entry(tr.table(), key@)->Some_0,
{
    match lookup(tr, key) {
        Some(v) => v,
        None => String::new(),
    }
}

/// The message for `key`, or the key itself when the table has none.
pub fn translate(tr: &Translations, key: &str) -> (r: String)
    ensures
        r@ == translated(tr.table(), key@),
{
    match lookup(tr, key) {
        Some(v) => v,
        None => String::from_str(key),
    }
}

/// The message for `key`, which the table must hold, with the `{}`
/// placeholders of the message filled in order by `args` (see
/// `fill_positional`: the text of an argument is never scanned again).
pub fn t_fmt(tr: &Translations, key: &str, args: &[String]) -> (r: String)
    requires
        lookup_entry(tr.table(), key@) is Some,
    ensures
        r@ == fill_positional(lookup_entry(tr.table(), key@)->Some_0, args@.map_values(|a: String| a@)),
{
    let base = t(tr, key);
    let cs = chars_of(base.as_str());
    let ghost views = args@.map_values(|a: String| a@);
    let ghost whole = fill_positional(cs@, views);
    let mut out = String::new();
    let mut i: usize = 0;
    let mut k: usize = 0;
    assert(cs@.skip(0) =~= cs@);
    assert(views.skip(0) =~= views);
    while i < cs.len()
        invariant
            i <= cs@.len(),
            k <= args@.len(),
            views == args@.map_values(|a: String| a@),
            whole == fill_positional(cs@, views),
            out@ + fill_positional(cs@.skip(i as int), views.skip(k as int)) == whole,
        decreases cs@.len() - i,
    {
        let ghost rest = cs@.skip(i as int);
        let ghost avs = views.skip(k as int);
        if k < args.len() && i + 1 < cs.len() && cs[i] == '{' && cs[i + 1] == '}' {
            proof {
                assert(rest[0] == '{' && rest[1] == '}');
                assert(rest.skip(2) =~= cs@.skip(i + 2));
                assert(avs.drop_first() =~= views.skip(k + 1));
                assert(avs[0] == args@[k as int]@);
            }
            let ghost before = out@;
            out.append(args[k].as_str());
            proof {
                assert(out@ + fill_positional(cs@.skip(i + 2), views.skip(k + 1)) =~= before + fill_positional(
                    rest,
                    avs,
                ));
            }
            i += 2;
            k += 1;
        } else {
            let ghost before = out@;
            push_char(&mut out, cs[i]);
            proof {
                assert(rest.drop_first() =~= cs@.skip(i + 1));
                assert(rest[0] == cs@[i as int]);
                if avs.len() == 0 {
                    assert(fill_positional(rest, avs) == rest);
                    assert(fill_positional(rest.drop_first(), avs) == rest.drop_first());
                    assert(rest =~= seq![rest[0]] + rest.drop_first());
                }
                assert(out@ + fill_positional(cs@.skip(i + 1), avs) =~= before + fill_positional(rest, avs));
            }
            i += 1;
        }
    }
    assert(cs@.skip(i as int).len() == 0);
    assert(out@ + fill_positional(cs@.skip(i as int), views.skip(k as int)) =~= out@);
    out
}

/// The message for `key` (or the key itself when the table has none) with the
/// placeholder `%{name}` of each named argument replaced by its value.
pub fn translate_with(tr: &Translations, key: &str, args: &[(String, String)]) -> (r: String)
    ensures
        r@ == interpolate(translated(tr.table(), key@), pairs_view(args@)),
{
    let base = translate(tr, key);
    let mut cur = chars_of(base.as_str());
    let ghost views = pairs_view(args@);
    let mut i: usize = 0;
    while i < args.len()
        invariant
            i <= args@.len(),
            views == pairs_view(args@),
            cur@ == interpolate(base@, views.take(i as int)),
        decreases args@.len() - i,
    {
        let opened = concat("%{", args[i].0.as_str());
        let name_pat = concat(opened.as_str(), "}");
        let pat = chars_of(name_pat.as_str());
        let rep = chars_of(args[i].1.as_str());
        assert(views.take(i + 1).drop_last() =~= views.take(i as int));
        assert(views.take(i + 1).last() == views[i as int]);
        cur = replace_all_chars(cur.as_slice(), pat.as_slice(), rep.as_slice());
        i += 1;
    }
    assert(views.take(i as int) =~= views);
    string_from(cur.as_slice())
}

/// The part of a locale name before its first '-' (all of it when it has none).
pub open spec fn language_part(s: Seq<char>) -> Seq<char>
    decreases s.len(),
{
    if s.len() == 0 || s[0] == '-' {
        Seq::empty()
    } else {
        seq![s[0]] + language_part(s.drop_first())
    }
}

/// The locale chosen for a detected system locale: the locale itself when it
/// has a table, else its language part when that has one, else English.
pub open spec fn chosen_locale(detected: Option<Seq<char>>) -> Seq<char> {
    let l = match detected {
        Some(l) => l,
        None => "en"@,
    };
    if has_locale(l) {
        l
    } else if has_locale(language_part(l)) {
        language_part(l)
    } else {
        "en"@
    }
}

/// Chooses the locale of the user interface from the detected system locale.
pub fn select_locale(detected: Option<String>) -> (r: String)
    ensures
        r@ == chosen_locale(match detected {
            Some(d) => Some(d@),
            None => None::<Seq<char>>,
        }),
{
    let l = match detected {
        Some(d) => d,
        None => String::from_str("en"),
    };
    if locale_source(l.as_str()).is_some() {
        return l;
    }
    let cs = chars_of(l.as_str());
    let mut i: usize = 0;
    while i < cs.len() && cs[i] != '-'
        invariant
            i <= cs@.len(),
            forall|k: int| 0 <= k < i ==> cs@[k] != '-',
        decreases cs@.len() - i,
    {
        i += 1;
    }
    proof {
        lemma_language_part(cs@, i as int);
    }
    let part = string_from_range(cs.as_slice(), 0, i);
    assert(cs@.subrange(0, i as int) =~= cs@.take(i as int));
    if locale_source(part.as_str()).is_some() {
        part
    } else {
        String::from_str("en")
    }
}

proof fn lemma_language_part(s: Seq<char>, i: int)
    requires
        0 <= i <= s.len(),
        forall|k: int| 0 <= k < i ==> s[k] != '-',
        i == s.len() || s[i] == '-',
    ensures
        language_part(s) == s.take(i),
    decreases s.len(),
{
    if s.len() > 0 && s[0] != '-' {
        assert(i > 0);
        lemma_language_part(s.drop_first(), i - 1);
        assert(seq![s[0]] + s.drop_first().take(i - 1) =~= s.take(i));
    } else if s.len() > 0 {
        assert(i == 0);
        assert(s.take(0) =~= Seq::<char>::empty());
    } else {
        assert(s.take(i) =~= Seq::<char>::empty());
    }
}

/// A language without a translation table is shown in English, as is an
/// empty language name.
pub proof fn law_unknown_language_falls_back_to_english(language: Seq<char>)
    requires
        !has_locale(language),
    ensures
        initial_table(language) == initial_table("en"@),
{
}

/// The chosen user-interface locale always has a translation table.
pub proof fn law_chosen_locale_is_available(detected: Option<Seq<char>>)
    ensures
        has_locale(chosen_locale(detected)),
{
}

/// Filling no positional placeholder leaves the message as it is.
pub proof fn law_no_arguments_no_change(s: Seq<char>)
    ensures
        fill_positional(s, Seq::empty()) == s,
        interpolate(s, Seq::empty()) == s,
{
}

/// A message without a `{}` placeholder is left as it is by positional
/// arguments.
pub proof fn law_no_placeholder_no_change(s: Seq<char>, args: Seq<Seq<char>>)
    requires
        forall|i: int| 0 <= i < s.len() ==> !starts_with_placeholder(#[trigger] s.skip(i)),
    ensures
        fill_positional(s, args) == s,
    decreases s.len(),
{
    if args.len() > 0 && s.len() > 0 {
        assert(s.skip(0) =~= s);
        assert forall|i: int| 0 <= i < s.drop_first().len() implies !starts_with_placeholder(
            #[trigger] s.drop_first().skip(i),
        ) by {
            assert(s.drop_first().skip(i) =~= s.skip(i + 1));
        }
        law_no_placeholder_no_change(s.drop_first(), args);
        assert(seq![s[0]] + s.drop_first() =~= s);
    }
}

/// Each placeholder of the message takes its own argument, inserted as it
/// is: a `{}` inside an argument is not filled by the arguments after it.
pub proof fn law_arguments_are_not_rescanned(rest: Seq<char>, args: Seq<Seq<char>>)
    requires
        args.len() > 0,
    ensures
        fill_positional(seq!['{', '}'] + rest, args) == args[0] + fill_positional(rest, args.drop_first()),
{
    let s = seq!['{', '}'] + rest;
    assert(starts_with_placeholder(s));
    assert(s.skip(2) =~= rest);
}

/// A message in which the placeholder of a named argument does not occur is
/// left as it is by that argument.
pub proof fn law_absent_placeholder_no_change(s: Seq<char>, pat: Seq<char>, rep: Seq<char>)
    requires
        forall|i: int| !crate::text::occurs_at(s, pat, i),
    ensures
        replace_all(s, pat, rep) == s,
    decreases s.len(),
{
    if pat.len() > 0 && s.len() >= pat.len() {
        assert(s.take(pat.len() as int) != pat) by {
            assert(!crate::text::occurs_at(s, pat, 0));
            assert(s.subrange(0, pat.len() as int) =~= s.take(pat.len() as int));
        }
        assert forall|i: int| !crate::text::occurs_at(s.drop_first(), pat, i) by {
            if crate::text::occurs_at(s.drop_first(), pat, i) {
                assert(s.drop_first().subrange(i, i + pat.len()) =~= s.subrange(i + 1, i + 1 + pat.len()));
                assert(crate::text::occurs_at(s, pat, i + 1));
            }
        }
        law_absent_placeholder_no_change(s.drop_first(), pat, rep);
        assert(seq![s[0]] + s.drop_first() =~= s);
    }
}

} // verus!
