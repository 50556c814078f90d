//! Matrix runner: a configuration-driven test runner that executes a project's
//! tests across a matrix of feature flags and environments.
//!
//! - `config`: the test matrix and its cases
//! - `planner`: which cases run on this machine and runner, and in which order
//! - `execution`: attempts, retries, custom commands and build arguments
//! - `command`: reading Cargo's JSON output
//! - `models`: results and Cargo messages
//! - `reporting`, `html`: reports of a run
//! - `run`: the decisions of the `run` command
//! - `init`: creating a configuration
//! - `i18n`, `locales`: translated messages
//! - `fs`: build directory names
//! - `text`: character-level utilities
use vstd::prelude::*;

pub mod text;
pub mod config;
pub mod models;
pub mod planner;
pub mod locales;
pub mod i18n;
pub mod command;
pub mod execution;
pub mod reporting;
pub mod html;
pub mod run;
pub mod init;
pub mod fs;

verus! {

/// The system's preferred locale, from `sys_locale::get_locale`. It depends
/// on the environment, so nothing is claimed of it.
#[verifier::external_body]
fn system_locale() -> Option<String> {
    sys_locale::get_locale()
}

/// Chooses the language of the user interface from the system locale: the
/// locale itself when it has a translation table, else its language part
/// (before the first '-') when that has one, else English.
pub fn init() -> (r: String)
    ensures
        exists|d: Option<Seq<char>>| r@ == i18n::chosen_locale(d),
        locales::has_locale(r@),
{
    let detected = system_locale();
    let ghost d = match &detected {
        Some(d) => Some(d@),
        None => None::<Seq<char>>,
    };
    let r = i18n::select_locale(detected);
    proof {
        i18n::law_chosen_locale_is_available(d);
    }
    r
}

} // verus!
