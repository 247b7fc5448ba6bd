//! The plain normaliser: symbol scrubbing, repeat squashing and white-space
//! collapsing, without jamo decomposition.

use vstd::prelude::*;
use crate::hangul::{collapse_spaces, collapsed, derepeat_walk, scrub, scrubbed};

pub use crate::hangul::derepeat;

verus! {

/// Trims the text and collapses every run of white space to its first
/// character.
pub fn whitespace_less(text: String) -> (r: String)
    ensures
        r@ == collapsed(text@, false),
{
    collapse_spaces(text.as_str(), false)
}

/// Replaces every character outside the kept set (letters, digits, Hangul,
/// white space, `~!?.,();*/=+-[]`) by `replacer`, inserted as written.
pub fn control_chars(text: String, replacer: &str) -> (r: String)
    ensures
        r@ == scrubbed(text@, replacer@, false),
{
    scrub(text.as_str(), replacer, false)
}

/// Which normalisations to apply.
#[derive(Debug, PartialEq, Eq, Clone)]
pub struct Opts {
    pub input_file_path: Option<String>,
    pub output_file_path: Option<String>,
    pub hangul_to_jamo: bool,
    pub control_chars: Option<String>,
    pub repeat: Option<usize>,
    pub whitespace_less: bool,
    pub verbose: i32,
}

/// Scrub, squash repeats, collapse white space; each only when asked for.
pub open spec fn normalized(s: Seq<char>, opts: Opts) -> Seq<char> {
    let a = match opts.control_chars {
        Some(c) => scrubbed(s, c@, false),
        None => s,
    };
    let b = match opts.repeat {
        Some(n) => derepeat_walk(a, n as nat).0,
        None => a,
    };
    if opts.whitespace_less {
        collapsed(b, false)
    } else {
        b
    }
}

/// Applies the normalisations `opts` asks for.
pub fn normalize(text: String, opts: &Opts) -> (r: String)
    ensures
        r@ == normalized(text@, *opts),
{
    let text = match &opts.control_chars {
        Some(c) => control_chars(text, c.as_str()),
        None => text,
    };
    let text = match opts.repeat {
        Some(n) => derepeat(text, n),
        None => text,
    };
    if opts.whitespace_less {
        whitespace_less(text)
    } else {
        text
    }
}

} // verus!
