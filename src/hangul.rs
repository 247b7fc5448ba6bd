//! Text normalisation for Korean posts: jamo decomposition, repeat
//! squashing, white-space collapsing and symbol scrubbing.

use vstd::prelude::*;
use crate::text::{chars_of, string_of, is_space, trimmed};

verus! {

/// The compatibility jamo of the `i`-th initial consonant.
pub open spec fn initial_of(i: u32) -> char {
    match i {
        0 => 'ㄱ',
        1 => 'ㄲ',
        2 => 'ㄴ',
        3 => 'ㄷ',
        4 => 'ㄸ',
        5 => 'ㄹ',
        6 => 'ㅁ',
        7 => 'ㅂ',
        8 => 'ㅃ',
        9 => 'ㅅ',
        10 => 'ㅆ',
        11 => 'ㅇ',
        12 => 'ㅈ',
        13 => 'ㅉ',
        14 => 'ㅊ',
        15 => 'ㅋ',
        16 => 'ㅌ',
        17 => 'ㅍ',
        18 => 'ㅎ',
        _ => '\0',
    }
}

fn initial(i: u32) -> (r: char)
    ensures
        r == initial_of(i),
{
    match i {
        0 => 'ㄱ',
        1 => 'ㄲ',
        2 => 'ㄴ',
        3 => 'ㄷ',
        4 => 'ㄸ',
        5 => 'ㄹ',
        6 => 'ㅁ',
        7 => 'ㅂ',
        8 => 'ㅃ',
        9 => 'ㅅ',
        10 => 'ㅆ',
        11 => 'ㅇ',
        12 => 'ㅈ',
        13 => 'ㅉ',
        14 => 'ㅊ',
        15 => 'ㅋ',
        16 => 'ㅌ',
        17 => 'ㅍ',
        18 => 'ㅎ',
        _ => '\0',
    }
}

/// The compatibility jamo of the `i`-th vowel.
pub open spec fn medial_of(i: u32) -> char {
    match i {
        0 => 'ㅏ',
        1 => 'ㅐ',
        2 => 'ㅑ',
        3 => 'ㅒ',
        4 => 'ㅓ',
        5 => 'ㅔ',
        6 => 'ㅕ',
        7 => 'ㅖ',
        8 => 'ㅗ',
        9 => 'ㅘ',
        10 => 'ㅙ',
        11 => 'ㅚ',
        12 => 'ㅛ',
        13 => 'ㅜ',
        14 => 'ㅝ',
        15 => 'ㅞ',
        16 => 'ㅟ',
        17 => 'ㅠ',
        18 => 'ㅡ',
        19 => 'ㅢ',
        20 => 'ㅣ',
        _ => '\0',
    }
}

fn medial(i: u32) -> (r: char)
    ensures
        r == medial_of(i),
{
    match i {
        0 => 'ㅏ',
        1 => 'ㅐ',
        2 => 'ㅑ',
        3 => 'ㅒ',
        4 => 'ㅓ',
        5 => 'ㅔ',
        6 => 'ㅕ',
        7 => 'ㅖ',
        8 => 'ㅗ',
        9 => 'ㅘ',
        10 => 'ㅙ',
        11 => 'ㅚ',
        12 => 'ㅛ',
        13 => 'ㅜ',
        14 => 'ㅝ',
        15 => 'ㅞ',
        16 => 'ㅟ',
        17 => 'ㅠ',
        18 => 'ㅡ',
        19 => 'ㅢ',
        20 => 'ㅣ',
        _ => '\0',
    }
}

/// The compatibility jamo of the `i`-th final consonant; `\0` for none.
pub open spec fn final_consonant_of(i: u32) -> char {
    match i {
        1 => 'ㄱ',
        2 => 'ㄲ',
        3 => 'ㄳ',
        4 => 'ㄴ',
        5 => 'ㄵ',
        6 => 'ㄶ',
        7 => 'ㄷ',
        8 => 'ㄹ',
        9 => 'ㄺ',
        10 => 'ㄻ',
        11 => 'ㄼ',
        12 => 'ㄽ',
        13 => 'ㄾ',
        14 => 'ㄿ',
        15 => 'ㅀ',
        16 => 'ㅁ',
        17 => 'ㅂ',
        18 => 'ㅄ',
        19 => 'ㅅ',
        20 => 'ㅆ',
        21 => 'ㅇ',
        22 => 'ㅈ',
        23 => 'ㅊ',
        24 => 'ㅋ',
        25 => 'ㅌ',
        26 => 'ㅍ',
        27 => 'ㅎ',
        _ => '\0',
    }
}

fn final_consonant(i: u32) -> (r: char)
    ensures
        r == final_consonant_of(i),
{
    match i {
        1 => 'ㄱ',
        2 => 'ㄲ',
        3 => 'ㄳ',
        4 => 'ㄴ',
        5 => 'ㄵ',
        6 => 'ㄶ',
        7 => 'ㄷ',
        8 => 'ㄹ',
        9 => 'ㄺ',
        10 => 'ㄻ',
        11 => 'ㄼ',
        12 => 'ㄽ',
        13 => 'ㄾ',
        14 => 'ㄿ',
        15 => 'ㅀ',
        16 => 'ㅁ',
        17 => 'ㅂ',
        18 => 'ㅄ',
        19 => 'ㅅ',
        20 => 'ㅆ',
        21 => 'ㅇ',
        22 => 'ㅈ',
        23 => 'ㅊ',
        24 => 'ㅋ',
        25 => 'ㅌ',
        26 => 'ㅍ',
        27 => 'ㅎ',
        _ => '\0',
    }
}

/// Whether `c` is a precomposed Hangul syllable (`가`..=`힣`).
pub open spec fn is_syllable(c: char) -> bool {
    0xac00 <= c as u32 <= 0xd7a3
}

/// The jamo a character becomes: a syllable splits into its initial,
/// vowel and final consonant (if any); `\0` disappears; anything else stays.
pub open spec fn jamo_of(c: char) -> Seq<char> {
    if is_syllable(c) {
        let x = (c as u32 - 0xac00) as u32;
        let base = seq![initial_of(x / 588), medial_of((x % 588) / 28)];
        if x % 28 == 0 {
            base
        } else {
            base.push(final_consonant_of(x % 28))
        }
    } else if c == '\0' {
        Seq::empty()
    } else {
        seq![c]
    }
}

pub open spec fn to_jamo(s: Seq<char>) -> Seq<char>
    decreases s.len(),
{
    if s.len() == 0 {
        s
    } else {
        to_jamo(s.drop_last()) + jamo_of(s.last())
    }
}

/// Spells every Hangul syllable of `text` as its compatibility jamo.
pub fn hangul_to_jamo(text: String) -> (r: String)
    ensures
        r@ == to_jamo(text@),
{
    let cs = chars_of(text.as_str());
    let mut out: Vec<char> = Vec::new();
    let mut i: usize = 0;
    while i < cs.len()
        invariant
            cs@ == text@,
            i <= cs@.len(),
            out@ == to_jamo(cs@.subrange(0, i as int)),
        decreases cs@.len() - i,
    {
        let c = cs[i];
        assert(cs@.subrange(0, i + 1).drop_last() =~= cs@.subrange(0, i as int));
        assert(cs@.subrange(0, i + 1).last() == c);
        let ghost before = out@;
        let u = c as u32;
        if 0xac00 <= u && u <= 0xd7a3 {
            let x: u32 = u - 0xac00;
            out.push(initial(x / 588));
            out.push(medial((x % 588) / 28));
            if x % 28 != 0 {
                out.push(final_consonant(x % 28));
            }
        } else if c != '\0' {
            out.push(c);
        }
        assert(out@ =~= before + jamo_of(c));
        i = i + 1;
    }
    assert(cs@.subrange(0, cs@.len() as int) =~= cs@);
    string_of(&out)
}

/// The walk that squashes repeats: what was kept, the previous character,
/// and how many times in a row it has repeated.
pub open spec fn derepeat_walk(s: Seq<char>, n: nat) -> (Seq<char>, Option<char>, nat)
    decreases s.len(),
{
    if s.len() == 0 {
        (Seq::empty(), None, 0)
    } else {
        let w = derepeat_walk(s.drop_last(), n);
        let c = s.last();
        let rep: nat = if w.1 == Some(c) {
            w.2 + 1
        } else {
            0
        };
        (
            if rep < n {
                w.0.push(c)
            } else {
                w.0
            },
            Some(c),
            rep,
        )
    }
}

/// Keeps at most `n` characters of every run of one repeated character.
pub fn derepeat(text: String, n: usize) -> (r: String)
    ensures
        r@ == derepeat_walk(text@, n as nat).0,
{
    let cs = chars_of(text.as_str());
    let mut out: Vec<char> = Vec::new();
    let mut last: Option<char> = None;
    let mut repeat: usize = 0;
    let mut i: usize = 0;
    while i < cs.len()
        invariant
            cs@ == text@,
            i <= cs@.len(),
            repeat <= i,
            (out@, last, repeat as nat) == derepeat_walk(cs@.subrange(0, i as int), n as nat),
        decreases cs@.len() - i,
    {
        let c = cs[i];
        assert(cs@.subrange(0, i + 1).drop_last() =~= cs@.subrange(0, i as int));
        assert(cs@.subrange(0, i + 1).last() == c);
        if last == Some(c) {
            repeat = repeat + 1;
        } else {
            repeat = 0;
            last = Some(c);
        }
        if repeat < n {
            out.push(c);
        }
        i = i + 1;
    }
    assert(cs@.subrange(0, cs@.len() as int) =~= cs@);
    string_of(&out)
}

/// The walk that collapses white space: what was kept, and the last
/// character that was not a collapsed space. With `keep_tabs`, a tab after
/// a space is kept but does not count as the last character.
pub open spec fn collapse_walk(s: Seq<char>, keep_tabs: bool) -> (Seq<char>, Option<char>)
    decreases s.len(),
{
    if s.len() == 0 {
        (Seq::empty(), None)
    } else {
        let w = collapse_walk(s.drop_last(), keep_tabs);
        let c = s.last();
        if w.1 is Some && is_space(w.1->0) && is_space(c) {
            if keep_tabs && c == '\t' {
                (w.0.push(c), w.1)
            } else {
                w
            }
        } else {
            (w.0.push(c), Some(c))
        }
    }
}

/// The text trimmed, with every run of white space cut to its first
/// character (and, with `keep_tabs`, the tabs in it).
pub open spec fn collapsed(s: Seq<char>, keep_tabs: bool) -> Seq<char> {
    collapse_walk(trimmed(s), keep_tabs).0
}

pub fn collapse_spaces(text: &str, keep_tabs: bool) -> (r: String)
    ensures
        r@ == collapsed(text@, keep_tabs),
{
    let raw = chars_of(text);
    let cs = crate::text::trim_chars(&raw);
    let mut out: Vec<char> = Vec::new();
    let mut last: Option<char> = None;
    let mut i: usize = 0;
    while i < cs.len()
        invariant
            cs@ == trimmed(text@),
            i <= cs@.len(),
            (out@, last) == collapse_walk(cs@.subrange(0, i as int), keep_tabs),
        decreases cs@.len() - i,
    {
        let c = cs[i];
        assert(cs@.subrange(0, i + 1).drop_last() =~= cs@.subrange(0, i as int));
        assert(cs@.subrange(0, i + 1).last() == c);
        let prev_space = match last {
            Some(p) => crate::text::is_whitespace(p),
            None => false,
        };
        if prev_space && crate::text::is_whitespace(c) {
            if keep_tabs && c == '\t' {
                out.push(c);
            }
        } else {
            out.push(c);
            last = Some(c);
        }
        i = i + 1;
    }
    assert(cs@.subrange(0, cs@.len() as int) =~= cs@);
    string_of(&out)
}

/// Trims the text and collapses runs of white space to one character,
/// keeping tabs.
pub fn whitespace_less(text: String) -> (r: String)
    ensures
        r@ == collapsed(text@, true),
{
    collapse_spaces(text.as_str(), true)
}

/// The characters the scrubber keeps: Latin letters, digits, Hangul jamo
/// and syllables, white space and a few punctuation marks (`:`, `<` and `>`
/// only when `wide`).
pub open spec fn kept_char(c: char, wide: bool) -> bool {
    let u = c as u32;
    ('A' <= c <= 'Z') || ('a' <= c <= 'z') || ('0' <= c <= '9') || (0x3131 <= u <= 0x314e) || (0x314f
        <= u <= 0x3163) || (0xac00 <= u <= 0xd7a3) || c == '~' || c == '!' || c == '?' || c == '.'
        || c == ',' || c == '(' || c == ')' || c == ';' || c == '*' || c == '/' || c == '=' || c
        == '+' || c == '-' || c == '[' || c == ']' || is_space(c) || (wide && (c == ':' || c == '<'
        || c == '>'))
}

fn kept(c: char, wide: bool) -> (r: bool)
    ensures
        r == kept_char(c, wide),
{
    let u = c as u32;
    ('A' <= c && c <= 'Z') || ('a' <= c && c <= 'z') || ('0' <= c && c <= '9') || (0x3131 <= u && u
        <= 0x314e) || (0x314f <= u && u <= 0x3163) || (0xac00 <= u && u <= 0xd7a3) || c == '~' || c
        == '!' || c == '?' || c == '.' || c == ',' || c == '(' || c == ')' || c == ';' || c == '*'
        || c == '/' || c == '=' || c == '+' || c == '-' || c == '[' || c == ']'
        || crate::text::is_whitespace(c) || (wide && (c == ':' || c == '<' || c == '>'))
}

/// The text with every character the scrubber does not keep replaced by
/// `replacer`.
pub open spec fn scrubbed(s: Seq<char>, replacer: Seq<char>, wide: bool) -> Seq<char>
    decreases s.len(),
{
    if s.len() == 0 {
        s
    } else {
        scrubbed(s.drop_last(), replacer, wide) + if kept_char(s.last(), wide) {
            seq![s.last()]
        } else {
            replacer
        }
    }
}

pub fn scrub(text: &str, replacer: &str, wide: bool) -> (r: String)
    ensures
        r@ == scrubbed(text@, replacer@, wide),
{
    let cs = chars_of(text);
    let rep = chars_of(replacer);
    let mut out: Vec<char> = Vec::new();
    let mut i: usize = 0;
    while i < cs.len()
        invariant
            cs@ == text@,
            rep@ == replacer@,
            i <= cs@.len(),
            out@ == scrubbed(cs@.subrange(0, i as int), replacer@, wide),
        decreases cs@.len() - i,
    {
        let c = cs[i];
        assert(cs@.subrange(0, i + 1).drop_last() =~= cs@.subrange(0, i as int));
        assert(cs@.subrange(0, i + 1).last() == c);
        let ghost before = out@;
        if kept(c, wide) {
            out.push(c);
        } else {
            let mut k: usize = 0;
            while k < rep.len()
                invariant
                    k <= rep@.len(),
                    out@ == before + rep@.subrange(0, k as int),
                decreases rep@.len() - k,
            {
                out.push(rep[k]);
                assert(out@ =~= before + rep@.subrange(0, k + 1));
                k = k + 1;
            }
            assert(rep@.subrange(0, rep@.len() as int) =~= rep@);
        }
        assert(out@ =~= scrubbed(cs@.subrange(0, i + 1), replacer@, wide));
        i = i + 1;
    }
    assert(cs@.subrange(0, cs@.len() as int) =~= cs@);
    string_of(&out)
}

/// Replaces every character outside the kept set (letters, digits, Hangul,
/// white space, `~!?.,():;*/=+-[]<>`) by `replacer`, inserted as written.
pub fn control_chars(text: String, replacer: &str) -> (r: String)
    ensures
        r@ == scrubbed(text@, replacer@, true),
{
    scrub(text.as_str(), replacer, true)
}

/// Which normalisations to apply.
#[derive(Debug, PartialEq, Eq, Clone)]
pub struct Opts {
    pub input_file_path: Option<String>,
    pub output_file_path: Option<String>,
    pub hangul_to_jamo: bool,
    pub control_chars: Option<String>,
    pub repeat: Option<usize>,
    pub whitespace_less: bool,
    pub verbose: i32,
}

/// The normalisations in their fixed order: scrub, squash repeats,
/// collapse white space, decompose into jamo; each only when asked for.
pub open spec fn normalized(s: Seq<char>, opts: Opts) -> Seq<char> {
    let a = match opts.control_chars {
        Some(c) => scrubbed(s, c@, true),
        None => s,
    };
    let b = match opts.repeat {
        Some(n) => derepeat_walk(a, n as nat).0,
        None => a,
    };
    let c = if opts.whitespace_less {
        collapsed(b, true)
    } else {
        b
    };
    if opts.hangul_to_jamo {
        to_jamo(c)
    } else {
        c
    }
}

/// Applies the normalisations `opts` asks for.
pub fn normalize(text: String, opts: &Opts) -> (r: String)
    ensures
        r@ == normalized(text@, *opts),
{
    let text = match &opts.control_chars {
        Some(c) => control_chars(text, c.as_str()),
        None => text,
    };
    let text = match opts.repeat {
        Some(n) => derepeat(text, n),
        None => text,
    };
    let text = if opts.whitespace_less {
        whitespace_less(text)
    } else {
        text
    };
    if opts.hangul_to_jamo {
        hangul_to_jamo(text)
    } else {
        text
    }
}

/// The encoding used for model input: symbols become `_`, runs are cut to
/// five, white space is collapsed, and syllables are spelled as jamo.
pub open spec fn encoded(s: Seq<char>) -> Seq<char> {
    to_jamo(collapsed(derepeat_walk(scrubbed(s, "_"@, true), 5).0, true))
}

/// Encodes a text for model input.
pub fn encode(text: String) -> (r: String)
    ensures
        r@ == encoded(text@),
{
    let text = control_chars(text, "_");
    let text = derepeat(text, 5);
    let text = whitespace_less(text);
    hangul_to_jamo(text)
}

} // verus!
