//! Display width of terminal text, and fitting text into a column.

use vstd::prelude::*;
use unicode_width::{UnicodeWidthChar, UnicodeWidthStr};
use crate::text::{chars_of, push_char};

verus! {

/// The display width of a character in columns (`None` for a control
/// character), by Unicode Standard Annex #11 with ambiguous characters narrow.
pub uninterp spec fn char_width_of(c: char) -> Option<usize>;

/// The display width of a text in columns, by the same rules, with the
/// ligatures and sequences the rules count differently from their parts.
pub uninterp spec fn str_width_of(s: Seq<char>) -> usize;

/// A printable ASCII character.
pub open spec fn printable_ascii(c: char) -> bool {
    ' ' <= c && c <= '~'
}

/// `UnicodeWidthChar::width`: the character's width in columns. The crate
/// returns `None` for the control characters below U+0020 and from U+007F to
/// U+009F, one column for printable ASCII, and never more than three columns.
#[verifier::external_body]
fn char_width(c: char) -> (r: Option<usize>)
    ensures
        r == char_width_of(c),
        printable_ascii(c) ==> r == Some(1usize),
        (c < ' ' || ('\u{7F}' <= c && c < '\u{A0}')) ==> r is None,
        r matches Some(w) ==> w <= 3,
{
    UnicodeWidthChar::width(c)
}

/// `UnicodeWidthStr::width`: the text's width in columns. On printable
/// ASCII text, which no ligature rule applies to, it is the length.
#[verifier::external_body]
fn str_width(s: &str) -> (r: usize)
    ensures
        r == str_width_of(s@),
        (forall|i: int| 0 <= i < s@.len() ==> printable_ascii(#[trigger] s@[i])) ==> r == s@.len(),
{
    UnicodeWidthStr::width(s)
}

/// The display width of a text.
pub fn text_width(value: &str) -> (r: usize)
    ensures
        r == str_width_of(value@),
        (forall|i: int| 0 <= i < value@.len() ==> printable_ascii(#[trigger] value@[i])) ==> r
            == value@.len(),
{
    str_width(value)
}

/// The columns a character takes when text is cut to fit (a control
/// character taking none).
pub open spec fn columns(c: char) -> nat {
    match char_width_of(c) {
        Some(w) => w as nat,
        None => 0,
    }
}

/// The longest prefix of `s` whose characters take at most `budget` columns.
pub open spec fn fitting_prefix(s: Seq<char>, budget: int) -> Seq<char>
    decreases s.len(),
{
    if s.len() == 0 || columns(s[0]) > budget {
        Seq::empty()
    } else {
        seq![s[0]] + fitting_prefix(s.drop_first(), budget - columns(s[0]))
    }
}

/// `n` copies of a character.
pub open spec fn repeat(c: char, n: nat) -> Seq<char> {
    Seq::new(n, |i: int| c)
}

/// Text fitted to `width` columns: padded with spaces when it fits; else cut
/// to what fits before `...`; only dots when the column is too narrow for
/// that.
pub open spec fn fit_spec(value: Seq<char>, width: nat) -> Seq<char> {
    let len = str_width_of(value);
    if len <= width {
        value + repeat(' ', (width - len) as nat)
    } else if width <= 3 {
        repeat('.', width)
    } else {
        fitting_prefix(value, width - 3) + "..."@
    }
}

pub fn push_repeat(out: &mut String, c: char, n: usize)
    ensures
        final(out)@ == old(out)@ + repeat(c, n as nat),
{
    let mut i: usize = 0;
    while i < n
        invariant
            i <= n,
            out@ == old(out)@ + repeat(c, i as nat),
        decreases n - i,
    {
        push_char(out, c);
        i += 1;
        assert(out@ =~= old(out)@ + repeat(c, i as nat));
    }
}

/// Fits text to a column of `width` display columns.
pub fn fit(value: &str, width: usize) -> (r: String)
    ensures
        r@ == fit_spec(value@, width as nat),
{
    let len = text_width(value);
    if len <= width {
        let mut out = String::from_str(value);
        push_repeat(&mut out, ' ', width - len);
        return out;
    }
    if width <= 3 {
        let mut out = String::new();
        push_repeat(&mut out, '.', width);
        assert(out@ =~= repeat('.', width as nat));
        return out;
    }
    let v = chars_of(value);
    let budget: usize = width - 3;
    let mut out = String::new();
    let mut used: usize = 0;
    let mut i: usize = 0;
    assert(v@.skip(0) =~= v@);
    while i < v.len()
        invariant
            i <= v@.len(),
            v@ == value@,
            used <= budget,
            budget <= usize::MAX - 3,
            out@ + fitting_prefix(v@.skip(i as int), budget - used) == fitting_prefix(v@, budget as int),
        ensures
            out@ == fitting_prefix(v@, budget as int),
        decreases v@.len() - i,
    {
        let c = v[i];
        let w: usize = match char_width(c) {
            Some(w) => w,
            None => 0,
        };
        let ghost t = v@.skip(i as int);
        assert(t[0] == c);
        if used + w > budget {
            assert(fitting_prefix(t, budget - used) =~= Seq::<char>::empty());
            assert(out@ + Seq::<char>::empty() =~= out@);
            break;
        }
        proof {
            assert(t.drop_first() =~= v@.skip(i + 1));
            assert(out@.push(c) + fitting_prefix(v@.skip(i + 1), budget - (used + w)) =~= out@ + (
            seq![c] + fitting_prefix(t.drop_first(), budget - used - w)));
        }
        push_char(&mut out, c);
        used += w;
        i += 1;
    }
    proof {
        if i == v.len() {
            assert(v@.skip(i as int) =~= Seq::<char>::empty());
            assert(out@ + Seq::<char>::empty() =~= out@);
        }
    }
    out.append("...");
    out
}

/// An ASCII lowercase letter in uppercase; other characters unchanged.
pub open spec fn ascii_upper(c: char) -> char {
    if 'a' <= c && c <= 'z' {
        ((c as u32) - 32) as char
    } else {
        c
    }
}

fn to_ascii_upper(c: char) -> (r: char)
    ensures
        r == ascii_upper(c),
{
    if 'a' <= c && c <= 'z' {
        let code: u32 = (c as u32) - 32;
        crate::text::char_from_ascii(code)
    } else {
        c
    }
}

/// The text with its first character in ASCII uppercase.
pub open spec fn capitalize_spec(s: Seq<char>) -> Seq<char> {
    if s.len() == 0 {
        s
    } else {
        seq![ascii_upper(s[0])] + s.drop_first()
    }
}

/// Capitalises the first character of a text (ASCII letters only).
pub fn capitalize(value: &str) -> (r: String)
    ensures
        r@ == capitalize_spec(value@),
{
    let v = chars_of(value);
    let mut out = String::new();
    if v.len() == 0 {
        return out;
    }
    push_char(&mut out, to_ascii_upper(v[0]));
    let mut i: usize = 1;
    while i < v.len()
        invariant
            1 <= i <= v@.len(),
            v@ == value@,
            out@ == seq![ascii_upper(v@[0])] + v@.subrange(1, i as int),
        decreases v@.len() - i,
    {
        push_char(&mut out, v[i]);
        i += 1;
        assert(out@ =~= seq![ascii_upper(v@[0])] + v@.subrange(1, i as int));
    }
    assert(v@.subrange(1, v@.len() as int) =~= v@.drop_first());
    out
}

} // verus!
