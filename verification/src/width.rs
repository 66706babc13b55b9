//! Width and kana normalisation of Japanese text.
//!
//! The conversions themselves are the work of `kanaria` and `unicode-jp`; the
//! functions here call them and fix what the rest of the crate may assume of
//! their results.
use vstd::prelude::*;

verus! {

/// The half-width form of a text as `kanaria` computes it.
pub uninterp spec fn narrowed(text: Seq<char>) -> Seq<char>;

/// The full-width form of a text as `kanaria` computes it.
pub uninterp spec fn widened(text: Seq<char>) -> Seq<char>;

/// A text with its half-width kana replaced by full-width kana, voiced marks
/// combined, as `unicode-jp` computes it.
pub uninterp spec fn half_to_kana(text: Seq<char>) -> Seq<char>;

/// The ideographic space, U+3000.
pub open spec fn wide_space() -> char {
    '\u{3000}'
}

/// A full-width ASCII variant (U+FF01 to U+FF5E) moved down to ASCII; any
/// other character unchanged.
pub open spec fn ascii_of(c: char) -> char {
    let n = c as u32;
    if 0xff00 < n < 0xff5f {
        ((n - 0xfee0) as u32) as char
    } else {
        c
    }
}

/// An ideographic space replaced by an ASCII space; any other character
/// unchanged.
pub open spec fn plain_space_of(c: char) -> char {
    if c == wide_space() {
        ' '
    } else {
        c
    }
}

/// `s` without the occurrences of `c`.
pub open spec fn without_char(s: Seq<char>, c: char) -> Seq<char>
    decreases s.len(),
{
    if s.len() == 0 {
        s
    } else if s.last() == c {
        without_char(s.drop_last(), c)
    } else {
        without_char(s.drop_last(), c).push(s.last())
    }
}

/// The normal form of a free-text column of the reference table.
pub open spec fn normalized(text: Seq<char>) -> Seq<char> {
    half_to_kana(text.map_values(|c: char| ascii_of(c)).map_values(|c: char| plain_space_of(c)))
}

/// The stored form of a Japanese name: full width, ideographic spaces removed.
pub open spec fn jp_name_form(name: Seq<char>) -> Seq<char> {
    without_char(widened(name), wide_space())
}

/// The stored form of an English name: half width.
pub open spec fn eng_name_form(name: Seq<char>) -> Seq<char> {
    narrowed(name)
}

/// `kanaria::UCSStr::narrow`, applied to a whole string: the result is a
/// function of the text alone.
#[verifier::external_body]
pub(crate) fn narrow(text: &str) -> (r: String)
    ensures
        r@ == narrowed(text@),
{
    kanaria::UCSStr::from_str(text).narrow().to_string()
}

/// `kanaria::UCSStr::wide`, applied to a whole string: the result is a
/// function of the text alone.
#[verifier::external_body]
pub(crate) fn widen(text: &str) -> (r: String)
    ensures
        r@ == widened(text@),
{
    kanaria::UCSStr::from_str(text).wide().to_string()
}

/// `kana::wide2ascii` of `unicode-jp`: every full-width ASCII variant is
/// moved down by 0xFEE0, everything else is kept.
#[verifier::external_body]
pub(crate) fn wide_to_ascii(text: &str) -> (r: String)
    ensures
        r@ == text@.map_values(|c: char| ascii_of(c)),
{
    kana::wide2ascii(text)
}

/// `kana::nowidespace` of `unicode-jp`: every ideographic space becomes an
/// ASCII space, everything else is kept.
#[verifier::external_body]
pub(crate) fn no_wide_space(text: &str) -> (r: String)
    ensures
        r@ == text@.map_values(|c: char| plain_space_of(c)),
{
    kana::nowidespace(text)
}

/// `kana::half2kana` of `unicode-jp`: the result is a function of the text
/// alone.
#[verifier::external_body]
pub(crate) fn half_kana_to_kana(text: &str) -> (r: String)
    ensures
        r@ == half_to_kana(text@),
{
    kana::half2kana(text)
}

/// Brings a free-text column to its normal form: full-width ASCII variants to
/// ASCII, ideographic spaces to plain spaces, half-width kana to full-width.
pub fn normalize(text: &str) -> (r: String)
    ensures
        r@ == normalized(text@),
{
    let result = wide_to_ascii(text);
    let result = no_wide_space(result.as_str());
    half_kana_to_kana(result.as_str())
}

/// Removes every occurrence of `c` from `text`.
pub fn remove_char(text: &str, c: char) -> (r: String)
    ensures
        r@ == without_char(text@, c),
{
    let mut out = String::new();
    for x in it: text.chars()
        invariant
            it.seq() == text@,
            out@ == without_char(text@.take(it.index() as int), c),
    {
        proof {
            let next = text@.take(it.index() + 1);
            assert(next.drop_last() =~= text@.take(it.index() as int));
            assert(next.last() == x);
        }
        if x != c {
            out.push(x);
        }
    }
    proof {
        assert(text@.take(text@.len() as int) =~= text@);
    }
    out
}

/// The stored form of a Japanese name.
pub fn jp_name_of(name: &str) -> (r: String)
    ensures
        r@ == jp_name_form(name@),
{
    let wide = widen(name);
    remove_char(wide.as_str(), '\u{3000}')
}

/// The stored form of an English name.
pub fn eng_name_of(name: &str) -> (r: String)
    ensures
        r@ == eng_name_form(name@),
{
    narrow(name)
}

} // verus!
