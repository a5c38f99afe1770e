//! The width-fold codec: full-width Latin letters, digits and the brackets
//! `（ ）［ ］｛ ｝` become their half-width forms, on the way in and on the
//! way out. Every other character passes through unchanged.
use vstd::prelude::*;

use crate::text::push_char;

verus! {

/// Distance between a full-width form and its half-width counterpart.
pub const WIDTH_OFFSET: u32 = 0xFEE0;

/// Whether `c` is a full-width character that the fold rewrites: a digit
/// `０`..`９`, a letter `Ａ`..`Ｚ` or `ａ`..`ｚ`, or one of `（ ）［ ］｛ ｝`.
pub open spec fn is_foldable(c: char) -> bool {
    let u = c as u32;
    ||| 0xFF10 <= u <= 0xFF19
    ||| 0xFF21 <= u <= 0xFF3A
    ||| 0xFF41 <= u <= 0xFF5A
    ||| u == 0xFF08 || u == 0xFF09
    ||| u == 0xFF3B || u == 0xFF3D
    ||| u == 0xFF5B || u == 0xFF5D
}

/// The half-width form of one character.
pub open spec fn fold_char(c: char) -> char {
    if is_foldable(c) {
        ((c as u32 - WIDTH_OFFSET) as u8) as char
    } else {
        c
    }
}

/// The width fold of a whole string, character by character.
pub open spec fn fold_width(s: Seq<char>) -> Seq<char> {
    s.map_values(|c: char| fold_char(c))
}

/// Whether no character of `s` is one that the fold rewrites.
pub open spec fn is_half_width(s: Seq<char>) -> bool {
    forall|i: int| 0 <= i < s.len() ==> !is_foldable(#[trigger] s[i])
}

/// Folding one character gives a character that the fold leaves alone.
pub proof fn lemma_fold_char_idempotent(c: char)
    ensures
        !is_foldable(fold_char(c)),
        fold_char(fold_char(c)) == fold_char(c),
{
}

fn fold_char_exec(c: char) -> (r: char)
    ensures
        r == fold_char(c),
{
    let u = c as u32;
    let foldable = (0xFF10 <= u && u <= 0xFF19) || (0xFF21 <= u && u <= 0xFF3A) || (0xFF41 <= u
        && u <= 0xFF5A) || u == 0xFF08 || u == 0xFF09 || u == 0xFF3B || u == 0xFF3D || u == 0xFF5B
        || u == 0xFF5D;
    if foldable {
        ((u - WIDTH_OFFSET) as u8) as char
    } else {
        c
    }
}

/// The width fold of `s` as a new string.
pub fn wide2ascii(s: &str) -> (r: String)
    ensures
        r@ == fold_width(s@),
        is_half_width(r@),
{
    broadcast use vstd::string::axiom_spec_iter;
    let mut out = String::new();
    for c in it: s.chars()
        invariant
            it.seq() == s@,
            out@ == fold_width(s@.take(it.index() as int)),
    {
        assert(s@.take(it.index() as int + 1) == s@.take(it.index() as int).push(c));
        push_char(&mut out, fold_char_exec(c));
    }
    assert(s@.take(s@.len() as int) == s@);
    assert forall|k: int| 0 <= k < out@.len() implies !is_foldable(#[trigger] out@[k]) by {
        lemma_fold_char_idempotent(s@[k]);
    }
    out
}

/// Encodes a field: the width fold of the in-memory value is what is
/// written out, whatever form the value was built in.
pub fn serialize(value: &str) -> (r: String)
    ensures
        r@ == fold_width(value@),
        is_half_width(r@),
{
    wide2ascii(value)
}

/// Decodes a field: the value read in is stored in its width-folded form.
pub fn deserialize(raw: String) -> (r: String)
    ensures
        r@ == fold_width(raw@),
        is_half_width(r@),
{
    wide2ascii(raw.as_str())
}

/// Folding is idempotent: folding an already folded string changes nothing.
pub proof fn lemma_fold_width_idempotent(s: Seq<char>)
    ensures
        fold_width(fold_width(s)) == fold_width(s),
        is_half_width(fold_width(s)),
{
    assert forall|i: int| 0 <= i < s.len() implies fold_char(fold_width(s)[i])
        == fold_width(s)[i] && !is_foldable(#[trigger] fold_width(s)[i]) by {
        lemma_fold_char_idempotent(s[i]);
    }
    assert(fold_width(fold_width(s)) =~= fold_width(s));
}

/// A string with nothing to fold is its own fold.
pub proof fn lemma_fold_width_of_half_width(s: Seq<char>)
    requires
        is_half_width(s),
    ensures
        fold_width(s) == s,
{
    assert(fold_width(s) =~= s);
}

} // verus!
