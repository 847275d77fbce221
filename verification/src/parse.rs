//! The mathematical model of compilation: how a signature string is
//! normalized, which characters it may carry, and how the normalized text
//! decodes into pattern elements.

use crate::model::PatternElement;
use vstd::prelude::*;

verus! {

/// ASCII upper-casing of a single character; anything outside `a..=z` is kept.
pub open spec fn upper_char(c: char) -> char {
    if 'a' as u32 <= c as u32 && c as u32 <= 'z' as u32 {
        (c as u32 - 32) as char
    } else {
        c
    }
}

/// The normalized form of a signature: spaces removed, letters upper-cased.
pub open spec fn normalize(s: Seq<char>) -> Seq<char>
    decreases s.len(),
{
    if s.len() == 0 {
        Seq::empty()
    } else {
        let rest = normalize(s.drop_last());
        if s.last() == ' ' {
            rest
        } else {
            rest.push(upper_char(s.last()))
        }
    }
}

/// The alphabet a normalized signature may use: hex digits and `?`.
pub open spec fn is_allowed(c: char) -> bool {
    ('0' as u32 <= c as u32 && c as u32 <= '9' as u32) || ('A' as u32 <= c as u32 && c as u32
        <= 'F' as u32) || c == '?'
}

/// The first character, in scan order, that falls outside the alphabet.
pub open spec fn first_disallowed(s: Seq<char>) -> Option<char>
    decreases s.len(),
{
    if s.len() == 0 {
        None
    } else if !is_allowed(s[0]) {
        Some(s[0])
    } else {
        first_disallowed(s.drop_first())
    }
}

/// The value of a single hex digit (`0..=9`, `A..=F`).
pub open spec fn hex_val(c: char) -> u8 {
    if '0' as u32 <= c as u32 && c as u32 <= '9' as u32 {
        (c as u32 - '0' as u32) as u8
    } else if 'A' as u32 <= c as u32 && c as u32 <= 'F' as u32 {
        (c as u32 - 'A' as u32 + 10) as u8
    } else {
        0
    }
}

/// Whether a normalized signature decodes cleanly in groups of two: a `?`
/// only ever stands beside another `?`, and never alone in a trailing group
/// of one. A trailing lone hex digit is accepted (it decodes as a nibble).
pub open spec fn decode_ok(s: Seq<char>) -> bool
    decreases s.len(),
{
    if s.len() == 0 {
        true
    } else if s.len() == 1 {
        s[0] != '?'
    } else {
        ((s[0] == '?') <==> (s[1] == '?')) && decode_ok(s.skip(2))
    }
}

/// Scanning for the first disallowed character may start behind any prefix
/// of allowed characters.
pub(crate) proof fn lemma_first_disallowed_skip(s: Seq<char>, j: int)
    requires
        0 <= j <= s.len(),
        forall|k: int| 0 <= k < j ==> is_allowed(s[k]),
    ensures
        first_disallowed(s) == first_disallowed(s.skip(j)),
    decreases j,
{
    if j > 0 {
        assert(is_allowed(s[0]));
        assert forall|k: int| 0 <= k < j - 1 implies is_allowed(s.drop_first()[k]) by {
            assert(s.drop_first()[k] == s[k + 1]);
        }
        lemma_first_disallowed_skip(s.drop_first(), j - 1);
        assert(s.drop_first().skip(j - 1) =~= s.skip(j));
    } else {
        assert(s.skip(0) =~= s);
    }
}

/// The decoded elements of a normalized signature, read in non-overlapping
/// groups of two from the left: `??` becomes a placeholder, any other pair a
/// literal byte, and a trailing lone hex digit a literal nibble.
pub open spec fn decode(s: Seq<char>) -> Seq<PatternElement>
    decreases s.len(),
{
    if s.len() == 0 {
        Seq::empty()
    } else if s.len() == 1 {
        seq![PatternElement::Literal(hex_val(s[0]))]
    } else {
        let head = if s[0] == '?' {
            PatternElement::Placeholder
        } else {
            PatternElement::Literal((hex_val(s[0]) * 16 + hex_val(s[1])) as u8)
        };
        seq![head] + decode(s.skip(2))
    }
}

} // verus!
