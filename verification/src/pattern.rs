//! The compiled signature value and its operations: compilation from text,
//! exact-length chunk comparison, and the sliding-window scans.

use crate::model::PatternElement;
use crate::model::all_matches;
use crate::model::captures;
use crate::model::chunk_result;
use crate::model::drop_indices;
use crate::model::elem_matches;
use crate::model::lemma_captures_entries;
use crate::model::lemma_matches_up_to_empty;
use crate::model::matches_up_to;
use crate::model::window_captures;
use crate::model::window_count;
use crate::parse::decode;
use crate::parse::decode_ok;
use crate::parse::first_disallowed;
use crate::parse::hex_val;
use crate::parse::is_allowed;
use crate::parse::lemma_first_disallowed_skip;
use crate::parse::normalize;
use crate::parse::upper_char;
use vstd::prelude::*;
use vstd::string::StrSliceExecFns;

verus! {

/// The value of one validated hex digit of the alphabet.
fn hex_digit(c: char) -> (v: u8)
    requires
        is_allowed(c),
        c != '?',
    ensures
        v == hex_val(c),
        v <= 15,
{
    let b = c as u32;
    if '0' as u32 <= b && b <= '9' as u32 {
        (b - '0' as u32) as u8
    } else {
        (b - 'A' as u32 + 10) as u8
    }
}

/// The one recoverable failure of compilation, and the rejection of a
/// signature whose `?` characters do not line up in whole `??` groups.
#[derive(Copy, Clone, Eq, PartialEq, Debug)]
pub enum BinmatchError {
    /// The normalized signature carried a character outside `0..=9`,
    /// `A..=F`, `?`; the first such character, in scan order, is reported.
    PatternParseError(char),
    /// A `?` stood beside a hex digit, or alone in a trailing group of one,
    /// so the signature does not decode in whole `??` groups.
    MisplacedPlaceholder,
}

/// A compiled, immutable signature: an ordered sequence of elements, one per
/// byte that a matching window consumes.
#[derive(Clone, Eq, PartialEq, Ord, PartialOrd, Hash, Debug, Default)]
pub struct Pattern {
    data: Vec<PatternElement>,
}

impl View for Pattern {
    type V = Seq<PatternElement>;

    closed spec fn view(&self) -> Seq<PatternElement> {
        self.data@
    }
}

impl Pattern {
    /// Compiles a signature string: spaces are stripped, letters upper-cased,
    /// every remaining character checked against the alphabet of hex digits
    /// and `?`, and the survivors decoded in groups of two, `??` standing for
    /// a placeholder. A trailing lone hex digit decodes as a literal nibble;
    /// a `?` outside a whole `??` group is rejected.
    pub fn new(pattern: &str) -> (r: Result<Pattern, BinmatchError>)
        ensures
            match r {
                Ok(p) => {
                    &&& first_disallowed(normalize(pattern@)) is None
                    &&& decode_ok(normalize(pattern@))
                    &&& p@ == decode(normalize(pattern@))
                },
                Err(e) => match e {
                    BinmatchError::PatternParseError(c) => first_disallowed(normalize(pattern@))
                        == Some(c),
                    BinmatchError::MisplacedPlaceholder => {
                        &&& first_disallowed(normalize(pattern@)) is None
                        &&& !decode_ok(normalize(pattern@))
                    },
                },
            },
    {
        let n = pattern.unicode_len();
        let mut chars: Vec<char> = Vec::new();
        let mut i: usize = 0;
        while i < n
            invariant
                n == pattern@.len(),
                i <= n,
                chars@ == normalize(pattern@.take(i as int)),
            decreases n - i,
        {
            let c = pattern.get_char(i);
            proof {
                assert(pattern@.take(i as int + 1).drop_last() =~= pattern@.take(i as int));
                assert(pattern@.take(i as int + 1).last() == c);
            }
            if c != ' ' {
                let b = c as u32;
                if 'a' as u32 <= b && b <= 'z' as u32 {
                    let u = ((b - 32) as u8) as char;
                    proof {
                        assert(u == upper_char(c));
                    }
                    chars.push(u);
                } else {
                    proof {
                        assert(c == upper_char(c));
                    }
                    chars.push(c);
                }
            }
            i += 1;
        }
        proof {
            assert(pattern@.take(n as int) =~= pattern@);
        }
        let m = chars.len();
        let mut j: usize = 0;
        while j < m
            invariant
                chars@ == normalize(pattern@),
                m == chars@.len(),
                j <= m,
                forall|k: int| 0 <= k < j ==> is_allowed(chars@[k]),
            decreases m - j,
        {
            let c = chars[j];
            let b = c as u32;
            let ok = ('0' as u32 <= b && b <= '9' as u32) || ('A' as u32 <= b && b <= 'F' as u32)
                || c == '?';
            if !ok {
                proof {
                    lemma_first_disallowed_skip(chars@, j as int);
                    assert(chars@.skip(j as int)[0] == c);
                }
                return Err(BinmatchError::PatternParseError(c));
            }
            j += 1;
        }
        proof {
            lemma_first_disallowed_skip(chars@, m as int);
            assert(chars@.skip(m as int) =~= Seq::<char>::empty());
        }
        let mut data: Vec<PatternElement> = Vec::new();
        let mut j: usize = 0;
        proof {
            assert(chars@.skip(0) =~= chars@);
        }
        while m - j >= 2
            invariant
                chars@ == normalize(pattern@),
                m == chars@.len(),
                j <= m,
                forall|k: int| 0 <= k < m ==> is_allowed(chars@[k]),
                first_disallowed(chars@) is None,
                decode_ok(chars@) == decode_ok(chars@.skip(j as int)),
                decode(chars@) == data@ + decode(chars@.skip(j as int)),
            decreases m - j,
        {
            let c0 = chars[j];
            let c1 = chars[j + 1];
            let ghost rest = chars@.skip(j as int);
            proof {
                assert(rest[0] == c0 && rest[1] == c1);
                assert(rest.skip(2) =~= chars@.skip(j as int + 2));
            }
            if c0 == '?' && c1 == '?' {
                data.push(PatternElement::Placeholder);
                proof {
                    assert(data@ + decode(rest.skip(2)) =~= data@.drop_last() + decode(rest));
                }
            } else if c0 == '?' || c1 == '?' {
                proof {
                    assert(!decode_ok(rest));
                }
                return Err(BinmatchError::MisplacedPlaceholder);
            } else {
                let v0 = hex_digit(c0);
                let v1 = hex_digit(c1);
                data.push(PatternElement::Literal(v0 * 16 + v1));
                proof {
                    assert(data@ + decode(rest.skip(2)) =~= data@.drop_last() + decode(rest));
                }
            }
            j += 2;
        }
        let ghost rest = chars@.skip(j as int);
        if j < m {
            let c = chars[j];
            proof {
                assert(rest.len() == 1 && rest[0] == c);
            }
            if c == '?' {
                return Err(BinmatchError::MisplacedPlaceholder);
            }
            let v = hex_digit(c);
            data.push(PatternElement::Literal(v));
            proof {
                assert(decode(rest) =~= seq![PatternElement::Literal(hex_val(c))]);
                assert(data@ =~= data@.drop_last() + decode(rest));
            }
        } else {
            proof {
                assert(rest =~= Seq::<char>::empty());
                assert(data@ + decode(rest) =~= data@);
            }
        }
        proof {
            assert(decode_ok(chars@));
            assert(data@ == decode(chars@));
        }
        Ok(Pattern { data })
    }

    /// Compares the pattern against a chunk of exactly its own length, byte
    /// by byte, and returns the placeholder captures with their offsets
    /// inside the chunk — or nothing at all on the first literal mismatch,
    /// however many placeholders stand before or after it.
    pub fn match_chunk(&self, chunk: Vec<u8>) -> (r: Vec<(u8, usize)>)
        requires
            chunk@.len() == self@.len(),
        ensures
            r@ == chunk_result(self@, chunk@),
    {
        let mut matches: Vec<(u8, usize)> = Vec::new();
        let len = self.data.len();
        let mut i: usize = 0;
        while i < len
            invariant
                len == self@.len(),
                chunk@.len() == self@.len(),
                i <= len,
                forall|k: int| 0 <= k < i ==> elem_matches(self@[k], chunk@[k]),
                matches@ == captures(self@.take(i as int), chunk@),
            decreases len - i,
        {
            proof {
                assert(self@.take(i as int + 1).drop_last() =~= self@.take(i as int));
                assert(self@.take(i as int + 1).last() == self@[i as int]);
            }
            match self.data[i] {
                PatternElement::Literal(expected) => {
                    if chunk[i] != expected {
                        proof {
                            assert(!elem_matches(self@[i as int], chunk@[i as int]));
                        }
                        return Vec::new();
                    }
                },
                PatternElement::Placeholder => {
                    matches.push((chunk[i], i));
                },
            }
            i += 1;
        }
        proof {
            assert(self@.take(len as int) =~= self@);
        }
        matches
    }

    /// Slides a window of the pattern's length across the haystack, one byte
    /// at a time, and returns every placeholder capture of every matching
    /// window, with positions made absolute and windows visited left to
    /// right. A haystack shorter than the pattern yields no window at all.
    pub fn find_matches_with_index(&self, haystack: Vec<u8>) -> (r: Vec<(u8, usize)>)
        ensures
            r@ == all_matches(self@, haystack@),
    {
        let len = self.data.len();
        let n = haystack.len();
        let mut result: Vec<(u8, usize)> = Vec::new();
        if len == 0 {
            proof {
                lemma_matches_up_to_empty(self@, haystack@, window_count(self@, haystack@));
            }
            return result;
        }
        if n < len {
            return result;
        }
        let count = n - len + 1;
        let mut w: usize = 0;
        while w < count
            invariant
                len == self@.len(),
                n == haystack@.len(),
                1 <= len <= n,
                count == n - len + 1,
                w <= count,
                result@ == matches_up_to(self@, haystack@, w as int),
            decreases count - w,
        {
            let sub = vstd::slice::slice_subrange(haystack.as_slice(), w, w + len);
            let chunk = vstd::slice::slice_to_vec(sub);
            let ms = self.match_chunk(chunk);
            let ghost wc = window_captures(self@, haystack@, w as int);
            proof {
                lemma_captures_entries(self@, haystack@.subrange(w as int, w as int + len));
                assert(wc =~= ms@.map_values(|p: (u8, usize)| (p.0, (p.1 + w as int) as usize)));
            }
            let mut t: usize = 0;
            while t < ms.len()
                invariant
                    len == self@.len(),
                    n == haystack@.len(),
                    1 <= len <= n,
                    count == n - len + 1,
                    w < count,
                    t <= ms@.len(),
                    wc == ms@.map_values(|p: (u8, usize)| (p.0, (p.1 + w as int) as usize)),
                    forall|k: int| 0 <= k < ms@.len() ==> (#[trigger] ms@[k]).1 < len,
                    result@ == matches_up_to(self@, haystack@, w as int) + wc.take(t as int),
                decreases ms@.len() - t,
            {
                let p = ms[t];
                result.push((p.0, p.1 + w));
                proof {
                    assert(wc.take(t as int + 1) =~= wc.take(t as int).push(wc[t as int]));
                }
                t += 1;
            }
            proof {
                assert(wc.take(ms@.len() as int) =~= wc);
                assert(matches_up_to(self@, haystack@, w as int + 1) == matches_up_to(
                    self@,
                    haystack@,
                    w as int,
                ) + wc);
            }
            w += 1;
        }
        result
    }

    /// Convenience scan for callers that do not need positions: the same
    /// captures as [`Pattern::find_matches_with_index`], in the same order,
    /// with the index component dropped.
    pub fn find_matches(&self, haystack: Vec<u8>) -> (r: Vec<u8>)
        ensures
            r@ == drop_indices(all_matches(self@, haystack@)),
    {
        let ghost hay = haystack@;
        let ms = self.find_matches_with_index(haystack);
        let mut out: Vec<u8> = Vec::new();
        let mut t: usize = 0;
        while t < ms.len()
            invariant
                t <= ms@.len(),
                ms@ == all_matches(self@, hay),
                out@ == drop_indices(ms@.take(t as int)),
            decreases ms@.len() - t,
        {
            let p = ms[t];
            out.push(p.0);
            proof {
                assert(drop_indices(ms@.take(t as int + 1)) =~= drop_indices(
                    ms@.take(t as int),
                ).push(ms@[t as int].0));
            }
            t += 1;
        }
        proof {
            assert(ms@.take(ms@.len() as int) =~= ms@);
        }
        out
    }

    /// The number of bytes the pattern consumes per match attempt.
    pub fn len(&self) -> (r: usize)
        ensures
            r == self@.len(),
    {
        self.data.len()
    }

    /// Whether the pattern consumes no bytes at all.
    pub fn is_empty(&self) -> (r: bool)
        ensures
            r == (self@.len() == 0),
    {
        self.data.len() == 0
    }
}

} // verus!
