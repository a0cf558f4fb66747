//! 128-bit identifiers for sessions and connections, together with their
//! canonical hyphenated hexadecimal text form (eight, four, four, four and
//! twelve digits, lower case when produced, either case when read).

use vstd::prelude::*;

verus! {

/// An opaque 128-bit identifier naming a session or a connection.
#[derive(Clone, Copy, PartialEq, Eq, Structural, Debug, Hash)]
pub struct Uid {
    pub value: u128,
}

/// The byte that separates the digit groups of the text form.
pub const DASH: u8 = 45;

/// Whether a byte is an ASCII hexadecimal digit, either case.
pub open spec fn is_hex(b: u8) -> bool {
    (48 <= b <= 57) || (97 <= b <= 102) || (65 <= b <= 70)
}

/// The value of an ASCII hexadecimal digit.
pub open spec fn hex_val(b: u8) -> u8 {
    if 48 <= b <= 57 {
        (b - 48) as u8
    } else if 97 <= b <= 102 {
        (b - 87) as u8
    } else if 65 <= b <= 70 {
        (b - 55) as u8
    } else {
        0
    }
}

/// The lower-case ASCII digit for a value below sixteen.
pub open spec fn hex_char(d: u8) -> u8
    recommends
        d < 16,
{
    if d < 10 {
        (48 + d) as u8
    } else {
        (87 + d) as u8
    }
}

/// A 128-bit value shifted right by four bits, `k` times.
pub open spec fn shr4(v: u128, k: int) -> u128
    decreases k,
{
    if k <= 0 {
        v
    } else {
        shr4(v, k - 1) >> 4
    }
}

/// Hex digit `i` (digit 0 is the most significant) of a 128-bit value.
pub open spec fn uid_digit(v: u128, i: int) -> u8
    recommends
        0 <= i < 32,
{
    (shr4(v, 31 - i) & 0xf) as u8
}

/// The digit index (0 to 31) written at a text position that is not a dash.
pub open spec fn digit_index(pos: int) -> int {
    pos - (if pos < 8 {
        0int
    } else if pos < 13 {
        1int
    } else if pos < 18 {
        2int
    } else if pos < 23 {
        3int
    } else {
        4int
    })
}

/// The text position (0 to 35) where digit `j` of the value is written.
pub open spec fn text_pos(j: int) -> int {
    j + (if j < 8 {
        0int
    } else if j < 12 {
        1int
    } else if j < 16 {
        2int
    } else if j < 20 {
        3int
    } else {
        4int
    })
}

/// The canonical 36-byte text form of a 128-bit identifier.
pub open spec fn uid_text(v: u128) -> Seq<u8> {
    Seq::new(
        36,
        |i: int|
            if i == 8 || i == 13 || i == 18 || i == 23 {
                DASH
            } else {
                hex_char(uid_digit(v, digit_index(i)))
            },
    )
}

/// Whether a byte string is a well-formed hyphenated identifier.
pub open spec fn is_uid_text(s: Seq<u8>) -> bool {
    &&& s.len() == 36
    &&& s[8] == DASH
    &&& s[13] == DASH
    &&& s[18] == DASH
    &&& s[23] == DASH
    &&& forall|j: int| 0 <= j < 32 ==> is_hex(#[trigger] s[text_pos(j)])
}

/// The value written in a well-formed identifier string, reading the first
/// `j` digits, most significant first.
pub open spec fn uid_fold(s: Seq<u8>, j: int) -> u128
    decreases j,
{
    if j <= 0 {
        0
    } else {
        (uid_fold(s, j - 1) << 4) | (hex_val(s[text_pos(j - 1)]) as u128)
    }
}

/// The value written in a well-formed identifier string.
pub open spec fn uid_of_text(s: Seq<u8>) -> u128 {
    uid_fold(s, 32)
}

proof fn lemma_shr4_four_steps(v: u128, k: int)
    requires
        0 <= k,
    ensures
        shr4(v, k + 4) == shr4(v, k) >> 16,
{
    let x = shr4(v, k);
    assert(shr4(v, k + 1) == x >> 4);
    assert(shr4(v, k + 2) == (x >> 4) >> 4);
    assert(shr4(v, k + 3) == ((x >> 4) >> 4) >> 4);
    assert(shr4(v, k + 4) == (((x >> 4) >> 4) >> 4) >> 4);
    assert((((x >> 4) >> 4) >> 4) >> 4 == x >> 16) by (bit_vector);
}

proof fn lemma_shr4_32_zero(v: u128)
    ensures
        shr4(v, 32) == 0,
{
    lemma_shr4_four_steps(v, 0);
    lemma_shr4_four_steps(v, 4);
    lemma_shr4_four_steps(v, 8);
    lemma_shr4_four_steps(v, 12);
    lemma_shr4_four_steps(v, 16);
    lemma_shr4_four_steps(v, 20);
    lemma_shr4_four_steps(v, 24);
    lemma_shr4_four_steps(v, 28);
    assert(((((((((v >> 16) >> 16) >> 16) >> 16) >> 16) >> 16) >> 16) >> 16) == 0)
        by (bit_vector);
}

proof fn lemma_nibble_bound(x: u128)
    ensures
        (x & 0xf) < 16,
{
    assert((x & 0xf) < 16) by (bit_vector);
}

/// The lower-case digit of a value below sixteen parses back to that value.
proof fn lemma_hex_char_round_trip(d: u8)
    requires
        d < 16,
    ensures
        is_hex(hex_char(d)),
        hex_val(hex_char(d)) == d,
{
}

impl Uid {
    /// Writes this identifier in its canonical text form.
    pub fn to_text(&self) -> (r: Vec<u8>)
        ensures
            r@ == uid_text(self.value),
    {
        let v = self.value;

        // Digit values, least significant first: digits[m] is digit 31 - m.
        let mut digits: Vec<u8> = Vec::new();
        let mut cur: u128 = v;
        let mut m: usize = 0;
        while m < 32
            invariant
                m <= 32,
                cur == shr4(v, m as int),
                digits@.len() == m,
                forall|k: int| 0 <= k < m ==> #[trigger] digits@[k] == uid_digit(v, 31 - k),
            decreases 32 - m,
        {
            proof {
                lemma_nibble_bound(cur);
            }
            digits.push((cur & 0xf) as u8);
            cur = cur >> 4;
            m = m + 1;
        }

        let mut out: Vec<u8> = Vec::new();
        let mut i: usize = 0;
        while i < 36
            invariant
                i <= 36,
                digits@.len() == 32,
                forall|k: int| 0 <= k < 32 ==> #[trigger] digits@[k] == uid_digit(v, 31 - k),
                out@ =~= uid_text(v).take(i as int),
            decreases 36 - i,
        {
            if i == 8 || i == 13 || i == 18 || i == 23 {
                out.push(DASH);
            } else {
                let di: usize = i - (if i < 8 {
                    0
                } else if i < 13 {
                    1
                } else if i < 18 {
                    2
                } else if i < 23 {
                    3
                } else {
                    4
                });
                let d = digits[31 - di];
                proof {
                    lemma_nibble_bound(shr4(v, 31 - di as int));
                }
                out.push(hex_digit(d));
            }
            i = i + 1;
        }
        proof {
            assert(out@ =~= uid_text(v));
        }
        out
    }

    /// Reads an identifier from its hyphenated text form; accepts upper or
    /// lower case digits, and rejects every other shape of input.
    pub fn parse_text(s: &[u8]) -> (r: Option<Uid>)
        ensures
            is_uid_text(s@) ==> r == Some(Uid { value: uid_of_text(s@) }),
            !is_uid_text(s@) ==> r is None,
    {
        if s.len() != 36 {
            return None;
        }
        if !(s[8] == DASH && s[13] == DASH && s[18] == DASH && s[23] == DASH) {
            return None;
        }
        let mut acc: u128 = 0;
        let mut j: usize = 0;
        while j < 32
            invariant
                j <= 32,
                s@.len() == 36,
                s@[8] == DASH && s@[13] == DASH && s@[18] == DASH && s@[23] == DASH,
                forall|k: int| 0 <= k < j ==> is_hex(#[trigger] s@[text_pos(k)]),
                acc == uid_fold(s@, j as int),
            decreases 32 - j,
        {
            let pos: usize = j + (if j < 8 {
                0
            } else if j < 12 {
                1
            } else if j < 16 {
                2
            } else if j < 20 {
                3
            } else {
                4
            });
            let b = s[pos];
            let d = match hex_value(b) {
                Some(d) => d,
                None => {
                    proof {
                        assert(pos as int == text_pos(j as int));
                        assert(!is_hex(s@[text_pos(j as int)]));
                    }
                    return None;
                },
            };
            proof {
                assert(pos as int == text_pos(j as int));
            }
            acc = (acc << 4) | (d as u128);
            j = j + 1;
        }
        Some(Uid { value: acc })
    }
}

/// The lower-case ASCII digit for a value below sixteen.
pub(crate) fn hex_digit(d: u8) -> (c: u8)
    requires
        d < 16,
    ensures
        c == hex_char(d),
{
    if d < 10 {
        48 + d
    } else {
        87 + d
    }
}

/// The value of an ASCII hexadecimal digit, or nothing for any other byte.
fn hex_value(b: u8) -> (r: Option<u8>)
    ensures
        r is Some <==> is_hex(b),
        is_hex(b) ==> r == Some(hex_val(b)),
{
    if 48 <= b && b <= 57 {
        Some(b - 48)
    } else if 97 <= b && b <= 102 {
        Some(b - 87)
    } else if 65 <= b && b <= 70 {
        Some(b - 55)
    } else {
        None
    }
}

/// The canonical text of an identifier is well formed and reads back as the
/// same identifier.
pub proof fn lemma_uid_text_round_trip(v: u128)
    ensures
        is_uid_text(uid_text(v)),
        uid_of_text(uid_text(v)) == v,
{
    let s = uid_text(v);
    assert forall|j: int| 0 <= j < 32 implies is_hex(#[trigger] s[text_pos(j)]) by {
        lemma_nibble_bound(shr4(v, 31 - j));
        lemma_hex_char_round_trip(uid_digit(v, j));
    }
    assert forall|j: int| 0 <= j < 32 implies hex_val(#[trigger] s[text_pos(j)]) == uid_digit(
        v,
        j,
    ) by {
        lemma_nibble_bound(shr4(v, 31 - j));
        lemma_hex_char_round_trip(uid_digit(v, j));
    }
    lemma_shr4_32_zero(v);
    lemma_uid_fold_unwinds(v, s, 32);
}

proof fn lemma_uid_fold_unwinds(v: u128, s: Seq<u8>, j: int)
    requires
        0 <= j <= 32,
        s.len() == 36,
        forall|k: int| 0 <= k < 32 ==> hex_val(#[trigger] s[text_pos(k)]) == uid_digit(v, k),
    ensures
        uid_fold(s, j) == shr4(v, 32 - j),
    decreases j,
{
    if j == 0 {
        lemma_shr4_32_zero(v);
    } else {
        lemma_uid_fold_unwinds(v, s, j - 1);
        let x = shr4(v, 32 - j);
        let d = hex_val(s[text_pos(j - 1)]);
        assert(d == (x & 0xf) as u8);
        lemma_nibble_bound(x);
        assert(d as u128 == x & 0xf);
        assert(shr4(v, 32 - (j - 1)) == x >> 4);
        assert(uid_fold(s, j) == ((x >> 4) << 4) | (x & 0xf));
        assert((((x >> 4) << 4) | (x & 0xf)) == x) by (bit_vector);
    }
}

} // verus!
