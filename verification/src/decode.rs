//! Fallible decoding of numeric tokens, and the best-effort
//! decode-with-default policy the record parser applies to them: a token
//! that does not decode is silently replaced by zero.

use vstd::prelude::*;
use crate::text::{spec_split, split_char};

verus! {

/// An exact decimal number: the value `mantissa / 10^scale`. A component
/// token is stored verbatim — `mantissa` holds its digits with the
/// decimal point removed and the sign applied, `scale` counts its
/// fraction digits — so equality of scalars is equality of spellings.
#[derive(Clone, Copy, PartialEq, Eq, Structural, Debug)]
pub struct Scalar {
    pub mantissa: i64,
    pub scale: usize,
}

impl Scalar {
    /// The substitute for a token that does not decode: exactly zero.
    pub fn zero() -> (r: Scalar)
        ensures
            r == (Scalar { mantissa: 0 as i64, scale: 0 as usize }),
    {
        Scalar { mantissa: 0, scale: 0 }
    }
}

/// `c` is an ASCII decimal digit.
pub open spec fn is_digit(c: char) -> bool {
    48 <= c as u32 <= 57
}

/// Value of a sequence of decimal digits, most significant first.
pub open spec fn digits_val(s: Seq<char>) -> int
    decreases s.len(),
{
    if s.len() == 0 {
        0
    } else {
        digits_val(s.drop_last()) * 10 + (s.last() as u32 - 48)
    }
}

/// `s` consists of decimal digits only.
pub open spec fn all_digits(s: Seq<char>) -> bool {
    forall|j: int| 0 <= j < s.len() ==> is_digit(s[j])
}

/// What `parse_u16` accepts: one or more decimal digits whose value fits
/// in sixteen bits.
pub open spec fn spec_parse_u16(s: Seq<char>) -> Option<u16> {
    if s.len() > 0 && all_digits(s) && digits_val(s) <= u16::MAX {
        Some(digits_val(s) as u16)
    } else {
        None
    }
}

proof fn lemma_digits_val_nonneg(s: Seq<char>)
    requires
        all_digits(s),
    ensures
        digits_val(s) >= 0,
    decreases s.len(),
{
    if s.len() > 0 {
        lemma_digits_val_nonneg(s.drop_last());
    }
}

/// Appending digits never shrinks the value: a prefix already too large
/// for its range makes the whole numeral too large.
proof fn lemma_digits_val_prefix_le(s: Seq<char>, i: int)
    requires
        all_digits(s),
        0 <= i <= s.len(),
    ensures
        digits_val(s.subrange(0, i)) <= digits_val(s),
    decreases s.len() - i,
{
    if i < s.len() {
        let t = s.subrange(0, i + 1);
        assert(t.drop_last() =~= s.subrange(0, i));
        assert(all_digits(s.subrange(0, i))) by {
            assert(forall|j: int|
                0 <= j < i ==> s.subrange(0, i)[j] == s[j] && is_digit(s[j]));
        }
        lemma_digits_val_nonneg(s.subrange(0, i));
        lemma_digits_val_prefix_le(s, i + 1);
    } else {
        assert(s.subrange(0, i) =~= s);
    }
}

/// Decode a token as an unsigned sixteen-bit decimal numeral: one or more
/// digits, no sign, no surrounding space; `None` on anything else,
/// including a value over `u16::MAX`.
pub fn parse_u16(s: &str) -> (r: Option<u16>)
    ensures
        r == spec_parse_u16(s@),
{
    let n = s.unicode_len();
    if n == 0 {
        return None;
    }
    let mut val: u32 = 0;
    let mut i: usize = 0;
    while i < n
        invariant
            i <= n,
            n == s@.len(),
            forall|j: int| 0 <= j < i ==> is_digit(s@[j]),
            val == digits_val(s@.subrange(0, i as int)),
            val <= u16::MAX,
        decreases n - i,
    {
        let c = s.get_char(i);
        let d = c as u32;
        if d < 48 || d > 57 {
            return None;
        }
        let v2 = val * 10 + (d - 48);
        proof {
            assert(s@.subrange(0, i as int + 1).drop_last() =~= s@.subrange(0, i as int));
        }
        if v2 > u16::MAX as u32 {
            proof {
                if all_digits(s@) {
                    lemma_digits_val_prefix_le(s@, i as int + 1);
                }
            }
            return None;
        }
        val = v2;
        i = i + 1;
    }
    proof {
        assert(s@.subrange(0, n as int) =~= s@);
    }
    Some(val as u16)
}

/// The index a face record stores for one `/`-separated part: the decoded
/// numeral converted from the format's 1-based convention to a 0-based
/// collection index; a part that does not decode, or a raw 0, yields 0.
pub open spec fn spec_index_of(s: Seq<char>) -> u16 {
    match spec_parse_u16(s) {
        Some(i) => if i >= 1 {
            (i - 1) as u16
        } else {
            0
        },
        None => 0,
    }
}

/// Decode one index part of a face record under the 1-based-to-0-based
/// convention and the substitute-zero policy.
pub fn decode_index(s: &str) -> (r: u16)
    ensures
        r == spec_index_of(s@),
{
    match parse_u16(s) {
        Some(i) => if i >= 1 {
            i - 1
        } else {
            0
        },
        None => 0,
    }
}

/// The digits of a decimal numeral with the point removed, and its count
/// of fraction digits: `(digits, scale)`. The numeral is ill-formed when
/// it has more than one point.
pub open spec fn spec_numeral_digits(body: Seq<char>) -> Option<(Seq<char>, nat)> {
    let parts = spec_split(body, '.');
    if parts.len() == 1 {
        Some((parts[0], 0 as nat))
    } else if parts.len() == 2 {
        Some((parts[0] + parts[1], parts[1].len()))
    } else {
        None
    }
}

/// What `parse_scalar` accepts: an optional sign, then decimal digits
/// with at most one point among them (at least one digit in all), whose
/// significand fits in a signed sixty-four-bit word.
pub open spec fn spec_parse_scalar(s: Seq<char>) -> Option<Scalar> {
    let signed = s.len() > 0 && (s[0] == '-' || s[0] == '+');
    let neg = s.len() > 0 && s[0] == '-';
    let body = if signed {
        s.subrange(1, s.len() as int)
    } else {
        s
    };
    match spec_numeral_digits(body) {
        Some((digits, scale)) => {
            if digits.len() > 0 && all_digits(digits) && digits_val(digits) <= i64::MAX {
                Some(
                    Scalar {
                        mantissa: if neg {
                            (-digits_val(digits)) as i64
                        } else {
                            digits_val(digits) as i64
                        },
                        scale: scale as usize,
                    },
                )
            } else {
                None
            }
        },
        None => None,
    }
}

/// Fold the digits of `s` onto an already accumulated value, failing on a
/// non-digit or on a significand over `i64::MAX`.
fn accum_digits(s: &str, val0: u64, Ghost(prefix): Ghost<Seq<char>>) -> (r: Option<u64>)
    requires
        all_digits(prefix),
        val0 == digits_val(prefix),
        val0 <= i64::MAX,
    ensures
        match r {
            Some(v) => all_digits(prefix + s@) && v == digits_val(prefix + s@) && v
                <= i64::MAX,
            None => !(all_digits(prefix + s@) && digits_val(prefix + s@) <= i64::MAX),
        },
{
    let n = s.unicode_len();
    let mut val: u64 = val0;
    let mut i: usize = 0;
    proof {
        assert(prefix + s@.subrange(0, 0) =~= prefix);
    }
    while i < n
        invariant
            i <= n,
            n == s@.len(),
            all_digits(prefix),
            all_digits(prefix + s@.subrange(0, i as int)),
            val == digits_val(prefix + s@.subrange(0, i as int)),
            val <= i64::MAX,
        decreases n - i,
    {
        let c = s.get_char(i);
        let d = c as u32;
        let ghost whole = prefix + s@;
        proof {
            assert((prefix + s@.subrange(0, i as int + 1)).drop_last() =~= prefix
                + s@.subrange(0, i as int));
            assert((prefix + s@.subrange(0, i as int + 1)).last() == s@[i as int]);
        }
        if d < 48 || d > 57 {
            proof {
                assert(whole[prefix.len() + i] == s@[i as int]);
            }
            return None;
        }
        proof {
            let ext = prefix + s@.subrange(0, i as int + 1);
            assert forall|j: int| 0 <= j < ext.len() implies is_digit(ext[j]) by {
                if j < ext.len() - 1 {
                    assert(ext[j] == (prefix + s@.subrange(0, i as int))[j]);
                } else {
                    assert(ext[j] == ext.last());
                }
            }
        }
        let dd = (d - 48) as u64;
        let max: u64 = i64::MAX as u64;
        if val > (max - dd) / 10 {
            proof {
                assert(val * 10 + dd > max) by (nonlinear_arith)
                    requires
                        val > (max - dd) / 10,
                        dd <= max,
                ;
                if all_digits(whole) {
                    assert(whole.subrange(0, prefix.len() + i + 1) =~= prefix + s@.subrange(
                        0,
                        i as int + 1,
                    ));
                    lemma_digits_val_prefix_le(whole, prefix.len() + i + 1);
                }
            }
            return None;
        }
        val = val * 10 + dd;
        i = i + 1;
    }
    proof {
        assert(prefix + s@.subrange(0, n as int) =~= prefix + s@);
    }
    Some(val)
}

/// Decode a token as a signed decimal numeral: an optional `-` or `+`,
/// then digits with at most one point among them; `None` on anything
/// else, including a significand over `i64::MAX`.
pub fn parse_scalar(s: &str) -> (r: Option<Scalar>)
    ensures
        r == spec_parse_scalar(s@),
{
    let n = s.unicode_len();
    let signed = n > 0 && {
        let c = s.get_char(0);
        c == '-' || c == '+'
    };
    let neg = signed && s.get_char(0) == '-';
    let body = if signed {
        s.substring_char(1, n)
    } else {
        s
    };
    let parts = split_char(body, '.');
    let ghost spec_parts = spec_split(body@, '.');
    if parts.len() == 1 {
        proof {
            assert(parts@.map_values(|t: String| t@)[0] == spec_parts[0]);
            assert(Seq::<char>::empty() + parts@[0]@ =~= spec_parts[0]);
        }
        if parts[0].as_str().is_empty() {
            return None;
        }
        match accum_digits(parts[0].as_str(), 0, Ghost(Seq::empty())) {
            Some(v) => {
                let m = v as i64;
                Some(
                    Scalar {
                        mantissa: if neg {
                            -m
                        } else {
                            m
                        },
                        scale: 0,
                    },
                )
            },
            None => None,
        }
    } else if parts.len() == 2 {
        proof {
            assert(parts@.map_values(|t: String| t@)[0] == spec_parts[0]);
            assert(parts@.map_values(|t: String| t@)[1] == spec_parts[1]);
            assert(Seq::<char>::empty() + parts@[0]@ =~= spec_parts[0]);
        }
        if parts[0].as_str().is_empty() && parts[1].as_str().is_empty() {
            return None;
        }
        let ghost digits = spec_parts[0] + spec_parts[1];
        proof {
            if all_digits(digits) {
                assert(digits.subrange(0, spec_parts[0].len() as int) =~= spec_parts[0]);
                assert forall|j: int| 0 <= j < spec_parts[0].len() implies is_digit(
                    spec_parts[0][j],
                ) by {
                    assert(spec_parts[0][j] == digits[j]);
                }
                lemma_digits_val_prefix_le(digits, spec_parts[0].len() as int);
            }
        }
        match accum_digits(parts[0].as_str(), 0, Ghost(Seq::empty())) {
            Some(v0) => {
                proof {
                    assert((Seq::<char>::empty() + parts@[0]@) + parts@[1]@ =~= spec_parts[0]
                        + spec_parts[1]);
                }
                match accum_digits(parts[1].as_str(), v0, Ghost(parts@[0]@)) {
                    Some(v) => {
                        let m = v as i64;
                        let scale = parts[1].as_str().unicode_len();
                        Some(
                            Scalar {
                                mantissa: if neg {
                                    -m
                                } else {
                                    m
                                },
                                scale,
                            },
                        )
                    },
                    None => None,
                }
            },
            None => None,
        }
    } else {
        None
    }
}

/// The scalar an attribute record stores for one component token: the
/// decoded numeral, or exactly zero where the token does not decode.
pub open spec fn spec_component_of(s: Seq<char>) -> Scalar {
    match spec_parse_scalar(s) {
        Some(v) => v,
        None => Scalar { mantissa: 0 as i64, scale: 0 as usize },
    }
}

/// Decode one component token of an attribute record under the
/// substitute-zero policy.
pub fn decode_component(s: &str) -> (r: Scalar)
    ensures
        r == spec_component_of(s@),
{
    match parse_scalar(s) {
        Some(v) => v,
        None => Scalar::zero(),
    }
}

} // verus!
