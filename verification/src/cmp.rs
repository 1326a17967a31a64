//! Ordering of tagged values.
//!
//! Two scalars of the same kind compare by payload alone — the secrecy tag
//! never takes part.  Scalars of different kinds, and anything involving an
//! object or a list, are incomparable.  Floating-point payloads compare by
//! the IEEE 754 partial order computed on their bit patterns, so two NaN
//! payloads are incomparable too.
use core::cmp::Ordering;

use vstd::prelude::*;

use crate::sec::{sec_view, set_tags, SecValue, SecValueType, SecView};
use crate::value::{FloatBits, IpValue};

verus! {

/// How two numbers compare.
pub open spec fn spec_num_cmp(a: int, b: int) -> Ordering {
    if a < b {
        Ordering::Less
    } else if a > b {
        Ordering::Greater
    } else {
        Ordering::Equal
    }
}

/// How two texts compare: lexicographically by code point, the order of the
/// standard library's string comparison.
pub open spec fn spec_str_cmp(a: Seq<char>, b: Seq<char>) -> Ordering
    decreases a.len(),
{
    if a.len() == 0 && b.len() == 0 {
        Ordering::Equal
    } else if a.len() == 0 {
        Ordering::Less
    } else if b.len() == 0 {
        Ordering::Greater
    } else if (a[0] as u32) < (b[0] as u32) {
        Ordering::Less
    } else if (a[0] as u32) > (b[0] as u32) {
        Ordering::Greater
    } else {
        spec_str_cmp(a.drop_first(), b.drop_first())
    }
}

/// The sign bit of a double, read off its bit pattern.
pub open spec fn float_sign(x: FloatBits) -> int {
    (x.bits as int) / 0x8000_0000_0000_0000
}

/// The magnitude bits of a double: everything but the sign.
pub open spec fn float_mag(x: FloatBits) -> int {
    (x.bits as int) % 0x8000_0000_0000_0000
}

/// Whether the bit pattern denotes a NaN: magnitude above positive
/// infinity's pattern.
pub open spec fn float_is_nan(x: FloatBits) -> bool {
    float_mag(x) > 0x7FF0_0000_0000_0000
}

/// The signed magnitude a non-NaN double sorts by.  Both zero patterns map
/// to 0, so positive and negative zero compare equal.
pub open spec fn float_key(x: FloatBits) -> int {
    if float_sign(x) == 1 {
        -float_mag(x)
    } else {
        float_mag(x)
    }
}

/// How two doubles compare by their bit patterns: the IEEE 754 partial
/// order.  A NaN on either side compares with nothing.
pub open spec fn spec_float_cmp(a: FloatBits, b: FloatBits) -> Option<Ordering> {
    if float_is_nan(a) || float_is_nan(b) {
        None
    } else {
        Some(spec_num_cmp(float_key(a), float_key(b)))
    }
}

/// How two IP addresses compare: any version-4 address before any
/// version-6 one; within a version, lexicographically by pieces.
pub open spec fn spec_ip_cmp(a: IpValue, b: IpValue) -> Ordering {
    match (a, b) {
        (IpValue::V4(a0, a1, a2, a3), IpValue::V4(b0, b1, b2, b3)) => spec_num_cmp(
            (a0 as int) * 0x100_0000 + (a1 as int) * 0x1_0000 + (a2 as int) * 0x100 + (a3 as int),
            (b0 as int) * 0x100_0000 + (b1 as int) * 0x1_0000 + (b2 as int) * 0x100 + (b3 as int),
        ),
        (IpValue::V4(..), IpValue::V6(..)) => Ordering::Less,
        (IpValue::V6(..), IpValue::V4(..)) => Ordering::Greater,
        (
            IpValue::V6(a0, a1, a2, a3, a4, a5, a6, a7),
            IpValue::V6(b0, b1, b2, b3, b4, b5, b6, b7),
        ) => if a0 != b0 {
            spec_num_cmp(a0 as int, b0 as int)
        } else if a1 != b1 {
            spec_num_cmp(a1 as int, b1 as int)
        } else if a2 != b2 {
            spec_num_cmp(a2 as int, b2 as int)
        } else if a3 != b3 {
            spec_num_cmp(a3 as int, b3 as int)
        } else if a4 != b4 {
            spec_num_cmp(a4 as int, b4 as int)
        } else if a5 != b5 {
            spec_num_cmp(a5 as int, b5 as int)
        } else if a6 != b6 {
            spec_num_cmp(a6 as int, b6 as int)
        } else {
            spec_num_cmp(a7 as int, b7 as int)
        },
    }
}

/// Lexicographic text comparison, by code point.
fn str_cmp(a: &str, b: &str) -> (r: Ordering)
    ensures
        r == spec_str_cmp(a@, b@),
{
    let na = a.unicode_len();
    let nb = b.unicode_len();
    let mut i: usize = 0;
    proof {
        assert(a@.skip(0) =~= a@);
        assert(b@.skip(0) =~= b@);
    }
    while i < na && i < nb
        invariant
            na == a@.len(),
            nb == b@.len(),
            i <= na,
            i <= nb,
            spec_str_cmp(a@, b@) == spec_str_cmp(a@.skip(i as int), b@.skip(i as int)),
        decreases na - i,
    {
        let ca = a.get_char(i) as u32;
        let cb = b.get_char(i) as u32;
        proof {
            assert(a@.skip(i as int)[0] == a@[i as int]);
            assert(b@.skip(i as int)[0] == b@[i as int]);
        }
        if ca < cb {
            return Ordering::Less;
        }
        if ca > cb {
            return Ordering::Greater;
        }
        proof {
            assert(a@.skip(i as int).drop_first() =~= a@.skip(i + 1));
            assert(b@.skip(i as int).drop_first() =~= b@.skip(i + 1));
        }
        i = i + 1;
    }
    proof {
        assert(a@.skip(i as int).len() == na - i);
        assert(b@.skip(i as int).len() == nb - i);
    }
    if na == nb {
        Ordering::Equal
    } else if na < nb {
        Ordering::Less
    } else {
        Ordering::Greater
    }
}

/// IEEE 754 partial comparison of two doubles held as bit patterns.
fn float_cmp(a: FloatBits, b: FloatBits) -> (r: Option<Ordering>)
    ensures
        r == spec_float_cmp(a, b),
{
    let sa = a.bits / 0x8000_0000_0000_0000u64;
    let ma = a.bits % 0x8000_0000_0000_0000u64;
    let sb = b.bits / 0x8000_0000_0000_0000u64;
    let mb = b.bits % 0x8000_0000_0000_0000u64;
    if ma > 0x7FF0_0000_0000_0000u64 || mb > 0x7FF0_0000_0000_0000u64 {
        return None;
    }
    if sa == 1 && sb == 1 {
        if mb < ma {
            Some(Ordering::Less)
        } else if mb > ma {
            Some(Ordering::Greater)
        } else {
            Some(Ordering::Equal)
        }
    } else if sa == 1 {
        if ma == 0 && mb == 0 {
            Some(Ordering::Equal)
        } else {
            Some(Ordering::Less)
        }
    } else if sb == 1 {
        if ma == 0 && mb == 0 {
            Some(Ordering::Equal)
        } else {
            Some(Ordering::Greater)
        }
    } else {
        if ma < mb {
            Some(Ordering::Less)
        } else if ma > mb {
            Some(Ordering::Greater)
        } else {
            Some(Ordering::Equal)
        }
    }
}

/// Comparison of two IP addresses.
fn ip_cmp(a: IpValue, b: IpValue) -> (r: Ordering)
    ensures
        r == spec_ip_cmp(a, b),
{
    match (a, b) {
        (IpValue::V4(a0, a1, a2, a3), IpValue::V4(b0, b1, b2, b3)) => {
            let ka = (a0 as u32) * 0x100_0000 + (a1 as u32) * 0x1_0000 + (a2 as u32) * 0x100 + (
            a3 as u32);
            let kb = (b0 as u32) * 0x100_0000 + (b1 as u32) * 0x1_0000 + (b2 as u32) * 0x100 + (
            b3 as u32);
            if ka < kb {
                Ordering::Less
            } else if ka > kb {
                Ordering::Greater
            } else {
                Ordering::Equal
            }
        },
        (IpValue::V4(..), IpValue::V6(..)) => Ordering::Less,
        (IpValue::V6(..), IpValue::V4(..)) => Ordering::Greater,
        (
            IpValue::V6(a0, a1, a2, a3, a4, a5, a6, a7),
            IpValue::V6(b0, b1, b2, b3, b4, b5, b6, b7),
        ) => {
            if a0 != b0 {
                if a0 < b0 {
                    Ordering::Less
                } else {
                    Ordering::Greater
                }
            } else if a1 != b1 {
                if a1 < b1 {
                    Ordering::Less
                } else {
                    Ordering::Greater
                }
            } else if a2 != b2 {
                if a2 < b2 {
                    Ordering::Less
                } else {
                    Ordering::Greater
                }
            } else if a3 != b3 {
                if a3 < b3 {
                    Ordering::Less
                } else {
                    Ordering::Greater
                }
            } else if a4 != b4 {
                if a4 < b4 {
                    Ordering::Less
                } else {
                    Ordering::Greater
                }
            } else if a5 != b5 {
                if a5 < b5 {
                    Ordering::Less
                } else {
                    Ordering::Greater
                }
            } else if a6 != b6 {
                if a6 < b6 {
                    Ordering::Less
                } else {
                    Ordering::Greater
                }
            } else {
                if a7 < b7 {
                    Ordering::Less
                } else if a7 > b7 {
                    Ordering::Greater
                } else {
                    Ordering::Equal
                }
            }
        },
    }
}

/// A payload kind that tagged scalars can order by.
pub trait PayloadCmp: Sized {
    /// How two payloads compare, when they do.
    spec fn cmp_view(&self, other: &Self) -> Option<Ordering>;

    /// The comparison, as specified by `cmp_view`.
    fn payload_cmp(&self, other: &Self) -> (r: Option<Ordering>)
        ensures
            r == self.cmp_view(other),
    ;
}

impl PayloadCmp for u64 {
    open spec fn cmp_view(&self, other: &Self) -> Option<Ordering> {
        Some(spec_num_cmp(*self as int, *other as int))
    }

    fn payload_cmp(&self, other: &Self) -> (r: Option<Ordering>) {
        if *self < *other {
            Some(Ordering::Less)
        } else if *self > *other {
            Some(Ordering::Greater)
        } else {
            Some(Ordering::Equal)
        }
    }
}

impl PayloadCmp for bool {
    open spec fn cmp_view(&self, other: &Self) -> Option<Ordering> {
        Some(
            if *self == *other {
                Ordering::Equal
            } else if !*self {
                Ordering::Less
            } else {
                Ordering::Greater
            },
        )
    }

    fn payload_cmp(&self, other: &Self) -> (r: Option<Ordering>) {
        if *self == *other {
            Some(Ordering::Equal)
        } else if !*self {
            Some(Ordering::Less)
        } else {
            Some(Ordering::Greater)
        }
    }
}

impl PayloadCmp for String {
    open spec fn cmp_view(&self, other: &Self) -> Option<Ordering> {
        Some(spec_str_cmp(self@, other@))
    }

    fn payload_cmp(&self, other: &Self) -> (r: Option<Ordering>) {
        Some(str_cmp(self.as_str(), other.as_str()))
    }
}

impl PayloadCmp for FloatBits {
    open spec fn cmp_view(&self, other: &Self) -> Option<Ordering> {
        spec_float_cmp(*self, *other)
    }

    fn payload_cmp(&self, other: &Self) -> (r: Option<Ordering>) {
        float_cmp(*self, *other)
    }
}

impl PayloadCmp for IpValue {
    open spec fn cmp_view(&self, other: &Self) -> Option<Ordering> {
        Some(spec_ip_cmp(*self, *other))
    }

    fn payload_cmp(&self, other: &Self) -> (r: Option<Ordering>) {
        Some(ip_cmp(*self, *other))
    }
}

impl<T: PayloadCmp> SecValue<T> {
    /// How two tagged scalars compare: by payload alone, the secrecy tags
    /// playing no part.
    pub fn partial_cmp(&self, other: &Self) -> (r: Option<Ordering>)
        ensures
            r == self.value.cmp_view(&other.value),
    {
        self.value.payload_cmp(&other.value)
    }
}

/// How two trees compare: scalars of the same kind by payload alone — tags
/// never take part — and every other pairing, objects and lists included,
/// incomparable.
pub open spec fn spec_tree_cmp(a: SecView, b: SecView) -> Option<Ordering> {
    match (a, b) {
        (SecView::String(x), SecView::String(y)) => Some(spec_str_cmp(x.value, y.value)),
        (SecView::Bool(x), SecView::Bool(y)) => Some(
            if x.value == y.value {
                Ordering::Equal
            } else if !x.value {
                Ordering::Less
            } else {
                Ordering::Greater
            },
        ),
        (SecView::Number(x), SecView::Number(y)) => Some(
            spec_num_cmp(x.value as int, y.value as int),
        ),
        (SecView::Float(x), SecView::Float(y)) => spec_float_cmp(x.value, y.value),
        (SecView::Ip(x), SecView::Ip(y)) => Some(spec_ip_cmp(x.value, y.value)),
        _ => None,
    }
}

impl SecValueType {
    /// How two trees compare: payloads only for same-kind scalars, nothing
    /// else comparable.
    pub fn partial_cmp(&self, other: &Self) -> (r: Option<Ordering>)
        ensures
            r == spec_tree_cmp(sec_view(*self), sec_view(*other)),
    {
        match (self, other) {
            (SecValueType::String(x), SecValueType::String(y)) => x.partial_cmp(y),
            (SecValueType::Bool(x), SecValueType::Bool(y)) => x.partial_cmp(y),
            (SecValueType::Number(x), SecValueType::Number(y)) => x.partial_cmp(y),
            (SecValueType::Float(x), SecValueType::Float(y)) => x.partial_cmp(y),
            (SecValueType::Ip(x), SecValueType::Ip(y)) => x.partial_cmp(y),
            _ => None,
        }
    }
}

/// Ordering never reads secrecy: retagging both sides arbitrarily leaves
/// every comparison unchanged.
pub proof fn lemma_cmp_ignores_tags(a: SecView, b: SecView, first: bool, second: bool)
    ensures
        spec_tree_cmp(set_tags(a, first), set_tags(b, second)) == spec_tree_cmp(a, b),
{
}

} // verus!
