//! The plain (untagged) value tree that an external configuration loader
//! produces, together with its mathematical model.
//!
//! A plain value is a recursive datum made of strings, booleans, unsigned
//! integers, floating-point numbers (held by their IEEE 754 bit pattern),
//! IP addresses (held as plain octets or segments), ordered string-keyed
//! objects and lists.  The loader that parses a configuration file converts
//! its own representation into this one at the boundary; the core never
//! touches a file or the process environment.
use vstd::prelude::*;

verus! {

/// An IEEE 754 double-precision number held by its raw bit pattern.
///
/// The core never does floating-point arithmetic; it only stores, compares
/// and transports such values.  Comparison is defined on the bit pattern with
/// exactly the IEEE 754 partial order (see `float_cmp` in `sec`), so holding
/// the bits loses nothing that the core needs.
#[derive(Clone, Copy, Debug, PartialEq, Eq, Structural)]
pub struct FloatBits {
    pub bits: u64,
}

impl View for FloatBits {
    type V = FloatBits;

    open spec fn view(&self) -> FloatBits {
        *self
    }
}

impl DeepView for FloatBits {
    type V = FloatBits;

    open spec fn deep_view(&self) -> FloatBits {
        *self
    }
}

/// An IP address as plain values: four octets for a version-4 address,
/// eight 16-bit segments for a version-6 address.
#[derive(Clone, Copy, Debug, PartialEq, Eq, Structural)]
pub enum IpValue {
    V4(u8, u8, u8, u8),
    V6(u16, u16, u16, u16, u16, u16, u16, u16),
}

impl View for IpValue {
    type V = IpValue;

    open spec fn view(&self) -> IpValue {
        *self
    }
}

impl DeepView for IpValue {
    type V = IpValue;

    open spec fn deep_view(&self) -> IpValue {
        *self
    }
}

/// A plain value tree: what a configuration loader hands the core and what
/// the core hands back when secrecy tags are stripped.
///
/// An object is an ordered sequence of key/value entries; the order is the
/// insertion order chosen by whoever built the tree, and duplicate keys are
/// representable (the tree is a faithful image of the loader's document).
#[derive(Debug, PartialEq)]
pub enum ValueType {
    String(String),
    Bool(bool),
    Number(u64),
    Float(FloatBits),
    Ip(IpValue),
    Obj(ValueObj),
    List(ValueVec),
}

/// The entries of a plain object, in insertion order.
pub type ValueObj = Vec<(String, ValueType)>;

/// The items of a plain list.
pub type ValueVec = Vec<ValueType>;

/// The mathematical model of a plain value tree.
#[verifier::ext_equal]
pub enum PlainView {
    String(Seq<char>),
    Bool(bool),
    Number(u64),
    Float(FloatBits),
    Ip(IpValue),
    Obj(Seq<(Seq<char>, PlainView)>),
    List(Seq<PlainView>),
}

/// The model of a plain value tree: tag-free structure over sequences.
pub open spec fn plain_view(t: ValueType) -> PlainView
    decreases t,
{
    match t {
        ValueType::String(s) => PlainView::String(s@),
        ValueType::Bool(b) => PlainView::Bool(b),
        ValueType::Number(n) => PlainView::Number(n),
        ValueType::Float(x) => PlainView::Float(x),
        ValueType::Ip(ip) => PlainView::Ip(ip),
        ValueType::Obj(entries) => PlainView::Obj(
            Seq::new(
                entries@.len(),
                |i: int|
                    if 0 <= i < entries@.len() {
                        (entries@[i].0@, plain_view(entries@[i].1))
                    } else {
                        arbitrary()
                    },
            ),
        ),
        ValueType::List(items) => PlainView::List(
            Seq::new(
                items@.len(),
                |i: int|
                    if 0 <= i < items@.len() {
                        plain_view(items@[i])
                    } else {
                        arbitrary()
                    },
            ),
        ),
    }
}

impl DeepView for ValueType {
    type V = PlainView;

    open spec fn deep_view(&self) -> PlainView {
        plain_view(*self)
    }
}

/// Two plain objects with pointwise equal keys and value models are the same
/// object in the model.
pub proof fn lemma_plain_view_obj(a: ValueObj, b: ValueObj)
    requires
        a@.len() == b@.len(),
        forall|i: int|
            0 <= i < a@.len() ==> (#[trigger] a@[i]).0@ == b@[i].0@ && plain_view(a@[i].1)
                == plain_view(b@[i].1),
    ensures
        plain_view(ValueType::Obj(a)) == plain_view(ValueType::Obj(b)),
{
    match (plain_view(ValueType::Obj(a)), plain_view(ValueType::Obj(b))) {
        (PlainView::Obj(s1), PlainView::Obj(s2)) => {
            assert forall|j: int| 0 <= j < s1.len() implies s1[j] == s2[j] by {
                assert(s1[j] == (a@[j].0@, plain_view(a@[j].1)));
                assert(s2[j] == (b@[j].0@, plain_view(b@[j].1)));
            }
            assert(s1 =~= s2);
        },
        _ => {},
    }
    assert(plain_view(ValueType::Obj(a)) =~= plain_view(ValueType::Obj(b)));
}

/// Two plain lists with pointwise equal item models are the same list in the
/// model.
pub proof fn lemma_plain_view_list(a: ValueVec, b: ValueVec)
    requires
        a@.len() == b@.len(),
        forall|i: int| 0 <= i < a@.len() ==> plain_view(#[trigger] a@[i]) == plain_view(b@[i]),
    ensures
        plain_view(ValueType::List(a)) == plain_view(ValueType::List(b)),
{
    match (plain_view(ValueType::List(a)), plain_view(ValueType::List(b))) {
        (PlainView::List(s1), PlainView::List(s2)) => {
            assert forall|j: int| 0 <= j < s1.len() implies s1[j] == s2[j] by {
                assert(s1[j] == plain_view(a@[j]));
                assert(s2[j] == plain_view(b@[j]));
            }
            assert(s1 =~= s2);
        },
        _ => {},
    }
    assert(plain_view(ValueType::List(a)) =~= plain_view(ValueType::List(b)));
}

/// A structural copy of a plain value tree; the copy has the same model.
#[verifier::loop_isolation(false)]
fn clone_value(t: &ValueType) -> (r: ValueType)
    ensures
        r.deep_view() == t.deep_view(),
    decreases t,
{
    match t {
        ValueType::String(s) => ValueType::String(s.clone()),
        ValueType::Bool(b) => ValueType::Bool(*b),
        ValueType::Number(n) => ValueType::Number(*n),
        ValueType::Float(x) => ValueType::Float(*x),
        ValueType::Ip(ip) => ValueType::Ip(*ip),
        ValueType::Obj(entries) => {
            let n = entries.len();
            let mut out: ValueObj = Vec::new();
            let mut i: usize = 0;
            while i < n
                invariant
                    n == entries@.len(),
                    i <= n,
                    out@.len() == i,
                    forall|j: int| 0 <= j < i ==> (#[trigger] out@[j]).0@ == entries@[j].0@
                        && plain_view(out@[j].1) == plain_view(entries@[j].1),
                decreases n - i,
            {
                let pair = &entries[i];
                out.push((pair.0.clone(), clone_value(&pair.1)));
                i = i + 1;
            }
            proof {
                lemma_plain_view_obj(out, match t {
                    ValueType::Obj(e) => *e,
                    _ => arbitrary(),
                });
            }
            ValueType::Obj(out)
        },
        ValueType::List(items) => {
            let n = items.len();
            let mut out: ValueVec = Vec::new();
            let mut i: usize = 0;
            while i < n
                invariant
                    n == items@.len(),
                    i <= n,
                    out@.len() == i,
                    forall|j: int| 0 <= j < i ==> plain_view(#[trigger] out@[j])
                        == plain_view(items@[j]),
                decreases n - i,
            {
                out.push(clone_value(&items[i]));
                i = i + 1;
            }
            proof {
                lemma_plain_view_list(out, match t {
                    ValueType::List(v) => *v,
                    _ => arbitrary(),
                });
            }
            ValueType::List(out)
        },
    }
}

impl Clone for ValueType {
    /// The copy is structurally equal to the original.
    fn clone(&self) -> (r: Self)
        ensures
            r.deep_view() == self.deep_view(),
    {
        clone_value(self)
    }
}

} // verus!
