//! The secret-tagged value tree and its conversions.
//!
//! Every scalar leaf carries a secrecy tag; objects and lists carry none —
//! aggregate-level secrecy is deliberately not tracked, so a caller that
//! wants a whole subtree secret relies on the recursive tag operations
//! having been applied, not on an inspectable node-level flag.  The
//! operations here are total: building a tagged tree from a plain one,
//! stripping every tag back off (one-way: no record remains of which leaves
//! were secret), and flipping every leaf to a chosen tagging state.
use vstd::prelude::*;

use crate::types::{UniCaseMap, UniString};
use crate::value::{
    plain_view, FloatBits, IpValue, PlainView, ValueObj, ValueType, ValueVec,
};

verus! {

/// A scalar paired with its secrecy tag.  Ordering and display delegate to
/// `value` alone; `is_secret` decides only whether display masks the text.
#[verifier::ext_equal]
#[derive(Clone, Debug, PartialEq)]
pub struct SecValue<T> {
    pub is_secret: bool,
    pub value: T,
}

impl<T: DeepView> DeepView for SecValue<T> {
    type V = SecValue<<T as DeepView>::V>;

    open spec fn deep_view(&self) -> SecValue<<T as DeepView>::V> {
        SecValue { is_secret: self.is_secret, value: self.value.deep_view() }
    }
}

impl<T> SecValue<T> {
    /// The payload, untouched by any tagging operation.
    pub fn value(&self) -> (r: &T)
        ensures
            *r == self.value,
    {
        &self.value
    }

    /// Whether display must mask this scalar.
    pub fn is_secret(&self) -> (r: bool)
        ensures
            r == self.is_secret,
    {
        self.is_secret
    }
}

pub type SecString = SecValue<String>;

pub type SecBool = SecValue<bool>;

pub type SecU64 = SecValue<u64>;

pub type SecFloat = SecValue<FloatBits>;

pub type SecIpAddr = SecValue<IpValue>;

pub type SecValueObj = UniCaseMap<SecValueType>;

pub type SecValueVec = Vec<SecValueType>;

/// The secret-tagged value tree: one variant per scalar kind, each carrying
/// a tag, plus the two untagged structural variants.
#[derive(Debug, PartialEq)]
pub enum SecValueType {
    String(SecString),
    Bool(SecBool),
    Number(SecU64),
    Float(SecFloat),
    Ip(SecIpAddr),
    Obj(SecValueObj),
    List(SecValueVec),
}

/// The mathematical model of a secret-tagged value tree.
#[verifier::ext_equal]
pub enum SecView {
    String(SecValue<Seq<char>>),
    Bool(SecValue<bool>),
    Number(SecValue<u64>),
    Float(SecValue<FloatBits>),
    Ip(SecValue<IpValue>),
    Obj(Seq<(Seq<char>, SecView)>),
    List(Seq<SecView>),
}

/// The model of a tagged tree: tags at the scalar leaves, structure over
/// sequences.
pub open spec fn sec_view(t: SecValueType) -> SecView
    decreases t,
{
    match t {
        SecValueType::String(v) => SecView::String(
            SecValue { is_secret: v.is_secret, value: v.value@ },
        ),
        SecValueType::Bool(v) => SecView::Bool(v),
        SecValueType::Number(v) => SecView::Number(v),
        SecValueType::Float(v) => SecView::Float(v),
        SecValueType::Ip(v) => SecView::Ip(v),
        SecValueType::Obj(m) => SecView::Obj(
            Seq::new(
                m.entries@.len(),
                |i: int|
                    if 0 <= i < m.entries@.len() {
                        (m.entries@[i].0@, sec_view(m.entries@[i].1))
                    } else {
                        arbitrary()
                    },
            ),
        ),
        SecValueType::List(items) => SecView::List(
            Seq::new(
                items@.len(),
                |i: int|
                    if 0 <= i < items@.len() {
                        sec_view(items@[i])
                    } else {
                        arbitrary()
                    },
            ),
        ),
    }
}

impl DeepView for SecValueType {
    type V = SecView;

    open spec fn deep_view(&self) -> SecView {
        sec_view(*self)
    }
}

/// The tree with every scalar leaf's tag set to `secret`; structure and
/// payloads unchanged.
pub open spec fn set_tags(t: SecView, secret: bool) -> SecView
    decreases t,
{
    match t {
        SecView::String(v) => SecView::String(SecValue { is_secret: secret, value: v.value }),
        SecView::Bool(v) => SecView::Bool(SecValue { is_secret: secret, value: v.value }),
        SecView::Number(v) => SecView::Number(SecValue { is_secret: secret, value: v.value }),
        SecView::Float(v) => SecView::Float(SecValue { is_secret: secret, value: v.value }),
        SecView::Ip(v) => SecView::Ip(SecValue { is_secret: secret, value: v.value }),
        SecView::Obj(entries) => SecView::Obj(
            Seq::new(
                entries.len(),
                |i: int|
                    if 0 <= i < entries.len() {
                        (entries[i].0, set_tags(entries[i].1, secret))
                    } else {
                        arbitrary()
                    },
            ),
        ),
        SecView::List(items) => SecView::List(
            Seq::new(
                items.len(),
                |i: int|
                    if 0 <= i < items.len() {
                        set_tags(items[i], secret)
                    } else {
                        arbitrary()
                    },
            ),
        ),
    }
}

/// Whether every scalar leaf of the tree carries the tag `secret`.
pub open spec fn all_tagged(t: SecView, secret: bool) -> bool
    decreases t,
{
    match t {
        SecView::String(v) => v.is_secret == secret,
        SecView::Bool(v) => v.is_secret == secret,
        SecView::Number(v) => v.is_secret == secret,
        SecView::Float(v) => v.is_secret == secret,
        SecView::Ip(v) => v.is_secret == secret,
        SecView::Obj(entries) => forall|i: int|
            0 <= i < entries.len() ==> all_tagged(#[trigger] entries[i].1, secret),
        SecView::List(items) => forall|i: int|
            0 <= i < items.len() ==> all_tagged(#[trigger] items[i], secret),
    }
}

/// The plain tree left when every secrecy tag is discarded.
pub open spec fn strip(t: SecView) -> PlainView
    decreases t,
{
    match t {
        SecView::String(v) => PlainView::String(v.value),
        SecView::Bool(v) => PlainView::Bool(v.value),
        SecView::Number(v) => PlainView::Number(v.value),
        SecView::Float(v) => PlainView::Float(v.value),
        SecView::Ip(v) => PlainView::Ip(v.value),
        SecView::Obj(entries) => PlainView::Obj(
            Seq::new(
                entries.len(),
                |i: int|
                    if 0 <= i < entries.len() {
                        (entries[i].0, strip(entries[i].1))
                    } else {
                        arbitrary()
                    },
            ),
        ),
        SecView::List(items) => PlainView::List(
            Seq::new(
                items.len(),
                |i: int|
                    if 0 <= i < items.len() {
                        strip(items[i])
                    } else {
                        arbitrary()
                    },
            ),
        ),
    }
}

/// The tagged tree built from a plain one, every scalar leaf tagged
/// `secret`; structure and payloads carried over exactly.
pub open spec fn tag_plain(p: PlainView, secret: bool) -> SecView
    decreases p,
{
    match p {
        PlainView::String(s) => SecView::String(SecValue { is_secret: secret, value: s }),
        PlainView::Bool(b) => SecView::Bool(SecValue { is_secret: secret, value: b }),
        PlainView::Number(n) => SecView::Number(SecValue { is_secret: secret, value: n }),
        PlainView::Float(x) => SecView::Float(SecValue { is_secret: secret, value: x }),
        PlainView::Ip(ip) => SecView::Ip(SecValue { is_secret: secret, value: ip }),
        PlainView::Obj(entries) => SecView::Obj(
            Seq::new(
                entries.len(),
                |i: int|
                    if 0 <= i < entries.len() {
                        (entries[i].0, tag_plain(entries[i].1, secret))
                    } else {
                        arbitrary()
                    },
            ),
        ),
        PlainView::List(items) => SecView::List(
            Seq::new(
                items.len(),
                |i: int|
                    if 0 <= i < items.len() {
                        tag_plain(items[i], secret)
                    } else {
                        arbitrary()
                    },
            ),
        ),
    }
}

/// Strips a tagged tree back to the plain tree it was built from: tagging a
/// plain tree and discarding the tags again is the identity, whatever the
/// tag — tag conversion is lossless on structure and payloads.
pub proof fn lemma_round_trip(p: PlainView, secret: bool)
    ensures
        strip(tag_plain(p, secret)) == p,
    decreases p,
{
    match p {
        PlainView::Obj(entries) => {
            match strip(tag_plain(p, secret)) {
                PlainView::Obj(s1) => {
                    assert forall|j: int| 0 <= j < s1.len() implies s1[j] == entries[j] by {
                        lemma_round_trip(entries[j].1, secret);
                    }
                    assert(s1 =~= entries);
                },
                _ => {},
            }
            assert(strip(tag_plain(p, secret)) =~= p);
        },
        PlainView::List(items) => {
            match strip(tag_plain(p, secret)) {
                PlainView::List(s1) => {
                    assert forall|j: int| 0 <= j < s1.len() implies s1[j] == items[j] by {
                        lemma_round_trip(items[j], secret);
                    }
                    assert(s1 =~= items);
                },
                _ => {},
            }
            assert(strip(tag_plain(p, secret)) =~= p);
        },
        _ => {},
    }
}

/// A later whole-tree tagging wins over an earlier one: retagging a retagged
/// tree is the same as retagging the original once.
pub proof fn lemma_set_tags_overwrite(t: SecView, first: bool, second: bool)
    ensures
        set_tags(set_tags(t, first), second) == set_tags(t, second),
    decreases t,
{
    match t {
        SecView::Obj(entries) => {
            match (set_tags(set_tags(t, first), second), set_tags(t, second)) {
                (SecView::Obj(s1), SecView::Obj(s2)) => {
                    assert forall|j: int| 0 <= j < s1.len() implies s1[j] == s2[j] by {
                        lemma_set_tags_overwrite(entries[j].1, first, second);
                    }
                    assert(s1 =~= s2);
                },
                _ => {},
            }
            assert(set_tags(set_tags(t, first), second) =~= set_tags(t, second));
        },
        SecView::List(items) => {
            match (set_tags(set_tags(t, first), second), set_tags(t, second)) {
                (SecView::List(s1), SecView::List(s2)) => {
                    assert forall|j: int| 0 <= j < s1.len() implies s1[j] == s2[j] by {
                        lemma_set_tags_overwrite(items[j], first, second);
                    }
                    assert(s1 =~= s2);
                },
                _ => {},
            }
            assert(set_tags(set_tags(t, first), second) =~= set_tags(t, second));
        },
        _ => {},
    }
}

/// Retagging a tree to the state all its leaves already have changes
/// nothing.
pub proof fn lemma_set_tags_noop(t: SecView, secret: bool)
    requires
        all_tagged(t, secret),
    ensures
        set_tags(t, secret) == t,
    decreases t,
{
    match t {
        SecView::Obj(entries) => {
            match set_tags(t, secret) {
                SecView::Obj(s1) => {
                    assert forall|j: int| 0 <= j < s1.len() implies s1[j] == entries[j] by {
                        lemma_set_tags_noop(entries[j].1, secret);
                    }
                    assert(s1 =~= entries);
                },
                _ => {},
            }
            assert(set_tags(t, secret) =~= t);
        },
        SecView::List(items) => {
            match set_tags(t, secret) {
                SecView::List(s1) => {
                    assert forall|j: int| 0 <= j < s1.len() implies s1[j] == items[j] by {
                        lemma_set_tags_noop(items[j], secret);
                    }
                    assert(s1 =~= items);
                },
                _ => {},
            }
            assert(set_tags(t, secret) =~= t);
        },
        _ => {},
    }
}

/// Retagging a whole tree is idempotent: tagging to a state twice is the
/// same as tagging to it once.
pub proof fn lemma_retag_idempotent(t: SecView, secret: bool)
    ensures
        set_tags(set_tags(t, secret), secret) == set_tags(t, secret),
{
    lemma_set_tags_overwrite(t, secret, secret);
}

/// After a whole-tree tagging, every leaf carries the chosen tag.
pub proof fn lemma_set_tags_all(t: SecView, secret: bool)
    ensures
        all_tagged(set_tags(t, secret), secret),
    decreases t,
{
    match t {
        SecView::Obj(entries) => {
            match set_tags(t, secret) {
                SecView::Obj(s1) => {
                    assert forall|j: int| 0 <= j < s1.len() implies all_tagged(
                        #[trigger] s1[j].1,
                        secret,
                    ) by {
                        lemma_set_tags_all(entries[j].1, secret);
                    }
                },
                _ => {},
            }
        },
        SecView::List(items) => {
            match set_tags(t, secret) {
                SecView::List(s1) => {
                    assert forall|j: int| 0 <= j < s1.len() implies all_tagged(
                        #[trigger] s1[j],
                        secret,
                    ) by {
                        lemma_set_tags_all(items[j], secret);
                    }
                },
                _ => {},
            }
        },
        _ => {},
    }
}

/// Tag-flip inverse on an untouched tree: a tree none of whose leaves is
/// secret, made secret and then normal again, is restored exactly.
pub proof fn lemma_flip_restores(t: SecView)
    requires
        all_tagged(t, false),
    ensures
        set_tags(set_tags(t, true), false) == t,
{
    lemma_set_tags_overwrite(t, true, false);
    lemma_set_tags_noop(t, false);
}

/// Stripping ignores tags: a retagged tree strips to the same plain tree
/// as the original — only secrecy metadata ever changes under a tag flip.
pub proof fn lemma_strip_ignores_tags(t: SecView, secret: bool)
    ensures
        strip(set_tags(t, secret)) == strip(t),
    decreases t,
{
    match t {
        SecView::Obj(entries) => {
            match (strip(set_tags(t, secret)), strip(t)) {
                (PlainView::Obj(s1), PlainView::Obj(s2)) => {
                    assert forall|j: int| 0 <= j < s1.len() implies s1[j] == s2[j] by {
                        lemma_strip_ignores_tags(entries[j].1, secret);
                    }
                    assert(s1 =~= s2);
                },
                _ => {},
            }
            assert(strip(set_tags(t, secret)) =~= strip(t));
        },
        SecView::List(items) => {
            match (strip(set_tags(t, secret)), strip(t)) {
                (PlainView::List(s1), PlainView::List(s2)) => {
                    assert forall|j: int| 0 <= j < s1.len() implies s1[j] == s2[j] by {
                        lemma_strip_ignores_tags(items[j], secret);
                    }
                    assert(s1 =~= s2);
                },
                _ => {},
            }
            assert(strip(set_tags(t, secret)) =~= strip(t));
        },
        _ => {},
    }
}

/// Rebuilding a stripped tree with a uniform tag is the same as retagging
/// the tree directly: conversion and tag flips agree through each other.
pub proof fn lemma_tag_after_strip(t: SecView, secret: bool)
    ensures
        tag_plain(strip(t), secret) == set_tags(t, secret),
    decreases t,
{
    match t {
        SecView::Obj(entries) => {
            match (tag_plain(strip(t), secret), set_tags(t, secret)) {
                (SecView::Obj(s1), SecView::Obj(s2)) => {
                    assert forall|j: int| 0 <= j < s1.len() implies s1[j] == s2[j] by {
                        assert(strip(t)->Obj_0[j] == (entries[j].0, strip(entries[j].1)));
                        lemma_tag_after_strip(entries[j].1, secret);
                    }
                    assert(s1 =~= s2);
                },
                _ => {},
            }
            assert(tag_plain(strip(t), secret) =~= set_tags(t, secret));
        },
        SecView::List(items) => {
            match (tag_plain(strip(t), secret), set_tags(t, secret)) {
                (SecView::List(s1), SecView::List(s2)) => {
                    assert forall|j: int| 0 <= j < s1.len() implies s1[j] == s2[j] by {
                        assert(strip(t)->List_0[j] == strip(items[j]));
                        lemma_tag_after_strip(items[j], secret);
                    }
                    assert(s1 =~= s2);
                },
                _ => {},
            }
            assert(tag_plain(strip(t), secret) =~= set_tags(t, secret));
        },
        _ => {},
    }
}

/// An object node's model is its map's model, entry for entry.
pub proof fn lemma_obj_view(m: SecValueObj)
    ensures
        sec_view(SecValueType::Obj(m)) == SecView::Obj(m.deep_view()),
{
    match sec_view(SecValueType::Obj(m)) {
        SecView::Obj(s1) => {
            assert forall|j: int| 0 <= j < s1.len() implies s1[j] == m.deep_view()[j] by {
                assert(s1[j] == (m.entries@[j].0@, sec_view(m.entries@[j].1)));
                assert(m.deep_view()[j] == (m.entries@[j].0@, m.entries@[j].1.deep_view()));
            }
            assert(s1 =~= m.deep_view());
        },
        _ => {},
    }
}

/// A list node's model is its vector's model, item for item.
pub proof fn lemma_list_view(items: SecValueVec)
    ensures
        sec_view(SecValueType::List(items)) == SecView::List(items.deep_view()),
{
    match sec_view(SecValueType::List(items)) {
        SecView::List(s1) => {
            assert forall|j: int| 0 <= j < s1.len() implies s1[j] == items.deep_view()[j] by {
                assert(s1[j] == sec_view(items@[j]));
                assert(items.deep_view()[j] == items@[j].deep_view());
            }
            assert(s1 =~= items.deep_view());
        },
        _ => {},
    }
}

/// Converts a tree between plain and tagged form.  `sec_from` tags every
/// scalar leaf secret, `nor_from` tags every leaf normal; both fan the flag
/// down through arbitrary nesting.
pub trait SecFrom<T: DeepView>: Sized + DeepView {
    /// The model of the conversion's result for a given source model.
    spec fn from_view(v: <T as DeepView>::V, secret: bool) -> Self::V;

    /// Builds the value with every scalar leaf tagged secret.
    fn sec_from(value: T) -> (r: Self)
        ensures
            r.deep_view() == Self::from_view(value.deep_view(), true),
    ;

    /// Builds the value with every scalar leaf tagged normal.
    fn nor_from(value: T) -> (r: Self)
        ensures
            r.deep_view() == Self::from_view(value.deep_view(), false),
    ;
}

/// Flips every scalar leaf of a value to a fixed tagging state, leaving
/// payloads and structure unchanged.
pub trait SecConv: Sized + DeepView {
    /// The model of `self` with every leaf tag set to `secret`.
    spec fn retagged(self, secret: bool) -> Self::V;

    /// Returns `self` with every scalar leaf tagged normal.
    #[must_use]
    fn to_nor(self) -> (r: Self)
        ensures
            r.deep_view() == self.retagged(false),
    ;

    /// Returns `self` with every scalar leaf tagged secret.
    #[must_use]
    fn to_sec(self) -> (r: Self)
        ensures
            r.deep_view() == self.retagged(true),
    ;
}

/// Discards secrecy tags permanently, handing back the plain form.
pub trait NoSecConv<T: DeepView>: Sized + DeepView {
    /// The model of the plain value that stripping yields.
    spec fn no_sec_view(self) -> <T as DeepView>::V;

    /// Strips every secrecy tag; no record remains of which leaves were
    /// secret.
    fn no_sec(self) -> (r: T)
        ensures
            r.deep_view() == self.no_sec_view(),
    ;
}

/// A copy of the tree with every scalar leaf's tag set to `secret`.
#[verifier::loop_isolation(false)]
fn retag_tree(t: &SecValueType, secret: bool) -> (r: SecValueType)
    ensures
        sec_view(r) == set_tags(sec_view(*t), secret),
    decreases t,
{
    match t {
        SecValueType::String(v) => SecValueType::String(
            SecValue { is_secret: secret, value: v.value.clone() },
        ),
        SecValueType::Bool(v) => SecValueType::Bool(SecValue { is_secret: secret, value: v.value }),
        SecValueType::Number(v) => SecValueType::Number(
            SecValue { is_secret: secret, value: v.value },
        ),
        SecValueType::Float(v) => SecValueType::Float(
            SecValue { is_secret: secret, value: v.value },
        ),
        SecValueType::Ip(v) => SecValueType::Ip(SecValue { is_secret: secret, value: v.value }),
        SecValueType::Obj(m) => {
            let n = m.entries.len();
            let mut out: Vec<(UniString, SecValueType)> = Vec::new();
            let mut i: usize = 0;
            while i < n
                invariant
                    n == m.entries@.len(),
                    i <= n,
                    out@.len() == i,
                    forall|j: int|
                        0 <= j < i ==> (#[trigger] out@[j]).0@ == m.entries@[j].0@ && sec_view(
                            out@[j].1,
                        ) == set_tags(sec_view(m.entries@[j].1), secret),
                decreases n - i,
            {
                let pair = &m.entries[i];
                out.push((pair.0.clone(), retag_tree(&pair.1, secret)));
                i = i + 1;
            }
            let r = SecValueType::Obj(UniCaseMap { entries: out });
            proof {
                match (sec_view(r), set_tags(sec_view(*t), secret)) {
                    (SecView::Obj(s1), SecView::Obj(s2)) => {
                        assert forall|j: int| 0 <= j < s1.len() implies s1[j] == s2[j] by {
                            assert(s1[j] == (out@[j].0@, sec_view(out@[j].1)));
                            assert(sec_view(*t)->Obj_0[j] == (
                                m.entries@[j].0@,
                                sec_view(m.entries@[j].1),
                            ));
                            assert(s2[j] == (
                                m.entries@[j].0@,
                                set_tags(sec_view(m.entries@[j].1), secret),
                            ));
                        }
                        assert(s1 =~= s2);
                    },
                    _ => {},
                }
                assert(sec_view(r) =~= set_tags(sec_view(*t), secret));
            }
            r
        },
        SecValueType::List(items) => {
            let n = items.len();
            let mut out: SecValueVec = Vec::new();
            let mut i: usize = 0;
            while i < n
                invariant
                    n == items@.len(),
                    i <= n,
                    out@.len() == i,
                    forall|j: int|
                        0 <= j < i ==> sec_view(#[trigger] out@[j]) == set_tags(
                            sec_view(items@[j]),
                            secret,
                        ),
                decreases n - i,
            {
                out.push(retag_tree(&items[i], secret));
                i = i + 1;
            }
            let r = SecValueType::List(out);
            proof {
                match (sec_view(r), set_tags(sec_view(*t), secret)) {
                    (SecView::List(s1), SecView::List(s2)) => {
                        assert forall|j: int| 0 <= j < s1.len() implies s1[j] == s2[j] by {
                            assert(s1[j] == sec_view(out@[j]));
                            assert(sec_view(*t)->List_0[j] == sec_view(items@[j]));
                            assert(s2[j] == set_tags(sec_view(items@[j]), secret));
                        }
                        assert(s1 =~= s2);
                    },
                    _ => {},
                }
                assert(sec_view(r) =~= set_tags(sec_view(*t), secret));
            }
            r
        },
    }
}

/// A structural copy of a tagged tree; the copy has the same model.
#[verifier::loop_isolation(false)]
fn clone_tree(t: &SecValueType) -> (r: SecValueType)
    ensures
        sec_view(r) == sec_view(*t),
    decreases t,
{
    match t {
        SecValueType::String(v) => SecValueType::String(
            SecValue { is_secret: v.is_secret, value: v.value.clone() },
        ),
        SecValueType::Bool(v) => SecValueType::Bool(
            SecValue { is_secret: v.is_secret, value: v.value },
        ),
        SecValueType::Number(v) => SecValueType::Number(
            SecValue { is_secret: v.is_secret, value: v.value },
        ),
        SecValueType::Float(v) => SecValueType::Float(
            SecValue { is_secret: v.is_secret, value: v.value },
        ),
        SecValueType::Ip(v) => SecValueType::Ip(
            SecValue { is_secret: v.is_secret, value: v.value },
        ),
        SecValueType::Obj(m) => {
            let n = m.entries.len();
            let mut out: Vec<(UniString, SecValueType)> = Vec::new();
            let mut i: usize = 0;
            while i < n
                invariant
                    n == m.entries@.len(),
                    i <= n,
                    out@.len() == i,
                    forall|j: int|
                        0 <= j < i ==> (#[trigger] out@[j]).0@ == m.entries@[j].0@ && sec_view(
                            out@[j].1,
                        ) == sec_view(m.entries@[j].1),
                decreases n - i,
            {
                let pair = &m.entries[i];
                out.push((pair.0.clone(), clone_tree(&pair.1)));
                i = i + 1;
            }
            let r = SecValueType::Obj(UniCaseMap { entries: out });
            proof {
                match (sec_view(r), sec_view(*t)) {
                    (SecView::Obj(s1), SecView::Obj(s2)) => {
                        assert forall|j: int| 0 <= j < s1.len() implies s1[j] == s2[j] by {
                            assert(s1[j] == (out@[j].0@, sec_view(out@[j].1)));
                            assert(s2[j] == (m.entries@[j].0@, sec_view(m.entries@[j].1)));
                        }
                        assert(s1 =~= s2);
                    },
                    _ => {},
                }
                assert(sec_view(r) =~= sec_view(*t));
            }
            r
        },
        SecValueType::List(items) => {
            let n = items.len();
            let mut out: SecValueVec = Vec::new();
            let mut i: usize = 0;
            while i < n
                invariant
                    n == items@.len(),
                    i <= n,
                    out@.len() == i,
                    forall|j: int|
                        0 <= j < i ==> sec_view(#[trigger] out@[j]) == sec_view(items@[j]),
                decreases n - i,
            {
                out.push(clone_tree(&items[i]));
                i = i + 1;
            }
            let r = SecValueType::List(out);
            proof {
                match (sec_view(r), sec_view(*t)) {
                    (SecView::List(s1), SecView::List(s2)) => {
                        assert forall|j: int| 0 <= j < s1.len() implies s1[j] == s2[j] by {
                            assert(s1[j] == sec_view(out@[j]));
                            assert(s2[j] == sec_view(items@[j]));
                        }
                        assert(s1 =~= s2);
                    },
                    _ => {},
                }
                assert(sec_view(r) =~= sec_view(*t));
            }
            r
        },
    }
}

impl Clone for SecValueType {
    /// The copy is structurally equal to the original.
    fn clone(&self) -> (r: Self)
        ensures
            sec_view(r) == sec_view(*self),
    {
        clone_tree(self)
    }
}

impl SecValueType {
    /// The tree with every scalar leaf tagged normal; structure and
    /// payloads unchanged.
    #[must_use]
    pub fn to_nor(self) -> (r: Self)
        ensures
            sec_view(r) == set_tags(sec_view(self), false),
    {
        retag_tree(&self, false)
    }

    /// The tree with every scalar leaf tagged secret; structure and
    /// payloads unchanged.
    #[must_use]
    pub fn to_sec(self) -> (r: Self)
        ensures
            sec_view(r) == set_tags(sec_view(self), true),
    {
        retag_tree(&self, true)
    }
}

/// The tagged tree built from a plain one, every leaf tagged `secret`.
#[verifier::loop_isolation(false)]
fn tag_tree(p: &ValueType, secret: bool) -> (r: SecValueType)
    ensures
        sec_view(r) == tag_plain(plain_view(*p), secret),
    decreases p,
{
    match p {
        ValueType::String(s) => SecValueType::String(
            SecValue { is_secret: secret, value: s.clone() },
        ),
        ValueType::Bool(b) => SecValueType::Bool(SecValue { is_secret: secret, value: *b }),
        ValueType::Number(n) => SecValueType::Number(SecValue { is_secret: secret, value: *n }),
        ValueType::Float(x) => SecValueType::Float(SecValue { is_secret: secret, value: *x }),
        ValueType::Ip(ip) => SecValueType::Ip(SecValue { is_secret: secret, value: *ip }),
        ValueType::Obj(entries) => {
            let n = entries.len();
            let mut out: Vec<(UniString, SecValueType)> = Vec::new();
            let mut i: usize = 0;
            while i < n
                invariant
                    n == entries@.len(),
                    i <= n,
                    out@.len() == i,
                    forall|j: int|
                        0 <= j < i ==> (#[trigger] out@[j]).0@ == entries@[j].0@ && sec_view(
                            out@[j].1,
                        ) == tag_plain(plain_view(entries@[j].1), secret),
                decreases n - i,
            {
                let pair = &entries[i];
                out.push((UniString { text: pair.0.clone() }, tag_tree(&pair.1, secret)));
                i = i + 1;
            }
            let r = SecValueType::Obj(UniCaseMap { entries: out });
            proof {
                match (sec_view(r), tag_plain(plain_view(*p), secret)) {
                    (SecView::Obj(s1), SecView::Obj(s2)) => {
                        assert forall|j: int| 0 <= j < s1.len() implies s1[j] == s2[j] by {
                            assert(s1[j] == (out@[j].0@, sec_view(out@[j].1)));
                            assert(plain_view(*p)->Obj_0[j] == (
                                entries@[j].0@,
                                plain_view(entries@[j].1),
                            ));
                            assert(s2[j] == (
                                entries@[j].0@,
                                tag_plain(plain_view(entries@[j].1), secret),
                            ));
                        }
                        assert(s1 =~= s2);
                    },
                    _ => {},
                }
                assert(sec_view(r) =~= tag_plain(plain_view(*p), secret));
            }
            r
        },
        ValueType::List(items) => {
            let n = items.len();
            let mut out: SecValueVec = Vec::new();
            let mut i: usize = 0;
            while i < n
                invariant
                    n == items@.len(),
                    i <= n,
                    out@.len() == i,
                    forall|j: int|
                        0 <= j < i ==> sec_view(#[trigger] out@[j]) == tag_plain(
                            plain_view(items@[j]),
                            secret,
                        ),
                decreases n - i,
            {
                out.push(tag_tree(&items[i], secret));
                i = i + 1;
            }
            let r = SecValueType::List(out);
            proof {
                match (sec_view(r), tag_plain(plain_view(*p), secret)) {
                    (SecView::List(s1), SecView::List(s2)) => {
                        assert forall|j: int| 0 <= j < s1.len() implies s1[j] == s2[j] by {
                            assert(s1[j] == sec_view(out@[j]));
                            assert(plain_view(*p)->List_0[j] == plain_view(items@[j]));
                            assert(s2[j] == tag_plain(plain_view(items@[j]), secret));
                        }
                        assert(s1 =~= s2);
                    },
                    _ => {},
                }
                assert(sec_view(r) =~= tag_plain(plain_view(*p), secret));
            }
            r
        },
    }
}

/// The plain tree left when every secrecy tag of a tagged tree is dropped.
#[verifier::loop_isolation(false)]
fn strip_tree(t: &SecValueType) -> (r: ValueType)
    ensures
        plain_view(r) == strip(sec_view(*t)),
    decreases t,
{
    match t {
        SecValueType::String(v) => ValueType::String(v.value.clone()),
        SecValueType::Bool(v) => ValueType::Bool(v.value),
        SecValueType::Number(v) => ValueType::Number(v.value),
        SecValueType::Float(v) => ValueType::Float(v.value),
        SecValueType::Ip(v) => ValueType::Ip(v.value),
        SecValueType::Obj(m) => {
            let n = m.entries.len();
            let mut out: ValueObj = Vec::new();
            let mut i: usize = 0;
            while i < n
                invariant
                    n == m.entries@.len(),
                    i <= n,
                    out@.len() == i,
                    forall|j: int|
                        0 <= j < i ==> (#[trigger] out@[j]).0@ == m.entries@[j].0@ && plain_view(
                            out@[j].1,
                        ) == strip(sec_view(m.entries@[j].1)),
                decreases n - i,
            {
                let pair = &m.entries[i];
                out.push((pair.0.text.clone(), strip_tree(&pair.1)));
                i = i + 1;
            }
            let r = ValueType::Obj(out);
            proof {
                match (plain_view(r), strip(sec_view(*t))) {
                    (PlainView::Obj(s1), PlainView::Obj(s2)) => {
                        assert forall|j: int| 0 <= j < s1.len() implies s1[j] == s2[j] by {
                            assert(s1[j] == (out@[j].0@, plain_view(out@[j].1)));
                            assert(sec_view(*t)->Obj_0[j] == (
                                m.entries@[j].0@,
                                sec_view(m.entries@[j].1),
                            ));
                            assert(s2[j] == (
                                m.entries@[j].0@,
                                strip(sec_view(m.entries@[j].1)),
                            ));
                        }
                        assert(s1 =~= s2);
                    },
                    _ => {},
                }
                assert(plain_view(r) =~= strip(sec_view(*t)));
            }
            r
        },
        SecValueType::List(items) => {
            let n = items.len();
            let mut out: ValueVec = Vec::new();
            let mut i: usize = 0;
            while i < n
                invariant
                    n == items@.len(),
                    i <= n,
                    out@.len() == i,
                    forall|j: int|
                        0 <= j < i ==> plain_view(#[trigger] out@[j]) == strip(
                            sec_view(items@[j]),
                        ),
                decreases n - i,
            {
                out.push(strip_tree(&items[i]));
                i = i + 1;
            }
            let r = ValueType::List(out);
            proof {
                match (plain_view(r), strip(sec_view(*t))) {
                    (PlainView::List(s1), PlainView::List(s2)) => {
                        assert forall|j: int| 0 <= j < s1.len() implies s1[j] == s2[j] by {
                            assert(s1[j] == plain_view(out@[j]));
                            assert(sec_view(*t)->List_0[j] == sec_view(items@[j]));
                            assert(s2[j] == strip(sec_view(items@[j])));
                        }
                        assert(s1 =~= s2);
                    },
                    _ => {},
                }
                assert(plain_view(r) =~= strip(sec_view(*t)));
            }
            r
        },
    }
}

impl<T: DeepView> SecFrom<T> for SecValue<T> {
    open spec fn from_view(v: <T as DeepView>::V, secret: bool) -> Self::V {
        SecValue { is_secret: secret, value: v }
    }

    fn sec_from(value: T) -> (r: Self) {
        SecValue { is_secret: true, value }
    }

    fn nor_from(value: T) -> (r: Self) {
        SecValue { is_secret: false, value }
    }
}

impl<T: DeepView> SecConv for SecValue<T> {
    open spec fn retagged(self, secret: bool) -> Self::V {
        SecValue { is_secret: secret, value: self.value.deep_view() }
    }

    fn to_nor(self) -> (r: Self) {
        SecValue { is_secret: false, value: self.value }
    }

    fn to_sec(self) -> (r: Self) {
        SecValue { is_secret: true, value: self.value }
    }
}

/// Retags every scalar in the vector, keeping order and payloads.
#[verifier::loop_isolation(false)]
fn retag_scalar_vec<T: DeepView>(v: Vec<SecValue<T>>, secret: bool) -> (r: Vec<SecValue<T>>)
    ensures
        r.deep_view() == Seq::new(
            v@.len(),
            |i: int| SecValue { is_secret: secret, value: v@[i].value.deep_view() },
        ),
{
    let ghost orig = v@;
    let mut rest = v;
    let mut out: Vec<SecValue<T>> = Vec::new();
    while rest.len() > 0
        invariant
            out@.len() + rest@.len() == orig.len(),
            rest@ =~= orig.subrange(out@.len() as int, orig.len() as int),
            forall|j: int|
                0 <= j < out@.len() ==> #[trigger] out@[j] == (SecValue {
                    is_secret: secret,
                    value: orig[j].value,
                }),
        decreases rest@.len(),
    {
        let x = rest.remove(0);
        out.push(SecValue { is_secret: secret, value: x.value });
        proof {
            assert(rest@ =~= orig.subrange(out@.len() as int, orig.len() as int));
        }
    }
    proof {
        assert(out.deep_view() =~= Seq::new(
            orig.len(),
            |i: int| SecValue { is_secret: secret, value: orig[i].value.deep_view() },
        ));
    }
    out
}

impl<T: DeepView> SecConv for Vec<SecValue<T>> {
    open spec fn retagged(self, secret: bool) -> Self::V {
        Seq::new(
            self@.len(),
            |i: int| SecValue { is_secret: secret, value: self@[i].value.deep_view() },
        )
    }

    fn to_nor(self) -> (r: Self) {
        retag_scalar_vec(self, false)
    }

    fn to_sec(self) -> (r: Self) {
        retag_scalar_vec(self, true)
    }
}

/// Retags every scalar value in the map, keeping keys, order and payloads.
#[verifier::loop_isolation(false)]
fn retag_scalar_map<T: DeepView>(m: UniCaseMap<SecValue<T>>, secret: bool) -> (r: UniCaseMap<
    SecValue<T>,
>)
    ensures
        r.deep_view() == Seq::new(
            m.entries@.len(),
            |i: int|
                (
                    m.entries@[i].0@,
                    SecValue { is_secret: secret, value: m.entries@[i].1.value.deep_view() },
                ),
        ),
{
    let ghost orig = m.entries@;
    let mut rest = m.entries;
    let mut out: Vec<(UniString, SecValue<T>)> = Vec::new();
    while rest.len() > 0
        invariant
            out@.len() + rest@.len() == orig.len(),
            rest@ =~= orig.subrange(out@.len() as int, orig.len() as int),
            forall|j: int|
                0 <= j < out@.len() ==> (#[trigger] out@[j]).0 == orig[j].0 && out@[j].1
                    == (SecValue { is_secret: secret, value: orig[j].1.value }),
        decreases rest@.len(),
    {
        let pair = rest.remove(0);
        out.push((pair.0, SecValue { is_secret: secret, value: pair.1.value }));
        proof {
            assert(rest@ =~= orig.subrange(out@.len() as int, orig.len() as int));
        }
    }
    let r = UniCaseMap { entries: out };
    proof {
        assert(r.deep_view() =~= Seq::new(
            orig.len(),
            |i: int|
                (orig[i].0@, SecValue { is_secret: secret, value: orig[i].1.value.deep_view() }),
        ));
    }
    r
}

impl<T: DeepView> SecConv for UniCaseMap<SecValue<T>> {
    open spec fn retagged(self, secret: bool) -> Self::V {
        Seq::new(
            self.entries@.len(),
            |i: int|
                (
                    self.entries@[i].0@,
                    SecValue { is_secret: secret, value: self.entries@[i].1.value.deep_view() },
                ),
        )
    }

    fn to_nor(self) -> (r: Self) {
        retag_scalar_map(self, false)
    }

    fn to_sec(self) -> (r: Self) {
        retag_scalar_map(self, true)
    }
}

/// Retags every tree in the vector, keeping order.
#[verifier::loop_isolation(false)]
fn retag_tree_vec(v: Vec<SecValueType>, secret: bool) -> (r: Vec<SecValueType>)
    ensures
        r.deep_view() == Seq::new(v@.len(), |i: int| set_tags(sec_view(v@[i]), secret)),
{
    let n = v.len();
    let mut out: SecValueVec = Vec::new();
    let mut i: usize = 0;
    while i < n
        invariant
            n == v@.len(),
            i <= n,
            out@.len() == i,
            forall|j: int|
                0 <= j < i ==> sec_view(#[trigger] out@[j]) == set_tags(sec_view(v@[j]), secret),
        decreases n - i,
    {
        out.push(retag_tree(&v[i], secret));
        i = i + 1;
    }
    proof {
        assert(out.deep_view() =~= Seq::new(v@.len(), |i: int| set_tags(sec_view(v@[i]), secret)));
    }
    out
}

impl SecConv for Vec<SecValueType> {
    open spec fn retagged(self, secret: bool) -> Self::V {
        Seq::new(self@.len(), |i: int| set_tags(sec_view(self@[i]), secret))
    }

    fn to_nor(self) -> (r: Self) {
        retag_tree_vec(self, false)
    }

    fn to_sec(self) -> (r: Self) {
        retag_tree_vec(self, true)
    }
}

/// Retags every tree stored in the map, keeping keys and order.
#[verifier::loop_isolation(false)]
fn retag_tree_map(m: SecValueObj, secret: bool) -> (r: SecValueObj)
    ensures
        r.deep_view() == Seq::new(
            m.entries@.len(),
            |i: int| (m.entries@[i].0@, set_tags(sec_view(m.entries@[i].1), secret)),
        ),
{
    let n = m.entries.len();
    let mut out: Vec<(UniString, SecValueType)> = Vec::new();
    let mut i: usize = 0;
    while i < n
        invariant
            n == m.entries@.len(),
            i <= n,
            out@.len() == i,
            forall|j: int|
                0 <= j < i ==> (#[trigger] out@[j]).0@ == m.entries@[j].0@ && sec_view(out@[j].1)
                    == set_tags(sec_view(m.entries@[j].1), secret),
        decreases n - i,
    {
        let pair = &m.entries[i];
        out.push((pair.0.clone(), retag_tree(&pair.1, secret)));
        i = i + 1;
    }
    let r = UniCaseMap { entries: out };
    proof {
        assert(r.deep_view() =~= Seq::new(
            m.entries@.len(),
            |i: int| (m.entries@[i].0@, set_tags(sec_view(m.entries@[i].1), secret)),
        ));
    }
    r
}

impl SecConv for SecValueObj {
    open spec fn retagged(self, secret: bool) -> Self::V {
        Seq::new(
            self.entries@.len(),
            |i: int| (self.entries@[i].0@, set_tags(sec_view(self.entries@[i].1), secret)),
        )
    }

    fn to_nor(self) -> (r: Self) {
        retag_tree_map(self, false)
    }

    fn to_sec(self) -> (r: Self) {
        retag_tree_map(self, true)
    }
}

impl SecFrom<String> for SecValueType {
    open spec fn from_view(v: Seq<char>, secret: bool) -> SecView {
        SecView::String(SecValue { is_secret: secret, value: v })
    }

    fn sec_from(value: String) -> (r: Self) {
        SecValueType::String(SecValue { is_secret: true, value })
    }

    fn nor_from(value: String) -> (r: Self) {
        SecValueType::String(SecValue { is_secret: false, value })
    }
}

impl SecFrom<bool> for SecValueType {
    open spec fn from_view(v: bool, secret: bool) -> SecView {
        SecView::Bool(SecValue { is_secret: secret, value: v })
    }

    fn sec_from(value: bool) -> (r: Self) {
        SecValueType::Bool(SecValue { is_secret: true, value })
    }

    fn nor_from(value: bool) -> (r: Self) {
        SecValueType::Bool(SecValue { is_secret: false, value })
    }
}

impl SecFrom<u64> for SecValueType {
    open spec fn from_view(v: u64, secret: bool) -> SecView {
        SecView::Number(SecValue { is_secret: secret, value: v })
    }

    fn sec_from(value: u64) -> (r: Self) {
        SecValueType::Number(SecValue { is_secret: true, value })
    }

    fn nor_from(value: u64) -> (r: Self) {
        SecValueType::Number(SecValue { is_secret: false, value })
    }
}

impl SecFrom<FloatBits> for SecValueType {
    open spec fn from_view(v: FloatBits, secret: bool) -> SecView {
        SecView::Float(SecValue { is_secret: secret, value: v })
    }

    fn sec_from(value: FloatBits) -> (r: Self) {
        SecValueType::Float(SecValue { is_secret: true, value })
    }

    fn nor_from(value: FloatBits) -> (r: Self) {
        SecValueType::Float(SecValue { is_secret: false, value })
    }
}

impl SecFrom<IpValue> for SecValueType {
    open spec fn from_view(v: IpValue, secret: bool) -> SecView {
        SecView::Ip(SecValue { is_secret: secret, value: v })
    }

    fn sec_from(value: IpValue) -> (r: Self) {
        SecValueType::Ip(SecValue { is_secret: true, value })
    }

    fn nor_from(value: IpValue) -> (r: Self) {
        SecValueType::Ip(SecValue { is_secret: false, value })
    }
}

impl SecFrom<ValueType> for SecValueType {
    open spec fn from_view(v: PlainView, secret: bool) -> SecView {
        tag_plain(v, secret)
    }

    fn sec_from(value: ValueType) -> (r: Self) {
        tag_tree(&value, true)
    }

    fn nor_from(value: ValueType) -> (r: Self) {
        tag_tree(&value, false)
    }
}

/// Builds a tagged object from plain entries, tagging every leaf `secret`.
#[verifier::loop_isolation(false)]
fn tag_obj_entries(value: &ValueObj, secret: bool) -> (r: SecValueType)
    ensures
        sec_view(r) == SecView::Obj(
            Seq::new(
                value.deep_view().len(),
                |i: int| (value.deep_view()[i].0, tag_plain(value.deep_view()[i].1, secret)),
            ),
        ),
{
    let n = value.len();
    let mut out: Vec<(UniString, SecValueType)> = Vec::new();
    let mut i: usize = 0;
    while i < n
        invariant
            n == value@.len(),
            i <= n,
            out@.len() == i,
            forall|j: int|
                0 <= j < i ==> (#[trigger] out@[j]).0@ == value@[j].0@ && sec_view(out@[j].1)
                    == tag_plain(plain_view(value@[j].1), secret),
        decreases n - i,
    {
        let pair = &value[i];
        out.push((UniString { text: pair.0.clone() }, tag_tree(&pair.1, secret)));
        i = i + 1;
    }
    let r = SecValueType::Obj(UniCaseMap { entries: out });
    proof {
        match sec_view(r) {
            SecView::Obj(s1) => {
                assert forall|j: int| 0 <= j < s1.len() implies s1[j] == (
                    value.deep_view()[j].0,
                    tag_plain(value.deep_view()[j].1, secret),
                ) by {
                    assert(s1[j] == (out@[j].0@, sec_view(out@[j].1)));
                    assert(value.deep_view()[j] == (value@[j].0@, plain_view(value@[j].1)));
                }
                assert(s1 =~= Seq::new(
                    value.deep_view().len(),
                    |i: int| (value.deep_view()[i].0, tag_plain(value.deep_view()[i].1, secret)),
                ));
            },
            _ => {},
        }
    }
    r
}

impl SecFrom<ValueObj> for SecValueType {
    open spec fn from_view(v: Seq<(Seq<char>, PlainView)>, secret: bool) -> SecView {
        SecView::Obj(Seq::new(v.len(), |i: int| (v[i].0, tag_plain(v[i].1, secret))))
    }

    fn sec_from(value: ValueObj) -> (r: Self) {
        tag_obj_entries(&value, true)
    }

    fn nor_from(value: ValueObj) -> (r: Self) {
        tag_obj_entries(&value, false)
    }
}

/// Builds a tagged list from plain items, tagging every leaf `secret`.
#[verifier::loop_isolation(false)]
fn tag_list_items(value: &ValueVec, secret: bool) -> (r: SecValueType)
    ensures
        sec_view(r) == SecView::List(
            Seq::new(value.deep_view().len(), |i: int| tag_plain(value.deep_view()[i], secret)),
        ),
{
    let n = value.len();
    let mut out: SecValueVec = Vec::new();
    let mut i: usize = 0;
    while i < n
        invariant
            n == value@.len(),
            i <= n,
            out@.len() == i,
            forall|j: int|
                0 <= j < i ==> sec_view(#[trigger] out@[j]) == tag_plain(
                    plain_view(value@[j]),
                    secret,
                ),
        decreases n - i,
    {
        out.push(tag_tree(&value[i], secret));
        i = i + 1;
    }
    let r = SecValueType::List(out);
    proof {
        match sec_view(r) {
            SecView::List(s1) => {
                assert forall|j: int| 0 <= j < s1.len() implies s1[j] == tag_plain(
                    value.deep_view()[j],
                    secret,
                ) by {
                    assert(s1[j] == sec_view(out@[j]));
                    assert(value.deep_view()[j] == plain_view(value@[j]));
                }
                assert(s1 =~= Seq::new(
                    value.deep_view().len(),
                    |i: int| tag_plain(value.deep_view()[i], secret),
                ));
            },
            _ => {},
        }
    }
    r
}

impl SecFrom<ValueVec> for SecValueType {
    open spec fn from_view(v: Seq<PlainView>, secret: bool) -> SecView {
        SecView::List(Seq::new(v.len(), |i: int| tag_plain(v[i], secret)))
    }

    fn sec_from(value: ValueVec) -> (r: Self) {
        tag_list_items(&value, true)
    }

    fn nor_from(value: ValueVec) -> (r: Self) {
        tag_list_items(&value, false)
    }
}

impl NoSecConv<ValueType> for SecValueType {
    open spec fn no_sec_view(self) -> PlainView {
        strip(sec_view(self))
    }

    fn no_sec(self) -> (r: ValueType) {
        strip_tree(&self)
    }
}

impl NoSecConv<ValueVec> for Vec<SecValueType> {
    open spec fn no_sec_view(self) -> Seq<PlainView> {
        Seq::new(self@.len(), |i: int| strip(sec_view(self@[i])))
    }

    fn no_sec(self) -> (r: ValueVec) {
        let n = self.len();
        let mut out: ValueVec = Vec::new();
        let mut i: usize = 0;
        while i < n
            invariant
                n == self@.len(),
                i <= n,
                out@.len() == i,
                forall|j: int|
                    0 <= j < i ==> plain_view(#[trigger] out@[j]) == strip(sec_view(self@[j])),
            decreases n - i,
        {
            out.push(strip_tree(&self[i]));
            i = i + 1;
        }
        proof {
            assert(out.deep_view() =~= Seq::new(
                self@.len(),
                |i: int| strip(sec_view(self@[i])),
            ));
        }
        out
    }
}

impl NoSecConv<ValueObj> for SecValueObj {
    open spec fn no_sec_view(self) -> Seq<(Seq<char>, PlainView)> {
        Seq::new(
            self.entries@.len(),
            |i: int| (self.entries@[i].0@, strip(sec_view(self.entries@[i].1))),
        )
    }

    fn no_sec(self) -> (r: ValueObj) {
        let n = self.entries.len();
        let mut out: ValueObj = Vec::new();
        let mut i: usize = 0;
        while i < n
            invariant
                n == self.entries@.len(),
                i <= n,
                out@.len() == i,
                forall|j: int|
                    0 <= j < i ==> (#[trigger] out@[j]).0@ == self.entries@[j].0@ && plain_view(
                        out@[j].1,
                    ) == strip(sec_view(self.entries@[j].1)),
            decreases n - i,
        {
            let pair = &self.entries[i];
            out.push((pair.0.text.clone(), strip_tree(&pair.1)));
            i = i + 1;
        }
        proof {
            assert(out.deep_view() =~= Seq::new(
                self.entries@.len(),
                |i: int| (self.entries@[i].0@, strip(sec_view(self.entries@[i].1))),
            ));
        }
        out
    }
}

} // verus!
