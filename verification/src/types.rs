//! The case-insensitive ordered map that keys a secret value tree.
//!
//! Keys compare equal when their uppercase foldings agree; the casing of the
//! first insertion and the insertion order are both retained for iteration.
//! Re-inserting an existing key updates its value in place, keeping the
//! stored key and the entry's position.
use vstd::prelude::*;

verus! {

/// The uppercase folding under which two keys count as the same key.
///
/// The folding itself is Unicode case mapping, done by the standard library;
/// the contracts only rely on it being a function of the characters alone.
pub uninterp spec fn upper_of(s: Seq<char>) -> Seq<char>;

/// Relies on `str::to_uppercase`: the uppercased text depends on the
/// characters of `s` alone.
#[verifier::external_body]
fn to_upper(s: &str) -> (r: String)
    ensures
        r@ == upper_of(s@),
{
    s.to_uppercase()
}

/// Whether two key texts are the same key: equal under uppercase folding.
pub open spec fn key_eq(a: Seq<char>, b: Seq<char>) -> bool {
    upper_of(a) == upper_of(b)
}

/// Case-insensitive equality of two key texts.
fn str_key_eq(a: &str, b: &str) -> (r: bool)
    ensures
        r == key_eq(a@, b@),
{
    let ua = to_upper(a);
    let ub = to_upper(b);
    ua == ub
}

/// A map key: the text exactly as it was first inserted.  Two keys are the
/// same key when they agree under uppercase folding.
#[derive(Debug, PartialEq)]
pub struct UniString {
    pub text: String,
}

impl Clone for UniString {
    /// The copy carries the same text.
    fn clone(&self) -> (r: Self)
        ensures
            r@ == self@,
    {
        UniString { text: self.text.clone() }
    }
}

impl View for UniString {
    type V = Seq<char>;

    open spec fn view(&self) -> Seq<char> {
        self.text@
    }
}

impl DeepView for UniString {
    type V = Seq<char>;

    open spec fn deep_view(&self) -> Seq<char> {
        self.text@
    }
}

impl UniString {
    pub fn new(text: String) -> (r: Self)
        ensures
            r@ == text@,
    {
        UniString { text }
    }

    pub fn as_str(&self) -> (r: &str)
        ensures
            r@ == self@,
    {
        self.text.as_str()
    }
}

/// The position of the first entry whose key folds equal to `key`, or -1.
pub open spec fn spec_first_match<V>(entries: Seq<(UniString, V)>, key: Seq<char>) -> int
    decreases entries.len(),
{
    if entries.len() == 0 {
        -1
    } else if key_eq(entries[0].0@, key) {
        0
    } else {
        let rest = spec_first_match(entries.drop_first(), key);
        if rest == -1 {
            -1
        } else {
            rest + 1
        }
    }
}

/// What `spec_first_match` finds: -1 exactly when no key matches, else the
/// least matching position.
pub proof fn lemma_first_match<V>(entries: Seq<(UniString, V)>, key: Seq<char>)
    ensures
        ({
            let m = spec_first_match(entries, key);
            &&& m == -1 ==> forall|i: int|
                0 <= i < entries.len() ==> !key_eq(#[trigger] entries[i].0@, key)
            &&& m != -1 ==> 0 <= m < entries.len() && key_eq(entries[m].0@, key) && forall|i: int|
                0 <= i < m ==> !key_eq(#[trigger] entries[i].0@, key)
        }),
    decreases entries.len(),
{
    if entries.len() > 0 && !key_eq(entries[0].0@, key) {
        lemma_first_match(entries.drop_first(), key);
        assert forall|i: int| 1 <= i < entries.len() implies entries.drop_first()[i - 1]
            == #[trigger] entries[i] by {}
    }
}

/// The first matching position is the only place a match can first occur: if
/// no entry before `i` matches and entry `i` does, the first match is `i`.
pub proof fn lemma_first_match_at<V>(entries: Seq<(UniString, V)>, key: Seq<char>, i: int)
    requires
        0 <= i < entries.len(),
        key_eq(entries[i].0@, key),
        forall|j: int| 0 <= j < i ==> !key_eq(#[trigger] entries[j].0@, key),
    ensures
        spec_first_match(entries, key) == i,
{
    lemma_first_match(entries, key);
    let m = spec_first_match(entries, key);
    if m == -1 {
    } else if m < i {
    } else if m > i {
    }
}

/// An ordered key→value container with case-insensitive string keys.
///
/// Iteration order is insertion order; the key casing kept is that of the
/// first insertion.  All operations are total.  Lookups return the first
/// entry whose key folds equal to the one sought.
#[derive(Clone, Debug, PartialEq)]
pub struct UniCaseMap<V> {
    pub entries: Vec<(UniString, V)>,
}

impl<V: DeepView> DeepView for UniCaseMap<V> {
    type V = Seq<(Seq<char>, V::V)>;

    open spec fn deep_view(&self) -> Seq<(Seq<char>, V::V)> {
        Seq::new(
            self.entries@.len(),
            |i: int| (self.entries@[i].0@, self.entries@[i].1.deep_view()),
        )
    }
}

impl<V> UniCaseMap<V> {
    /// An empty map.
    pub fn new() -> (r: Self)
        ensures
            r.entries@ =~= Seq::<(UniString, V)>::empty(),
    {
        UniCaseMap { entries: Vec::new() }
    }

    /// How many entries the map holds.
    pub fn len(&self) -> (r: usize)
        ensures
            r == self.entries@.len(),
    {
        self.entries.len()
    }

    /// Whether the map holds no entry.
    pub fn is_empty(&self) -> (r: bool)
        ensures
            r == (self.entries@.len() == 0),
    {
        self.entries.len() == 0
    }

    /// The entry at a position, in insertion order.
    pub fn get_index(&self, i: usize) -> (r: (&UniString, &V))
        requires
            i < self.entries@.len(),
        ensures
            *r.0 == self.entries@[i as int].0,
            *r.1 == self.entries@[i as int].1,
    {
        let pair = &self.entries[i];
        (&pair.0, &pair.1)
    }

    /// The position of the first entry matching `key`, if any.
    fn find(&self, key: &str) -> (r: Option<usize>)
        ensures
            match r {
                Some(i) => i < self.entries@.len() && spec_first_match(self.entries@, key@)
                    == i as int && key_eq(self.entries@[i as int].0@, key@),
                None => spec_first_match(self.entries@, key@) == -1,
            },
    {
        let n = self.entries.len();
        let mut i: usize = 0;
        while i < n
            invariant
                n == self.entries@.len(),
                i <= n,
                forall|j: int| 0 <= j < i ==> !key_eq(#[trigger] self.entries@[j].0@, key@),
            decreases n - i,
        {
            if str_key_eq(self.entries[i].0.as_str(), key) {
                proof {
                    lemma_first_match_at(self.entries@, key@, i as int);
                }
                return Some(i);
            }
            i = i + 1;
        }
        proof {
            lemma_first_match(self.entries@, key@);
        }
        None
    }

    /// The value stored under `key`, matched case-insensitively; the first
    /// matching entry answers.
    pub fn get(&self, key: &str) -> (r: Option<&V>)
        ensures
            match r {
                Some(v) => {
                    let m = spec_first_match(self.entries@, key@);
                    m >= 0 && *v == self.entries@[m].1
                },
                None => spec_first_match(self.entries@, key@) == -1,
            },
    {
        match self.find(key) {
            Some(i) => Some(&self.entries[i].1),
            None => None,
        }
    }

    /// Whether some entry's key matches `key` case-insensitively.
    pub fn contains(&self, key: &str) -> (r: bool)
        ensures
            r == (spec_first_match(self.entries@, key@) != -1),
    {
        self.find(key).is_some()
    }

    /// Stores `value` under `key`.  When a matching entry already exists its
    /// value is replaced in place — the stored key and the entry's position
    /// stay — and the previous value is returned; otherwise the entry is
    /// appended at the end.
    pub fn insert(&mut self, key: UniString, value: V) -> (prev: Option<V>)
        ensures
            ({
                let m = spec_first_match(old(self).entries@, key@);
                match prev {
                    Some(p) => m >= 0 && p == old(self).entries@[m].1 && final(self).entries@
                        =~= old(self).entries@.update(m, (old(self).entries@[m].0, value)),
                    None => m == -1 && final(self).entries@ =~= old(self).entries@.push(
                        (key, value),
                    ),
                }
            }),
    {
        match self.find(key.as_str()) {
            Some(i) => {
                let old_pair = self.entries.remove(i);
                self.entries.insert(i, (old_pair.0, value));
                proof {
                    assert(self.entries@ =~= old(self).entries@.update(
                        i as int,
                        (old(self).entries@[i as int].0, value),
                    ));
                }
                Some(old_pair.1)
            },
            None => {
                self.entries.push((key, value));
                None
            },
        }
    }

    /// Removes the first entry matching `key` and returns its value; the
    /// remaining entries keep their order.
    pub fn remove(&mut self, key: &str) -> (r: Option<V>)
        ensures
            ({
                let m = spec_first_match(old(self).entries@, key@);
                match r {
                    Some(v) => m >= 0 && v == old(self).entries@[m].1 && final(self).entries@
                        =~= old(self).entries@.remove(m),
                    None => m == -1 && final(self).entries@ =~= old(self).entries@,
                }
            }),
    {
        match self.find(key) {
            Some(i) => {
                let pair = self.entries.remove(i);
                Some(pair.1)
            },
            None => None,
        }
    }
}

} // verus!
