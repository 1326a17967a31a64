//! Dotted/indexed path resolution over a secret value tree.
//!
//! A path is a sequence of dot-separated segments.  A segment may carry a
//! bracketed non-negative index, as in `a.b[2].c`: look up `b`, expect a
//! list, take its element 2, then go on.  Key lookup is case-insensitive.
//! Every failure — missing key, index out of range, malformed index text,
//! descent through a scalar — shows up uniformly as an absent result.
use vstd::prelude::*;

use crate::sec::{lemma_list_view, lemma_obj_view, sec_view, SecValueObj, SecValueType, SecView};
use crate::types::{key_eq, lemma_first_match, spec_first_match, UniString};

verus! {

/// The position of the first character equal to `c`, or -1.
pub open spec fn spec_find_char(s: Seq<char>, c: char) -> int
    decreases s.len(),
{
    if s.len() == 0 {
        -1
    } else if s[0] == c {
        0
    } else {
        let rest = spec_find_char(s.drop_first(), c);
        if rest == -1 {
            -1
        } else {
            rest + 1
        }
    }
}

/// What `spec_find_char` finds: -1 exactly when the character is absent,
/// else its first position.
pub proof fn lemma_find_char(s: Seq<char>, c: char)
    ensures
        ({
            let m = spec_find_char(s, c);
            &&& m == -1 ==> forall|i: int| 0 <= i < s.len() ==> s[i] != c
            &&& m != -1 ==> 0 <= m < s.len() && s[m] == c && forall|i: int| 0 <= i < m ==> s[i] != c
        }),
    decreases s.len(),
{
    if s.len() > 0 && s[0] != c {
        lemma_find_char(s.drop_first(), c);
        assert forall|i: int| 1 <= i < s.len() implies s.drop_first()[i - 1] == s[i] by {}
    }
}

/// If no character before `i` equals `c` and the one at `i` does, the first
/// occurrence is `i`.
pub proof fn lemma_find_char_at(s: Seq<char>, c: char, i: int)
    requires
        0 <= i < s.len(),
        s[i] == c,
        forall|j: int| 0 <= j < i ==> s[j] != c,
    ensures
        spec_find_char(s, c) == i,
{
    lemma_find_char(s, c);
}

/// The text split at every occurrence of `sep`.  Splitting never yields an
/// empty sequence: a text without the separator is one part, possibly empty.
pub open spec fn spec_split(s: Seq<char>, sep: char) -> Seq<Seq<char>>
    decreases s.len(),
{
    let m = spec_find_char(s, sep);
    if m < 0 || m >= s.len() {
        seq![s]
    } else {
        seq![s.subrange(0, m)] + spec_split(s.subrange(m + 1, s.len() as int), sep)
    }
}

/// Whether every character is a decimal digit.
pub open spec fn all_digits(s: Seq<char>) -> bool {
    forall|i: int| 0 <= i < s.len() ==> '0' <= #[trigger] s[i] <= '9'
}

/// Whether the text is a well-formed decimal number: nonempty digits.
pub open spec fn spec_is_digits(s: Seq<char>) -> bool {
    s.len() > 0 && all_digits(s)
}

/// The number the digit text denotes.
pub open spec fn spec_digits_val(s: Seq<char>) -> int
    decreases s.len(),
{
    if s.len() == 0 {
        0
    } else {
        spec_digits_val(s.drop_last()) * 10 + (s.last() as u32 - '0' as u32)
    }
}

/// A digit text denotes a non-negative number.
pub proof fn lemma_digits_val_nonneg(s: Seq<char>)
    requires
        all_digits(s),
    ensures
        spec_digits_val(s) >= 0,
    decreases s.len(),
{
    if s.len() > 0 {
        lemma_digits_val_nonneg(s.drop_last());
    }
}

/// A digit prefix never denotes more than the whole digit text.
pub proof fn lemma_digits_val_prefix(s: Seq<char>, k: int)
    requires
        all_digits(s),
        0 <= k <= s.len(),
    ensures
        spec_digits_val(s.subrange(0, k)) <= spec_digits_val(s),
    decreases s.len(),
{
    if k == s.len() {
        assert(s.subrange(0, k) =~= s);
    } else {
        assert(s.drop_last().subrange(0, k) =~= s.subrange(0, k));
        lemma_digits_val_prefix(s.drop_last(), k);
        lemma_digits_val_nonneg(s.drop_last());
    }
}

/// A path segment: a bare key, or a key with a bracketed list index.
pub enum SegView {
    Plain(Seq<char>),
    Indexed(Seq<char>, int),
}

/// How a segment's text parses: `key[digits]` with the digits denoting a
/// machine-representable number is an indexed segment; anything else — no
/// bracket, no closing bracket last, non-digit or oversized index — is a
/// bare key of the whole text.
pub open spec fn spec_seg_of(part: Seq<char>) -> SegView {
    let b = spec_find_char(part, '[');
    if b < 0 || part.len() == 0 || part.last() != ']' {
        SegView::Plain(part)
    } else {
        let digits = part.subrange(b + 1, part.len() - 1);
        if spec_is_digits(digits) && spec_digits_val(digits) <= usize::MAX as int {
            SegView::Indexed(part.subrange(0, b), spec_digits_val(digits))
        } else {
            SegView::Plain(part)
        }
    }
}

/// The position of the first entry of an object model whose key folds equal
/// to `key`, or -1.
pub open spec fn view_first_match(entries: Seq<(Seq<char>, SecView)>, key: Seq<char>) -> int
    decreases entries.len(),
{
    if entries.len() == 0 {
        -1
    } else if key_eq(entries[0].0, key) {
        0
    } else {
        let rest = view_first_match(entries.drop_first(), key);
        if rest == -1 {
            -1
        } else {
            rest + 1
        }
    }
}

/// The value of the first entry matching `key`, if any.
pub open spec fn view_lookup(entries: Seq<(Seq<char>, SecView)>, key: Seq<char>) -> Option<
    SecView,
> {
    let m = view_first_match(entries, key);
    if m == -1 {
        None
    } else {
        Some(entries[m].1)
    }
}

/// The two first-match searches agree when the model entries mirror the
/// stored entries pointwise.
proof fn lemma_match_agree(
    a: Seq<(UniString, SecValueType)>,
    b: Seq<(Seq<char>, SecView)>,
    key: Seq<char>,
)
    requires
        a.len() == b.len(),
        forall|i: int|
            0 <= i < a.len() ==> (#[trigger] b[i]).0 == a[i].0@ && b[i].1 == sec_view(a[i].1),
    ensures
        view_first_match(b, key) == spec_first_match(a, key),
    decreases a.len(),
{
    if a.len() > 0 && !key_eq(a[0].0@, key) {
        assert forall|i: int| 0 <= i < a.len() - 1 implies (#[trigger] b.drop_first()[i]).0
            == a.drop_first()[i].0@ && b.drop_first()[i].1 == sec_view(a.drop_first()[i].1) by {
            assert(a.drop_first()[i] == a[i + 1]);
            assert(b.drop_first()[i] == b[i + 1]);
        }
        lemma_match_agree(a.drop_first(), b.drop_first(), key);
    }
}

/// What a path resolves to, segment by segment, starting from an object's
/// entries.  Each segment looks its key up case-insensitively; a bracketed
/// segment additionally indexes into the list found.  The value of the last
/// segment is the answer, whatever its kind; every earlier segment must
/// produce an object to descend into.
pub open spec fn spec_resolve(entries: Seq<(Seq<char>, SecView)>, segs: Seq<SegView>) -> Option<
    SecView,
>
    decreases segs.len(),
{
    if segs.len() == 0 {
        None
    } else {
        let found = match segs[0] {
            SegView::Plain(key) => view_lookup(entries, key),
            SegView::Indexed(key, idx) => match view_lookup(entries, key) {
                Some(SecView::List(items)) => if 0 <= idx < items.len() {
                    Some(items[idx])
                } else {
                    None
                },
                _ => None,
            },
        };
        match found {
            None => None,
            Some(v) => if segs.len() == 1 {
                Some(v)
            } else {
                match v {
                    SecView::Obj(es) => spec_resolve(es, segs.drop_first()),
                    _ => None,
                }
            },
        }
    }
}

/// What `get` returns for a path over an object model: the path text split
/// at dots, each part read as a segment, resolved from the root entries.
pub open spec fn spec_value_get(entries: Seq<(Seq<char>, SecView)>, path: Seq<char>) -> Option<
    SecView,
> {
    spec_resolve(entries, spec_split(path, '.').map_values(|p: Seq<char>| spec_seg_of(p)))
}

/// Resolves a path to a value inside a structure.
pub trait ValueGetter<T: DeepView> {
    /// The model of what the path resolves to.
    spec fn get_view(&self, path: Seq<char>) -> Option<<T as DeepView>::V>;

    /// The value the path resolves to, or nothing.  Failures — missing key,
    /// out-of-range or malformed index, descent through a scalar — are all
    /// reported as absence.
    fn value_get(&self, path: &str) -> (r: Option<T>)
        ensures
            match r {
                Some(v) => self.get_view(path@) == Some(v.deep_view()),
                None => self.get_view(path@) is None,
            },
    ;
}

/// The position of the first `c` in `s`, if any.
fn find_char(s: &str, c: char) -> (r: Option<usize>)
    ensures
        match r {
            Some(i) => i < s@.len() && spec_find_char(s@, c) == i as int,
            None => spec_find_char(s@, c) == -1,
        },
{
    let n = s.unicode_len();
    let mut i: usize = 0;
    while i < n
        invariant
            n == s@.len(),
            i <= n,
            forall|j: int| 0 <= j < i ==> s@[j] != c,
        decreases n - i,
    {
        if s.get_char(i) == c {
            proof {
                lemma_find_char_at(s@, c, i as int);
            }
            return Some(i);
        }
        i = i + 1;
    }
    proof {
        lemma_find_char(s@, c);
    }
    None
}

/// The path text split at every dot.
fn split_path(path: &str) -> (parts: Vec<String>)
    ensures
        parts.deep_view() == spec_split(path@, '.'),
    decreases path@.len(),
{
    match find_char(path, '.') {
        None => {
            let mut v: Vec<String> = Vec::new();
            v.push(path.to_owned());
            proof {
                assert(v.deep_view() =~= spec_split(path@, '.'));
            }
            v
        },
        Some(m) => {
            let n = path.unicode_len();
            let head = path.substring_char(0, m).to_owned();
            let tail = path.substring_char(m + 1, n);
            let mut rest = split_path(tail);
            rest.insert(0, head);
            proof {
                assert(rest.deep_view() =~= spec_split(path@, '.'));
            }
            rest
        },
    }
}

/// The number a digit text denotes, when well-formed and representable.
fn parse_usize(s: &str) -> (r: Option<usize>)
    ensures
        match r {
            Some(v) => spec_is_digits(s@) && spec_digits_val(s@) == v as int,
            None => !spec_is_digits(s@) || spec_digits_val(s@) > usize::MAX as int,
        },
{
    let n = s.unicode_len();
    if n == 0 {
        return None;
    }
    let mut acc: usize = 0;
    let mut i: usize = 0;
    while i < n
        invariant
            n == s@.len(),
            i <= n,
            forall|j: int| 0 <= j < i ==> '0' <= #[trigger] s@[j] <= '9',
            acc as int == spec_digits_val(s@.subrange(0, i as int)),
        decreases n - i,
    {
        let c = s.get_char(i);
        let cu = c as u32;
        if cu < 48 || cu > 57 {
            return None;
        }
        let d = (cu - 48) as usize;
        proof {
            assert(s@.subrange(0, i + 1 as int).drop_last() =~= s@.subrange(0, i as int));
            assert(s@.subrange(0, i + 1 as int).last() == s@[i as int]);
        }
        let next = match acc.checked_mul(10) {
            Some(m10) => m10.checked_add(d),
            None => None,
        };
        match next {
            Some(v) => {
                acc = v;
            },
            None => {
                proof {
                    if spec_is_digits(s@) {
                        lemma_digits_val_prefix(s@, i + 1 as int);
                    }
                }
                return None;
            },
        }
        i = i + 1;
    }
    proof {
        assert(s@.subrange(0, n as int) =~= s@);
    }
    Some(acc)
}

/// A parsed path segment.
pub enum PathSeg {
    Plain(String),
    Indexed(String, usize),
}

impl DeepView for PathSeg {
    type V = SegView;

    open spec fn deep_view(&self) -> SegView {
        match self {
            PathSeg::Plain(s) => SegView::Plain(s@),
            PathSeg::Indexed(k, i) => SegView::Indexed(k@, *i as int),
        }
    }
}

/// One part of a path read as a segment.
fn parse_seg(part: &str) -> (r: PathSeg)
    ensures
        r.deep_view() == spec_seg_of(part@),
{
    let n = part.unicode_len();
    match find_char(part, '[') {
        None => PathSeg::Plain(part.to_owned()),
        Some(b) => {
            proof {
                lemma_find_char(part@, '[');
            }
            if part.get_char(n - 1) != ']' {
                return PathSeg::Plain(part.to_owned());
            }
            if b + 1 > n - 1 {
                proof {
                    assert(part@[b as int] == '[');
                    assert(part@[n - 1 as int] == ']');
                    assert(false);
                }
                return PathSeg::Plain(part.to_owned());
            }
            let digits = part.substring_char(b + 1, n - 1);
            match parse_usize(digits) {
                None => PathSeg::Plain(part.to_owned()),
                Some(idx) => {
                    let key = part.substring_char(0, b).to_owned();
                    PathSeg::Indexed(key, idx)
                },
            }
        },
    }
}

/// The whole path text parsed into segments.
fn parse_path(path: &str) -> (r: Vec<PathSeg>)
    ensures
        r.deep_view() == spec_split(path@, '.').map_values(|p: Seq<char>| spec_seg_of(p)),
{
    let parts = split_path(path);
    let n = parts.len();
    let mut segs: Vec<PathSeg> = Vec::new();
    let mut i: usize = 0;
    while i < n
        invariant
            n == parts@.len(),
            i <= n,
            segs@.len() == i,
            parts.deep_view() == spec_split(path@, '.'),
            forall|j: int|
                0 <= j < i ==> (#[trigger] segs@[j]).deep_view() == spec_seg_of(
                    parts.deep_view()[j],
                ),
        decreases n - i,
    {
        proof {
            assert(parts.deep_view()[i as int] == parts@[i as int]@);
        }
        segs.push(parse_seg(parts[i].as_str()));
        i = i + 1;
    }
    proof {
        assert(segs.deep_view() =~= spec_split(path@, '.').map_values(
            |p: Seq<char>| spec_seg_of(p),
        ));
    }
    segs
}

/// Resolves the segments from position `k` on against an object.
#[verifier::loop_isolation(false)]
fn resolve_from(obj: &SecValueObj, segs: &Vec<PathSeg>, k: usize) -> (r: Option<SecValueType>)
    requires
        k <= segs@.len(),
    ensures
        ({
            let res = spec_resolve(obj.deep_view(), segs.deep_view().skip(k as int));
            match r {
                Some(v) => res == Some(sec_view(v)),
                None => res is None,
            }
        }),
    decreases segs@.len() - k,
{
    let ghost rem = segs.deep_view().skip(k as int);
    if k >= segs.len() {
        return None;
    }
    proof {
        assert(rem[0] == segs.deep_view()[k as int]);
        assert(forall|i: int|
            0 <= i < obj.entries@.len() ==> (#[trigger] obj.deep_view()[i]).0
                == obj.entries@[i].0@ && obj.deep_view()[i].1 == sec_view(obj.entries@[i].1));
    }
    let seg = &segs[k];
    let found: Option<&SecValueType> = match seg {
        PathSeg::Plain(key) => {
            proof {
                lemma_match_agree(obj.entries@, obj.deep_view(), key@);
                lemma_first_match(obj.entries@, key@);
            }
            obj.get(key.as_str())
        },
        PathSeg::Indexed(key, idx) => {
            proof {
                lemma_match_agree(obj.entries@, obj.deep_view(), key@);
                lemma_first_match(obj.entries@, key@);
            }
            match obj.get(key.as_str()) {
                Some(v) => match v {
                    SecValueType::List(items) => {
                        proof {
                            lemma_list_view(*items);
                        }
                        if *idx < items.len() {
                            Some(&items[*idx])
                        } else {
                            None
                        }
                    },
                    _ => None,
                },
                None => None,
            }
        },
    };
    match found {
        None => None,
        Some(v) => {
            if k + 1 == segs.len() {
                proof {
                    assert(rem.len() == 1);
                }
                Some(v.clone())
            } else {
                proof {
                    assert(rem.drop_first() =~= segs.deep_view().skip((k + 1) as int));
                }
                match v {
                    SecValueType::Obj(m) => {
                        proof {
                            lemma_obj_view(*m);
                        }
                        resolve_from(m, segs, k + 1)
                    },
                    _ => None,
                }
            }
        },
    }
}

impl ValueGetter<SecValueType> for SecValueObj {
    open spec fn get_view(&self, path: Seq<char>) -> Option<SecView> {
        spec_value_get(self.deep_view(), path)
    }

    fn value_get(&self, path: &str) -> (r: Option<SecValueType>) {
        let segs = parse_path(path);
        proof {
            assert(segs.deep_view().skip(0) =~= segs.deep_view());
        }
        resolve_from(self, &segs, 0)
    }
}

} // verus!
