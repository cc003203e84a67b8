//! Sorted, deduplicated aggregation, through itertools, and the proof that
//! such an aggregate is determined by membership alone.

use vstd::prelude::*;
use crate::strutil::{has_str, lex_lt, strictly_sorted, views};
use itertools::Itertools;

verus! {

/// Relies on `Itertools::sorted` (a stable sort by `Ord`) followed by
/// `Itertools::dedup` (drop consecutive equal items): the result holds each
/// distinct input string once, in ascending order.  `str` orders
/// lexicographically by byte value, which over UTF-8 is the code-point order
/// `lex_lt`.
#[verifier::external_body]
pub(crate) fn sorted_dedup(v: Vec<String>) -> (r: Vec<String>)
    ensures
        strictly_sorted(views(r@)),
        forall|x: Seq<char>| #[trigger] has_str(r@, x) ==> has_str(v@, x),
        forall|x: Seq<char>| #[trigger] has_str(v@, x) ==> has_str(r@, x),
{
    v.into_iter().sorted().dedup().collect()
}

/// The view of a preprocessor-define entry: name and optional value.
pub open spec fn define_view(p: (String, Option<String>)) -> (Seq<char>, Option<Seq<char>>) {
    (
        p.0@,
        match p.1 {
            Some(s) => Some(s@),
            None => None,
        },
    )
}

pub open spec fn define_views(v: Seq<(String, Option<String>)>) -> Seq<
    (Seq<char>, Option<Seq<char>>),
> {
    v.map_values(|p: (String, Option<String>)| define_view(p))
}

pub open spec fn has_define(v: Seq<(String, Option<String>)>, x: (Seq<char>, Option<Seq<char>>)) -> bool {
    exists|i: int| 0 <= i < v.len() && define_view(v[i]) == x
}

/// Strict order on define entries: by name, then `None` before any value,
/// then by value.  This is how the pairs order through `Ord` on
/// `(String, Option<String>)`.
pub open spec fn define_lt(a: (Seq<char>, Option<Seq<char>>), b: (Seq<char>, Option<Seq<char>>)) -> bool {
    lex_lt(a.0, b.0) || (a.0 == b.0 && match (a.1, b.1) {
        (Option::None, Option::Some(_)) => true,
        (Option::Some(x), Option::Some(y)) => lex_lt(x, y),
        _ => false,
    })
}

pub open spec fn strictly_sorted_defines(s: Seq<(Seq<char>, Option<Seq<char>>)>) -> bool {
    forall|i: int, j: int| 0 <= i < j < s.len() ==> define_lt(s[i], s[j])
}

/// Relies on `Itertools::sorted` and `Itertools::dedup` on
/// `(String, Option<String>)` pairs, whose derived `Ord` is lexicographic on
/// the pair with `None` ordered before `Some`: each distinct pair once, in
/// ascending order.
#[verifier::external_body]
pub(crate) fn sorted_dedup_defines(v: Vec<(String, Option<String>)>) -> (r: Vec<(String, Option<String>)>)
    ensures
        strictly_sorted_defines(define_views(r@)),
        forall|x: (Seq<char>, Option<Seq<char>>)| #[trigger] has_define(r@, x) ==> has_define(v@, x),
        forall|x: (Seq<char>, Option<Seq<char>>)| #[trigger] has_define(v@, x) ==> has_define(r@, x),
{
    v.into_iter().sorted().dedup().collect()
}

pub proof fn lemma_has_define_concat(
    a: Seq<(String, Option<String>)>,
    b: Seq<(String, Option<String>)>,
    x: (Seq<char>, Option<Seq<char>>),
)
    ensures
        has_define(a + b, x) <==> (has_define(a, x) || has_define(b, x)),
{
    if has_define(a + b, x) {
        let i = choose|i: int| 0 <= i < (a + b).len() && define_view((a + b)[i]) == x;
        if i < a.len() {
            assert(define_view(a[i]) == x);
        } else {
            assert(define_view(b[i - a.len()]) == x);
        }
    }
    if has_define(a, x) {
        let i = choose|i: int| 0 <= i < a.len() && define_view(a[i]) == x;
        assert(define_view((a + b)[i]) == x);
    }
    if has_define(b, x) {
        let i = choose|i: int| 0 <= i < b.len() && define_view(b[i]) == x;
        assert(define_view((a + b)[a.len() + i]) == x);
    }
}

pub proof fn lemma_has_define_is_contains(
    v: Seq<(String, Option<String>)>,
    x: (Seq<char>, Option<Seq<char>>),
)
    ensures
        has_define(v, x) <==> define_views(v).contains(x),
{
    if has_define(v, x) {
        let i = choose|i: int| 0 <= i < v.len() && define_view(v[i]) == x;
        assert(define_views(v)[i] == x);
    }
    if define_views(v).contains(x) {
        let i = choose|i: int| 0 <= i < define_views(v).len() && define_views(v)[i] == x;
        assert(define_view(v[i]) == x);
    }
}

pub proof fn lemma_define_lt_asymmetric(a: (Seq<char>, Option<Seq<char>>), b: (Seq<char>, Option<Seq<char>>))
    ensures
        define_lt(a, b) ==> !define_lt(b, a),
{
    crate::strutil::lemma_lex_lt_asymmetric(a.0, b.0);
    if a.1 is Some && b.1 is Some {
        crate::strutil::lemma_lex_lt_asymmetric(a.1->0, b.1->0);
    }
}

/// Two sequences that are strictly increasing under an asymmetric order and
/// hold the same elements are the same sequence: a sorted, deduplicated
/// aggregate is determined by membership alone.
pub proof fn lemma_strictly_sorted_unique<T>(lt: spec_fn(T, T) -> bool, a: Seq<T>, b: Seq<T>)
    requires
        forall|x: T, y: T| #[trigger] lt(x, y) ==> !lt(y, x),
        forall|i: int, j: int| 0 <= i < j < a.len() ==> lt(a[i], a[j]),
        forall|i: int, j: int| 0 <= i < j < b.len() ==> lt(b[i], b[j]),
        forall|x: T| #[trigger] a.contains(x) ==> b.contains(x),
        forall|x: T| #[trigger] b.contains(x) ==> a.contains(x),
    ensures
        a == b,
    decreases a.len(),
{
    if a.len() == 0 {
        if b.len() > 0 {
            assert(b.contains(b[0]));
            assert(a.contains(b[0]));
        }
        assert(a =~= b);
    } else {
        assert(a.contains(a[0]));
        assert(b.contains(a[0]));
        if b.len() == 0 {
            assert(b.contains(a[0]));
        }
        let k = choose|k: int| 0 <= k < b.len() && b[k] == a[0];
        assert(b.contains(b[0]));
        assert(a.contains(b[0]));
        let m = choose|m: int| 0 <= m < a.len() && a[m] == b[0];
        if k > 0 && m > 0 {
            assert(lt(b[0], b[k]));
            assert(lt(a[0], a[m]));
            assert(false);
        }
        assert(a[0] == b[0]);
        let a1 = a.drop_first();
        let b1 = b.drop_first();
        assert forall|x: T| #[trigger] a1.contains(x) implies b1.contains(x) by {
            let i = choose|i: int| 0 <= i < a1.len() && a1[i] == x;
            assert(a[i + 1] == x);
            assert(a.contains(x));
            assert(b.contains(x));
            let j = choose|j: int| 0 <= j < b.len() && b[j] == x;
            if j == 0 {
                assert(lt(a[0], a[i + 1]));
                assert(lt(x, x));
            }
            assert(b1[j - 1] == x);
        }
        assert forall|x: T| #[trigger] b1.contains(x) implies a1.contains(x) by {
            let i = choose|i: int| 0 <= i < b1.len() && b1[i] == x;
            assert(b[i + 1] == x);
            assert(b.contains(x));
            assert(a.contains(x));
            let j = choose|j: int| 0 <= j < a.len() && a[j] == x;
            if j == 0 {
                assert(lt(b[0], b[i + 1]));
                assert(lt(x, x));
            }
            assert(a1[j - 1] == x);
        }
        assert(forall|i: int, j: int| 0 <= i < j < a1.len() ==> lt(a1[i], a1[j]));
        assert(forall|i: int, j: int| 0 <= i < j < b1.len() ==> lt(b1[i], b1[j]));
        lemma_strictly_sorted_unique(lt, a1, b1);
        assert(a.len() == b.len());
        assert forall|i: int| 0 <= i < a.len() implies a[i] == b[i] by {
            if i > 0 {
                assert(a[i] == a1[i - 1]);
                assert(b[i] == b1[i - 1]);
            }
        }
        assert(a =~= b);
    }
}

} // verus!
