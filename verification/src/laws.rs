//! The behavioural laws of the engine, stated and proved over the same
//! specifications the executable contracts use.

use vstd::prelude::*;
use crate::deps::{apply_env_spec, lib_field, set_has_define, set_has_field, LibField};
use crate::library::LibView;
use crate::metadata::{Dependency, VersionOverride};
use crate::resolve::{effective_version, pick_highest_spec, pick_rec, version_cmp_of, VersionCmp};
use crate::sorting::{
    define_lt, lemma_define_lt_asymmetric, lemma_strictly_sorted_unique, strictly_sorted_defines,
};
use crate::strutil::{lemma_lex_lt_asymmetric, lex_lt, strictly_sorted};

verus! {

/// For an entry with no enabled override, the effective version is exactly
/// the declared one.
pub proof fn lemma_plain_version(dep: Dependency, v: String)
    requires
        dep.version == Some(v),
    ensures
        effective_version(dep, Seq::empty()) == Some(v@),
{
}

/// Of two simultaneously enabled overrides, the one with the strictly
/// higher version wins, whichever is declared first.
pub proof fn lemma_higher_override_wins(a: VersionOverride, b: VersionOverride)
    requires
        version_cmp_of(b.version@, a.version@) == Some(VersionCmp::Gt),
        version_cmp_of(a.version@, b.version@) == Some(VersionCmp::Lt),
    ensures
        pick_highest_spec(seq![a, b]) == Some(1int),
        pick_highest_spec(seq![b, a]) == Some(0int),
{
    let s1 = seq![a, b];
    assert(s1[0] == a && s1[1] == b);
    assert(pick_rec(s1, 1, 0) == pick_rec(s1, 2, 1));
    assert(pick_rec(s1, 2, 1) == Some(1int));
    let s2 = seq![b, a];
    assert(s2[0] == b && s2[1] == a);
    assert(pick_rec(s2, 1, 0) == pick_rec(s2, 2, 0));
    assert(pick_rec(s2, 2, 0) == Some(0int));
}

proof fn lemma_pick_rec_push(s: Seq<VersionOverride>, x: VersionOverride, i: int, best: int)
    requires
        1 <= i <= s.len(),
        0 <= best < s.len(),
        pick_rec(s, i, best) is Some,
    ensures
        match pick_rec(s, i, best) {
            Some(j) => 0 <= j < s.len() && pick_rec(s.push(x), i, best) == (
            match version_cmp_of(x.version@, s[j].version@) {
                None => None::<int>,
                Some(c) => if c == VersionCmp::Lt {
                    Some(j)
                } else {
                    Some(s.len() as int)
                },
            }),
            None => true,
        },
    decreases s.len() - i,
{
    let p = s.push(x);
    assert(p[best] == s[best]);
    if i >= s.len() {
        assert(pick_rec(s, i, best) == Some(best));
        assert(p[i] == x);
        assert(pick_rec(p, i + 1, best) == Some(best));
        assert(pick_rec(p, i + 1, i) == Some(i));
    } else {
        assert(p[i] == s[i]);
        match version_cmp_of(s[i].version@, s[best].version@) {
            None => {},
            Some(c) => {
                if c == VersionCmp::Lt {
                    lemma_pick_rec_push(s, x, i + 1, best);
                } else {
                    lemma_pick_rec_push(s, x, i + 1, i);
                }
            },
        }
    }
}

/// Enabling one more override whose version is not strictly lower than the
/// current winner makes it the winner: turning on a higher-versioned
/// override never lowers the effective version.
pub proof fn lemma_override_monotonic(s: Seq<VersionOverride>, x: VersionOverride)
    requires
        s.len() >= 1,
    ensures
        match pick_highest_spec(s) {
            Some(j) => 0 <= j < s.len() && (match version_cmp_of(x.version@, s[j].version@) {
                Some(c) => c != VersionCmp::Lt ==> pick_highest_spec(s.push(x)) == Some(
                    s.len() as int,
                ),
                None => true,
            }),
            None => true,
        },
{
    if pick_highest_spec(s) is Some {
        lemma_pick_rec_push(s, x, 1, 0);
    }
}

/// The environment-override pass is idempotent: run twice over the same
/// environment it yields what one run yields.
pub proof fn lemma_override_idempotent(
    key: Seq<char>,
    l: LibView,
    env: Seq<(Seq<char>, Seq<char>)>,
)
    ensures
        apply_env_spec(key, apply_env_spec(key, l, env), env) == apply_env_spec(key, l, env),
{
    assert(apply_env_spec(key, apply_env_spec(key, l, env), env) =~= apply_env_spec(key, l, env));
}

/// Two aggregates of one string-list field, each strictly sorted and drawn
/// from dependency sets holding the same descriptors, are the same
/// sequence: permuting the entries never changes the aggregate.
pub proof fn lemma_aggregate_order_independent(
    d1: Seq<(Seq<char>, LibView)>,
    d2: Seq<(Seq<char>, LibView)>,
    f: LibField,
    r1: Seq<Seq<char>>,
    r2: Seq<Seq<char>>,
)
    requires
        d1.to_multiset() == d2.to_multiset(),
        strictly_sorted(r1),
        strictly_sorted(r2),
        forall|x: Seq<char>| #[trigger] r1.contains(x) ==> set_has_field(d1, f, x),
        forall|x: Seq<char>| #[trigger] set_has_field(d1, f, x) ==> r1.contains(x),
        forall|x: Seq<char>| #[trigger] r2.contains(x) ==> set_has_field(d2, f, x),
        forall|x: Seq<char>| #[trigger] set_has_field(d2, f, x) ==> r2.contains(x),
    ensures
        r1 == r2,
{
    d1.to_multiset_ensures();
    d2.to_multiset_ensures();
    assert forall|x: Seq<char>| #[trigger] set_has_field(d1, f, x) implies set_has_field(
        d2,
        f,
        x,
    ) by {
        let j = choose|j: int| 0 <= j < d1.len() && #[trigger] lib_field(d1[j].1, f).contains(x);
        assert(d1.contains(d1[j]));
        assert(d1.to_multiset().count(d1[j]) > 0);
        assert(d2.to_multiset().count(d1[j]) > 0);
        assert(d2.contains(d1[j]));
        let m = choose|m: int| 0 <= m < d2.len() && d2[m] == d1[j];
        assert(lib_field(d2[m].1, f).contains(x));
    }
    assert forall|x: Seq<char>| #[trigger] set_has_field(d2, f, x) implies set_has_field(
        d1,
        f,
        x,
    ) by {
        let j = choose|j: int| 0 <= j < d2.len() && #[trigger] lib_field(d2[j].1, f).contains(x);
        assert(d2.contains(d2[j]));
        assert(d2.to_multiset().count(d2[j]) > 0);
        assert(d1.to_multiset().count(d2[j]) > 0);
        assert(d1.contains(d2[j]));
        let m = choose|m: int| 0 <= m < d1.len() && d1[m] == d2[j];
        assert(lib_field(d1[m].1, f).contains(x));
    }
    assert forall|x: Seq<char>, y: Seq<char>| #[trigger] lex_lt(x, y) implies !lex_lt(y, x) by {
        lemma_lex_lt_asymmetric(x, y);
    }
    lemma_strictly_sorted_unique(
        |x: Seq<char>, y: Seq<char>| lex_lt(x, y),
        r1,
        r2,
    );
}


/// The same, for the aggregated preprocessor defines.
pub proof fn lemma_defines_order_independent(
    d1: Seq<(Seq<char>, LibView)>,
    d2: Seq<(Seq<char>, LibView)>,
    r1: Seq<(Seq<char>, Option<Seq<char>>)>,
    r2: Seq<(Seq<char>, Option<Seq<char>>)>,
)
    requires
        d1.to_multiset() == d2.to_multiset(),
        strictly_sorted_defines(r1),
        strictly_sorted_defines(r2),
        forall|x: (Seq<char>, Option<Seq<char>>)| #[trigger] r1.contains(x) ==> set_has_define(
            d1,
            x,
        ),
        forall|x: (Seq<char>, Option<Seq<char>>)| #[trigger] set_has_define(d1, x)
            ==> r1.contains(x),
        forall|x: (Seq<char>, Option<Seq<char>>)| #[trigger] r2.contains(x) ==> set_has_define(
            d2,
            x,
        ),
        forall|x: (Seq<char>, Option<Seq<char>>)| #[trigger] set_has_define(d2, x)
            ==> r2.contains(x),
    ensures
        r1 == r2,
{
    d1.to_multiset_ensures();
    d2.to_multiset_ensures();
    assert forall|x: (Seq<char>, Option<Seq<char>>)| #[trigger] set_has_define(d1, x) implies
        set_has_define(d2, x) by {
        let j = choose|j: int| 0 <= j < d1.len() && #[trigger] d1[j].1.defines.contains(x);
        assert(d1.contains(d1[j]));
        assert(d1.to_multiset().count(d1[j]) > 0);
        assert(d2.to_multiset().count(d1[j]) > 0);
        assert(d2.contains(d1[j]));
        let m = choose|m: int| 0 <= m < d2.len() && d2[m] == d1[j];
        assert(d2[m].1.defines.contains(x));
    }
    assert forall|x: (Seq<char>, Option<Seq<char>>)| #[trigger] set_has_define(d2, x) implies
        set_has_define(d1, x) by {
        let j = choose|j: int| 0 <= j < d2.len() && #[trigger] d2[j].1.defines.contains(x);
        assert(d2.contains(d2[j]));
        assert(d2.to_multiset().count(d2[j]) > 0);
        assert(d1.to_multiset().count(d2[j]) > 0);
        assert(d1.contains(d2[j]));
        let m = choose|m: int| 0 <= m < d1.len() && d1[m] == d2[j];
        assert(d1[m].1.defines.contains(x));
    }
    assert forall|x: (Seq<char>, Option<Seq<char>>), y: (Seq<char>, Option<Seq<char>>)|
        #[trigger] define_lt(x, y) implies !define_lt(y, x) by {
        lemma_define_lt_asymmetric(x, y);
    }
    lemma_strictly_sorted_unique(
        |x: (Seq<char>, Option<Seq<char>>), y: (Seq<char>, Option<Seq<char>>)| define_lt(x, y),
        r1,
        r2,
    );
}

} // verus!
