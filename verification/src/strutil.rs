//! Character-sequence helpers shared by the whole crate: views of string
//! collections, a lexicographic order, splitting and joining on a separator,
//! and trusted wrappers around the standard library's case folding.

use vstd::prelude::*;

verus! {

// ---------------------------------------------------------------------------
// Views of string collections
// ---------------------------------------------------------------------------

/// The character sequences of a sequence of strings.
pub open spec fn views(v: Seq<String>) -> Seq<Seq<char>> {
    v.map_values(|s: String| s@)
}

/// Whether some string of `v` has exactly the characters `x`.
pub open spec fn has_str(v: Seq<String>, x: Seq<char>) -> bool {
    exists|i: int| 0 <= i < v.len() && v[i]@ == x
}

// ---------------------------------------------------------------------------
// Lexicographic order on character sequences
// ---------------------------------------------------------------------------

/// Strict lexicographic order by code point, the order in which `str` sorts.
pub open spec fn lex_lt(a: Seq<char>, b: Seq<char>) -> bool
    decreases a.len(),
{
    if b.len() == 0 {
        false
    } else if a.len() == 0 {
        true
    } else if a[0] != b[0] {
        (a[0] as u32) < (b[0] as u32)
    } else {
        lex_lt(a.drop_first(), b.drop_first())
    }
}

pub proof fn lemma_lex_lt_asymmetric(a: Seq<char>, b: Seq<char>)
    ensures
        lex_lt(a, b) ==> !lex_lt(b, a),
    decreases a.len(),
{
    if a.len() > 0 && b.len() > 0 && a[0] == b[0] {
        lemma_lex_lt_asymmetric(a.drop_first(), b.drop_first());
    }
}

/// Every two positions of `s` are in strict order, so `s` is sorted and holds
/// no duplicates.
pub open spec fn strictly_sorted(s: Seq<Seq<char>>) -> bool {
    forall|i: int, j: int| 0 <= i < j < s.len() ==> lex_lt(s[i], s[j])
}

// ---------------------------------------------------------------------------
// Splitting on a separator character
// ---------------------------------------------------------------------------

/// The pieces of `s` between occurrences of `sep`.  A sequence without the
/// separator is one piece; each separator ends a piece, so consecutive
/// separators yield empty pieces.
pub open spec fn split_spec(s: Seq<char>, sep: char) -> Seq<Seq<char>>
    decreases s.len(),
{
    if s.len() == 0 {
        seq![Seq::<char>::empty()]
    } else if s[0] == sep {
        seq![Seq::<char>::empty()] + split_spec(s.drop_first(), sep)
    } else {
        let rest = split_spec(s.drop_first(), sep);
        seq![seq![s[0]] + rest[0]] + rest.drop_first()
    }
}

pub proof fn lemma_split_len(s: Seq<char>, sep: char)
    ensures
        split_spec(s, sep).len() >= 1,
    decreases s.len(),
{
    if s.len() > 0 {
        lemma_split_len(s.drop_first(), sep);
    }
}

/// Walking a separator-free stretch from `start` to `i` only lengthens the
/// first piece of the remaining split.
pub proof fn lemma_split_skip(s: Seq<char>, sep: char, start: int, i: int)
    requires
        0 <= start <= i <= s.len(),
        forall|j: int| start <= j < i ==> s[j] != sep,
    ensures
        split_spec(s.skip(start), sep) == seq![
            s.subrange(start, i) + split_spec(s.skip(i), sep)[0],
        ] + split_spec(s.skip(i), sep).drop_first(),
    decreases i - start,
{
    lemma_split_len(s.skip(i), sep);
    let q = split_spec(s.skip(i), sep);
    if start == i {
        assert(s.subrange(start, i) + q[0] =~= q[0]);
        assert(seq![q[0]] + q.drop_first() =~= q);
    } else {
        lemma_split_skip(s, sep, start + 1, i);
        let r = split_spec(s.skip(start + 1), sep);
        assert(s.skip(start).drop_first() =~= s.skip(start + 1));
        assert(s.skip(start).len() > 0);
        assert(s.skip(start)[0] == s[start]);
        assert(s[start] != sep);
        assert(r[0] == s.subrange(start + 1, i) + q[0]);
        assert(seq![s.skip(start)[0]] + r[0] =~= s.subrange(start, i) + q[0]);
        assert(r.drop_first() =~= q.drop_first());
        assert(split_spec(s.skip(start), sep) =~= seq![
            s.subrange(start, i) + q[0],
        ] + q.drop_first());
    }
}

/// Split `value` at every occurrence of `sep`.  An empty input yields no
/// pieces at all, as the overriding environment variables treat an empty
/// value as "clear the field".
pub fn split_on(value: &str, sep: char) -> (r: Vec<String>)
    ensures
        value@.len() == 0 ==> r@.len() == 0,
        value@.len() > 0 ==> views(r@) == split_spec(value@, sep),
{
    let mut r: Vec<String> = Vec::new();
    let n = value.unicode_len();
    if n == 0 {
        return r;
    }
    let mut start: usize = 0;
    let mut i: usize = 0;
    proof {
        assert(value@.skip(0) =~= value@);
    }
    while i < n
        invariant
            0 <= start <= i <= n,
            n == value@.len(),
            forall|j: int| start <= j < i ==> value@[j] != sep,
            views(r@) + split_spec(value@.skip(start as int), sep) == split_spec(value@, sep),
        decreases n - i,
    {
        if value.get_char(i) == sep {
            let piece = value.substring_char(start, i).to_owned();
            proof {
                lemma_split_skip(value@, sep, start as int, i as int);
                assert(value@.skip(i as int)[0] == sep);
                assert(value@.skip(i as int).drop_first() =~= value@.skip(i as int + 1));
                assert(split_spec(value@.skip(i as int), sep) == seq![
                    Seq::<char>::empty(),
                ] + split_spec(value@.skip(i as int + 1), sep));
                assert(value@.subrange(start as int, i as int) + Seq::<char>::empty() =~= value@
                    .subrange(start as int, i as int));
                assert(views(r@.push(piece)) =~= views(r@).push(piece@));
                assert(views(r@).push(piece@) + split_spec(value@.skip(i as int + 1), sep) =~= views(
                    r@,
                ) + split_spec(value@.skip(start as int), sep));
            }
            r.push(piece);
            start = i + 1;
        }
        i = i + 1;
    }
    let last = value.substring_char(start, n).to_owned();
    proof {
        lemma_split_skip(value@, sep, start as int, n as int);
        assert(value@.skip(n as int) =~= Seq::<char>::empty());
        assert(split_spec(value@.skip(n as int), sep) == seq![Seq::<char>::empty()]);
        assert(value@.subrange(start as int, n as int) + Seq::<char>::empty() =~= value@.subrange(
            start as int,
            n as int,
        ));
        assert(views(r@.push(last)) =~= views(r@).push(last@));
        assert(views(r@).push(last@) =~= views(r@) + seq![last@]);
    }
    r.push(last);
    r
}

/// Split a path list on the conventional `:` separator.
pub fn split_paths(value: &str) -> (r: Vec<String>)
    ensures
        value@.len() == 0 ==> r@.len() == 0,
        value@.len() > 0 ==> views(r@) == split_spec(value@, ':'),
{
    split_on(value, ':')
}

/// Split a library list on spaces.
pub fn split_string(value: &str) -> (r: Vec<String>)
    ensures
        value@.len() == 0 ==> r@.len() == 0,
        value@.len() > 0 ==> views(r@) == split_spec(value@, ' '),
{
    split_on(value, ' ')
}

// ---------------------------------------------------------------------------
// Joining with a separator
// ---------------------------------------------------------------------------

/// The pieces laid end to end with `sep` between each two.
pub open spec fn join_with(pieces: Seq<Seq<char>>, sep: Seq<char>) -> Seq<char>
    decreases pieces.len(),
{
    if pieces.len() == 0 {
        Seq::empty()
    } else if pieces.len() == 1 {
        pieces[0]
    } else {
        pieces[0] + sep + join_with(pieces.drop_first(), sep)
    }
}

pub proof fn lemma_join_push(pieces: Seq<Seq<char>>, q: Seq<char>, sep: Seq<char>)
    ensures
        join_with(pieces.push(q), sep) == if pieces.len() == 0 {
            q
        } else {
            join_with(pieces, sep) + sep + q
        },
    decreases pieces.len(),
{
    if pieces.len() == 0 {
        assert(pieces.push(q)[0] == q);
    } else if pieces.len() == 1 {
        assert(pieces.push(q)[0] == pieces[0]);
        assert(pieces.push(q).drop_first() =~= seq![q]);
        assert(join_with(seq![q], sep) == q);
        assert(join_with(pieces.push(q), sep) == pieces[0] + sep + q);
        assert(join_with(pieces, sep) == pieces[0]);
    } else {
        lemma_join_push(pieces.drop_first(), q, sep);
        assert(pieces.push(q).drop_first() =~= pieces.drop_first().push(q));
        assert(pieces.push(q)[0] == pieces[0]);
        assert(join_with(pieces.push(q), sep) =~= join_with(pieces, sep) + sep + q);
    }
}

/// Join `v` with the separator `sep`.
pub fn join_strings(v: &Vec<String>, sep: &str) -> (r: String)
    ensures
        r@ == join_with(views(v@), sep@),
{
    let mut r = String::new();
    if v.len() == 0 {
        return r;
    }
    r.append(v[0].as_str());
    let mut i: usize = 1;
    proof {
        assert(views(v@).take(1) =~= seq![v@[0]@]);
    }
    while i < v.len()
        invariant
            1 <= i <= v@.len(),
            r@ == join_with(views(v@).take(i as int), sep@),
        decreases v@.len() - i,
    {
        r.append(sep);
        r.append(v[i].as_str());
        proof {
            lemma_join_push(views(v@).take(i as int), v@[i as int]@, sep@);
            assert(views(v@).take(i as int + 1) =~= views(v@).take(i as int).push(v@[i as int]@));
        }
        i = i + 1;
    }
    proof {
        assert(views(v@).take(v@.len() as int) =~= views(v@));
    }
    r
}

pub proof fn lemma_has_str_concat(a: Seq<String>, b: Seq<String>, x: Seq<char>)
    ensures
        has_str(a + b, x) <==> (has_str(a, x) || has_str(b, x)),
{
    if has_str(a + b, x) {
        let i = choose|i: int| 0 <= i < (a + b).len() && (a + b)[i]@ == x;
        if i < a.len() {
            assert(a[i]@ == x);
        } else {
            assert(b[i - a.len()]@ == x);
        }
    }
    if has_str(a, x) {
        let i = choose|i: int| 0 <= i < a.len() && a[i]@ == x;
        assert((a + b)[i]@ == x);
    }
    if has_str(b, x) {
        let i = choose|i: int| 0 <= i < b.len() && b[i]@ == x;
        assert((a + b)[a.len() + i]@ == x);
    }
}

pub proof fn lemma_has_str_is_contains(v: Seq<String>, x: Seq<char>)
    ensures
        has_str(v, x) <==> views(v).contains(x),
{
    if has_str(v, x) {
        let i = choose|i: int| 0 <= i < v.len() && v[i]@ == x;
        assert(views(v)[i] == x);
    }
    if views(v).contains(x) {
        let i = choose|i: int| 0 <= i < views(v).len() && views(v)[i] == x;
        assert(v[i]@ == x);
    }
}

// ---------------------------------------------------------------------------
// Association lists keyed by character sequences
// ---------------------------------------------------------------------------

/// The value under the first pair of `s` whose key is `key`.
pub open spec fn assoc_get<V>(s: Seq<(Seq<char>, V)>, key: Seq<char>) -> Option<V>
    decreases s.len(),
{
    if s.len() == 0 {
        None
    } else if s[0].0 == key {
        Some(s[0].1)
    } else {
        assoc_get(s.drop_first(), key)
    }
}

pub proof fn lemma_assoc_get_skip<V>(s: Seq<(Seq<char>, V)>, key: Seq<char>, i: int)
    requires
        0 <= i <= s.len(),
        forall|j: int| 0 <= j < i ==> s[j].0 != key,
    ensures
        assoc_get(s, key) == assoc_get(s.skip(i), key),
    decreases i,
{
    if i > 0 {
        assert(s.skip(0) =~= s);
        lemma_assoc_get_skip(s.drop_first(), key, i - 1);
        assert(s.drop_first().skip(i - 1) =~= s.skip(i));
    } else {
        assert(s.skip(0) =~= s);
    }
}

pub proof fn lemma_assoc_get_present<V>(s: Seq<(Seq<char>, V)>, key: Seq<char>)
    ensures
        (assoc_get(s, key) is Some) <==> exists|j: int| 0 <= j < s.len() && s[j].0 == key,
    decreases s.len(),
{
    if s.len() > 0 {
        lemma_assoc_get_present(s.drop_first(), key);
        if s[0].0 != key {
            if exists|j: int| 0 <= j < s.len() && s[j].0 == key {
                let j = choose|j: int| 0 <= j < s.len() && s[j].0 == key;
                assert(s.drop_first()[j - 1].0 == key);
            }
            assert forall|j: int| 0 <= j < s.drop_first().len() && s.drop_first()[j].0 == key implies
                exists|j2: int| 0 <= j2 < s.len() && s[j2].0 == key by {
                assert(s[j + 1].0 == key);
            }
        }
    }
}

/// `s` with the value under `key` replaced in place, or a new pair at the
/// end if the key is absent.
pub open spec fn assoc_put<V>(s: Seq<(Seq<char>, V)>, key: Seq<char>, v: V) -> Seq<(Seq<char>, V)>
    decreases s.len(),
{
    if s.len() == 0 {
        seq![(key, v)]
    } else if s[0].0 == key {
        seq![(key, v)] + s.drop_first()
    } else {
        seq![s[0]] + assoc_put(s.drop_first(), key, v)
    }
}

pub proof fn lemma_assoc_put_found<V>(s: Seq<(Seq<char>, V)>, key: Seq<char>, v: V, j: int)
    requires
        0 <= j < s.len(),
        s[j].0 == key,
        forall|i: int| 0 <= i < j ==> s[i].0 != key,
    ensures
        assoc_put(s, key, v) == s.update(j, (key, v)),
    decreases j,
{
    if j == 0 {
        assert(seq![(key, v)] + s.drop_first() =~= s.update(0, (key, v)));
    } else {
        assert(s.drop_first()[j - 1].0 == key);
        assert forall|i: int| 0 <= i < j - 1 implies s.drop_first()[i].0 != key by {
            assert(s[i + 1].0 != key);
        }
        lemma_assoc_put_found(s.drop_first(), key, v, j - 1);
        assert(seq![s[0]] + s.drop_first().update(j - 1, (key, v)) =~= s.update(j, (key, v)));
    }
}

pub proof fn lemma_assoc_put_absent<V>(s: Seq<(Seq<char>, V)>, key: Seq<char>, v: V)
    requires
        forall|i: int| 0 <= i < s.len() ==> s[i].0 != key,
    ensures
        assoc_put(s, key, v) == s.push((key, v)),
    decreases s.len(),
{
    if s.len() == 0 {
        assert(seq![(key, v)] =~= s.push((key, v)));
    } else {
        assert forall|i: int| 0 <= i < s.drop_first().len() implies s.drop_first()[i].0 != key by {
            assert(s[i + 1].0 != key);
        }
        lemma_assoc_put_absent(s.drop_first(), key, v);
        assert(seq![s[0]] + s.drop_first().push((key, v)) =~= s.push((key, v)));
    }
}

/// Every key after a put is the put key or one that was already there.
pub proof fn lemma_assoc_put_keys<V>(s: Seq<(Seq<char>, V)>, key: Seq<char>, v: V)
    ensures
        forall|j: int| 0 <= j < assoc_put(s, key, v).len() ==> assoc_put(s, key, v)[j].0 == key
            || exists|m: int| 0 <= m < s.len() && s[m].0 == #[trigger] assoc_put(s, key, v)[j].0,
    decreases s.len(),
{
    let put = assoc_put(s, key, v);
    if s.len() == 0 {
        assert(put[0].0 == key);
    } else if s[0].0 == key {
        assert forall|j: int| 0 <= j < put.len() && put[j].0 != key implies exists|m: int|
            0 <= m < s.len() && s[m].0 == put[j].0 by {
            assert(put[j] == s[j]);
        }
    } else {
        lemma_assoc_put_keys(s.drop_first(), key, v);
        let putd = assoc_put(s.drop_first(), key, v);
        assert forall|j: int| 0 <= j < put.len() && put[j].0 != key implies exists|m: int|
            0 <= m < s.len() && s[m].0 == put[j].0 by {
            if j == 0 {
                assert(s[0].0 == put[0].0);
            } else {
                assert(put[j] == putd[j - 1]);
                let m = choose|m: int|
                    0 <= m < s.drop_first().len() && s.drop_first()[m].0 == putd[j - 1].0;
                assert(s[m + 1].0 == put[j].0);
            }
        }
    }
}

// ---------------------------------------------------------------------------
// Case folding, through the standard library
// ---------------------------------------------------------------------------

/// What `str::to_uppercase` returns: a function of the characters alone.
pub uninterp spec fn upper_of(s: Seq<char>) -> Seq<char>;

/// Relies on `str::to_uppercase`: the uppercase equivalent of the string,
/// determined by the characters alone.
#[verifier::external_body]
pub(crate) fn to_upper(s: &str) -> (r: String)
    ensures
        r@ == upper_of(s@),
{
    s.to_uppercase()
}

/// Each occurrence of one character replaced by another.
pub open spec fn seq_replace(s: Seq<char>, from: char, to: char) -> Seq<char> {
    s.map_values(|c: char| if c == from { to } else { c })
}

/// Relies on `str::replace` with a `char` pattern: every occurrence of `from`
/// becomes `to` and all other characters are kept, which for a single-char
/// replacement is a character-wise map.
#[verifier::external_body]
pub(crate) fn replace_char(s: &str, from: char, to: char) -> (r: String)
    ensures
        r@ == seq_replace(s@, from, to),
{
    s.replace(from, to.to_string().as_str())
}

} // verus!
