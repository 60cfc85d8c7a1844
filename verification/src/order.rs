use vstd::prelude::*;
use vstd::relations::*;
use vstd::multiset::Multiset;
use crate::id::UnitsObjectId;

verus! {

/// Lexicographic order on byte strings.
pub open spec fn lex_leq(a: Seq<u8>, b: Seq<u8>) -> bool
    decreases a.len(),
{
    if a.len() == 0 {
        true
    } else if b.len() == 0 {
        false
    } else if a[0] < b[0] {
        true
    } else if a[0] > b[0] {
        false
    } else {
        lex_leq(a.drop_first(), b.drop_first())
    }
}

/// Identifiers are ordered by their bytes, lexicographically.
pub open spec fn id_leq(a: UnitsObjectId, b: UnitsObjectId) -> bool {
    lex_leq(a.bytes@, b.bytes@)
}

proof fn lemma_lex_reflexive(a: Seq<u8>)
    ensures
        lex_leq(a, a),
    decreases a.len(),
{
    if a.len() > 0 {
        lemma_lex_reflexive(a.drop_first());
    }
}

proof fn lemma_lex_antisymmetric(a: Seq<u8>, b: Seq<u8>)
    requires
        a.len() == b.len(),
        lex_leq(a, b),
        lex_leq(b, a),
    ensures
        a =~= b,
    decreases a.len(),
{
    if a.len() > 0 {
        lemma_lex_antisymmetric(a.drop_first(), b.drop_first());
        assert(a =~= seq![a[0]] + a.drop_first());
        assert(b =~= seq![b[0]] + b.drop_first());
    }
}

proof fn lemma_lex_transitive(a: Seq<u8>, b: Seq<u8>, c: Seq<u8>)
    requires
        a.len() == b.len(),
        b.len() == c.len(),
        lex_leq(a, b),
        lex_leq(b, c),
    ensures
        lex_leq(a, c),
    decreases a.len(),
{
    if a.len() > 0 && a[0] == b[0] && b[0] == c[0] {
        lemma_lex_transitive(a.drop_first(), b.drop_first(), c.drop_first());
    }
}

proof fn lemma_lex_total(a: Seq<u8>, b: Seq<u8>)
    requires
        a.len() == b.len(),
    ensures
        lex_leq(a, b) || lex_leq(b, a),
    decreases a.len(),
{
    if a.len() > 0 && a[0] == b[0] {
        lemma_lex_total(a.drop_first(), b.drop_first());
    }
}

proof fn lemma_id_refl(a: UnitsObjectId)
    ensures
        id_leq(a, a),
{
    lemma_lex_reflexive(a.bytes@);
}

proof fn lemma_id_total(a: UnitsObjectId, b: UnitsObjectId)
    ensures
        id_leq(a, b) || id_leq(b, a),
{
    broadcast use vstd::array::array_len_matches_n;

    lemma_lex_total(a.bytes@, b.bytes@);
}

proof fn lemma_id_trans(a: UnitsObjectId, b: UnitsObjectId, c: UnitsObjectId)
    requires
        id_leq(a, b),
        id_leq(b, c),
    ensures
        id_leq(a, c),
{
    broadcast use vstd::array::array_len_matches_n;

    lemma_lex_transitive(a.bytes@, b.bytes@, c.bytes@);
}

/// The byte order on identifiers is a total order.
pub proof fn lemma_id_leq_total_ordering()
    ensures
        total_ordering(|a: UnitsObjectId, b: UnitsObjectId| id_leq(a, b)),
{
    broadcast use vstd::array::array_len_matches_n, vstd::array::axiom_array_ext_equal;

    let leq = |a: UnitsObjectId, b: UnitsObjectId| id_leq(a, b);
    assert forall|a: UnitsObjectId| #[trigger] leq(a, a) by {
        lemma_lex_reflexive(a.bytes@);
    }
    assert forall|a: UnitsObjectId, b: UnitsObjectId| #[trigger] leq(a, b) && #[trigger] leq(b, a) implies a
        == b by {
        lemma_lex_antisymmetric(a.bytes@, b.bytes@);
        assert(a.bytes =~= b.bytes);
    }
    assert forall|a: UnitsObjectId, b: UnitsObjectId, c: UnitsObjectId| #[trigger] leq(a, b)
        && #[trigger] leq(b, c) implies leq(a, c) by {
        lemma_lex_transitive(a.bytes@, b.bytes@, c.bytes@);
    }
    assert forall|a: UnitsObjectId, b: UnitsObjectId| #[trigger] leq(a, b) || #[trigger] leq(b, a) by {
        lemma_lex_total(a.bytes@, b.bytes@);
    }
}

/// Compare two identifiers in the byte order.
pub fn id_le(a: &UnitsObjectId, b: &UnitsObjectId) -> (r: bool)
    ensures
        r == id_leq(*a, *b),
{
    proof {
        broadcast use vstd::array::array_len_matches_n;
    }
    assert(a.bytes@.subrange(0, 32) =~= a.bytes@);
    assert(b.bytes@.subrange(0, 32) =~= b.bytes@);
    let mut i: usize = 0;
    while i < 32
        invariant
            i <= 32,
            a.bytes@.len() == 32,
            b.bytes@.len() == 32,
            lex_leq(a.bytes@, b.bytes@) == lex_leq(
                a.bytes@.subrange(i as int, 32),
                b.bytes@.subrange(i as int, 32),
            ),
        decreases 32 - i,
    {
        let x = a.bytes[i];
        let y = b.bytes[i];
        proof {
            let sa = a.bytes@.subrange(i as int, 32);
            let sb = b.bytes@.subrange(i as int, 32);
            assert(sa[0] == x && sb[0] == y);
            assert(sa.drop_first() =~= a.bytes@.subrange(i + 1, 32));
            assert(sb.drop_first() =~= b.bytes@.subrange(i + 1, 32));
        }
        if x < y {
            return true;
        }
        if x > y {
            return false;
        }
        i = i + 1;
    }
    true
}

/// Values that are ordered by an identifier key.
pub trait Keyed {
    spec fn spec_key(&self) -> UnitsObjectId;

    fn key(&self) -> (k: UnitsObjectId)
        ensures
            k == self.spec_key(),
    ;
}

impl Keyed for UnitsObjectId {
    open spec fn spec_key(&self) -> UnitsObjectId {
        *self
    }

    fn key(&self) -> (k: UnitsObjectId) {
        *self
    }
}

/// The sequence is ordered by key.
pub open spec fn sorted_by_key<T: Keyed>(s: Seq<T>) -> bool {
    forall|i: int, j: int| 0 <= i < j < s.len() ==> id_leq(s[i].spec_key(), s[j].spec_key())
}

/// Sort values by key, keeping the values of equal keys in their order
/// (selection of the first smallest key at each step).
pub fn sort_by_key<T: Keyed>(items: Vec<T>) -> (r: Vec<T>)
    ensures
        sorted_by_key(r@),
        r@.to_multiset() == items@.to_multiset(),
{
    broadcast use vstd::seq_lib::group_to_multiset_ensures;

    let mut rest = items;
    let mut out: Vec<T> = Vec::new();
    let ghost all = rest@;
    proof {
        lemma_id_leq_total_ordering();
        assert(out@ + rest@ =~= all);
    }
    while rest.len() > 0
        invariant
            sorted_by_key(out@),
            out@.to_multiset().add(rest@.to_multiset()) == all.to_multiset(),
            forall|i: int, j: int|
                0 <= i < out@.len() && 0 <= j < rest@.len() ==> id_leq(
                    out@[i].spec_key(),
                    rest@[j].spec_key(),
                ),
            total_ordering(|a: UnitsObjectId, b: UnitsObjectId| id_leq(a, b)),
        decreases rest@.len(),
    {
        let mut m: usize = 0;
        let mut mk = rest[0].key();
        proof {
            lemma_id_refl(mk);
        }
        let mut j: usize = 1;
        while j < rest.len()
            invariant
                1 <= j <= rest@.len(),
                m < rest@.len(),
                mk == rest@[m as int].spec_key(),
                forall|t: int| 0 <= t < j ==> id_leq(mk, rest@[t].spec_key()),
                total_ordering(|a: UnitsObjectId, b: UnitsObjectId| id_leq(a, b)),
            decreases rest@.len() - j,
        {
            let kj = rest[j].key();
            if !id_le(&mk, &kj) {
                proof {
                    lemma_id_total(mk, kj);
                    assert forall|t: int| 0 <= t < j implies id_leq(kj, rest@[t].spec_key()) by {
                        lemma_id_trans(kj, mk, rest@[t].spec_key());
                    }
                    lemma_id_refl(kj);
                }
                m = j;
                mk = kj;
            }
            j = j + 1;
        }
        let ghost old_rest = rest@;
        let ghost old_out = out@;
        let x = rest.remove(m);
        proof {
            assert(old_rest.remove(m as int) == rest@);
            assert(old_rest[m as int] == x);
        }
        out.push(x);
        proof {
            assert(out@ == old_out.push(x));
            assert forall|i: int, k: int| 0 <= i < k < out@.len() implies id_leq(
                out@[i].spec_key(),
                out@[k].spec_key(),
            ) by {
                if k == out@.len() - 1 {
                    assert(out@[k] == old_rest[m as int]);
                }
            }
            assert forall|i: int, k: int| 0 <= i < out@.len() && 0 <= k < rest@.len() implies id_leq(
                out@[i].spec_key(),
                rest@[k].spec_key(),
            ) by {
                if k < m {
                    assert(rest@[k] == old_rest[k]);
                } else {
                    assert(rest@[k] == old_rest[k + 1]);
                }
                if i == out@.len() - 1 {
                    assert(out@[i] == x);
                } else {
                    assert(out@[i] == old_out[i]);
                }
            }
            old_out.to_multiset_ensures();
            old_rest.to_multiset_ensures();
            rest@.to_multiset_ensures();
            out@.to_multiset_ensures();
            assert(old_out.push(x).to_multiset() =~= old_out.to_multiset().insert(x));
            assert(out@.to_multiset() == old_out.to_multiset().insert(x));
            assert(old_rest.remove(m as int).to_multiset() =~= old_rest.to_multiset().remove(
                old_rest[m as int],
            ));
            assert(rest@.to_multiset() == old_rest.to_multiset().remove(x));
            assert(old_rest.contains(x));
            assert(old_rest.to_multiset().count(x) > 0);
            assert(out@.to_multiset().add(rest@.to_multiset()) =~= old_out.to_multiset().add(
                old_rest.to_multiset(),
            ));
        }
    }
    proof {
        assert(rest@.to_multiset() =~= Multiset::empty());
        assert(out@.to_multiset().add(Multiset::empty()) =~= out@.to_multiset());
    }
    out
}

/// Sort identifiers in the byte order.
pub fn sort_ids(ids: &Vec<UnitsObjectId>) -> (r: Vec<UnitsObjectId>)
    ensures
        r@ == ids@.sort_by(|a: UnitsObjectId, b: UnitsObjectId| id_leq(a, b)),
{
    let mut copy: Vec<UnitsObjectId> = Vec::new();
    let mut i: usize = 0;
    while i < ids.len()
        invariant
            i <= ids@.len(),
            copy@ == ids@.subrange(0, i as int),
        decreases ids@.len() - i,
    {
        copy.push(ids[i]);
        i = i + 1;
        proof {
            assert(ids@.subrange(0, i as int) =~= ids@.subrange(0, i - 1).push(ids@[i - 1]));
        }
    }
    proof {
        assert(ids@.subrange(0, ids@.len() as int) =~= ids@);
    }
    let r = sort_by_key(copy);
    proof {
        let leq = |a: UnitsObjectId, b: UnitsObjectId| id_leq(a, b);
        lemma_id_leq_total_ordering();
        ids@.lemma_sort_by_ensures(leq);
        assert forall|i: int, j: int| 0 <= i < j < r@.len() implies #[trigger] leq(r@[i], r@[j]) by {
            assert(id_leq(r@[i].spec_key(), r@[j].spec_key()));
        }
        assert(sorted_by(r@, leq));
        vstd::seq_lib::lemma_sorted_unique(r@, ids@.sort_by(leq), leq);
    }
    r
}

/// `x` inserted into `s` after every element, from the end, whose key is at most
/// its own: the insertion step of a stable sort by key.
pub open spec fn insert_stable<V>(s: Seq<(UnitsObjectId, V)>, x: (UnitsObjectId, V)) -> Seq<
    (UnitsObjectId, V),
>
    decreases s.len(),
{
    if s.len() == 0 {
        seq![x]
    } else if id_leq(s.last().0, x.0) {
        s.push(x)
    } else {
        insert_stable(s.drop_last(), x).push(s.last())
    }
}

/// `s` sorted by key, elements of equal key keeping their order.
pub open spec fn stable_sorted<V>(s: Seq<(UnitsObjectId, V)>) -> Seq<(UnitsObjectId, V)>
    decreases s.len(),
{
    if s.len() == 0 {
        s
    } else {
        insert_stable(stable_sorted(s.drop_last()), s.last())
    }
}

proof fn lemma_insert_stable_at<V>(s: Seq<(UnitsObjectId, V)>, x: (UnitsObjectId, V), j: int)
    requires
        0 <= j <= s.len(),
        j == 0 || id_leq(s[j - 1].0, x.0),
        forall|k: int| j <= k < s.len() ==> !id_leq(#[trigger] s[k].0, x.0),
    ensures
        insert_stable(s, x) == s.take(j).push(x) + s.skip(j),
    decreases s.len(),
{
    if s.len() == j {
        assert(s.skip(j) =~= Seq::<(UnitsObjectId, V)>::empty());
        assert(s.take(j) =~= s);
    } else {
        let t = s.drop_last();
        assert(!id_leq(s[s.len() - 1].0, x.0));
        assert forall|k: int| j <= k < t.len() implies !id_leq(#[trigger] t[k].0, x.0) by {
            assert(t[k] == s[k]);
        }
        lemma_insert_stable_at(t, x, j);
        assert(t.take(j) =~= s.take(j));
        assert(t.skip(j).push(s.last()) =~= s.skip(j));
        assert(t.take(j).push(x) + t.skip(j).push(s.last()) =~= (t.take(j).push(x) + t.skip(j)).push(
            s.last(),
        ));
    }
}

/// Stable sorting commutes with a map that keeps keys.
pub proof fn lemma_stable_sorted_map<A, B>(
    s: Seq<(UnitsObjectId, A)>,
    f: spec_fn((UnitsObjectId, A)) -> (UnitsObjectId, B),
)
    requires
        forall|y: (UnitsObjectId, A)| #[trigger] f(y).0 == y.0,
    ensures
        stable_sorted(s.map_values(f)) == stable_sorted(s).map_values(f),
    decreases s.len(),
{
    if s.len() > 0 {
        assert(s.map_values(f).drop_last() =~= s.drop_last().map_values(f));
        lemma_stable_sorted_map(s.drop_last(), f);
        lemma_insert_stable_map(stable_sorted(s.drop_last()), s.last(), f);
    }
}

proof fn lemma_insert_stable_map<A, B>(
    s: Seq<(UnitsObjectId, A)>,
    x: (UnitsObjectId, A),
    f: spec_fn((UnitsObjectId, A)) -> (UnitsObjectId, B),
)
    requires
        forall|y: (UnitsObjectId, A)| #[trigger] f(y).0 == y.0,
    ensures
        insert_stable(s.map_values(f), f(x)) == insert_stable(s, x).map_values(f),
    decreases s.len(),
{
    let fs = s.map_values(f);
    if s.len() == 0 {
        assert(insert_stable(s, x).map_values(f) =~= seq![f(x)]);
    } else {
        assert(fs.last() == f(s.last()));
        assert(f(s.last()).0 == s.last().0);
        assert(f(x).0 == x.0);
        if id_leq(s.last().0, x.0) {
            assert(s.push(x).map_values(f) =~= fs.push(f(x)));
        } else {
            assert(fs.drop_last() =~= s.drop_last().map_values(f));
            lemma_insert_stable_map(s.drop_last(), x, f);
            assert(insert_stable(s.drop_last(), x).push(s.last()).map_values(f) =~= insert_stable(
                s.drop_last(),
                x,
            ).map_values(f).push(f(s.last())));
        }
    }
}

/// Sort pairs by identifier, stably.
pub fn stable_sort_keyed<V: Copy>(items: &Vec<(UnitsObjectId, V)>) -> (r: Vec<(UnitsObjectId, V)>)
    ensures
        r@ == stable_sorted(items@),
{
    let mut out: Vec<(UnitsObjectId, V)> = Vec::new();
    let mut i: usize = 0;
    while i < items.len()
        invariant
            i <= items@.len(),
            out@ == stable_sorted(items@.take(i as int)),
        decreases items@.len() - i,
    {
        let x = items[i];
        let mut j: usize = out.len();
        while j > 0 && !id_le(&out[j - 1].0, &x.0)
            invariant
                j <= out@.len(),
                forall|k: int| j <= k < out@.len() ==> !id_leq(#[trigger] out@[k].0, x.0),
            decreases j,
        {
            j = j - 1;
        }
        proof {
            lemma_insert_stable_at(out@, x, j as int);
            assert(items@.take(i + 1).drop_last() =~= items@.take(i as int));
        }
        out.insert(j, x);
        proof {
            assert(out@ =~= stable_sorted(items@.take(i as int)).take(j as int).push(x)
                + stable_sorted(items@.take(i as int)).skip(j as int));
        }
        i = i + 1;
    }
    proof {
        assert(items@.take(items@.len() as int) =~= items@);
    }
    out
}

} // verus!
