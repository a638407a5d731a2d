use vstd::prelude::*;

verus! {

/// An entry of a table held as a sequence: a key and a value.
pub trait Keyed {
    type K;

    type V;

    spec fn key(&self) -> Self::K;

    spec fn value(&self) -> Self::V;
}

/// The map that a sequence of entries stands for: a later entry wins over an earlier
/// one with the same key.
pub open spec fn table_view<E: Keyed>(s: Seq<E>) -> Map<E::K, E::V>
    decreases s.len(),
{
    if s.len() == 0 {
        Map::empty()
    } else {
        table_view(s.drop_last()).insert(s.last().key(), s.last().value())
    }
}

/// No key occurs twice.
pub open spec fn unique_keys<E: Keyed>(s: Seq<E>) -> bool {
    forall|i: int, j: int| 0 <= i < j < s.len() ==> s[i].key() != s[j].key()
}

/// `i` is the last position that holds key `k`.
pub open spec fn last_with_key<E: Keyed>(s: Seq<E>, i: int, k: E::K) -> bool {
    &&& 0 <= i < s.len()
    &&& s[i].key() == k
    &&& forall|j: int| i < j < s.len() ==> s[j].key() != k
}

pub proof fn lemma_view_push<E: Keyed>(s: Seq<E>, e: E)
    ensures
        table_view(s.push(e)) == table_view(s).insert(e.key(), e.value()),
{
    assert(s.push(e).drop_last() == s);
}

pub proof fn lemma_view_absent<E: Keyed>(s: Seq<E>, k: E::K)
    requires
        forall|j: int| 0 <= j < s.len() ==> s[j].key() != k,
    ensures
        !table_view(s).contains_key(k),
    decreases s.len(),
{
    if s.len() > 0 {
        lemma_view_absent(s.drop_last(), k);
    }
}

pub proof fn lemma_view_last_match<E: Keyed>(s: Seq<E>, i: int, k: E::K)
    requires
        last_with_key(s, i, k),
    ensures
        table_view(s).contains_key(k),
        table_view(s)[k] == s[i].value(),
    decreases s.len(),
{
    if i < s.len() - 1 {
        lemma_view_last_match(s.drop_last(), i, k);
    }
}

pub proof fn lemma_view_update<E: Keyed>(s: Seq<E>, i: int, e: E)
    requires
        last_with_key(s, i, e.key()),
    ensures
        table_view(s.update(i, e)) == table_view(s).insert(e.key(), e.value()),
    decreases s.len(),
{
    let t = s.update(i, e);
    if i == s.len() - 1 {
        assert(t.drop_last() == s.drop_last());
        assert(table_view(t) =~= table_view(s).insert(e.key(), e.value()));
    } else {
        assert(t.drop_last() == s.drop_last().update(i, e));
        lemma_view_update(s.drop_last(), i, e);
        assert(table_view(t) =~= table_view(s).insert(e.key(), e.value()));
    }
}

pub proof fn lemma_unique_update<E: Keyed>(s: Seq<E>, i: int, e: E)
    requires
        unique_keys(s),
        0 <= i < s.len(),
        s[i].key() == e.key(),
    ensures
        unique_keys(s.update(i, e)),
{
    let t = s.update(i, e);
    assert forall|a: int, b: int| 0 <= a < b < t.len() implies t[a].key() != t[b].key() by {
        assert(s[a].key() != s[b].key());
    }
}

pub proof fn lemma_unique_push<E: Keyed>(s: Seq<E>, e: E)
    requires
        unique_keys(s),
        forall|j: int| 0 <= j < s.len() ==> s[j].key() != e.key(),
    ensures
        unique_keys(s.push(e)),
{
}

/// The last position that holds key `k`, or `-1` when none does.
pub open spec fn find_last<E: Keyed>(s: Seq<E>, k: E::K) -> int
    decreases s.len(),
{
    if s.len() == 0 {
        -1
    } else if s.last().key() == k {
        s.len() - 1
    } else {
        find_last(s.drop_last(), k)
    }
}

/// The entries with `e` stored under its key: it replaces the last entry with that key,
/// or is appended when there is none.
pub open spec fn with_entry<E: Keyed>(s: Seq<E>, e: E) -> Seq<E> {
    let i = find_last(s, e.key());
    if i >= 0 {
        s.update(i, e)
    } else {
        s.push(e)
    }
}

pub proof fn lemma_find_last<E: Keyed>(s: Seq<E>, k: E::K)
    ensures
        find_last(s, k) == -1 <==> (forall|j: int| 0 <= j < s.len() ==> s[j].key() != k),
        find_last(s, k) != -1 ==> last_with_key(s, find_last(s, k), k),
    decreases s.len(),
{
    if s.len() > 0 {
        lemma_find_last(s.drop_last(), k);
        if s.last().key() != k {
            if find_last(s.drop_last(), k) == -1 {
                assert forall|j: int| 0 <= j < s.len() implies s[j].key() != k by {
                    if j < s.len() - 1 {
                        assert(s[j] == s.drop_last()[j]);
                    }
                }
            } else {
                let i = find_last(s.drop_last(), k);
                assert(s[i] == s.drop_last()[i]);
                assert forall|j: int| i < j < s.len() implies s[j].key() != k by {
                    if j < s.len() - 1 {
                        assert(s[j] == s.drop_last()[j]);
                    }
                }
            }
        }
    }
}

} // verus!
