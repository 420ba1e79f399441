//! The mathematical model shared by the record stores.
//!
//! A store is modelled as a sequence of records in strictly ascending key
//! order.  `lookup`, `upsert`, `remove_key` and `rebuild` describe what the
//! executable operations do to that sequence; the lemmas below are the facts
//! the services need about them.

use vstd::prelude::*;

verus! {

/// A record kind identified by a numeric key.
pub trait Keyed {
    spec fn key(self) -> u64;
}

/// The records appear in strictly ascending key order (so keys are unique).
pub open spec fn sorted_by_key<A: Keyed>(s: Seq<A>) -> bool {
    forall|i: int, j: int| 0 <= i < j < s.len() ==> s[i].key() < s[j].key()
}

/// Some record of `s` carries the key `id`.
pub open spec fn contains_key<A: Keyed>(s: Seq<A>, id: u64) -> bool {
    exists|i: int| 0 <= i < s.len() && s[i].key() == id
}

/// The first record of `s` whose key is `id`, if any.
pub open spec fn lookup<A: Keyed>(s: Seq<A>, id: u64) -> Option<A>
    decreases s.len(),
{
    if s.len() == 0 {
        None
    } else if s[0].key() == id {
        Some(s[0])
    } else {
        lookup(s.drop_first(), id)
    }
}

/// `s` with `p` inserted in key order, replacing the record with the same key
/// if one is already there.
pub open spec fn upsert<A: Keyed>(s: Seq<A>, p: A) -> Seq<A>
    decreases s.len(),
{
    if s.len() == 0 {
        seq![p]
    } else if p.key() < s[0].key() {
        seq![p] + s
    } else if p.key() == s[0].key() {
        seq![p] + s.drop_first()
    } else {
        seq![s[0]] + upsert(s.drop_first(), p)
    }
}

/// `s` with the first record keyed `id` removed, if any.
pub open spec fn remove_key<A: Keyed>(s: Seq<A>, id: u64) -> Seq<A>
    decreases s.len(),
{
    if s.len() == 0 {
        s
    } else if s[0].key() == id {
        s.drop_first()
    } else {
        seq![s[0]] + remove_key(s.drop_first(), id)
    }
}

/// The store obtained by upserting every record of `s` in order, so a later
/// record with a duplicate key silently overwrites an earlier one.
pub open spec fn rebuild<A: Keyed>(s: Seq<A>) -> Seq<A>
    decreases s.len(),
{
    if s.len() == 0 {
        Seq::empty()
    } else {
        upsert(rebuild(s.drop_last()), s.last())
    }
}

/// Skipping a prefix that does not carry `id` leaves `lookup` unchanged.
pub proof fn lemma_lookup_skip<A: Keyed>(s: Seq<A>, id: u64, i: int)
    requires
        0 <= i <= s.len(),
        forall|j: int| 0 <= j < i ==> s[j].key() != id,
    ensures
        lookup(s, id) == lookup(s.skip(i), id),
    decreases i,
{
    if i == 0 {
        assert(s.skip(0) =~= s);
    } else {
        lemma_lookup_skip(s, id, i - 1);
        assert(s.skip(i - 1).drop_first() =~= s.skip(i));
        assert(s.skip(i - 1)[0] == s[i - 1]);
    }
}

/// A key held by no record is not found.
pub proof fn lemma_lookup_none<A: Keyed>(s: Seq<A>, id: u64)
    requires
        forall|j: int| 0 <= j < s.len() ==> s[j].key() != id,
    ensures
        lookup(s, id) is None,
{
    lemma_lookup_skip(s, id, s.len() as int);
    assert(s.skip(s.len() as int) =~= Seq::<A>::empty());
}

/// The first matching position is what `lookup` returns.
pub proof fn lemma_lookup_found<A: Keyed>(s: Seq<A>, id: u64, i: int)
    requires
        0 <= i < s.len(),
        s[i].key() == id,
        forall|j: int| 0 <= j < i ==> s[j].key() != id,
    ensures
        lookup(s, id) == Some(s[i]),
{
    lemma_lookup_skip(s, id, i);
    assert(s.skip(i)[0] == s[i]);
}

/// What `lookup` finds after an upsert.
pub proof fn lemma_upsert_lookup<A: Keyed>(s: Seq<A>, p: A, id: u64)
    ensures
        lookup(upsert(s, p), id) == if id == p.key() {
            Some(p)
        } else {
            lookup(s, id)
        },
    decreases s.len(),
{
    if s.len() == 0 {
        let t = seq![p];
        assert(t.drop_first() =~= Seq::<A>::empty());
    } else if p.key() < s[0].key() {
        let t = seq![p] + s;
        assert(t[0] == p);
        assert(t.drop_first() =~= s);
    } else if p.key() == s[0].key() {
        let t = seq![p] + s.drop_first();
        assert(t[0] == p);
        assert(t.drop_first() =~= s.drop_first());
    } else {
        lemma_upsert_lookup(s.drop_first(), p, id);
        let t = seq![s[0]] + upsert(s.drop_first(), p);
        assert(t[0] == s[0]);
        assert(t.drop_first() =~= upsert(s.drop_first(), p));
    }
}

/// Upserting past a prefix of strictly smaller keys keeps the prefix.
pub proof fn lemma_upsert_prefix<A: Keyed>(s: Seq<A>, p: A, i: int)
    requires
        0 <= i <= s.len(),
        forall|j: int| 0 <= j < i ==> s[j].key() < p.key(),
    ensures
        upsert(s, p) == s.take(i) + upsert(s.skip(i), p),
    decreases i,
{
    if i == 0 {
        assert(s.skip(0) =~= s);
        assert(s.take(0) + upsert(s, p) =~= upsert(s, p));
    } else {
        lemma_upsert_prefix(s, p, i - 1);
        let t = s.skip(i - 1);
        assert(t[0] == s[i - 1]);
        assert(t.drop_first() =~= s.skip(i));
        assert(upsert(t, p) == seq![t[0]] + upsert(s.skip(i), p));
        assert(s.take(i - 1) + (seq![s[i - 1]] + upsert(s.skip(i), p)) =~= s.take(i) + upsert(
            s.skip(i),
            p,
        ));
    }
}

/// Upserting a record whose key is larger than every key appends it.
pub proof fn lemma_upsert_append<A: Keyed>(s: Seq<A>, p: A)
    requires
        forall|j: int| 0 <= j < s.len() ==> s[j].key() < p.key(),
    ensures
        upsert(s, p) == s.push(p),
    decreases s.len(),
{
    if s.len() == 0 {
        assert(seq![p] =~= s.push(p));
    } else {
        lemma_upsert_append(s.drop_first(), p);
        assert(seq![s[0]] + s.drop_first().push(p) =~= s.push(p));
    }
}

/// Upsert keeps the store sorted.
pub proof fn lemma_upsert_sorted<A: Keyed>(s: Seq<A>, p: A)
    requires
        sorted_by_key(s),
    ensures
        sorted_by_key(upsert(s, p)),
    decreases s.len(),
{
    if s.len() == 0 {
    } else if p.key() < s[0].key() {
        assert(sorted_by_key(seq![p] + s)) by {
            let t = seq![p] + s;
            assert(forall|i: int, j: int|
                0 <= i < j < t.len() ==> t[i].key() < t[j].key()) by {
                assert(forall|j: int| 1 <= j < t.len() ==> t[j] == s[j - 1]);
            }
        }
    } else if p.key() == s[0].key() {
        let t = seq![p] + s.drop_first();
        assert(forall|j: int| 1 <= j < t.len() ==> t[j] == s[j]);
    } else {
        assert(sorted_by_key(s.drop_first())) by {
            assert(forall|j: int| 0 <= j < s.drop_first().len() ==> s.drop_first()[j] == s[j + 1]);
        }
        lemma_upsert_sorted(s.drop_first(), p);
        let u = upsert(s.drop_first(), p);
        lemma_upsert_keys(s.drop_first(), p);
        let t = seq![s[0]] + u;
        assert(forall|j: int| 1 <= j < t.len() ==> t[j] == u[j - 1]);
        assert(forall|j: int| 0 <= j < u.len() ==> s[0].key() < u[j].key()) by {
            assert(forall|j: int| 0 <= j < s.drop_first().len() ==> s.drop_first()[j] == s[j + 1]);
        }
    }
}

/// Every key of the upserted store is the new key or one that was there.
pub proof fn lemma_upsert_keys<A: Keyed>(s: Seq<A>, p: A)
    ensures
        forall|i: int|
            0 <= i < upsert(s, p).len() ==> upsert(s, p)[i].key() == p.key() || contains_key(
                s,
                upsert(s, p)[i].key(),
            ),
    decreases s.len(),
{
    if s.len() == 0 {
    } else if p.key() < s[0].key() {
        let t = seq![p] + s;
        assert(forall|i: int| 1 <= i < t.len() ==> t[i] == s[i - 1]);
    } else if p.key() == s[0].key() {
        let t = seq![p] + s.drop_first();
        assert(forall|i: int| 1 <= i < t.len() ==> t[i] == s[i]);
    } else {
        lemma_upsert_keys(s.drop_first(), p);
        let u = upsert(s.drop_first(), p);
        let t = seq![s[0]] + u;
        assert(forall|i: int| 1 <= i < t.len() ==> t[i] == u[i - 1]);
        assert(forall|i: int|
            0 <= i < s.drop_first().len() ==> s.drop_first()[i] == s[i + 1]);
    }
}

/// Removing a key keeps the store sorted.
pub proof fn lemma_remove_sorted<A: Keyed>(s: Seq<A>, id: u64)
    requires
        sorted_by_key(s),
    ensures
        sorted_by_key(remove_key(s, id)),
    decreases s.len(),
{
    if s.len() == 0 {
    } else if s[0].key() == id {
        assert(forall|j: int| 0 <= j < s.drop_first().len() ==> s.drop_first()[j] == s[j + 1]);
    } else {
        assert(sorted_by_key(s.drop_first())) by {
            assert(forall|j: int| 0 <= j < s.drop_first().len() ==> s.drop_first()[j] == s[j + 1]);
        }
        lemma_remove_sorted(s.drop_first(), id);
        let u = remove_key(s.drop_first(), id);
        lemma_remove_keys(s.drop_first(), id);
        let t = seq![s[0]] + u;
        assert(forall|j: int| 1 <= j < t.len() ==> t[j] == u[j - 1]);
        assert(forall|j: int| 0 <= j < u.len() ==> s[0].key() < u[j].key()) by {
            assert(forall|j: int| 0 <= j < s.drop_first().len() ==> s.drop_first()[j] == s[j + 1]);
        }
    }
}

/// Every record that survives a removal was already there.
pub proof fn lemma_remove_keys<A: Keyed>(s: Seq<A>, id: u64)
    ensures
        forall|i: int|
            0 <= i < remove_key(s, id).len() ==> contains_key(s, remove_key(s, id)[i].key()),
    decreases s.len(),
{
    if s.len() == 0 {
    } else if s[0].key() == id {
        assert(forall|i: int|
            0 <= i < s.drop_first().len() ==> s.drop_first()[i] == s[i + 1]);
    } else {
        lemma_remove_keys(s.drop_first(), id);
        let u = remove_key(s.drop_first(), id);
        let t = seq![s[0]] + u;
        assert(forall|i: int| 1 <= i < t.len() ==> t[i] == u[i - 1]);
        assert(forall|i: int|
            0 <= i < s.drop_first().len() ==> s.drop_first()[i] == s[i + 1]);
    }
}

/// Removing the record found at the first matching position is `remove_key`.
pub proof fn lemma_remove_at<A: Keyed>(s: Seq<A>, id: u64, i: int)
    requires
        0 <= i < s.len(),
        s[i].key() == id,
        forall|j: int| 0 <= j < i ==> s[j].key() != id,
    ensures
        remove_key(s, id) == s.remove(i),
    decreases i,
{
    if i == 0 {
        assert(s.drop_first() =~= s.remove(0));
    } else {
        assert(s.drop_first()[i - 1].key() == id);
        assert(forall|j: int| 0 <= j < i - 1 ==> s.drop_first()[j] == s[j + 1]);
        lemma_remove_at(s.drop_first(), id, i - 1);
        assert(seq![s[0]] + s.drop_first().remove(i - 1) =~= s.remove(i));
    }
}

/// Replacing the record at the first matching position is `upsert`.
pub proof fn lemma_upsert_at<A: Keyed>(s: Seq<A>, p: A, i: int)
    requires
        0 <= i < s.len(),
        s[i].key() == p.key(),
        forall|j: int| 0 <= j < i ==> s[j].key() < p.key(),
    ensures
        upsert(s, p) == s.update(i, p),
    decreases i,
{
    if i == 0 {
        assert(seq![p] + s.drop_first() =~= s.update(0, p));
    } else {
        assert(s.drop_first()[i - 1].key() == p.key());
        assert(forall|j: int| 0 <= j < i - 1 ==> s.drop_first()[j] == s[j + 1]);
        lemma_upsert_at(s.drop_first(), p, i - 1);
        assert(seq![s[0]] + s.drop_first().update(i - 1, p) =~= s.update(i, p));
    }
}

/// Rebuilding a store that is already sorted gives it back unchanged.
pub proof fn lemma_rebuild_sorted<A: Keyed>(s: Seq<A>)
    requires
        sorted_by_key(s),
    ensures
        rebuild(s) == s,
    decreases s.len(),
{
    if s.len() > 0 {
        assert(sorted_by_key(s.drop_last())) by {
            assert(forall|j: int| 0 <= j < s.drop_last().len() ==> s.drop_last()[j] == s[j]);
        }
        lemma_rebuild_sorted(s.drop_last());
        assert(forall|j: int| 0 <= j < s.drop_last().len() ==> s.drop_last()[j].key() < s.last().key()) by {
            assert(forall|j: int| 0 <= j < s.len() - 1 ==> #[trigger] s[j].key() < s[s.len() - 1].key());
        }
        lemma_upsert_append(s.drop_last(), s.last());
        assert(s.drop_last().push(s.last()) =~= s);
    }
}

} // verus!
