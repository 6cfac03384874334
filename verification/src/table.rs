//! Natural-key tables as sequences of rows. A key function maps a row to
//! its natural key; `key_index` finds the first row with a given key. The
//! persistence operations — overwrite upsert, insert-if-absent, delete —
//! are specified here once, generically, together with the laws the store
//! relies on: keys stay unique, lookups behave like map updates, and
//! re-applying the same write changes nothing.

use vstd::prelude::*;

verus! {

/// Index of the first row whose key is `k`, or `-1` when no row has it.
pub open spec fn key_index<A, K>(rows: Seq<A>, kf: spec_fn(A) -> K, k: K) -> int
    decreases rows.len(),
{
    if rows.len() == 0 {
        -1
    } else if kf(rows[0]) == k {
        0
    } else {
        let r = key_index(rows.drop_first(), kf, k);
        if r < 0 {
            -1
        } else {
            r + 1
        }
    }
}

/// Whether some row has key `k`.
pub open spec fn has_key<A, K>(rows: Seq<A>, kf: spec_fn(A) -> K, k: K) -> bool {
    key_index(rows, kf, k) >= 0
}

/// The first row with key `k`, if any.
pub open spec fn lookup<A, K>(rows: Seq<A>, kf: spec_fn(A) -> K, k: K) -> Option<A> {
    if has_key(rows, kf, k) {
        Some(rows[key_index(rows, kf, k)])
    } else {
        None
    }
}

/// No two rows share a key.
pub open spec fn unique_keys<A, K>(rows: Seq<A>, kf: spec_fn(A) -> K) -> bool {
    forall|i: int, j: int|
        0 <= i < j < rows.len() ==> kf(rows[i]) != kf(rows[j])
}

/// Overwrite upsert: replace the row holding the record's key, or append
/// the record when the key is new.
pub open spec fn spec_upsert<A, K>(rows: Seq<A>, kf: spec_fn(A) -> K, rec: A) -> Seq<A> {
    let i = key_index(rows, kf, kf(rec));
    if i >= 0 {
        rows.update(i, rec)
    } else {
        rows.push(rec)
    }
}

/// Insert-if-absent: append the record when its key is new, otherwise
/// leave the table untouched.
pub open spec fn spec_insert_new<A, K>(rows: Seq<A>, kf: spec_fn(A) -> K, rec: A) -> Seq<A> {
    if has_key(rows, kf, kf(rec)) {
        rows
    } else {
        rows.push(rec)
    }
}

/// Delete by key: remove the row holding `k`, or leave the table
/// untouched when no row has it.
pub open spec fn spec_delete<A, K>(rows: Seq<A>, kf: spec_fn(A) -> K, k: K) -> Seq<A> {
    let i = key_index(rows, kf, k);
    if i >= 0 {
        rows.remove(i)
    } else {
        rows
    }
}

/// `key_index` is a sound and complete first-occurrence search: it stays
/// in bounds, lands on the key when it is present, nothing before it has
/// the key, and `-1` means no row has it.
pub proof fn lemma_key_index_props<A, K>(rows: Seq<A>, kf: spec_fn(A) -> K, k: K)
    ensures
        -1 <= key_index(rows, kf, k) < rows.len(),
        key_index(rows, kf, k) >= 0 ==> kf(rows[key_index(rows, kf, k)]) == k,
        key_index(rows, kf, k) >= 0 ==> (forall|j: int|
            0 <= j < key_index(rows, kf, k) ==> kf(rows[j]) != k),
        key_index(rows, kf, k) == -1 ==> (forall|j: int|
            0 <= j < rows.len() ==> kf(rows[j]) != k),
    decreases rows.len(),
{
    if rows.len() == 0 {
    } else if kf(rows[0]) == k {
    } else {
        let rest = rows.drop_first();
        lemma_key_index_props(rest, kf, k);
        let ki = key_index(rows, kf, k);
        if ki >= 0 {
            assert(rows[ki] == rest[ki - 1]);
            assert forall|j: int| 0 <= j < ki implies kf(rows[j]) != k by {
                if j > 0 {
                    assert(rows[j] == rest[j - 1]);
                }
            }
        } else {
            assert forall|j: int| 0 <= j < rows.len() implies kf(rows[j]) != k by {
                if j > 0 {
                    assert(rows[j] == rest[j - 1]);
                }
            }
        }
    }
}

/// If nothing before `i` has key `k` and row `i` has it, then `i` is the
/// first occurrence.
pub proof fn lemma_key_index_first<A, K>(rows: Seq<A>, kf: spec_fn(A) -> K, k: K, i: int)
    requires
        0 <= i < rows.len(),
        kf(rows[i]) == k,
        forall|j: int| 0 <= j < i ==> kf(rows[j]) != k,
    ensures
        key_index(rows, kf, k) == i,
    decreases i,
{
    if i == 0 {
    } else {
        assert(kf(rows[0]) != k);
        assert(forall|j: int|
            0 <= j < rows.drop_first().len() ==> rows.drop_first()[j] == rows[j + 1]);
        lemma_key_index_first(rows.drop_first(), kf, k, i - 1);
    }
}

/// What one overwrite upsert does to a table with unique keys: keys stay
/// unique, the record is found under its key, every other key keeps its
/// row, and the length grows exactly when the key was new.
pub proof fn lemma_upsert<A, K>(rows: Seq<A>, kf: spec_fn(A) -> K, rec: A)
    requires
        unique_keys(rows, kf),
    ensures
        unique_keys(spec_upsert(rows, kf, rec), kf),
        has_key(spec_upsert(rows, kf, rec), kf, kf(rec)),
        lookup(spec_upsert(rows, kf, rec), kf, kf(rec)) == Some(rec),
        forall|k2: K|
            k2 != kf(rec) ==> lookup(spec_upsert(rows, kf, rec), kf, k2) == lookup(
                rows,
                kf,
                k2,
            ),
        spec_upsert(rows, kf, rec).len() == if has_key(rows, kf, kf(rec)) {
            rows.len() as int
        } else {
            rows.len() + 1int
        },
{
    let k = kf(rec);
    let i = key_index(rows, kf, k);
    lemma_key_index_props(rows, kf, k);
    let upd = spec_upsert(rows, kf, rec);
    if i >= 0 {
        assert(forall|j: int| 0 <= j < rows.len() && j != i ==> upd[j] == rows[j]);
        assert(upd[i] == rec);
        assert(forall|j: int| 0 <= j < rows.len() ==> kf(upd[j]) == kf(rows[j]));
        lemma_key_index_first(upd, kf, k, i);
        assert forall|k2: K| k2 != k implies lookup(upd, kf, k2) == lookup(rows, kf, k2) by {
            lemma_lookup_same_keys(rows, upd, kf, k2);
        }
    } else {
        assert(forall|j: int| 0 <= j < rows.len() ==> upd[j] == rows[j]);
        lemma_key_index_first(upd, kf, k, rows.len() as int);
        assert forall|k2: K| k2 != k implies lookup(upd, kf, k2) == lookup(rows, kf, k2) by {
            let j2 = key_index(rows, kf, k2);
            lemma_key_index_props(rows, kf, k2);
            if j2 >= 0 {
                lemma_key_index_first(upd, kf, k2, j2);
            } else {
                lemma_key_index_props(upd, kf, k2);
            }
        }
    }
}

/// Two tables with pointwise equal keys and equal rows wherever the key
/// is `k2` have the same lookup at `k2`.
proof fn lemma_lookup_same_keys<A, K>(rows1: Seq<A>, rows2: Seq<A>, kf: spec_fn(A) -> K, k2: K)
    requires
        rows1.len() == rows2.len(),
        forall|j: int| 0 <= j < rows1.len() ==> kf(rows1[j]) == kf(rows2[j]),
        forall|j: int| 0 <= j < rows1.len() && kf(rows1[j]) == k2 ==> rows1[j] == rows2[j],
    ensures
        lookup(rows1, kf, k2) == lookup(rows2, kf, k2),
{
    let j1 = key_index(rows1, kf, k2);
    lemma_key_index_props(rows1, kf, k2);
    if j1 >= 0 {
        lemma_key_index_first(rows2, kf, k2, j1);
    } else {
        lemma_key_index_props(rows2, kf, k2);
    }
}

/// What insert-if-absent does: keys stay unique, the key is present
/// afterwards, an already-present key keeps its old row untouched, every
/// other key keeps its row, and the length grows exactly when the key was
/// new.
pub proof fn lemma_insert_new<A, K>(rows: Seq<A>, kf: spec_fn(A) -> K, rec: A)
    requires
        unique_keys(rows, kf),
    ensures
        unique_keys(spec_insert_new(rows, kf, rec), kf),
        has_key(spec_insert_new(rows, kf, rec), kf, kf(rec)),
        lookup(spec_insert_new(rows, kf, rec), kf, kf(rec)) == if has_key(rows, kf, kf(rec)) {
            lookup(rows, kf, kf(rec))
        } else {
            Some(rec)
        },
        forall|k2: K|
            k2 != kf(rec) ==> lookup(spec_insert_new(rows, kf, rec), kf, k2) == lookup(
                rows,
                kf,
                k2,
            ),
        spec_insert_new(rows, kf, rec).len() == if has_key(rows, kf, kf(rec)) {
            rows.len() as int
        } else {
            rows.len() + 1int
        },
{
    let k = kf(rec);
    lemma_key_index_props(rows, kf, k);
    if !has_key(rows, kf, k) {
        let upd = rows.push(rec);
        assert(forall|j: int| 0 <= j < rows.len() ==> upd[j] == rows[j]);
        lemma_key_index_first(upd, kf, k, rows.len() as int);
        assert forall|k2: K| k2 != k implies lookup(upd, kf, k2) == lookup(rows, kf, k2) by {
            let j2 = key_index(rows, kf, k2);
            lemma_key_index_props(rows, kf, k2);
            if j2 >= 0 {
                lemma_key_index_first(upd, kf, k2, j2);
            } else {
                lemma_key_index_props(upd, kf, k2);
            }
        }
    }
}

/// What delete-by-key does: keys stay unique, the key is gone, every other
/// key keeps its row, and the length shrinks exactly when the key was
/// present.
pub proof fn lemma_delete<A, K>(rows: Seq<A>, kf: spec_fn(A) -> K, k: K)
    requires
        unique_keys(rows, kf),
    ensures
        unique_keys(spec_delete(rows, kf, k), kf),
        !has_key(spec_delete(rows, kf, k), kf, k),
        forall|k2: K|
            k2 != k ==> lookup(spec_delete(rows, kf, k), kf, k2) == lookup(rows, kf, k2),
        spec_delete(rows, kf, k).len() == if has_key(rows, kf, k) {
            rows.len() - 1
        } else {
            rows.len() as int
        },
{
    let i = key_index(rows, kf, k);
    lemma_key_index_props(rows, kf, k);
    if i >= 0 {
        let upd = rows.remove(i);
        assert(forall|j: int| 0 <= j < i ==> upd[j] == rows[j]);
        assert(forall|j: int| i <= j < upd.len() ==> upd[j] == rows[j + 1]);
        assert(forall|j: int| 0 <= j < upd.len() ==> kf(upd[j]) != k) by {
            assert forall|j: int| 0 <= j < upd.len() implies kf(upd[j]) != k by {
                if j < i {
                } else {
                    assert(upd[j] == rows[j + 1]);
                }
            }
        }
        lemma_key_index_props(upd, kf, k);
        assert forall|k2: K| k2 != k implies lookup(upd, kf, k2) == lookup(rows, kf, k2) by {
            let j2 = key_index(rows, kf, k2);
            lemma_key_index_props(rows, kf, k2);
            if j2 >= 0 {
                if j2 < i {
                    lemma_key_index_first(upd, kf, k2, j2);
                } else {
                    assert(j2 != i);
                    assert(upd[j2 - 1] == rows[j2]);
                    assert forall|j: int| 0 <= j < j2 - 1 implies kf(upd[j]) != k2 by {
                        if j < i {
                        } else {
                            assert(upd[j] == rows[j + 1]);
                        }
                    }
                    lemma_key_index_first(upd, kf, k2, j2 - 1);
                }
            } else {
                lemma_key_index_props(upd, kf, k2);
                if key_index(upd, kf, k2) >= 0 {
                    let ju = key_index(upd, kf, k2);
                    assert(kf(upd[ju]) == k2);
                    if ju < i {
                    } else {
                        assert(upd[ju] == rows[ju + 1]);
                    }
                }
            }
        }
    }
}

/// Re-applying the same overwrite upsert changes nothing.
pub proof fn lemma_upsert_idempotent<A, K>(rows: Seq<A>, kf: spec_fn(A) -> K, rec: A)
    ensures
        spec_upsert(spec_upsert(rows, kf, rec), kf, rec) == spec_upsert(rows, kf, rec),
{
    let k = kf(rec);
    let i = key_index(rows, kf, k);
    lemma_key_index_props(rows, kf, k);
    let upd = spec_upsert(rows, kf, rec);
    if i >= 0 {
        lemma_key_index_first(upd, kf, k, i);
        assert(spec_upsert(upd, kf, rec) =~= upd);
    } else {
        lemma_key_index_first(upd, kf, k, rows.len() as int);
        assert(spec_upsert(upd, kf, rec) =~= upd);
    }
}

/// Overwrite upserts applied in order, one per record.
pub open spec fn spec_upsert_all<A, K>(rows: Seq<A>, kf: spec_fn(A) -> K, recs: Seq<A>) -> Seq<
    A,
>
    decreases recs.len(),
{
    if recs.len() == 0 {
        rows
    } else {
        spec_upsert_all(spec_upsert(rows, kf, recs[0]), kf, recs.drop_first())
    }
}

/// A sequence of upserts keeps keys unique.
pub proof fn lemma_upsert_all_unique<A, K>(rows: Seq<A>, kf: spec_fn(A) -> K, recs: Seq<A>)
    requires
        unique_keys(rows, kf),
    ensures
        unique_keys(spec_upsert_all(rows, kf, recs), kf),
    decreases recs.len(),
{
    if recs.len() > 0 {
        lemma_upsert(rows, kf, recs[0]);
        lemma_upsert_all_unique(spec_upsert(rows, kf, recs[0]), kf, recs.drop_first());
    }
}

/// `key_index` depends only on the keys of the rows, not on the rows
/// themselves.
pub proof fn lemma_key_index_same_keys<A, K>(r1: Seq<A>, r2: Seq<A>, kf: spec_fn(A) -> K, k: K)
    requires
        r1.len() == r2.len(),
        forall|j: int| 0 <= j < r1.len() ==> kf(r1[j]) == kf(r2[j]),
    ensures
        key_index(r1, kf, k) == key_index(r2, kf, k),
{
    let j1 = key_index(r1, kf, k);
    lemma_key_index_props(r1, kf, k);
    lemma_key_index_props(r2, kf, k);
    if j1 >= 0 {
        lemma_key_index_first(r2, kf, k, j1);
    } else {
        if key_index(r2, kf, k) >= 0 {
            assert(kf(r1[key_index(r2, kf, k)]) == k);
        }
    }
}

/// One upsert makes its key present and keeps every other key's presence
/// unchanged.
pub proof fn lemma_upsert_has_key<A, K>(rows: Seq<A>, kf: spec_fn(A) -> K, rec: A, k: K)
    ensures
        has_key(spec_upsert(rows, kf, rec), kf, k) == (has_key(rows, kf, k) || kf(rec) == k),
{
    let i = key_index(rows, kf, kf(rec));
    lemma_key_index_props(rows, kf, kf(rec));
    let upd = spec_upsert(rows, kf, rec);
    if i >= 0 {
        assert(forall|j: int| 0 <= j < rows.len() ==> kf(upd[j]) == kf(rows[j]));
        lemma_key_index_same_keys(upd, rows, kf, k);
        lemma_key_index_props(rows, kf, k);
        if kf(rec) == k {
            lemma_key_index_first(rows, kf, k, i);
        }
    } else {
        assert(forall|j: int| 0 <= j < rows.len() ==> upd[j] == rows[j]);
        lemma_key_index_props(rows, kf, k);
        let jr = key_index(rows, kf, k);
        if jr >= 0 {
            lemma_key_index_first(upd, kf, k, jr);
        } else if kf(rec) == k {
            lemma_key_index_first(upd, kf, k, rows.len() as int);
        } else {
            lemma_key_index_props(upd, kf, k);
            if key_index(upd, kf, k) >= 0 {
                assert(kf(upd[key_index(upd, kf, k)]) == k);
            }
        }
    }
}

/// The upserted record is found under its own key, whatever the table
/// held before.
pub proof fn lemma_upsert_lookup_self<A, K>(rows: Seq<A>, kf: spec_fn(A) -> K, rec: A)
    ensures
        lookup(spec_upsert(rows, kf, rec), kf, kf(rec)) == Some(rec),
{
    let k = kf(rec);
    let i = key_index(rows, kf, k);
    lemma_key_index_props(rows, kf, k);
    let upd = spec_upsert(rows, kf, rec);
    if i >= 0 {
        lemma_key_index_first(upd, kf, k, i);
    } else {
        lemma_key_index_first(upd, kf, k, rows.len() as int);
    }
}

/// An upsert of a record with a different key moves neither the first
/// occurrence of `k` nor its row.
pub proof fn lemma_upsert_untouched<A, K>(rows: Seq<A>, kf: spec_fn(A) -> K, rec: A, k: K)
    requires
        kf(rec) != k,
    ensures
        key_index(spec_upsert(rows, kf, rec), kf, k) == key_index(rows, kf, k),
        key_index(rows, kf, k) >= 0 ==> spec_upsert(rows, kf, rec)[key_index(rows, kf, k)]
            == rows[key_index(rows, kf, k)],
{
    let i = key_index(rows, kf, kf(rec));
    lemma_key_index_props(rows, kf, kf(rec));
    lemma_key_index_props(rows, kf, k);
    let upd = spec_upsert(rows, kf, rec);
    let p = key_index(rows, kf, k);
    if i >= 0 {
        assert(forall|j: int| 0 <= j < rows.len() ==> kf(upd[j]) == kf(rows[j]));
        lemma_key_index_same_keys(upd, rows, kf, k);
        if p >= 0 {
            assert(kf(rows[i]) == kf(rec));
            assert(i != p);
        }
    } else {
        assert(forall|j: int| 0 <= j < rows.len() ==> upd[j] == rows[j]);
        if p >= 0 {
            lemma_key_index_first(upd, kf, k, p);
        } else {
            lemma_key_index_props(upd, kf, k);
            if key_index(upd, kf, k) >= 0 {
                assert(kf(upd[key_index(upd, kf, k)]) == k);
            }
        }
    }
}

/// A run of upserts none of which carries key `k` moves neither the first
/// occurrence of `k` nor its row.
pub proof fn lemma_upsert_all_untouched<A, K>(
    rows: Seq<A>,
    kf: spec_fn(A) -> K,
    recs: Seq<A>,
    k: K,
)
    requires
        forall|j: int| 0 <= j < recs.len() ==> kf(recs[j]) != k,
    ensures
        key_index(spec_upsert_all(rows, kf, recs), kf, k) == key_index(rows, kf, k),
        key_index(rows, kf, k) >= 0 ==> spec_upsert_all(rows, kf, recs)[key_index(
            rows,
            kf,
            k,
        )] == rows[key_index(rows, kf, k)],
    decreases recs.len(),
{
    if recs.len() > 0 {
        lemma_upsert_untouched(rows, kf, recs[0], k);
        lemma_upsert_all_untouched(spec_upsert(rows, kf, recs[0]), kf, recs.drop_first(), k);
    }
}

/// After a run of upserts, a key is present exactly when it was present
/// before or some upserted record carries it.
pub proof fn lemma_upsert_all_has_key<A, K>(
    rows: Seq<A>,
    kf: spec_fn(A) -> K,
    recs: Seq<A>,
    k: K,
)
    ensures
        has_key(spec_upsert_all(rows, kf, recs), kf, k) == (has_key(rows, kf, k) || exists|j: int|
            0 <= j < recs.len() && kf(recs[j]) == k),
    decreases recs.len(),
{
    if recs.len() > 0 {
        let t1 = spec_upsert(rows, kf, recs[0]);
        lemma_upsert_has_key(rows, kf, recs[0], k);
        lemma_upsert_all_has_key(t1, kf, recs.drop_first(), k);
        let rest = recs.drop_first();
        if exists|j: int| 0 <= j < rest.len() && kf(rest[j]) == k {
            let j = choose|j: int| 0 <= j < rest.len() && kf(rest[j]) == k;
            assert(kf(recs[j + 1]) == k);
        }
        if kf(recs[0]) == k {
        } else if exists|j: int| 0 <= j < recs.len() && kf(recs[j]) == k {
            let j = choose|j: int| 0 <= j < recs.len() && kf(recs[j]) == k;
            assert(j != 0);
            assert(kf(rest[j - 1]) == k);
        }
    }
}

/// Two tables with the same keys that differ only in the row at one first
/// occurrence are reconciled by any run of upserts that carries that key.
proof fn lemma_upsert_all_overwrites_diff<A, K>(
    r1: Seq<A>,
    r2: Seq<A>,
    kf: spec_fn(A) -> K,
    recs: Seq<A>,
    p: int,
)
    requires
        r1.len() == r2.len(),
        0 <= p < r1.len(),
        forall|j: int| 0 <= j < r1.len() ==> kf(r1[j]) == kf(r2[j]),
        forall|j: int| 0 <= j < r1.len() && j != p ==> r1[j] == r2[j],
        key_index(r1, kf, kf(r1[p])) == p,
        exists|j: int| 0 <= j < recs.len() && kf(recs[j]) == kf(r1[p]),
    ensures
        spec_upsert_all(r1, kf, recs) == spec_upsert_all(r2, kf, recs),
    decreases recs.len(),
{
    let k = kf(r1[p]);
    let e0 = recs[0];
    let k0 = kf(e0);
    let rest = recs.drop_first();
    lemma_key_index_same_keys(r1, r2, kf, k0);
    let q = key_index(r1, kf, k0);
    lemma_key_index_props(r1, kf, k0);
    if q >= 0 {
        let u1 = r1.update(q, e0);
        let u2 = r2.update(q, e0);
        assert(spec_upsert(r1, kf, e0) == u1);
        assert(spec_upsert(r2, kf, e0) == u2);
        if k0 == k {
            assert(q == p);
            assert(u1 =~= u2);
        } else {
            assert(q != p);
            assert(forall|j: int| 0 <= j < u1.len() ==> kf(u1[j]) == kf(r1[j]));
            lemma_key_index_same_keys(u1, r1, kf, k);
            assert(exists|j: int| 0 <= j < rest.len() && kf(rest[j]) == k) by {
                let j = choose|j: int| 0 <= j < recs.len() && kf(recs[j]) == k;
                assert(j != 0);
                assert(kf(rest[j - 1]) == k);
            }
            lemma_upsert_all_overwrites_diff(u1, u2, kf, rest, p);
        }
    } else {
        assert(k0 != k);
        let u1 = r1.push(e0);
        let u2 = r2.push(e0);
        lemma_key_index_same_keys(r1, r2, kf, k0);
        assert(spec_upsert(r1, kf, e0) == u1);
        assert(spec_upsert(r2, kf, e0) == u2);
        lemma_key_index_props(r1, kf, k);
        lemma_key_index_first(u1, kf, k, p);
        assert(exists|j: int| 0 <= j < rest.len() && kf(rest[j]) == k) by {
            let j = choose|j: int| 0 <= j < recs.len() && kf(recs[j]) == k;
            assert(j != 0);
            assert(kf(rest[j - 1]) == k);
        }
        lemma_upsert_all_overwrites_diff(u1, u2, kf, rest, p);
    }
}

/// Re-applying the same run of upserts, in the same order, changes
/// nothing.
pub proof fn lemma_upsert_all_idempotent<A, K>(rows: Seq<A>, kf: spec_fn(A) -> K, recs: Seq<A>)
    ensures
        spec_upsert_all(spec_upsert_all(rows, kf, recs), kf, recs) == spec_upsert_all(
            rows,
            kf,
            recs,
        ),
    decreases recs.len(),
{
    if recs.len() == 0 {
        return ;
    }
    let e = recs[0];
    let k = kf(e);
    let rest = recs.drop_first();
    let t1 = spec_upsert(rows, kf, e);
    let u = spec_upsert_all(t1, kf, rest);
    assert(spec_upsert_all(rows, kf, recs) == u);
    lemma_upsert_all_idempotent(t1, kf, rest);
    lemma_upsert_has_key(rows, kf, e, k);
    lemma_upsert_all_has_key(t1, kf, rest, k);
    assert(has_key(u, kf, k));
    let p = key_index(u, kf, k);
    lemma_key_index_props(u, kf, k);
    let w = spec_upsert(u, kf, e);
    assert(w == u.update(p, e));
    assert(spec_upsert_all(u, kf, recs) == spec_upsert_all(w, kf, rest));
    if exists|j: int| 0 <= j < rest.len() && kf(rest[j]) == k {
        if w =~= u {
            assert(spec_upsert_all(w, kf, rest) == spec_upsert_all(u, kf, rest));
        } else {
            assert(forall|j: int| 0 <= j < u.len() ==> kf(w[j]) == kf(u[j]));
            lemma_key_index_same_keys(w, u, kf, k);
            lemma_upsert_all_overwrites_diff(w, u, kf, rest, p);
        }
        assert(spec_upsert_all(w, kf, rest) == spec_upsert_all(u, kf, rest));
        assert(spec_upsert_all(u, kf, rest) == u);
    } else {
        lemma_upsert_lookup_self(rows, kf, e);
        let pt = key_index(t1, kf, k);
        lemma_key_index_props(t1, kf, k);
        lemma_upsert_all_untouched(t1, kf, rest, k);
        assert(p == pt);
        assert(u[p] == t1[pt]);
        assert(t1[pt] == e);
        assert(w =~= u);
        assert(spec_upsert_all(w, kf, rest) == spec_upsert_all(u, kf, rest));
        assert(spec_upsert_all(u, kf, rest) == u);
    }
}

/// Re-applying the same insert-if-absent changes nothing.
pub proof fn lemma_insert_new_idempotent<A, K>(rows: Seq<A>, kf: spec_fn(A) -> K, rec: A)
    ensures
        spec_insert_new(spec_insert_new(rows, kf, rec), kf, rec) == spec_insert_new(
            rows,
            kf,
            rec,
        ),
{
    let k = kf(rec);
    if !has_key(rows, kf, k) {
        let upd = rows.push(rec);
        lemma_key_index_props(rows, kf, k);
        lemma_key_index_first(upd, kf, k, rows.len() as int);
    }
}

} // verus!
