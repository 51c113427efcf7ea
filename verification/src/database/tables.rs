//! A table with a unique key, seen as the finite map from each key to what
//! its row holds.

use vstd::prelude::*;

verus! {

/// The map that a list of rows stands for: each row's key to its value.
pub open spec fn table<R, K, V>(rows: Seq<R>, key: spec_fn(R) -> K, value: spec_fn(R) -> V) -> Map<
    K,
    V,
>
    decreases rows.len(),
{
    if rows.len() == 0 {
        Map::empty()
    } else {
        table(rows.drop_last(), key, value).insert(key(rows.last()), value(rows.last()))
    }
}

/// No two rows have the same key.
pub open spec fn distinct_keys<R, K>(rows: Seq<R>, key: spec_fn(R) -> K) -> bool {
    forall|i: int, j: int| 0 <= i < j < rows.len() ==> key(#[trigger] rows[i]) != key(#[trigger] rows[j])
}

/// Some row has the key `k`.
pub open spec fn has_key<R, K>(rows: Seq<R>, key: spec_fn(R) -> K, k: K) -> bool {
    exists|i: int| 0 <= i < rows.len() && key(#[trigger] rows[i]) == k
}

/// The keys of the map are the keys of the rows, and they are finitely many.
pub proof fn lemma_table_keys<R, K, V>(rows: Seq<R>, key: spec_fn(R) -> K, value: spec_fn(R) -> V)
    ensures
        table(rows, key, value).dom().finite(),
        forall|k: K| #[trigger] table(rows, key, value).dom().contains(k) <==> has_key(rows, key, k),
    decreases rows.len(),
{
    if rows.len() > 0 {
        let before = rows.drop_last();
        lemma_table_keys(before, key, value);
        assert forall|k: K| #[trigger]
            table(rows, key, value).dom().contains(k) <==> has_key(rows, key, k) by {
            if has_key(rows, key, k) {
                let i = choose|i: int| 0 <= i < rows.len() && key(#[trigger] rows[i]) == k;
                if i < before.len() {
                    assert(before[i] == rows[i]);
                    assert(has_key(before, key, k));
                }
            }
            if table(rows, key, value).dom().contains(k) {
                if key(rows.last()) == k {
                    assert(rows[rows.len() - 1] == rows.last());
                } else {
                    assert(has_key(before, key, k));
                    let i = choose|i: int| 0 <= i < before.len() && key(#[trigger] before[i]) == k;
                    assert(before[i] == rows[i]);
                }
            }
        }
    }
}

/// With distinct keys, the map gives each row's key that row's value.
pub proof fn lemma_table_row<R, K, V>(
    rows: Seq<R>,
    key: spec_fn(R) -> K,
    value: spec_fn(R) -> V,
    i: int,
)
    requires
        distinct_keys(rows, key),
        0 <= i < rows.len(),
    ensures
        table(rows, key, value).dom().contains(key(rows[i])),
        table(rows, key, value)[key(rows[i])] == value(rows[i]),
    decreases rows.len(),
{
    let before = rows.drop_last();
    if i < rows.len() - 1 {
        assert forall|a: int, b: int| 0 <= a < b < before.len() implies key(#[trigger] before[a])
            != key(#[trigger] before[b]) by {
            assert(before[a] == rows[a] && before[b] == rows[b]);
        }
        assert(before[i] == rows[i]);
        lemma_table_row(before, key, value, i);
        assert(key(rows[i]) != key(rows[rows.len() - 1]));
    }
}

/// With distinct keys, the map has as many keys as there are rows.
pub proof fn lemma_table_len<R, K, V>(rows: Seq<R>, key: spec_fn(R) -> K, value: spec_fn(R) -> V)
    requires
        distinct_keys(rows, key),
    ensures
        table(rows, key, value).dom().finite(),
        table(rows, key, value).dom().len() == rows.len(),
    decreases rows.len(),
{
    lemma_table_keys(rows, key, value);
    if rows.len() > 0 {
        let before = rows.drop_last();
        assert forall|a: int, b: int| 0 <= a < b < before.len() implies key(#[trigger] before[a])
            != key(#[trigger] before[b]) by {
            assert(before[a] == rows[a] && before[b] == rows[b]);
        }
        lemma_table_len(before, key, value);
        lemma_table_keys(before, key, value);
        if has_key(before, key, key(rows.last())) {
            let i = choose|i: int|
                0 <= i < before.len() && key(#[trigger] before[i]) == key(rows.last());
            assert(before[i] == rows[i]);
            assert(key(rows[i]) != key(rows[rows.len() - 1]));
        }
        assert(!table(before, key, value).dom().contains(key(rows.last())));
    }
}

/// A row added at the end adds its key and value to the map.
pub proof fn lemma_table_push<R, K, V>(
    rows: Seq<R>,
    key: spec_fn(R) -> K,
    value: spec_fn(R) -> V,
    row: R,
)
    ensures
        table(rows.push(row), key, value) == table(rows, key, value).insert(key(row), value(row)),
{
    assert(rows.push(row).drop_last() == rows);
}

/// A row replaced by one with the same key changes only that key's value.
pub proof fn lemma_table_update<R, K, V>(
    rows: Seq<R>,
    key: spec_fn(R) -> K,
    value: spec_fn(R) -> V,
    i: int,
    row: R,
)
    requires
        distinct_keys(rows, key),
        0 <= i < rows.len(),
        key(row) == key(rows[i]),
    ensures
        distinct_keys(rows.update(i, row), key),
        table(rows.update(i, row), key, value) == table(rows, key, value).insert(
            key(row),
            value(row),
        ),
    decreases rows.len(),
{
    let after = rows.update(i, row);
    assert forall|a: int, b: int| 0 <= a < b < after.len() implies key(#[trigger] after[a]) != key(
        #[trigger] after[b],
    ) by {
        assert(key(after[a]) == key(rows[a]) && key(after[b]) == key(rows[b]));
    }
    let before = rows.drop_last();
    if i == rows.len() - 1 {
        assert(after.drop_last() == before);
        assert(table(after, key, value) == table(rows, key, value).insert(key(row), value(row)));
    } else {
        assert forall|a: int, b: int| 0 <= a < b < before.len() implies key(#[trigger] before[a])
            != key(#[trigger] before[b]) by {
            assert(before[a] == rows[a] && before[b] == rows[b]);
        }
        assert(before[i] == rows[i]);
        lemma_table_update(before, key, value, i, row);
        assert(after.drop_last() == before.update(i, row));
        assert(after.last() == rows.last());
        assert(key(rows[i]) != key(rows[rows.len() - 1]));
        assert(table(after, key, value) == table(rows, key, value).insert(key(row), value(row)));
    }
}

} // verus!
