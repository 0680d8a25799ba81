//! Rows, keys and references: what the tables of the store have in common.

use vstd::prelude::*;

verus! {

/// A row that refers to a user and to a board game.
pub trait Linked: Copy {
    /// The id of the user this row refers to.
    spec fn user(&self) -> i32;

    /// The id of the board game this row refers to.
    spec fn game(&self) -> i32;

    fn user_id(&self) -> (r: i32)
        ensures
            r == self.user(),
    ;

    fn game_id(&self) -> (r: i32)
        ensures
            r == self.game(),
    ;
}

/// A row that can be copied out of the store.
pub trait Duplicable: Sized {
    fn duplicate(&self) -> (r: Self)
        ensures
            r == *self,
    ;
}

/// Whether no two rows of `rows` have the same key under `key`.
pub open spec fn distinct_by<T, K>(rows: Seq<T>, key: spec_fn(T) -> K) -> bool {
    forall|i: int, j: int|
        0 <= i < j < rows.len() ==> key(#[trigger] rows[i]) != key(#[trigger] rows[j])
}

/// Whether some row of `rows` has the key `k` under `key`.
pub open spec fn has_by<T, K>(rows: Seq<T>, key: spec_fn(T) -> K, k: K) -> bool {
    exists|i: int| 0 <= i < rows.len() && key(#[trigger] rows[i]) == k
}

/// The position of a row with the key `k`; meaningful where there is one.
pub open spec fn index_by<T, K>(rows: Seq<T>, key: spec_fn(T) -> K, k: K) -> int {
    choose|i: int| 0 <= i < rows.len() && key(#[trigger] rows[i]) == k
}

/// The row with the key `k`, if there is one.
pub open spec fn find_by<T, K>(rows: Seq<T>, key: spec_fn(T) -> K, k: K) -> Option<T> {
    if has_by(rows, key, k) {
        Some(rows[index_by(rows, key, k)])
    } else {
        None
    }
}

/// The rows without the row that holds the key `k`, if there is one.
pub open spec fn without_key<T, K>(rows: Seq<T>, key: spec_fn(T) -> K, k: K) -> Seq<T> {
    if has_by(rows, key, k) {
        rows.remove(index_by(rows, key, k))
    } else {
        rows
    }
}

/// Whether `row` refers to the user `id` (with `by_user`) or to the game `id` (without).
pub open spec fn links<T: Linked>(row: T, by_user: bool, id: i32) -> bool {
    if by_user {
        row.user() == id
    } else {
        row.game() == id
    }
}

/// The test that a row passes if whether it refers to the user, or the game, `id`
/// is as `wanted`.
pub open spec fn linked_is<T: Linked>(by_user: bool, id: i32, wanted: bool) -> spec_fn(T) -> bool {
    |row: T| links(row, by_user, id) == wanted
}

/// The test for the rows that do not refer to the user, or the game, `id`.
pub open spec fn unlinked<T: Linked>(by_user: bool, id: i32) -> spec_fn(T) -> bool {
    linked_is::<T>(by_user, id, false)
}

/// The test for the rows that refer to the user, or the game, `id`.
pub open spec fn linked<T: Linked>(by_user: bool, id: i32) -> spec_fn(T) -> bool {
    linked_is::<T>(by_user, id, true)
}

/// Where keys are distinct, the row found under a key is the row at any position
/// that holds the key.
pub proof fn lemma_find_unique<T, K>(rows: Seq<T>, key: spec_fn(T) -> K, i: int)
    requires
        distinct_by(rows, key),
        0 <= i < rows.len(),
    ensures
        has_by(rows, key, key(rows[i])),
        index_by(rows, key, key(rows[i])) == i,
        find_by(rows, key, key(rows[i])) == Some(rows[i]),
{
    let k = key(rows[i]);
    assert(has_by(rows, key, k));
    let j = index_by(rows, key, k);
    assert(0 <= j < rows.len() && key(rows[j]) == k);
    if j != i {
        if j < i {
            assert(key(rows[j]) != key(rows[i]));
        } else {
            assert(key(rows[i]) != key(rows[j]));
        }
    }
}

/// A row added under a key that no row holds keeps the keys distinct.
pub proof fn lemma_push_distinct<T, K>(rows: Seq<T>, key: spec_fn(T) -> K, row: T)
    requires
        distinct_by(rows, key),
        !has_by(rows, key, key(row)),
    ensures
        distinct_by(rows.push(row), key),
{
    let after = rows.push(row);
    assert forall|i: int, j: int| 0 <= i < j < after.len() implies key(#[trigger] after[i])
        != key(#[trigger] after[j]) by {
        if j == rows.len() {
            assert(after[i] == rows[i]);
            if key(rows[i]) == key(row) {
                assert(has_by(rows, key, key(row)));
            }
        } else {
            assert(after[i] == rows[i] && after[j] == rows[j]);
        }
    }
}

/// The keys after a row was added: those before, and the key of the row.
pub proof fn lemma_push_has<T, K>(rows: Seq<T>, key: spec_fn(T) -> K, row: T)
    ensures
        forall|k: K| #[trigger]
            has_by(rows.push(row), key, k) <==> has_by(rows, key, k) || k == key(row),
{
    let after = rows.push(row);
    assert forall|k: K| #[trigger]
        has_by(after, key, k) <==> has_by(rows, key, k) || k == key(row) by {
        if has_by(after, key, k) {
            let i = index_by(after, key, k);
            if i < rows.len() {
                assert(after[i] == rows[i]);
                assert(has_by(rows, key, k));
            }
        }
        if has_by(rows, key, k) {
            let i = index_by(rows, key, k);
            assert(after[i] == rows[i]);
            assert(has_by(after, key, k));
        }
        if k == key(row) {
            assert(after[rows.len() as int] == row);
            assert(has_by(after, key, k));
        }
    }
}

/// Taking a row out keeps the keys distinct, and its key is then held by no row.
pub proof fn lemma_remove_distinct<T, K>(rows: Seq<T>, key: spec_fn(T) -> K, at: int)
    requires
        distinct_by(rows, key),
        0 <= at < rows.len(),
    ensures
        distinct_by(rows.remove(at), key),
        !has_by(rows.remove(at), key, key(rows[at])),
        forall|k: K| k != key(rows[at]) ==> has_by(rows.remove(at), key, k) == has_by(rows, key, k),
{
    let after = rows.remove(at);
    assert forall|i: int| 0 <= i < after.len() implies #[trigger] after[i] == rows[if i < at {
        i
    } else {
        i + 1
    }] by {}
    assert forall|i: int, j: int| 0 <= i < j < after.len() implies key(#[trigger] after[i])
        != key(#[trigger] after[j]) by {
        let a = if i < at { i } else { i + 1 };
        let b = if j < at { j } else { j + 1 };
        assert(after[i] == rows[a] && after[j] == rows[b]);
        assert(key(rows[a]) != key(rows[b]));
    }
    if has_by(after, key, key(rows[at])) {
        let i = index_by(after, key, key(rows[at]));
        let a = if i < at { i } else { i + 1 };
        assert(after[i] == rows[a]);
        if a < at {
            assert(key(rows[a]) != key(rows[at]));
        } else {
            assert(key(rows[at]) != key(rows[a]));
        }
    }
    assert forall|k: K| k != key(rows[at]) implies has_by(after, key, k) == has_by(
        rows,
        key,
        k,
    ) by {
        if has_by(after, key, k) {
            let i = index_by(after, key, k);
            let a = if i < at { i } else { i + 1 };
            assert(after[i] == rows[a]);
            assert(has_by(rows, key, k));
        }
        if has_by(rows, key, k) {
            let a = index_by(rows, key, k);
            assert(a != at);
            let i = if a < at { a } else { a - 1 };
            assert(after[i] == rows[a]);
            assert(has_by(after, key, k));
        }
    }
}

/// Replacing a row by one whose key no other row holds keeps the keys distinct.
pub proof fn lemma_update_distinct<T, K>(rows: Seq<T>, key: spec_fn(T) -> K, at: int, row: T)
    requires
        distinct_by(rows, key),
        0 <= at < rows.len(),
        forall|j: int| 0 <= j < rows.len() && j != at ==> key(#[trigger] rows[j]) != key(row),
    ensures
        distinct_by(rows.update(at, row), key),
        has_by(rows.update(at, row), key, key(row)),
        key(row) == key(rows[at]) ==> forall|k: K|
            has_by(rows.update(at, row), key, k) == has_by(rows, key, k),
{
    let after = rows.update(at, row);
    assert forall|i: int, j: int| 0 <= i < j < after.len() implies key(#[trigger] after[i])
        != key(#[trigger] after[j]) by {
        if i != at && j != at {
            assert(after[i] == rows[i] && after[j] == rows[j]);
        } else if i == at {
            assert(after[j] == rows[j]);
        } else {
            assert(after[i] == rows[i]);
        }
    }
    assert(after[at] == row);
    if key(row) == key(rows[at]) {
        assert forall|k: K| has_by(after, key, k) == has_by(rows, key, k) by {
            if has_by(after, key, k) {
                let i = index_by(after, key, k);
                if i == at {
                    assert(key(rows[at]) == k);
                } else {
                    assert(after[i] == rows[i]);
                }
                assert(has_by(rows, key, k));
            }
            if has_by(rows, key, k) {
                let i = index_by(rows, key, k);
                if i == at {
                    assert(key(after[at]) == k);
                } else {
                    assert(after[i] == rows[i]);
                }
                assert(has_by(after, key, k));
            }
        }
    }
}

/// Every row that a filter keeps is a row of the source that passes it.
pub proof fn lemma_filter_member<T>(rows: Seq<T>, keep: spec_fn(T) -> bool, i: int)
    requires
        0 <= i < rows.filter(keep).len(),
    ensures
        keep(rows.filter(keep)[i]),
        rows.contains(rows.filter(keep)[i]),
{
    rows.lemma_filter_pred(keep, i);
    let kept = rows.filter(keep);
    assert(kept.contains(kept[i]));
    rows.lemma_filter_contains_rev(keep, kept[i]);
}

/// A filter keeps distinct keys distinct.
pub proof fn lemma_filter_distinct<T, K>(
    rows: Seq<T>,
    key: spec_fn(T) -> K,
    keep: spec_fn(T) -> bool,
)
    requires
        distinct_by(rows, key),
    ensures
        distinct_by(rows.filter(keep), key),
    decreases rows.len(),
{
    reveal(Seq::filter);
    if rows.len() > 0 {
        let front = rows.drop_last();
        assert forall|i: int, j: int| 0 <= i < j < front.len() implies key(#[trigger] front[i])
            != key(#[trigger] front[j]) by {
            assert(front[i] == rows[i] && front[j] == rows[j]);
        }
        lemma_filter_distinct(front, key, keep);
        if keep(rows.last()) {
            let kept = front.filter(keep);
            if has_by(kept, key, key(rows.last())) {
                let i = index_by(kept, key, key(rows.last()));
                lemma_filter_member(front, keep, i);
                let j = choose|j: int| 0 <= j < front.len() && front[j] == kept[i];
                assert(front[j] == rows[j]);
                assert(key(rows[j]) != key(rows[rows.len() - 1]));
            }
            lemma_push_distinct(kept, key, rows.last());
        }
    }
}

/// The rows of `rows`, in their order, of which it is as `wanted` whether they refer
/// to the user `id` (with `by_user`) or to the game `id` (without).
pub fn select_linked<T: Linked>(rows: &Vec<T>, by_user: bool, id: i32, wanted: bool) -> (r: Vec<T>)
    ensures
        r@ == rows@.filter(linked_is::<T>(by_user, id, wanted)),
{
    let mut kept: Vec<T> = Vec::new();
    let mut i: usize = 0;
    proof {
        reveal(Seq::filter);
        assert(rows@.subrange(0, 0) =~= Seq::<T>::empty());
    }
    while i < rows.len()
        invariant
            i <= rows.len(),
            kept@ == rows@.subrange(0, i as int).filter(linked_is::<T>(by_user, id, wanted)),
        decreases rows.len() - i,
    {
        let row: T = rows[i];
        let refers: bool = if by_user {
            row.user_id() == id
        } else {
            row.game_id() == id
        };
        proof {
            reveal(Seq::filter);
            let next = rows@.subrange(0, i + 1);
            assert(next.drop_last() =~= rows@.subrange(0, i as int));
            assert(next.last() == row);
        }
        if refers == wanted {
            kept.push(row);
        }
        i = i + 1;
    }
    proof {
        assert(rows@.subrange(0, i as int) =~= rows@);
    }
    kept
}

} // verus!
