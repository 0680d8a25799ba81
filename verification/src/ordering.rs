//! The order of rows in listings: by date and by text, with a stable sort that
//! returns the order as a sequence of positions.

use crate::date::{date_before, Date};
use crate::table::Duplicable;
use vstd::prelude::*;
use vstd::string::*;

verus! {

/// A key by which rows are listed. The relation is a total preorder.
pub trait SortKey {
    /// Whether `self` stands before `other` or ranks equal to it.
    spec fn before_or_equal(&self, other: &Self) -> bool;

    fn is_before_or_equal(&self, other: &Self) -> (r: bool)
        ensures
            r == self.before_or_equal(other),
    ;

    proof fn lemma_total(a: &Self, b: &Self)
        ensures
            a.before_or_equal(b) || b.before_or_equal(a),
    ;

    proof fn lemma_transitive(a: &Self, b: &Self, c: &Self)
        requires
            a.before_or_equal(b),
            b.before_or_equal(c),
        ensures
            a.before_or_equal(c),
    ;
}

impl SortKey for Date {
    open spec fn before_or_equal(&self, other: &Self) -> bool {
        !date_before(*other, *self)
    }

    fn is_before_or_equal(&self, other: &Self) -> (r: bool) {
        !other.is_before(self)
    }

    proof fn lemma_total(a: &Self, b: &Self) {
    }

    proof fn lemma_transitive(a: &Self, b: &Self, c: &Self) {
    }
}

/// Whether the text `a`, from position `from` on, stands before the text `b` or
/// equals it, given that the two agree before `from`: the order of a dictionary,
/// character by character by code point, a prefix before its extensions.
pub open spec fn text_le_from(a: Seq<char>, b: Seq<char>, from: int) -> bool
    decreases a.len() - from,
{
    if from < 0 || from >= a.len() {
        true
    } else if from >= b.len() {
        false
    } else if (a[from] as u32) < (b[from] as u32) {
        true
    } else if (a[from] as u32) > (b[from] as u32) {
        false
    } else {
        text_le_from(a, b, from + 1)
    }
}

/// Whether the text `a` stands before the text `b` or equals it.
pub open spec fn text_le(a: Seq<char>, b: Seq<char>) -> bool {
    text_le_from(a, b, 0)
}

proof fn lemma_text_total(a: Seq<char>, b: Seq<char>, from: int)
    requires
        0 <= from,
    ensures
        text_le_from(a, b, from) || text_le_from(b, a, from),
    decreases a.len() - from,
{
    if from < a.len() && from < b.len() && a[from] as u32 == b[from] as u32 {
        lemma_text_total(a, b, from + 1);
    }
}

proof fn lemma_text_transitive(a: Seq<char>, b: Seq<char>, c: Seq<char>, from: int)
    requires
        0 <= from,
        text_le_from(a, b, from),
        text_le_from(b, c, from),
    ensures
        text_le_from(a, c, from),
    decreases a.len() - from,
{
    if from < a.len() && from < b.len() && from < c.len() && a[from] as u32 == b[from] as u32
        && b[from] as u32 == c[from] as u32 {
        lemma_text_transitive(a, b, c, from + 1);
    }
}

impl SortKey for String {
    open spec fn before_or_equal(&self, other: &Self) -> bool {
        text_le(self@, other@)
    }

    fn is_before_or_equal(&self, other: &Self) -> (r: bool) {
        let a = self.as_str();
        let b = other.as_str();
        let n: usize = a.unicode_len();
        let m: usize = b.unicode_len();
        let mut i: usize = 0;
        while i < n && i < m
            invariant
                n == a@.len(),
                m == b@.len(),
                a@ == self@,
                b@ == other@,
                i <= n,
                i <= m,
                text_le(self@, other@) == text_le_from(self@, other@, i as int),
            decreases n - i,
        {
            let x: u32 = a.get_char(i) as u32;
            let y: u32 = b.get_char(i) as u32;
            if x < y {
                return true;
            }
            if x > y {
                return false;
            }
            i = i + 1;
        }
        i >= n
    }

    proof fn lemma_total(a: &Self, b: &Self) {
        lemma_text_total(a@, b@, 0);
    }

    proof fn lemma_transitive(a: &Self, b: &Self, c: &Self) {
        lemma_text_transitive(a@, b@, c@, 0);
    }
}

/// Whether the key `a` is listed before the key `b` or ranks equal to it, in
/// ascending or in descending order.
pub open spec fn listed_before<K: SortKey>(a: K, b: K, descending: bool) -> bool {
    if descending {
        b.before_or_equal(&a)
    } else {
        a.before_or_equal(&b)
    }
}

proof fn lemma_listed_transitive<K: SortKey>(a: K, b: K, c: K, descending: bool)
    requires
        listed_before(a, b, descending),
        listed_before(b, c, descending),
    ensures
        listed_before(a, c, descending),
{
    if descending {
        K::lemma_transitive(&c, &b, &a);
    } else {
        K::lemma_transitive(&a, &b, &c);
    }
}

/// Whether `order` lists the positions `0..keys.len()`, each once, by key, and
/// positions of equal rank in their own order. There is exactly one such order.
pub open spec fn is_sorted_order<K: SortKey>(order: Seq<usize>, keys: Seq<K>, descending: bool)
    -> bool {
    &&& order.len() == keys.len()
    &&& forall|a: int| 0 <= a < order.len() ==> #[trigger] order[a] < keys.len()
    &&& forall|a: int, b: int|
        0 <= a < b < order.len() ==> #[trigger] order[a] != #[trigger] order[b]
    &&& forall|a: int, b: int|
        0 <= a < b < order.len() ==> listed_before(
            keys[#[trigger] order[a] as int],
            keys[#[trigger] order[b] as int],
            descending,
        )
    &&& forall|a: int, b: int|
        0 <= a < b < order.len() && listed_before(
            keys[#[trigger] order[b] as int],
            keys[#[trigger] order[a] as int],
            descending,
        ) ==> order[a] < order[b]
}

/// The invariant of the sort: `order` lists the first `done` positions.
spec fn sorted_prefix<K: SortKey>(order: Seq<usize>, keys: Seq<K>, descending: bool, done: int)
    -> bool {
    &&& order.len() == done
    &&& forall|a: int| 0 <= a < order.len() ==> #[trigger] order[a] < done
    &&& forall|a: int, b: int|
        0 <= a < b < order.len() ==> #[trigger] order[a] != #[trigger] order[b]
    &&& forall|a: int, b: int|
        0 <= a < b < order.len() ==> listed_before(
            keys[#[trigger] order[a] as int],
            keys[#[trigger] order[b] as int],
            descending,
        )
    &&& forall|a: int, b: int|
        0 <= a < b < order.len() && listed_before(
            keys[#[trigger] order[b] as int],
            keys[#[trigger] order[a] as int],
            descending,
        ) ==> order[a] < order[b]
}

/// Whether the key at position `a` is listed before the key at position `b` or
/// ranks equal to it.
fn is_listed_before<K: SortKey>(keys: &Vec<K>, a: usize, b: usize, descending: bool) -> (r: bool)
    requires
        a < keys.len(),
        b < keys.len(),
    ensures
        r == listed_before(keys@[a as int], keys@[b as int], descending),
{
    if descending {
        keys[b].is_before_or_equal(&keys[a])
    } else {
        keys[a].is_before_or_equal(&keys[b])
    }
}

/// The order in which to list rows with the given keys: a stable sort of the
/// positions by key.
pub fn sorted_order<K: SortKey>(keys: &Vec<K>, descending: bool) -> (order: Vec<usize>)
    ensures
        is_sorted_order(order@, keys@, descending),
{
    let mut order: Vec<usize> = Vec::new();
    let mut i: usize = 0;
    while i < keys.len()
        invariant
            i <= keys.len(),
            sorted_prefix(order@, keys@, descending, i as int),
        decreases keys.len() - i,
    {
        // The place of position `i`: behind every position whose key is listed
        // before its key or ranks equal.
        let mut p: usize = 0;
        while p < order.len() && is_listed_before(keys, order[p], i, descending)
            invariant
                i < keys.len(),
                p <= order.len(),
                sorted_prefix(order@, keys@, descending, i as int),
                forall|a: int|
                    0 <= a < p ==> listed_before(
                        keys@[#[trigger] order@[a] as int],
                        keys@[i as int],
                        descending,
                    ),
            decreases order.len() - p,
        {
            p = p + 1;
        }
        proof {
            let before = order@;
            let after = before.insert(p as int, i);
            assert forall|a: int| 0 <= a < after.len() implies #[trigger] after[a] < i + 1 by {
                if a < p {
                    assert(after[a] == before[a]);
                } else if a > p {
                    assert(after[a] == before[a - 1]);
                }
            }
            assert forall|b: int| p <= b < before.len() implies listed_before(
                keys@[i as int],
                keys@[#[trigger] before[b] as int],
                descending,
            ) && !listed_before(keys@[before[b] as int], keys@[i as int], descending) by {
                let kp = keys@[before[p as int] as int];
                let kb = keys@[before[b] as int];
                let ki = keys@[i as int];
                assert(!listed_before(kp, ki, descending));
                K::lemma_total(&kp, &ki);
                if b > p {
                    assert(listed_before(kp, kb, descending));
                    lemma_listed_transitive(ki, kp, kb, descending);
                    if listed_before(kb, ki, descending) {
                        lemma_listed_transitive(kp, kb, ki, descending);
                    }
                }
            }
            assert forall|a: int, b: int| 0 <= a < b < after.len() implies #[trigger] after[a]
                != #[trigger] after[b] && listed_before(
                keys@[after[a] as int],
                keys@[after[b] as int],
                descending,
            ) && (listed_before(keys@[after[b] as int], keys@[after[a] as int], descending)
                ==> after[a] < after[b]) by {
                let x = if a < p { a } else { a - 1 };
                let y = if b < p { b } else { b - 1 };
                if a != p {
                    assert(after[a] == before[x]);
                    assert(before[x] < i);
                }
                if b != p {
                    assert(after[b] == before[y]);
                    assert(before[y] < i);
                }
                if a != p && b != p {
                    assert(x < y);
                }
            }
        }
        order.insert(p, i);
        i = i + 1;
    }
    order
}

/// Whether `listed` holds the rows of `source` in the order of their keys, rows of
/// equal rank in the order of `source`.
pub open spec fn arranged<T, K: SortKey>(
    listed: Seq<T>,
    source: Seq<T>,
    keys: Seq<K>,
    descending: bool,
) -> bool {
    exists|order: Seq<usize>|
        {
            &&& #[trigger] is_sorted_order(order, keys, descending)
            &&& listed.len() == order.len()
            &&& forall|i: int|
                0 <= i < listed.len() ==> #[trigger] listed[i] == source[order[i] as int]
        }
}

/// Copies of the rows of `source` in the order of `keys`, where `keys[i]` is the key
/// of `source[i]`.
pub fn arrange<T: Duplicable, K: SortKey>(
    source: &Vec<T>,
    keys: &Vec<K>,
    descending: bool,
) -> (listed: Vec<T>)
    requires
        keys.len() == source.len(),
    ensures
        arranged(listed@, source@, keys@, descending),
        listed.len() == source.len(),
        forall|i: int| 0 <= i < listed.len() ==> source@.contains(#[trigger] listed@[i]),
{
    let order = sorted_order(keys, descending);
    let mut listed: Vec<T> = Vec::new();
    let mut i: usize = 0;
    while i < order.len()
        invariant
            i <= order.len(),
            keys.len() == source.len(),
            is_sorted_order(order@, keys@, descending),
            listed.len() == i,
            forall|j: int| 0 <= j < i ==> #[trigger] listed@[j] == source@[order@[j] as int],
            forall|j: int| 0 <= j < i ==> source@.contains(#[trigger] listed@[j]),
        decreases order.len() - i,
    {
        assert(order@[i as int] < keys.len());
        listed.push(source[order[i]].duplicate());
        i = i + 1;
    }
    listed
}

/// Whether `rows` is the listing of `source` by `key`: one row for each row of
/// `source`, made by `row_of`, in the order of the keys, rows of equal rank in the
/// order of `source`.
pub open spec fn is_listing<T, K: SortKey, R>(
    rows: Seq<R>,
    source: Seq<T>,
    key: spec_fn(T) -> K,
    descending: bool,
    row_of: spec_fn(T) -> R,
) -> bool {
    exists|listed: Seq<T>| #[trigger]
        arranged(listed, source, source.map_values(key), descending) && rows
            == listed.map_values(row_of)
}

} // verus!
