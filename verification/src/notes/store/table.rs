//! A table: rows in the order of a text key, seen as a map from key to row.

use vstd::prelude::*;
use crate::text::lemma_lex_irreflexive;
use crate::text::lemma_lex_total;
use crate::text::lemma_lex_transitive;
use crate::text::lex_lt;
use crate::text::text_eq;
use crate::text::text_lt;

verus! {

/// A row with a text key.
pub trait Row: View + Sized {
    /// The key, said of the row's view.
    spec fn key(v: Self::V) -> Seq<char>;

    /// The key.
    fn id(&self) -> (r: &str)
        ensures
            r@ == Self::key(self@),
    ;
}

/// Some row has this key.
pub open spec fn has_key<R: Row>(rows: Seq<R>, k: Seq<char>) -> bool {
    exists|i: int| 0 <= i < rows.len() && R::key((#[trigger] rows[i])@) == k
}

/// The index of the row with this key.
pub open spec fn index_of_key<R: Row>(rows: Seq<R>, k: Seq<char>) -> int {
    choose|i: int| 0 <= i < rows.len() && R::key((#[trigger] rows[i])@) == k
}

/// The rows as a map from key to row.
pub open spec fn table<R: Row>(rows: Seq<R>) -> Map<Seq<char>, R::V> {
    Map::new(|k: Seq<char>| has_key(rows, k), |k: Seq<char>| rows[index_of_key(rows, k)]@)
}

/// The rows stand in the strict order of their keys.
pub open spec fn in_order<R: Row>(rows: Seq<R>) -> bool {
    forall|i: int, j: int|
        0 <= i < j < rows.len() ==> lex_lt(
            R::key((#[trigger] rows[i])@),
            R::key((#[trigger] rows[j])@),
        )
}

/// In an ordered table, a key names one row.
pub proof fn lemma_at<R: Row>(rows: Seq<R>, i: int)
    requires
        in_order(rows),
        0 <= i < rows.len(),
    ensures
        table(rows).contains_key(R::key(rows[i]@)),
        table(rows)[R::key(rows[i]@)] == rows[i]@,
        index_of_key(rows, R::key(rows[i]@)) == i,
{
    let k = R::key(rows[i]@);
    assert(has_key(rows, k));
    let j = index_of_key(rows, k);
    lemma_lex_irreflexive(k);
    assert(0 <= j < rows.len() && R::key(rows[j]@) == k);
}

/// Replacing a row by one with the same key replaces it in the map.
pub proof fn lemma_replaced<R: Row>(rows: Seq<R>, i: int, row: R)
    requires
        in_order(rows),
        0 <= i < rows.len(),
        R::key(row@) == R::key(rows[i]@),
    ensures
        in_order(rows.update(i, row)),
        table(rows.update(i, row)) == table(rows).insert(R::key(row@), row@),
{
    let after = rows.update(i, row);
    assert forall|a: int, b: int| 0 <= a < b < after.len() implies lex_lt(
        R::key((#[trigger] after[a])@),
        R::key((#[trigger] after[b])@),
    ) by {
        assert(lex_lt(R::key(rows[a]@), R::key(rows[b]@)));
    }
    let m = table(rows).insert(R::key(row@), row@);
    assert forall|k: Seq<char>| has_key(after, k) == m.contains_key(k) by {
        if has_key(after, k) {
            let j = index_of_key(after, k);
            assert(R::key(rows[j]@) == k);
        }
        if m.contains_key(k) {
            if k == R::key(row@) {
                assert(R::key(after[i]@) == k);
            } else {
                let j = index_of_key(rows, k);
                assert(R::key(after[j]@) == k);
            }
        }
    }
    assert forall|k: Seq<char>| has_key(after, k) implies table(after)[k] == m[k] by {
        let j = index_of_key(after, k);
        lemma_at(after, j);
        lemma_at(rows, j);
        lemma_lex_irreflexive(k);
    }
    assert(table(after) =~= m);
}

/// Putting a row with a new key in its place adds it to the map.
pub proof fn lemma_inserted<R: Row>(rows: Seq<R>, at: int, row: R)
    requires
        in_order(rows),
        0 <= at <= rows.len(),
        forall|i: int| 0 <= i < at ==> lex_lt(R::key((#[trigger] rows[i])@), R::key(row@)),
        forall|i: int|
            at <= i < rows.len() ==> lex_lt(R::key(row@), R::key((#[trigger] rows[i])@)),
    ensures
        in_order(rows.insert(at, row)),
        table(rows.insert(at, row)) == table(rows).insert(R::key(row@), row@),
{
    let after = rows.insert(at, row);
    assert forall|a: int, b: int| 0 <= a < b < after.len() implies lex_lt(
        R::key((#[trigger] after[a])@),
        R::key((#[trigger] after[b])@),
    ) by {
        let x = if a < at {
            a
        } else {
            a - 1
        };
        let y = if b < at {
            b
        } else {
            b - 1
        };
        if a != at && b != at {
            assert(after[a] == rows[x] && after[b] == rows[y]);
        } else if a == at {
            assert(after[b] == rows[y]);
        } else {
            assert(after[a] == rows[x]);
        }
    }
    let m = table(rows).insert(R::key(row@), row@);
    assert forall|k: Seq<char>| has_key(after, k) == m.contains_key(k) by {
        if has_key(after, k) {
            let j = index_of_key(after, k);
            if j < at {
                assert(R::key(rows[j]@) == k);
            } else if j > at {
                assert(R::key(rows[j - 1]@) == k);
            }
        }
        if m.contains_key(k) {
            if k == R::key(row@) {
                assert(R::key(after[at]@) == k);
            } else {
                let j = index_of_key(rows, k);
                if j < at {
                    assert(R::key(after[j]@) == k);
                } else {
                    assert(R::key(after[j + 1]@) == k);
                }
            }
        }
    }
    assert forall|k: Seq<char>| has_key(after, k) implies table(after)[k] == m[k] by {
        let j = index_of_key(after, k);
        lemma_at(after, j);
        if j < at {
            lemma_at(rows, j);
            lemma_lex_irreflexive(k);
        } else if j > at {
            lemma_at(rows, j - 1);
            lemma_lex_irreflexive(k);
        }
    }
    assert(table(after) =~= m);
}

/// Rewriting every row in place, keys kept, rewrites the map's values.
pub proof fn lemma_mapped<R: Row>(before: Seq<R>, after: Seq<R>, f: spec_fn(R::V) -> R::V)
    requires
        in_order(before),
        before.len() == after.len(),
        forall|i: int|
            0 <= i < before.len() ==> (#[trigger] after[i])@ == f(before[i]@) && R::key(after[i]@)
                == R::key(before[i]@),
    ensures
        in_order(after),
        table(after) == table(before).map_values(f),
{
    assert forall|a: int, b: int| 0 <= a < b < after.len() implies lex_lt(
        R::key((#[trigger] after[a])@),
        R::key((#[trigger] after[b])@),
    ) by {
        assert(lex_lt(R::key(before[a]@), R::key(before[b]@)));
    }
    let m = table(before).map_values(f);
    assert forall|k: Seq<char>| has_key(after, k) == m.contains_key(k) by {
        if has_key(after, k) {
            let j = index_of_key(after, k);
            assert(R::key(before[j]@) == k);
        }
        if has_key(before, k) {
            let j = index_of_key(before, k);
            assert(R::key(after[j]@) == k);
        }
    }
    assert forall|k: Seq<char>| has_key(after, k) implies table(after)[k] == m[k] by {
        let j = index_of_key(after, k);
        lemma_at(after, j);
        lemma_at(before, j);
    }
    assert(table(after) =~= m);
}

/// An empty table.
pub proof fn lemma_empty<R: Row>()
    ensures
        in_order(Seq::<R>::empty()),
        table(Seq::<R>::empty()) == Map::<Seq<char>, R::V>::empty(),
{
    assert(table(Seq::<R>::empty()) =~= Map::<Seq<char>, R::V>::empty());
}

/// Finds the row with a key.
pub fn find<R: Row>(rows: &Vec<R>, id: &str) -> (r: Option<usize>)
    requires
        in_order(rows@),
    ensures
        match r {
            Some(i) => i < rows.len() && R::key(rows@[i as int]@) == id@ && table(
                rows@,
            ).contains_key(id@) && table(rows@)[id@] == rows@[i as int]@,
            None => !table(rows@).contains_key(id@),
        },
{
    let mut i: usize = 0;
    while i < rows.len()
        invariant
            i <= rows.len(),
            in_order(rows@),
            forall|j: int| 0 <= j < i ==> R::key((#[trigger] rows@[j])@) != id@,
        decreases rows.len() - i,
    {
        if text_eq(rows[i].id(), id) {
            proof {
                lemma_at(rows@, i as int);
            }
            return Some(i);
        }
        i = i + 1;
    }
    None
}

/// Adds a row with a new key in its place.
pub fn insert_row<R: Row>(rows: &mut Vec<R>, row: R)
    requires
        in_order(old(rows)@),
        !table(old(rows)@).contains_key(R::key(row@)),
    ensures
        in_order(final(rows)@),
        table(final(rows)@) == table(old(rows)@).insert(R::key(row@), row@),
{
    let mut at: usize = 0;
    while at < rows.len() && text_lt(rows[at].id(), row.id())
        invariant
            at <= rows.len(),
            in_order(rows@),
            rows@ == old(rows)@,
            forall|j: int| 0 <= j < at ==> lex_lt(R::key((#[trigger] rows@[j])@), R::key(row@)),
        decreases rows.len() - at,
    {
        at = at + 1;
    }
    proof {
        assert forall|i: int| at <= i < rows@.len() implies lex_lt(
            R::key(row@),
            R::key((#[trigger] rows@[i])@),
        ) by {
            let first = R::key(rows@[at as int]@);
            assert(!lex_lt(first, R::key(row@)));
            lemma_lex_total(first, R::key(row@));
            if first == R::key(row@) {
                assert(has_key(rows@, R::key(row@)));
            }
            if i > at {
                assert(lex_lt(first, R::key(rows@[i]@)));
                lemma_lex_transitive(R::key(row@), first, R::key(rows@[i]@));
            }
        }
        lemma_inserted(rows@, at as int, row);
    }
    rows.insert(at, row);
}

/// How many rows satisfy a condition.
pub open spec fn row_count<R: Row>(rows: Seq<R>, p: spec_fn(R::V) -> bool) -> nat
    decreases rows.len(),
{
    if rows.len() == 0 {
        0
    } else {
        row_count(rows.drop_last(), p) + if p(rows.last()@) {
            1nat
        } else {
            0nat
        }
    }
}

/// How many rows of a map satisfy a condition.
pub open spec fn map_count<V>(m: Map<Seq<char>, V>, p: spec_fn(V) -> bool) -> nat {
    m.dom().filter(|k: Seq<char>| p(m[k])).len()
}

/// Counting rows is counting keys.
pub proof fn lemma_count<R: Row>(rows: Seq<R>, p: spec_fn(R::V) -> bool)
    requires
        in_order(rows),
    ensures
        table(rows).dom().finite(),
        row_count(rows, p) == map_count(table(rows), p),
    decreases rows.len(),
{
    let m = table(rows);
    if rows.len() == 0 {
        assert(m.dom() =~= Set::<Seq<char>>::empty());
        assert(m.dom().filter(|k: Seq<char>| p(m[k])) =~= Set::<Seq<char>>::empty());
    } else {
        let rest = rows.drop_last();
        let last = rows.last();
        let k0 = R::key(last@);
        lemma_count(rest, p);
        lemma_inserted(rest, rest.len() as int, last);
        assert(rest.insert(rest.len() as int, last) =~= rows);
        let n = table(rest);
        assert(m == n.insert(k0, last@));
        assert(!n.contains_key(k0)) by {
            if has_key(rest, k0) {
                let j = index_of_key(rest, k0);
                assert(lex_lt(R::key(rows[j]@), R::key(rows[rows.len() - 1]@)));
                lemma_lex_irreflexive(k0);
            }
        }
        let a = m.dom().filter(|k: Seq<char>| p(m[k]));
        let b = n.dom().filter(|k: Seq<char>| p(n[k]));
        assert(b.finite()) by {
            n.dom().lemma_len_filter(|k: Seq<char>| p(n[k]));
        }
        if p(last@) {
            assert(a =~= b.insert(k0));
        } else {
            assert(a =~= b);
        }
    }
}

} // verus!
