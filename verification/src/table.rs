//! Tables of records that are found by an address or by a name, kept in the
//! order in which the records came, with at most one record per key.

use vstd::prelude::*;
use crate::types::Address;

verus! {

/// A record that belongs to an address.
pub trait Keyed {
    /// The address that the record belongs to.
    spec fn key(&self) -> Address;

    /// Reads [`Keyed::key`].
    fn key_of(&self) -> (k: Address)
        ensures
            k == self.key(),
    ;
}

/// A record that carries an amount.
pub trait Weighted {
    /// The amount that the record carries.
    spec fn weight(&self) -> int;

    /// Reads [`Weighted::weight`].
    fn weight_of(&self) -> (w: i128)
        ensures
            w == self.weight(),
    ;
}

/// A record that is found by a name.
pub trait Named {
    /// The name of the record.
    spec fn name(&self) -> Seq<char>;

    /// Reads [`Named::name`].
    fn name_of(&self) -> (n: &String)
        ensures
            n@ == self.name(),
    ;
}

impl Keyed for Address {
    open spec fn key(&self) -> Address {
        *self
    }

    fn key_of(&self) -> (k: Address) {
        *self
    }
}

/// Whether some record of `rows` belongs to `k`.
pub open spec fn has_key<T: Keyed>(rows: Seq<T>, k: Address) -> bool {
    exists|i: int| 0 <= i < rows.len() && #[trigger] rows[i].key() == k
}

/// The place of a record of `k` in `rows`, where there is one.
pub open spec fn position<T: Keyed>(rows: Seq<T>, k: Address) -> int {
    choose|i: int| 0 <= i < rows.len() && #[trigger] rows[i].key() == k
}

/// Whether no two records of `rows` belong to the same address.
pub open spec fn distinct_keys<T: Keyed>(rows: Seq<T>) -> bool {
    forall|i: int, j: int|
        0 <= i < j < rows.len() ==> #[trigger] rows[i].key() != #[trigger] rows[j].key()
}

/// In a table with distinct keys a record's place is the only place of its key.
pub proof fn lemma_position_unique<T: Keyed>(rows: Seq<T>, i: int)
    requires
        distinct_keys(rows),
        0 <= i < rows.len(),
    ensures
        has_key(rows, rows[i].key()),
        position(rows, rows[i].key()) == i,
{
    let k = rows[i].key();
    assert(rows[i].key() == k);
    let p = position(rows, k);
    assert(0 <= p < rows.len() && rows[p].key() == k);
    if p < i {
        assert(rows[p].key() != rows[i].key());
    } else if i < p {
        assert(rows[i].key() != rows[p].key());
    }
}

/// Adding a record whose key is new keeps the keys distinct and leaves the
/// other keys where they were.
pub proof fn lemma_push_keyed<T: Keyed>(rows: Seq<T>, row: T)
    requires
        distinct_keys(rows),
        !has_key(rows, row.key()),
    ensures
        distinct_keys(rows.push(row)),
        has_key(rows.push(row), row.key()),
        position(rows.push(row), row.key()) == rows.len(),
        forall|k: Address| k != row.key() ==> has_key(rows.push(row), k) == has_key(rows, k),
        forall|k: Address|
            k != row.key() && has_key(rows, k) ==> position(rows.push(row), k) == position(
                rows,
                k,
            ),
{
    let after = rows.push(row);
    assert forall|i: int, j: int| 0 <= i < j < after.len() implies #[trigger] after[i].key()
        != #[trigger] after[j].key() by {
        if j == rows.len() {
            assert(after[i] == rows[i]);
            if rows[i].key() == row.key() {
                assert(has_key(rows, row.key()));
            }
        } else {
            assert(after[i] == rows[i] && after[j] == rows[j]);
            assert(rows[i].key() != rows[j].key());
        }
    }
    assert(after[rows.len() as int] == row);
    lemma_position_unique(after, rows.len() as int);
    assert forall|k: Address| k != row.key() implies has_key(after, k) == has_key(rows, k) by {
        if has_key(rows, k) {
            let i = position(rows, k);
            assert(after[i] == rows[i]);
            assert(after[i].key() == k);
        }
        if has_key(after, k) {
            let i = position(after, k);
            assert(after[i].key() == k);
            assert(i < rows.len());
            assert(after[i] == rows[i]);
            assert(rows[i].key() == k);
        }
    }
    assert forall|k: Address| k != row.key() && has_key(rows, k) implies position(after, k)
        == position(rows, k) by {
        let i = position(rows, k);
        assert(after[i] == rows[i]);
        lemma_position_unique(after, i);
    }
}

/// Replacing a record by one of the same key keeps the keys, their places
/// and their distinctness.
pub proof fn lemma_update_keyed<T: Keyed>(rows: Seq<T>, i: int, row: T)
    requires
        distinct_keys(rows),
        0 <= i < rows.len(),
        row.key() == rows[i].key(),
    ensures
        distinct_keys(rows.update(i, row)),
        forall|k: Address| has_key(rows.update(i, row), k) == has_key(rows, k),
        forall|k: Address| has_key(rows, k) ==> position(rows.update(i, row), k) == position(rows, k),
{
    let after = rows.update(i, row);
    assert forall|a: int| 0 <= a < rows.len() implies #[trigger] after[a].key() == rows[a].key() by {}
    assert forall|a: int, b: int| 0 <= a < b < after.len() implies #[trigger] after[a].key()
        != #[trigger] after[b].key() by {
        assert(rows[a].key() != rows[b].key());
    }
    assert forall|k: Address| has_key(after, k) == has_key(rows, k) by {
        if has_key(rows, k) {
            let p = position(rows, k);
            assert(after[p].key() == k);
        }
        if has_key(after, k) {
            let p = position(after, k);
            assert(after[p].key() == k);
            assert(rows[p].key() == k);
        }
    }
    assert forall|k: Address| has_key(rows, k) implies position(after, k) == position(rows, k) by {
        let p = position(rows, k);
        assert(rows[p].key() == k);
        assert(after[p].key() == k);
        lemma_position_unique(after, p);
    }
}

/// Taking a record out keeps the keys distinct, removes its key and no other.
pub proof fn lemma_remove_keyed<T: Keyed>(rows: Seq<T>, i: int)
    requires
        distinct_keys(rows),
        0 <= i < rows.len(),
    ensures
        distinct_keys(rows.remove(i)),
        !has_key(rows.remove(i), rows[i].key()),
        forall|k: Address| k != rows[i].key() ==> has_key(rows.remove(i), k) == has_key(rows, k),
        forall|k: Address|
            k != rows[i].key() && has_key(rows, k) ==> rows.remove(i)[position(rows.remove(i), k)]
                == rows[position(rows, k)],
{
    let after = rows.remove(i);
    assert forall|a: int| 0 <= a < after.len() implies #[trigger] after[a] == rows[if a < i {
        a
    } else {
        a + 1
    }] by {}
    assert forall|a: int, b: int| 0 <= a < b < after.len() implies #[trigger] after[a].key()
        != #[trigger] after[b].key() by {
        let a0 = if a < i { a } else { a + 1 };
        let b0 = if b < i { b } else { b + 1 };
        assert(after[a] == rows[a0] && after[b] == rows[b0]);
        assert(rows[a0].key() != rows[b0].key());
    }
    if has_key(after, rows[i].key()) {
        let p = position(after, rows[i].key());
        let shifted = if p < i { p } else { p + 1 };
        assert(after[p] == rows[shifted]);
        if shifted < i {
            assert(rows[shifted].key() != rows[i].key());
        } else {
            assert(rows[i].key() != rows[shifted].key());
        }
    }
    assert forall|k: Address| k != rows[i].key() implies has_key(after, k) == has_key(rows, k) by {
        if has_key(rows, k) {
            let p = position(rows, k);
            assert(rows[p].key() == k);
            let q = if p < i { p } else { p - 1 };
            assert(after[q] == rows[p]);
            assert(after[q].key() == k);
        }
        if has_key(after, k) {
            let q = position(after, k);
            let p = if q < i { q } else { q + 1 };
            assert(after[q] == rows[p]);
            assert(rows[p].key() == k);
        }
    }
    assert forall|k: Address| k != rows[i].key() && has_key(rows, k) implies after[position(
        after,
        k,
    )] == rows[position(rows, k)] by {
        let p = position(rows, k);
        assert(rows[p].key() == k);
        let q = if p < i { p } else { p - 1 };
        assert(after[q] == rows[p]);
        assert(after[q].key() == k);
        lemma_position_unique(after, q);
    }
}

/// Looks for the record of `k`: `Some` of its place, which is the only one
/// where the keys are distinct, or `None` where no record belongs to `k`.
pub fn find<T: Keyed>(rows: &Vec<T>, k: Address) -> (found: Option<usize>)
    ensures
        found.is_some() == has_key(rows@, k),
        found matches Some(i) ==> i < rows.len() && rows@[i as int].key() == k,
        found matches Some(i) ==> (distinct_keys(rows@) ==> i == position(rows@, k)),
{
    let mut i: usize = 0;
    while i < rows.len()
        invariant
            i <= rows.len(),
            forall|j: int| 0 <= j < i ==> #[trigger] rows@[j].key() != k,
        decreases rows.len() - i,
    {
        if rows[i].key_of() == k {
            proof {
                if distinct_keys(rows@) {
                    lemma_position_unique(rows@, i as int);
                }
                assert(rows@[i as int].key() == k);
            }
            return Some(i);
        }
        i += 1;
    }
    None
}

/// The amounts of all records of `rows` together.
pub open spec fn total_weight<T: Weighted>(rows: Seq<T>) -> int
    decreases rows.len(),
{
    if rows.len() == 0 {
        0
    } else {
        total_weight(rows.drop_last()) + rows.last().weight()
    }
}

/// A new record adds its amount to the total.
pub proof fn lemma_total_push<T: Weighted>(rows: Seq<T>, row: T)
    ensures
        total_weight(rows.push(row)) == total_weight(rows) + row.weight(),
{
    assert(rows.push(row).drop_last() =~= rows);
}

/// Replacing a record changes the total by the difference of the amounts.
pub proof fn lemma_total_update<T: Weighted>(rows: Seq<T>, i: int, row: T)
    requires
        0 <= i < rows.len(),
    ensures
        total_weight(rows.update(i, row)) == total_weight(rows) - rows[i].weight() + row.weight(),
    decreases rows.len(),
{
    if i == rows.len() - 1 {
        assert(rows.update(i, row).drop_last() =~= rows.drop_last());
    } else {
        lemma_total_update(rows.drop_last(), i, row);
        assert(rows.update(i, row).drop_last() =~= rows.drop_last().update(i, row));
    }
}

/// Taking a record out takes its amount from the total.
pub proof fn lemma_total_remove<T: Weighted>(rows: Seq<T>, i: int)
    requires
        0 <= i < rows.len(),
    ensures
        total_weight(rows.remove(i)) == total_weight(rows) - rows[i].weight(),
    decreases rows.len(),
{
    if i == rows.len() - 1 {
        assert(rows.remove(i) =~= rows.drop_last());
    } else {
        lemma_total_remove(rows.drop_last(), i);
        assert(rows.remove(i).drop_last() =~= rows.drop_last().remove(i));
        assert(rows.remove(i).last() == rows.last());
    }
}

/// Where no amount is negative, no record carries more than the total.
pub proof fn lemma_weight_within_total<T: Weighted>(rows: Seq<T>, i: int)
    requires
        forall|j: int| 0 <= j < rows.len() ==> #[trigger] rows[j].weight() >= 0,
        0 <= i < rows.len(),
    ensures
        0 <= rows[i].weight() <= total_weight(rows),
    decreases rows.len(),
{
    lemma_total_nonnegative(rows.drop_last());
    if i < rows.len() - 1 {
        lemma_weight_within_total(rows.drop_last(), i);
    }
}

/// Where no amount is negative, the total is not negative.
pub proof fn lemma_total_nonnegative<T: Weighted>(rows: Seq<T>)
    requires
        forall|j: int| 0 <= j < rows.len() ==> #[trigger] rows[j].weight() >= 0,
    ensures
        0 <= total_weight(rows),
    decreases rows.len(),
{
    if rows.len() > 0 {
        lemma_total_nonnegative(rows.drop_last());
    }
}

/// Whether some record of `rows` has the name `n`.
pub open spec fn has_name<T: Named>(rows: Seq<T>, n: Seq<char>) -> bool {
    exists|i: int| 0 <= i < rows.len() && #[trigger] rows[i].name() == n
}

/// The place of a record named `n` in `rows`, where there is one.
pub open spec fn name_position<T: Named>(rows: Seq<T>, n: Seq<char>) -> int {
    choose|i: int| 0 <= i < rows.len() && #[trigger] rows[i].name() == n
}

/// Whether no two records of `rows` have the same name.
pub open spec fn distinct_names<T: Named>(rows: Seq<T>) -> bool {
    forall|i: int, j: int|
        0 <= i < j < rows.len() ==> #[trigger] rows[i].name() != #[trigger] rows[j].name()
}

/// In a table with distinct names a record's place is the only place of its name.
pub proof fn lemma_name_position_unique<T: Named>(rows: Seq<T>, i: int)
    requires
        distinct_names(rows),
        0 <= i < rows.len(),
    ensures
        has_name(rows, rows[i].name()),
        name_position(rows, rows[i].name()) == i,
{
    let n = rows[i].name();
    assert(rows[i].name() == n);
    let p = name_position(rows, n);
    assert(0 <= p < rows.len() && rows[p].name() == n);
    if p < i {
        assert(rows[p].name() != rows[i].name());
    } else if i < p {
        assert(rows[i].name() != rows[p].name());
    }
}

/// Adding a record whose name is new keeps the names distinct and leaves the
/// other names where they were.
pub proof fn lemma_push_named<T: Named>(rows: Seq<T>, row: T)
    requires
        distinct_names(rows),
        !has_name(rows, row.name()),
    ensures
        distinct_names(rows.push(row)),
        has_name(rows.push(row), row.name()),
        name_position(rows.push(row), row.name()) == rows.len(),
        forall|n: Seq<char>| n != row.name() ==> has_name(rows.push(row), n) == has_name(rows, n),
        forall|n: Seq<char>|
            n != row.name() && has_name(rows, n) ==> name_position(rows.push(row), n)
                == name_position(rows, n),
{
    let after = rows.push(row);
    assert forall|i: int, j: int| 0 <= i < j < after.len() implies #[trigger] after[i].name()
        != #[trigger] after[j].name() by {
        if j == rows.len() {
            assert(after[i] == rows[i]);
            if rows[i].name() == row.name() {
                assert(has_name(rows, row.name()));
            }
        } else {
            assert(after[i] == rows[i] && after[j] == rows[j]);
            assert(rows[i].name() != rows[j].name());
        }
    }
    assert(after[rows.len() as int] == row);
    lemma_name_position_unique(after, rows.len() as int);
    assert forall|n: Seq<char>| n != row.name() implies has_name(after, n) == has_name(rows, n) by {
        if has_name(rows, n) {
            let i = name_position(rows, n);
            assert(after[i] == rows[i]);
            assert(after[i].name() == n);
        }
        if has_name(after, n) {
            let i = name_position(after, n);
            assert(after[i].name() == n);
            assert(i < rows.len());
            assert(after[i] == rows[i]);
            assert(rows[i].name() == n);
        }
    }
    assert forall|n: Seq<char>| n != row.name() && has_name(rows, n) implies name_position(
        after,
        n,
    ) == name_position(rows, n) by {
        let i = name_position(rows, n);
        assert(after[i] == rows[i]);
        lemma_name_position_unique(after, i);
    }
}

/// Replacing a record by one of the same name keeps the names, their places
/// and their distinctness.
pub proof fn lemma_update_named<T: Named>(rows: Seq<T>, i: int, row: T)
    requires
        distinct_names(rows),
        0 <= i < rows.len(),
        row.name() == rows[i].name(),
    ensures
        distinct_names(rows.update(i, row)),
        forall|n: Seq<char>| has_name(rows.update(i, row), n) == has_name(rows, n),
        forall|n: Seq<char>|
            has_name(rows, n) ==> name_position(rows.update(i, row), n) == name_position(rows, n),
{
    let after = rows.update(i, row);
    assert forall|a: int| 0 <= a < rows.len() implies #[trigger] after[a].name()
        == rows[a].name() by {}
    assert forall|a: int, b: int| 0 <= a < b < after.len() implies #[trigger] after[a].name()
        != #[trigger] after[b].name() by {
        assert(rows[a].name() != rows[b].name());
    }
    assert forall|n: Seq<char>| has_name(after, n) == has_name(rows, n) by {
        if has_name(rows, n) {
            let p = name_position(rows, n);
            assert(after[p].name() == n);
        }
        if has_name(after, n) {
            let p = name_position(after, n);
            assert(after[p].name() == n);
            assert(rows[p].name() == n);
        }
    }
    assert forall|n: Seq<char>| has_name(rows, n) implies name_position(after, n) == name_position(
        rows,
        n,
    ) by {
        let p = name_position(rows, n);
        assert(rows[p].name() == n);
        assert(after[p].name() == n);
        lemma_name_position_unique(after, p);
    }
}

/// Looks for the record named `n`: `Some` of its place, which is the only one
/// where the names are distinct, or `None` where no record has that name.
pub fn find_named<T: Named>(rows: &Vec<T>, n: &String) -> (found: Option<usize>)
    ensures
        found.is_some() == has_name(rows@, n@),
        found matches Some(i) ==> i < rows.len() && rows@[i as int].name() == n@,
        found matches Some(i) ==> (distinct_names(rows@) ==> i == name_position(rows@, n@)),
{
    let mut i: usize = 0;
    while i < rows.len()
        invariant
            i <= rows.len(),
            forall|j: int| 0 <= j < i ==> #[trigger] rows@[j].name() != n@,
        decreases rows.len() - i,
    {
        let here = rows[i].name_of();
        if *here == *n {
            proof {
                if distinct_names(rows@) {
                    lemma_name_position_unique(rows@, i as int);
                }
                assert(rows@[i as int].name() == n@);
            }
            return Some(i);
        }
        i += 1;
    }
    None
}

/// The records with that of the same name replaced by `row`, or with `row`
/// added at the end.
pub open spec fn with_named<T: Named>(rows: Seq<T>, row: T) -> Seq<T> {
    if has_name(rows, row.name()) {
        rows.update(name_position(rows, row.name()), row)
    } else {
        rows.push(row)
    }
}

/// The record named `n`, where there is one.
pub open spec fn named<T: Named>(rows: Seq<T>, n: Seq<char>) -> Option<T> {
    if has_name(rows, n) {
        Some(rows[name_position(rows, n)])
    } else {
        None
    }
}

/// Storing a record keeps one record per name, makes it the record of its
/// name, and leaves the records of the other names as they are.
pub proof fn lemma_with_named<T: Named>(rows: Seq<T>, row: T)
    requires
        distinct_names(rows),
    ensures
        distinct_names(with_named(rows, row)),
        named(with_named(rows, row), row.name()) == Some(row),
        forall|n: Seq<char>| n != row.name() ==> named(with_named(rows, row), n) == named(rows, n),
{
    let after = with_named(rows, row);
    if has_name(rows, row.name()) {
        let at = name_position(rows, row.name());
        assert(rows[at].name() == row.name());
        lemma_update_named(rows, at, row);
        assert forall|n: Seq<char>| n != row.name() implies named(after, n) == named(rows, n) by {
            if has_name(rows, n) {
                let p = name_position(rows, n);
                assert(rows[p].name() == n);
            }
        }
    } else {
        lemma_push_named(rows, row);
        assert forall|n: Seq<char>| n != row.name() implies named(after, n) == named(rows, n) by {
            if has_name(rows, n) {
                let p = name_position(rows, n);
                assert(rows[p].name() == n);
            }
        }
    }
}

/// Stores `row` as the record of its name.
pub fn store_named<T: Named>(rows: &mut Vec<T>, row: T)
    requires
        distinct_names(old(rows)@),
    ensures
        final(rows)@ == with_named(old(rows)@, row),
        distinct_names(final(rows)@),
{
    proof {
        lemma_with_named(rows@, row);
    }
    match find_named(rows, row.name_of()) {
        Some(i) => {
            rows.set(i, row);
        },
        None => {
            rows.push(row);
        },
    }
}

/// The records with that of the same key replaced by `row`, or with `row`
/// added at the end.
pub open spec fn with_keyed<T: Keyed>(rows: Seq<T>, row: T) -> Seq<T> {
    if has_key(rows, row.key()) {
        rows.update(position(rows, row.key()), row)
    } else {
        rows.push(row)
    }
}

/// The record of `k`, where there is one.
pub open spec fn keyed<T: Keyed>(rows: Seq<T>, k: Address) -> Option<T> {
    if has_key(rows, k) {
        Some(rows[position(rows, k)])
    } else {
        None
    }
}

/// Storing a record keeps one record per key, makes it the record of its
/// key, and leaves the records of the other keys as they are.
pub proof fn lemma_with_keyed<T: Keyed>(rows: Seq<T>, row: T)
    requires
        distinct_keys(rows),
    ensures
        distinct_keys(with_keyed(rows, row)),
        keyed(with_keyed(rows, row), row.key()) == Some(row),
        forall|k: Address| k != row.key() ==> keyed(with_keyed(rows, row), k) == keyed(rows, k),
{
    let after = with_keyed(rows, row);
    if has_key(rows, row.key()) {
        let at = position(rows, row.key());
        assert(rows[at].key() == row.key());
        lemma_update_keyed(rows, at, row);
        assert forall|k: Address| k != row.key() implies keyed(after, k) == keyed(rows, k) by {
            if has_key(rows, k) {
                let p = position(rows, k);
                assert(rows[p].key() == k);
            }
        }
    } else {
        lemma_push_keyed(rows, row);
        assert forall|k: Address| k != row.key() implies keyed(after, k) == keyed(rows, k) by {
            if has_key(rows, k) {
                let p = position(rows, k);
                assert(rows[p].key() == k);
            }
        }
    }
}

/// Stores `row` as the record of its key.
pub fn store_keyed<T: Keyed>(rows: &mut Vec<T>, row: T)
    requires
        distinct_keys(old(rows)@),
    ensures
        final(rows)@ == with_keyed(old(rows)@, row),
        distinct_keys(final(rows)@),
{
    proof {
        lemma_with_keyed(rows@, row);
    }
    match find(rows, row.key_of()) {
        Some(i) => {
            rows.set(i, row);
        },
        None => {
            rows.push(row);
        },
    }
}

/// Whether no record of `rows` carries a negative amount.
pub open spec fn no_negative_weights<T: Weighted>(rows: Seq<T>) -> bool {
    forall|i: int| 0 <= i < rows.len() ==> #[trigger] rows[i].weight() >= 0
}

/// Where no amount is negative, the total of the first records is no more
/// than the total of all.
pub proof fn lemma_total_of_prefix<T: Weighted>(rows: Seq<T>, n: int)
    requires
        no_negative_weights(rows),
        0 <= n <= rows.len(),
    ensures
        total_weight(rows.take(n)) <= total_weight(rows),
    decreases rows.len() - n,
{
    if n < rows.len() {
        lemma_total_of_prefix(rows, n + 1);
        assert(rows.take(n + 1).drop_last() =~= rows.take(n));
        assert(rows.take(n + 1).last() == rows[n]);
        assert(rows[n].weight() >= 0);
    } else {
        assert(rows.take(n) =~= rows);
    }
}

/// Checks whether no two records belong to the same address; see
/// [`distinct_keys`].
pub fn keys_are_distinct<T: Keyed>(rows: &Vec<T>) -> (yes: bool)
    ensures
        yes == distinct_keys(rows@),
{
    let mut j: usize = 0;
    while j < rows.len()
        invariant
            j <= rows.len(),
            forall|a: int, b: int|
                0 <= a < b < j ==> #[trigger] rows@[a].key() != #[trigger] rows@[b].key(),
        decreases rows.len() - j,
    {
        let mut i: usize = 0;
        while i < j
            invariant
                i <= j < rows.len(),
                forall|a: int| 0 <= a < i ==> #[trigger] rows@[a].key() != rows@[j as int].key(),
            decreases j - i,
        {
            if rows[i].key_of() == rows[j].key_of() {
                assert(rows@[i as int].key() == rows@[j as int].key());
                return false;
            }
            i += 1;
        }
        j += 1;
    }
    true
}

/// Checks whether no two records have the same name; see
/// [`distinct_names`].
pub fn names_are_distinct<T: Named>(rows: &Vec<T>) -> (yes: bool)
    ensures
        yes == distinct_names(rows@),
{
    let mut j: usize = 0;
    while j < rows.len()
        invariant
            j <= rows.len(),
            forall|a: int, b: int|
                0 <= a < b < j ==> #[trigger] rows@[a].name() != #[trigger] rows@[b].name(),
        decreases rows.len() - j,
    {
        let mut i: usize = 0;
        while i < j
            invariant
                i <= j < rows.len(),
                forall|a: int| 0 <= a < i ==> #[trigger] rows@[a].name() != rows@[j as int].name(),
            decreases j - i,
        {
            let left = rows[i].name_of();
            let right = rows[j].name_of();
            if *left == *right {
                assert(rows@[i as int].name() == rows@[j as int].name());
                return false;
            }
            i += 1;
        }
        j += 1;
    }
    true
}

/// Adds up the amounts of `rows`: `Some` of the total where no amount is
/// negative and the total fits in 128 bits, else `None`.
pub fn checked_total<T: Weighted>(rows: &Vec<T>) -> (total: Option<i128>)
    ensures
        total.is_some() == (no_negative_weights(rows@) && total_weight(rows@) <= i128::MAX),
        total matches Some(sum) ==> sum == total_weight(rows@),
{
    let mut sum: i128 = 0;
    let mut i: usize = 0;
    while i < rows.len()
        invariant
            i <= rows.len(),
            no_negative_weights(rows@.take(i as int)),
            0 <= sum == total_weight(rows@.take(i as int)),
        decreases rows.len() - i,
    {
        let amount = rows[i].weight_of();
        proof {
            assert(rows@.take(i + 1).drop_last() =~= rows@.take(i as int));
            assert(rows@.take(i + 1).last() == rows@[i as int]);
        }
        if amount < 0 {
            assert(rows@[i as int].weight() < 0);
            return None;
        }
        sum = match sum.checked_add(amount) {
            Some(next) => next,
            None => {
                proof {
                    if no_negative_weights(rows@) {
                        lemma_total_of_prefix(rows@, i + 1);
                    }
                }
                return None;
            },
        };
        proof {
            assert forall|k: int| 0 <= k < i + 1 implies #[trigger] rows@.take(i + 1)[k].weight()
                >= 0 by {
                if k < i {
                    assert(rows@.take(i as int)[k] == rows@.take(i + 1)[k]);
                    assert(rows@.take(i as int)[k].weight() >= 0);
                }
            }
        }
        i += 1;
    }
    assert(rows@.take(i as int) =~= rows@);
    Some(sum)
}

} // verus!
