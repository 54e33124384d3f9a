//! Groups of records as contracts see them: the order of their keys, the
//! records found under a key, and what adding a record does to them.

use super::date::date_lt;
use super::date::lemma_date_order;
use super::date::CatalystDate;
use super::row::Entry;
use super::row::Record;
use crate::text::lemma_text_lt_asymmetric;
use crate::text::lemma_text_lt_irreflexive;
use crate::text::lemma_text_lt_total;
use crate::text::lemma_text_lt_transitive;
use crate::text::text_lt;
use vstd::prelude::*;

verus! {

/// The records that share one label and one date, in the order in which
/// they were added.
pub struct Group {
    pub label: Seq<char>,
    pub date: CatalystDate,
    pub records: Seq<Record>,
}

/// Whether the key `(label_a, date_a)` is strictly before `(label_b, date_b)`:
/// by label first, then by date.
pub open spec fn key_lt(
    label_a: Seq<char>,
    date_a: CatalystDate,
    label_b: Seq<char>,
    date_b: CatalystDate,
) -> bool {
    text_lt(label_a, label_b) || (label_a == label_b && date_lt(date_a, date_b))
}

/// Whether `a` is keyed strictly before `b`.
pub open spec fn group_lt(a: Group, b: Group) -> bool {
    key_lt(a.label, a.date, b.label, b.date)
}

/// Whether a group has the key `(label, date)`.
pub open spec fn holds_key(group: Group, label: Seq<char>, date: CatalystDate) -> bool {
    group.label == label && group.date == date
}

/// Whether every record of the group is dated as the group is.
pub open spec fn dated_alike(group: Group) -> bool {
    forall|k: int|
        0 <= k < group.records.len() ==> (#[trigger] group.records[k]).catalyst_date == group.date
}

/// Groups in strictly ascending order of their keys, none of them empty,
/// each holding records of its own date only.
pub open spec fn sorted_groups(groups: Seq<Group>) -> bool {
    &&& forall|i: int, j: int|
        0 <= i < j < groups.len() ==> group_lt(#[trigger] groups[i], #[trigger] groups[j])
    &&& forall|i: int| 0 <= i < groups.len() ==> (#[trigger] groups[i]).records.len() > 0
    &&& forall|i: int| 0 <= i < groups.len() ==> dated_alike(#[trigger] groups[i])
}

/// The records found under a key: those of the group with that key, or none.
pub open spec fn rows_of(groups: Seq<Group>, label: Seq<char>, date: CatalystDate) -> Seq<Record> {
    if exists|i: int| 0 <= i < groups.len() && holds_key(#[trigger] groups[i], label, date) {
        let i = choose|i: int| 0 <= i < groups.len() && holds_key(#[trigger] groups[i], label, date);
        groups[i].records
    } else {
        Seq::empty()
    }
}

/// The records of `entries` that carry the key `(label, date)`, in the order
/// in which they stand in `entries`.
pub open spec fn grouped(entries: Seq<Entry>, label: Seq<char>, date: CatalystDate) -> Seq<Record>
    decreases entries.len(),
{
    if entries.len() == 0 {
        Seq::empty()
    } else {
        let earlier = grouped(entries.drop_last(), label, date);
        let last = entries.last();
        if last.label == label && last.record.catalyst_date == date {
            earlier.push(last.record)
        } else {
            earlier
        }
    }
}

/// The order of keys is strict and total, and carries over a key in the middle.
pub proof fn lemma_key_order(
    label_a: Seq<char>,
    date_a: CatalystDate,
    label_b: Seq<char>,
    date_b: CatalystDate,
    label_c: Seq<char>,
    date_c: CatalystDate,
)
    ensures
        !key_lt(label_a, date_a, label_a, date_a),
        key_lt(label_a, date_a, label_b, date_b) || key_lt(label_b, date_b, label_a, date_a) || (
        label_a == label_b && date_a == date_b),
        !(key_lt(label_a, date_a, label_b, date_b) && key_lt(label_b, date_b, label_a, date_a)),
        key_lt(label_a, date_a, label_b, date_b) && key_lt(label_b, date_b, label_c, date_c)
            ==> key_lt(label_a, date_a, label_c, date_c),
{
    lemma_text_lt_irreflexive(label_a);
    lemma_text_lt_irreflexive(label_b);
    lemma_text_lt_total(label_a, label_b);
    lemma_text_lt_asymmetric(label_a, label_b);
    lemma_date_order(date_a, date_b, date_c);
    if text_lt(label_a, label_b) && text_lt(label_b, label_c) {
        lemma_text_lt_transitive(label_a, label_b, label_c);
    }
}

/// In sorted groups no two groups share a key.
pub proof fn lemma_keys_differ(groups: Seq<Group>, i: int, j: int)
    requires
        sorted_groups(groups),
        0 <= i < groups.len(),
        0 <= j < groups.len(),
        holds_key(groups[j], groups[i].label, groups[i].date),
    ensures
        i == j,
{
    let a = groups[i];
    lemma_key_order(a.label, a.date, a.label, a.date, a.label, a.date);
    if i < j {
        assert(group_lt(groups[i], groups[j]));
    } else if j < i {
        assert(group_lt(groups[j], groups[i]));
    }
}

/// In sorted groups the records under the key of a group are that group's.
pub proof fn lemma_rows_at(groups: Seq<Group>, i: int)
    requires
        sorted_groups(groups),
        0 <= i < groups.len(),
    ensures
        rows_of(groups, groups[i].label, groups[i].date) == groups[i].records,
{
    let label = groups[i].label;
    let date = groups[i].date;
    assert(holds_key(groups[i], label, date));
    let j = choose|j: int| 0 <= j < groups.len() && holds_key(#[trigger] groups[j], label, date);
    lemma_keys_differ(groups, i, j);
}

/// Adding a record to the group at `i` keeps the groups sorted, appends the
/// record under that group's key and leaves every other key as it was.
pub proof fn lemma_extend_group(groups: Seq<Group>, i: int, record: Record)
    requires
        sorted_groups(groups),
        0 <= i < groups.len(),
        record.catalyst_date == groups[i].date,
    ensures
        ({
            let extended = Group { records: groups[i].records.push(record), ..groups[i] };
            let after = groups.update(i, extended);
            &&& sorted_groups(after)
            &&& forall|label: Seq<char>, date: CatalystDate|
                #[trigger] rows_of(after, label, date) == if holds_key(groups[i], label, date) {
                    rows_of(groups, label, date).push(record)
                } else {
                    rows_of(groups, label, date)
                }
        }),
{
    let extended = Group { records: groups[i].records.push(record), ..groups[i] };
    let after = groups.update(i, extended);
    assert(sorted_groups(after)) by {
        assert forall|a: int, b: int| 0 <= a < b < after.len() implies group_lt(
            #[trigger] after[a],
            #[trigger] after[b],
        ) by {
            assert(group_lt(groups[a], groups[b]));
        }
        assert forall|a: int| 0 <= a < after.len() implies (#[trigger] after[a]).records.len()
            > 0 by {
            assert(groups[a].records.len() > 0);
        }
        assert forall|a: int| 0 <= a < after.len() implies dated_alike(#[trigger] after[a]) by {
            assert(dated_alike(groups[a]));
            if a == i {
                assert forall|k: int| 0 <= k < extended.records.len() implies (
                #[trigger] extended.records[k]).catalyst_date == extended.date by {
                    if k < groups[i].records.len() {
                        assert(extended.records[k] == groups[i].records[k]);
                    }
                }
            }
        }
    }
    assert forall|label: Seq<char>, date: CatalystDate|
        #[trigger] rows_of(after, label, date) == if holds_key(groups[i], label, date) {
            rows_of(groups, label, date).push(record)
        } else {
            rows_of(groups, label, date)
        } by {
        if holds_key(groups[i], label, date) {
            lemma_rows_at(groups, i);
            lemma_rows_at(after, i);
        } else if exists|j: int|
            0 <= j < groups.len() && holds_key(#[trigger] groups[j], label, date) {
            let j = choose|j: int|
                0 <= j < groups.len() && holds_key(#[trigger] groups[j], label, date);
            assert(after[j] == groups[j]);
            lemma_rows_at(groups, j);
            lemma_rows_at(after, j);
        } else {
            assert forall|j: int| 0 <= j < after.len() implies !holds_key(
                #[trigger] after[j],
                label,
                date,
            ) by {
                assert(!holds_key(groups[j], label, date));
            }
        }
    }
}

/// Placing a new one-record group at `i`, after the groups keyed before it
/// and before the groups keyed after it, keeps the groups sorted, puts the
/// record under the new key and leaves every other key as it was.
pub proof fn lemma_place_group(groups: Seq<Group>, i: int, group: Group)
    requires
        sorted_groups(groups),
        0 <= i <= groups.len(),
        group.records.len() == 1,
        group.records[0].catalyst_date == group.date,
        forall|j: int| 0 <= j < i ==> group_lt(#[trigger] groups[j], group),
        forall|j: int| i <= j < groups.len() ==> group_lt(group, #[trigger] groups[j]),
    ensures
        sorted_groups(groups.insert(i, group)),
        forall|label: Seq<char>, date: CatalystDate|
            #[trigger] rows_of(groups.insert(i, group), label, date) == if holds_key(
                group,
                label,
                date,
            ) {
                rows_of(groups, label, date).push(group.records[0])
            } else {
                rows_of(groups, label, date)
            },
{
    let after = groups.insert(i, group);
    lemma_key_order(group.label, group.date, group.label, group.date, group.label, group.date);
    assert(sorted_groups(after)) by {
        assert forall|a: int, b: int| 0 <= a < b < after.len() implies group_lt(
            #[trigger] after[a],
            #[trigger] after[b],
        ) by {
            if b < i {
                assert(group_lt(groups[a], groups[b]));
            } else if b == i {
                assert(group_lt(groups[a], group));
            } else if a == i {
                assert(group_lt(group, groups[b - 1]));
            } else if a > i {
                assert(group_lt(groups[a - 1], groups[b - 1]));
            } else {
                assert(after[a] == groups[a]);
                assert(after[b] == groups[b - 1]);
                if a < b - 1 {
                    assert(group_lt(groups[a], groups[b - 1]));
                } else {
                    let x = groups[a];
                    let y = groups[b - 1];
                    assert(group_lt(x, group));
                    assert(group_lt(group, y));
                    lemma_key_order(x.label, x.date, group.label, group.date, y.label, y.date);
                }
            }
        }
        assert forall|a: int| 0 <= a < after.len() implies (#[trigger] after[a]).records.len()
            > 0 by {
            if a < i {
                assert(groups[a].records.len() > 0);
            } else if a > i {
                assert(groups[a - 1].records.len() > 0);
            }
        }
        assert forall|a: int| 0 <= a < after.len() implies dated_alike(#[trigger] after[a]) by {
            if a < i {
                assert(dated_alike(groups[a]));
            } else if a > i {
                assert(dated_alike(groups[a - 1]));
            }
        }
    }
    assert forall|j: int| 0 <= j < groups.len() implies !holds_key(
        #[trigger] groups[j],
        group.label,
        group.date,
    ) by {
        if j < i {
            assert(group_lt(groups[j], group));
        } else {
            assert(group_lt(group, groups[j]));
        }
    }
    assert forall|label: Seq<char>, date: CatalystDate|
        #[trigger] rows_of(after, label, date) == if holds_key(group, label, date) {
            rows_of(groups, label, date).push(group.records[0])
        } else {
            rows_of(groups, label, date)
        } by {
        if holds_key(group, label, date) {
            assert(after[i] == group);
            lemma_rows_at(after, i);
            assert(group.records =~= Seq::<Record>::empty().push(group.records[0]));
        } else if exists|j: int|
            0 <= j < groups.len() && holds_key(#[trigger] groups[j], label, date) {
            let j = choose|j: int|
                0 <= j < groups.len() && holds_key(#[trigger] groups[j], label, date);
            lemma_rows_at(groups, j);
            if j < i {
                assert(after[j] == groups[j]);
                lemma_rows_at(after, j);
            } else {
                assert(after[j + 1] == groups[j]);
                lemma_rows_at(after, j + 1);
            }
        } else {
            assert forall|j: int| 0 <= j < after.len() implies !holds_key(
                #[trigger] after[j],
                label,
                date,
            ) by {
                if j < i {
                    assert(!holds_key(groups[j], label, date));
                } else if j > i {
                    assert(!holds_key(groups[j - 1], label, date));
                }
            }
        }
    }
}

/// Whether two sequences of groups hold the same records under every key.
pub open spec fn same_rows(a: Seq<Group>, b: Seq<Group>) -> bool {
    forall|label: Seq<char>, date: CatalystDate|
        #[trigger] rows_of(a, label, date) == rows_of(b, label, date)
}

/// A group of `a` stands somewhere in `b`, when both hold the same records
/// under every key.
proof fn lemma_group_found(a: Seq<Group>, b: Seq<Group>, i: int) -> (j: int)
    requires
        sorted_groups(a),
        sorted_groups(b),
        same_rows(a, b),
        0 <= i < a.len(),
    ensures
        0 <= j < b.len(),
        b[j] == a[i],
{
    let label = a[i].label;
    let date = a[i].date;
    lemma_rows_at(a, i);
    assert(rows_of(a, label, date) == rows_of(b, label, date));
    assert(a[i].records.len() > 0);
    let j = choose|j: int| 0 <= j < b.len() && holds_key(#[trigger] b[j], label, date);
    lemma_rows_at(b, j);
    j
}

/// Sorted groups that hold the same records under every key agree at every
/// position that both have.
proof fn lemma_same_at(a: Seq<Group>, b: Seq<Group>, i: int)
    requires
        sorted_groups(a),
        sorted_groups(b),
        same_rows(a, b),
        0 <= i < a.len(),
        0 <= i < b.len(),
    ensures
        a[i] == b[i],
    decreases i,
{
    assert forall|k: int| 0 <= k < i implies a[k] == b[k] by {
        lemma_same_at(a, b, k);
    }
    let j = lemma_group_found(a, b, i);
    let m = lemma_group_found(b, a, i);
    if j < i {
        assert(a[j] == b[j]);
        lemma_keys_differ(a, i, j);
    }
    if m < i {
        assert(b[m] == a[m]);
        lemma_keys_differ(b, i, m);
    }
    if j > i {
        assert(group_lt(b[i], b[j]));
        if m > i {
            assert(group_lt(a[i], a[m]));
            lemma_key_order(
                a[i].label,
                a[i].date,
                b[i].label,
                b[i].date,
                a[i].label,
                a[i].date,
            );
        } else {
            lemma_key_order(
                a[i].label,
                a[i].date,
                a[i].label,
                a[i].date,
                a[i].label,
                a[i].date,
            );
        }
    }
}

/// Sorted groups are determined by the records that stand under each key:
/// two catalogs that answer every key alike are the same catalog.
pub proof fn lemma_groups_determined(a: Seq<Group>, b: Seq<Group>)
    requires
        sorted_groups(a),
        sorted_groups(b),
        same_rows(a, b),
    ensures
        a == b,
{
    if a.len() < b.len() {
        let i = a.len() as int;
        let m = lemma_group_found(b, a, i);
        lemma_same_at(a, b, m);
        lemma_keys_differ(b, i, m);
    }
    if b.len() < a.len() {
        let i = b.len() as int;
        let j = lemma_group_found(a, b, i);
        lemma_same_at(a, b, j);
        lemma_keys_differ(a, i, j);
    }
    assert forall|i: int| 0 <= i < a.len() implies a[i] == b[i] by {
        lemma_same_at(a, b, i);
    }
    assert(a =~= b);
}

} // verus!
