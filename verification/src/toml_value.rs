//! Configuration values, and merging a patch into them.

use vstd::prelude::*;

use crate::text::same_text;

verus! {

// ---------------------------------------------------------------------------
// Values
// ---------------------------------------------------------------------------

/// A TOML value. The keys of a table are meant to differ.
#[derive(Debug)]
pub enum TomlValue {
    Text(String),
    Integer(i64),
    /// A floating-point number, by its bits.
    Float(u64),
    Boolean(bool),
    /// A date or time, as written.
    Datetime(String),
    Array(Vec<TomlValue>),
    Table(Vec<(String, TomlValue)>),
}

/// What a TOML value holds.
pub enum TomlView {
    Text(Seq<char>),
    Integer(int),
    Float(u64),
    Boolean(bool),
    Datetime(Seq<char>),
    Array(Seq<TomlView>),
    Table(Seq<(Seq<char>, TomlView)>),
}

/// What a TOML value holds.
pub open spec fn toml_view(v: TomlValue) -> TomlView
    decreases v,
{
    match v {
        TomlValue::Text(s) => TomlView::Text(s@),
        TomlValue::Integer(i) => TomlView::Integer(i as int),
        TomlValue::Float(bits) => TomlView::Float(bits),
        TomlValue::Boolean(b) => TomlView::Boolean(b),
        TomlValue::Datetime(s) => TomlView::Datetime(s@),
        TomlValue::Array(items) => TomlView::Array(array_view(items@)),
        TomlValue::Table(entries) => TomlView::Table(table_view(entries@)),
    }
}

/// What each value of a sequence holds.
pub open spec fn array_view(items: Seq<TomlValue>) -> Seq<TomlView>
    decreases items,
{
    if items.len() == 0 {
        Seq::<TomlView>::empty()
    } else {
        seq![toml_view(items[0])] + array_view(items.subrange(1, items.len() as int))
    }
}

/// The keys of a table and what their values hold.
pub open spec fn table_view(entries: Seq<(String, TomlValue)>) -> Seq<(Seq<char>, TomlView)>
    decreases entries,
{
    if entries.len() == 0 {
        Seq::<(Seq<char>, TomlView)>::empty()
    } else {
        seq![(entries[0].0@, toml_view(entries[0].1))] + table_view(
            entries.subrange(1, entries.len() as int),
        )
    }
}

pub proof fn lemma_table_view(entries: Seq<(String, TomlValue)>)
    ensures
        table_view(entries).len() == entries.len(),
        forall|i: int|
            0 <= i < entries.len() ==> #[trigger] table_view(entries)[i] == (
                entries[i].0@,
                toml_view(entries[i].1),
            ),
    decreases entries.len(),
{
    if entries.len() > 0 {
        let rest = entries.subrange(1, entries.len() as int);
        lemma_table_view(rest);
        assert forall|i: int| 0 <= i < entries.len() implies #[trigger] table_view(entries)[i] == (
            entries[i].0@,
            toml_view(entries[i].1),
        ) by {
            if i > 0 {
                assert(table_view(entries)[i] == table_view(rest)[i - 1]);
                assert(rest[i - 1] == entries[i]);
            }
        }
    }
}

/// Two sequences of entries that agree entry by entry hold the same.
proof fn lemma_table_view_is(
    entries: Seq<(String, TomlValue)>,
    view: Seq<(Seq<char>, TomlView)>,
)
    requires
        entries.len() == view.len(),
        forall|i: int|
            0 <= i < entries.len() ==> view[i] == (
                (#[trigger] entries[i]).0@,
                toml_view(entries[i].1),
            ),
    ensures
        table_view(entries) == view,
{
    lemma_table_view(entries);
    assert forall|i: int| 0 <= i < view.len() implies table_view(entries)[i] == view[i] by {
        assert(view[i] == (entries[i].0@, toml_view(entries[i].1)));
    }
    assert(table_view(entries) =~= view);
}

// ---------------------------------------------------------------------------
// Tables
// ---------------------------------------------------------------------------

/// Where a key stands in a table; the length of the table where it is missing.
pub open spec fn key_index(table: Seq<(Seq<char>, TomlView)>, key: Seq<char>) -> int
    decreases table.len(),
{
    if table.len() == 0 || table[0].0 == key {
        0
    } else {
        1 + key_index(table.subrange(1, table.len() as int), key)
    }
}

/// The value of a key in a table.
pub open spec fn lookup(table: Seq<(Seq<char>, TomlView)>, key: Seq<char>) -> Option<TomlView> {
    let i = key_index(table, key);
    if i < table.len() {
        Some(table[i].1)
    } else {
        None
    }
}

/// No two keys of a table are the same.
pub open spec fn keys_differ(table: Seq<(Seq<char>, TomlView)>) -> bool {
    forall|i: int, j: int|
        0 <= i < j < table.len() ==> (#[trigger] table[i]).0 != (#[trigger] table[j]).0
}

/// `key_index` is the only place with no such key before it and, unless it is
/// the end, the key at it.
pub proof fn lemma_key_index(table: Seq<(Seq<char>, TomlView)>, key: Seq<char>, i: int)
    requires
        0 <= i <= table.len(),
        forall|j: int| 0 <= j < i ==> (#[trigger] table[j]).0 != key,
        i < table.len() ==> table[i].0 == key,
    ensures
        key_index(table, key) == i,
    decreases table.len(),
{
    if i > 0 {
        assert(table[0].0 != key);
        let rest = table.subrange(1, table.len() as int);
        assert forall|j: int| 0 <= j < i - 1 implies (#[trigger] rest[j]).0 != key by {
            assert(rest[j] == table[j + 1]);
        }
        lemma_key_index(rest, key, i - 1);
    }
}

pub proof fn lemma_key_index_bounds(table: Seq<(Seq<char>, TomlView)>, key: Seq<char>)
    ensures
        0 <= key_index(table, key) <= table.len(),
        forall|j: int| 0 <= j < key_index(table, key) ==> (#[trigger] table[j]).0 != key,
        key_index(table, key) < table.len() ==> table[key_index(table, key)].0 == key,
    decreases table.len(),
{
    if table.len() > 0 && table[0].0 != key {
        let rest = table.subrange(1, table.len() as int);
        lemma_key_index_bounds(rest, key);
        assert forall|j: int| 0 <= j < key_index(table, key) implies (#[trigger] table[j]).0
            != key by {
            if j > 0 {
                assert(rest[j - 1] == table[j]);
            }
        }
    }
}

/// Where a key stands in a table.
fn find_key(table: &Vec<(String, TomlValue)>, key: &str) -> (r: usize)
    ensures
        r == key_index(table_view(table@), key@),
        r <= table@.len(),
{
    let ghost view = table_view(table@);
    proof {
        lemma_table_view(table@);
    }
    let mut i: usize = 0;
    while i < table.len()
        invariant
            i <= table@.len(),
            view == table_view(table@),
            view.len() == table@.len(),
            forall|j: int|
                0 <= j < table@.len() ==> #[trigger] view[j] == (
                    table@[j].0@,
                    toml_view(table@[j].1),
                ),
            forall|j: int| 0 <= j < i ==> (#[trigger] view[j]).0 != key@,
        decreases table@.len() - i,
    {
        assert(view[i as int].0 == table@[i as int].0@);
        if same_text(table[i].0.as_str(), key) {
            proof {
                lemma_key_index(view, key@, i as int);
            }
            return i;
        }
        i += 1;
    }
    proof {
        lemma_key_index(view, key@, view.len() as int);
    }
    i
}

// ---------------------------------------------------------------------------
// Merging
// ---------------------------------------------------------------------------

/// A patch merged into a value: two tables are merged key by key, any other
/// patch takes the place of the value.
pub open spec fn merged(base: TomlView, patch: TomlView) -> TomlView
    decreases patch,
{
    match (base, patch) {
        (TomlView::Table(b), TomlView::Table(p)) => TomlView::Table(merged_tables(b, p)),
        _ => patch,
    }
}

/// The entries of a patch merged into a table, one after the other.
pub open spec fn merged_tables(
    base: Seq<(Seq<char>, TomlView)>,
    patch: Seq<(Seq<char>, TomlView)>,
) -> Seq<(Seq<char>, TomlView)>
    decreases patch,
{
    if patch.len() == 0 {
        base
    } else {
        let key = patch[0].0;
        let i = key_index(base, key);
        let next = if i < base.len() {
            base.update(i, (key, merged(base[i].1, patch[0].1)))
        } else {
            base.push((key, patch[0].1))
        };
        merged_tables(next, patch.subrange(1, patch.len() as int))
    }
}

/// Recursively merge `patch` into `base`.
///
/// Tables are merged key by key; any other value in `patch` overwrites that in
/// `base`.
pub fn merge_toml(base: TomlValue, patch: TomlValue) -> (r: TomlValue)
    ensures
        toml_view(r) == merged(toml_view(base), toml_view(patch)),
    decreases patch,
{
    match (base, patch) {
        (TomlValue::Table(b), TomlValue::Table(p)) => {
            let ghost all = p@;
            let ghost wanted = merged_tables(table_view(b@), table_view(p@));
            let mut table = b;
            let mut rest = p;
            let ghost mut done: int = 0;
            assert(all.skip(0) =~= all);
            while rest.len() > 0
                invariant
                    0 <= done <= all.len(),
                    rest@ == all.skip(done),
                    patch == TomlValue::Table(p),
                    p@ == all,
                    merged_tables(table_view(table@), table_view(rest@)) == wanted,
                decreases rest@.len(),
            {
                let ghost before = table_view(table@);
                let ghost left = rest@;
                let (key, value) = rest.remove(0);
                assert(left[0] == all[done]);
                assert(rest@ =~= left.subrange(1, left.len() as int));
                assert(rest@ =~= all.skip(done + 1));
                proof {
                    lemma_table_view(left);
                    lemma_table_view(table@);
                    lemma_table_view(rest@);
                    assert(table_view(left).subrange(1, left.len() as int) =~= table_view(rest@));
                    lemma_key_index_bounds(before, key@);
                }
                let i = find_key(&table, key.as_str());
                let ghost old_table = table@;
                if i < table.len() {
                    let (_, old_value) = table.remove(i);
                    let ghost old_view = toml_view(old_value);
                    assert(decreases_to!(patch => all[done].1)) by {
                        assert(decreases_to!(patch => patch->Table_0));
                        assert(decreases_to!(p => p@));
                        assert(decreases_to!(p@ => p@[done]));
                        assert(decreases_to!(p@[done] => p@[done].1));
                    }
                    let new_value = merge_toml(old_value, value);
                    let ghost new_view = toml_view(new_value);
                    table.insert(i, (key, new_value));
                    proof {
                        lemma_table_view_is(table@, before.update(i as int, (key@, new_view)));
                    }
                } else {
                    let ghost new_view = toml_view(value);
                    table.push((key, value));
                    proof {
                        lemma_table_view_is(table@, before.push((key@, new_view)));
                    }
                }
                proof {
                    done = done + 1;
                }
            }
            assert(table_view(rest@) =~= Seq::<(Seq<char>, TomlView)>::empty());
            TomlValue::Table(table)
        },
        (_, patch) => patch,
    }
}

// ---------------------------------------------------------------------------
// Laws of merging
// ---------------------------------------------------------------------------

proof fn lemma_merged_tables_lookup(
    base: Seq<(Seq<char>, TomlView)>,
    patch: Seq<(Seq<char>, TomlView)>,
    key: Seq<char>,
)
    requires
        keys_differ(patch),
    ensures
        lookup(merged_tables(base, patch), key) == match (lookup(base, key), lookup(patch, key)) {
            (Some(b), Some(p)) => Some(merged(b, p)),
            (None, Some(p)) => Some(p),
            (b, None) => b,
        },
        keys_differ(base) ==> keys_differ(merged_tables(base, patch)),
    decreases patch.len(),
{
    if patch.len() > 0 {
        let first = patch[0].0;
        let rest = patch.subrange(1, patch.len() as int);
        let i = key_index(base, first);
        let next = if i < base.len() {
            base.update(i, (first, merged(base[i].1, patch[0].1)))
        } else {
            base.push((first, patch[0].1))
        };
        assert(keys_differ(rest)) by {
            assert forall|a: int, b: int| 0 <= a < b < rest.len() implies (#[trigger] rest[a]).0
                != (#[trigger] rest[b]).0 by {
                assert(rest[a] == patch[a + 1]);
                assert(rest[b] == patch[b + 1]);
            }
        }
        lemma_key_index_bounds(base, first);
        lemma_key_index_bounds(base, key);
        lemma_key_index_bounds(rest, key);
        lemma_key_index_bounds(patch, key);
        if keys_differ(base) {
            assert(keys_differ(next)) by {
                assert forall|a: int, b: int| 0 <= a < b < next.len() implies (
                #[trigger] next[a]).0 != (#[trigger] next[b]).0 by {
                    if i < base.len() {
                        assert(base[a].0 != base[b].0);
                    } else if b < base.len() {
                        assert(base[a].0 != base[b].0);
                    }
                }
            }
        }
        lemma_merged_tables_lookup(next, rest, key);
        if key == first {
            // The key stands at the head of the patch and nowhere else in it.
            lemma_key_index(patch, key, 0);
            assert forall|j: int| 0 <= j < rest.len() implies (#[trigger] rest[j]).0 != key by {
                assert(rest[j] == patch[j + 1]);
                assert(patch[0].0 != patch[j + 1].0);
            }
            lemma_key_index(rest, key, rest.len() as int);
            lemma_key_index(next, key, i);
        } else {
            let k = key_index(base, key);
            if k < base.len() {
                lemma_key_index(next, key, k);
            } else {
                lemma_key_index(next, key, next.len() as int);
            }
            let m = key_index(rest, key);
            assert forall|j: int| 0 <= j < m + 1 implies (#[trigger] patch[j]).0 != key by {
                if j > 0 {
                    assert(rest[j - 1] == patch[j]);
                }
            }
            if m < rest.len() {
                assert(rest[m] == patch[m + 1]);
            }
            lemma_key_index(patch, key, m + 1);
        }
    }
}

/// What merging tables does to one key: where only one of the tables has it,
/// that value is kept; where both have it, the two values are merged.
pub proof fn law_merge_by_key(
    base: Seq<(Seq<char>, TomlView)>,
    patch: Seq<(Seq<char>, TomlView)>,
    key: Seq<char>,
)
    requires
        keys_differ(patch),
    ensures
        lookup(merged_tables(base, patch), key) == match (lookup(base, key), lookup(patch, key)) {
            (Some(b), Some(p)) => Some(merged(b, p)),
            (None, Some(p)) => Some(p),
            (b, None) => b,
        },
{
    lemma_merged_tables_lookup(base, patch, key);
}

/// Merging keeps the keys of a table different.
pub proof fn law_merge_keeps_keys_different(
    base: Seq<(Seq<char>, TomlView)>,
    patch: Seq<(Seq<char>, TomlView)>,
)
    requires
        keys_differ(base),
        keys_differ(patch),
    ensures
        keys_differ(merged_tables(base, patch)),
{
    lemma_merged_tables_lookup(base, patch, Seq::<char>::empty());
}

/// An empty patch changes nothing, and a patch that is no table takes the
/// place of whatever was there.
pub proof fn law_merge_extremes(base: Seq<(Seq<char>, TomlView)>, old: TomlView, patch: TomlView)
    ensures
        merged_tables(base, Seq::<(Seq<char>, TomlView)>::empty()) == base,
        !(patch is Table) ==> merged(old, patch) == patch,
        !(old is Table) ==> merged(old, patch) == patch,
{
}

} // verus!
