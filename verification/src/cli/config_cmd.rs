//! Changing the configuration from a key and a value.

use vstd::prelude::*;

use crate::error::Result;
use crate::text::from_chars;
use crate::text::same_text;
use crate::text::sub_chars;
use crate::text::to_chars;
use crate::toml_value::key_index;
use crate::toml_value::law_merge_by_key;
use crate::toml_value::lookup;
use crate::toml_value::merged;
use crate::toml_value::table_view;
use crate::toml_value::toml_view;
use crate::toml_value::TomlValue;
use crate::toml_value::TomlView;

verus! {

/// Possible sub-actions for the config command.
#[derive(Debug, Clone)]
pub enum ConfigAction {
    /// Set a key to a value.
    Assign { key: String, value: String },
}

// ---------------------------------------------------------------------------
// Integers
// ---------------------------------------------------------------------------

/// A decimal digit.
pub open spec fn is_digit(c: char) -> bool {
    '0' <= c <= '9'
}

/// The number that a row of digits stands for.
pub open spec fn digits_value(s: Seq<char>) -> int
    decreases s.len(),
{
    if s.len() == 0 {
        0
    } else {
        digits_value(s.drop_last()) * 10 + (s.last() as int - '0' as int)
    }
}

/// A text without its sign.
pub open spec fn unsigned_part(s: Seq<char>) -> Seq<char> {
    if s.len() > 0 && (s[0] == '+' || s[0] == '-') {
        s.skip(1)
    } else {
        s
    }
}

/// The number that an optional sign and one or more digits stand for; no other
/// text stands for a number.
pub open spec fn integer_value(s: Seq<char>) -> Option<int> {
    let digits = unsigned_part(s);
    if digits.len() > 0 && forall|i: int| 0 <= i < digits.len() ==> is_digit(#[trigger] digits[i]) {
        if s[0] == '-' {
            Some(-digits_value(digits))
        } else {
            Some(digits_value(digits))
        }
    } else {
        None
    }
}

proof fn lemma_digits_value_grows(s: Seq<char>, i: int)
    requires
        0 <= i <= s.len(),
        forall|j: int| 0 <= j < s.len() ==> is_digit(#[trigger] s[j]),
    ensures
        0 <= digits_value(s.take(i)) <= digits_value(s),
    decreases s.len(),
{
    if i < s.len() {
        let t = s.drop_last();
        assert forall|j: int| 0 <= j < t.len() implies is_digit(#[trigger] t[j]) by {
            assert(t[j] == s[j]);
        }
        assert(is_digit(s[s.len() - 1]));
        lemma_digits_value_grows(t, i);
        assert(t.take(i) =~= s.take(i));
    } else {
        assert(s.take(i) =~= s);
        if s.len() > 0 {
            let t = s.drop_last();
            assert forall|j: int| 0 <= j < t.len() implies is_digit(#[trigger] t[j]) by {
                assert(t[j] == s[j]);
            }
            assert(is_digit(s[s.len() - 1]));
            lemma_digits_value_grows(t, 0);
            assert(t.take(0) =~= Seq::<char>::empty());
        }
    }
}

/// The number that a text stands for, where it fits.
pub fn parse_integer(s: &str) -> (r: Option<i64>)
    ensures
        match r {
            Some(i) => integer_value(s@) == Some(i as int),
            None => match integer_value(s@) {
                Some(v) => v < i64::MIN || v > i64::MAX,
                None => true,
            },
        },
{
    let chars = to_chars(s);
    let negative = chars.len() > 0 && chars[0] == '-';
    let from: usize = if chars.len() > 0 && (chars[0] == '+' || chars[0] == '-') {
        1
    } else {
        0
    };
    let ghost digits = unsigned_part(s@);
    assert(digits =~= s@.skip(from as int));
    if from == chars.len() {
        return None;
    }
    let mut value: u64 = 0;
    let mut i: usize = from;
    assert(digits.take(0) =~= Seq::<char>::empty());
    while i < chars.len()
        invariant
            from <= i <= chars@.len(),
            chars@ == s@,
            digits == unsigned_part(s@),
            digits == s@.skip(from as int),
            from < chars@.len(),
            forall|j: int| 0 <= j < i - from ==> is_digit(#[trigger] digits[j]),
            value == digits_value(digits.take(i - from)),
            value <= 0x8000_0000_0000_0000,
        decreases chars@.len() - i,
    {
        let c = chars[i];
        assert(c == digits[i - from]);
        if c < '0' || c > '9' {
            return None;
        }
        let ghost now = digits.take(i - from);
        let ghost next = digits.take(i + 1 - from);
        assert(next.drop_last() =~= now);
        assert(next.last() == c);
        let wide: u128 = (value as u128) * 10 + ((c as u32 - '0' as u32) as u128);
        assert(wide == digits_value(next));
        if wide > 0x8000_0000_0000_0000u128 {
            proof {
                if forall|j: int| 0 <= j < digits.len() ==> is_digit(#[trigger] digits[j]) {
                    lemma_digits_value_grows(digits, i + 1 - from);
                }
            }
            return None;
        }
        value = wide as u64;
        i += 1;
    }
    assert(digits.take(i - from) =~= digits);
    if negative {
        if value == 0x8000_0000_0000_0000 {
            Some(i64::MIN)
        } else {
            Some(-(value as i64))
        }
    } else if value == 0x8000_0000_0000_0000 {
        None
    } else {
        Some(value as i64)
    }
}

// ---------------------------------------------------------------------------
// Patches
// ---------------------------------------------------------------------------

/// The value that a text stands for: a whole number that fits, else a
/// floating-point number, else a truth value, else the text itself.
pub open spec fn scalar(s: Seq<char>, float: Option<u64>) -> TomlView {
    if integer_value(s) is Some && i64::MIN <= integer_value(s)->Some_0 <= i64::MAX {
        TomlView::Integer(integer_value(s)->Some_0)
    } else if float is Some {
        TomlView::Float(float->Some_0)
    } else if s == "true"@ {
        TomlView::Boolean(true)
    } else if s == "false"@ {
        TomlView::Boolean(false)
    } else {
        TomlView::Text(s)
    }
}

/// Parse a string into the most appropriate TOML scalar type. `float` holds the
/// bits of the floating-point number that the string stands for, if it does.
pub fn parse_scalar(s: &str, float: Option<u64>) -> (r: TomlValue)
    ensures
        toml_view(r) == scalar(s@, float),
{
    if let Some(i) = parse_integer(s) {
        return TomlValue::Integer(i);
    }
    if let Some(bits) = float {
        return TomlValue::Float(bits);
    }
    if same_text(s, "true") {
        return TomlValue::Boolean(true);
    }
    if same_text(s, "false") {
        return TomlValue::Boolean(false);
    }
    TomlValue::Text(s.to_owned())
}

/// Where the first dot of a key is; its length where there is none.
pub open spec fn first_dot(key: Seq<char>) -> int
    decreases key.len(),
{
    if key.len() == 0 || key[0] == '.' {
        0
    } else {
        1 + first_dot(key.drop_first())
    }
}

pub proof fn lemma_first_dot(key: Seq<char>, i: int)
    requires
        0 <= i <= key.len(),
        forall|j: int| 0 <= j < i ==> #[trigger] key[j] != '.',
        i < key.len() ==> key[i] == '.',
    ensures
        first_dot(key) == i,
    decreases key.len(),
{
    if i > 0 {
        assert(key[0] != '.');
        let rest = key.drop_first();
        assert forall|j: int| 0 <= j < i - 1 implies #[trigger] rest[j] != '.' by {
            assert(rest[j] == key[j + 1]);
        }
        lemma_first_dot(rest, i - 1);
    }
}

/// A table with a single entry.
pub open spec fn single(key: Seq<char>, value: TomlView) -> TomlView {
    TomlView::Table(seq![(key, value)])
}

/// The patch that sets a key to a value; what stands before the first dot of
/// the key names a table.
pub open spec fn patch_of(key: Seq<char>, value: TomlView) -> TomlView {
    let dot = first_dot(key);
    if dot < key.len() {
        single(key.take(dot), single(key.skip(dot + 1), value))
    } else {
        single(key, value)
    }
}

fn single_table(key: String, value: TomlValue) -> (r: TomlValue)
    ensures
        toml_view(r) == single(key@, toml_view(value)),
{
    let mut entries: Vec<(String, TomlValue)> = Vec::new();
    let ghost k = key@;
    let ghost v = toml_view(value);
    entries.push((key, value));
    assert(table_view(entries@) =~= seq![(k, v)]) by {
        reveal_with_fuel(table_view, 2);
        assert(entries@.subrange(1, 1) =~= Seq::<(String, TomlValue)>::empty());
    }
    TomlValue::Table(entries)
}

/// Build a TOML patch from a dotted key string and a string value.
///
/// For example, `"general.max_entries"` and `"500"` becomes:
/// ```toml
/// [general]
/// max_entries = 500
/// ```
pub fn build_patch(key: &str, value: &str, float: Option<u64>) -> (r: Result<TomlValue>)
    ensures
        r matches Ok(patch) && toml_view(patch) == patch_of(key@, scalar(value@, float)),
{
    let scalar_value = parse_scalar(value, float);
    let chars = to_chars(key);
    let mut dot: usize = 0;
    while dot < chars.len() && chars[dot] != '.'
        invariant
            dot <= chars@.len(),
            forall|j: int| 0 <= j < dot ==> #[trigger] chars@[j] != '.',
        decreases chars@.len() - dot,
    {
        dot += 1;
    }
    proof {
        lemma_first_dot(key@, dot as int);
    }
    if dot < chars.len() {
        let section = sub_chars(&chars, 0, dot);
        let name = sub_chars(&chars, dot + 1, chars.len());
        assert(section@ =~= key@.take(dot as int));
        assert(name@ =~= key@.skip(dot + 1));
        Ok(single_table(from_chars(&section), single_table(from_chars(&name), scalar_value)))
    } else {
        Ok(single_table(key.to_owned(), scalar_value))
    }
}

/// The value of a setting of a section.
pub open spec fn setting(config: TomlView, section: Seq<char>, name: Seq<char>) -> Option<TomlView> {
    match config {
        TomlView::Table(sections) => match lookup(sections, section) {
            Some(TomlView::Table(settings)) => lookup(settings, name),
            _ => None,
        },
        _ => None,
    }
}

proof fn lemma_lookup_single(key: Seq<char>, value: TomlView, wanted: Seq<char>)
    ensures
        lookup(seq![(key, value)], wanted) == if wanted == key {
            Some(value)
        } else {
            None
        },
{
    let table = seq![(key, value)];
    reveal_with_fuel(key_index, 2);
    assert(table.subrange(1, 1) =~= Seq::<(Seq<char>, TomlView)>::empty());
}

/// Setting a key of a section to a value gives that setting the value and
/// leaves every other setting of every section as it was.
pub proof fn law_set_changes_one_setting(
    sections: Seq<(Seq<char>, TomlView)>,
    section: Seq<char>,
    name: Seq<char>,
    value: TomlView,
    other_section: Seq<char>,
    other_name: Seq<char>,
)
    requires
        forall|i: int| 0 <= i < section.len() ==> #[trigger] section[i] != '.',
        !(value is Table),
    ensures
        ({
            let before = TomlView::Table(sections);
            let after = merged(before, patch_of(section + seq!['.'] + name, value));
            &&& setting(after, section, name) == Some(value)
            &&& other_section != section || other_name != name ==> setting(
                after,
                other_section,
                other_name,
            ) == setting(before, other_section, other_name)
        }),
{
    let key = section + seq!['.'] + name;
    assert forall|j: int| 0 <= j < section.len() implies #[trigger] key[j] != '.' by {
        assert(key[j] == section[j]);
    }
    lemma_first_dot(key, section.len() as int);
    assert(key.take(section.len() as int) =~= section);
    assert(key.skip(section.len() as int + 1) =~= name);
    let inner = seq![(name, value)];
    let patch = seq![(section, TomlView::Table(inner))];
    law_merge_by_key(sections, patch, section);
    law_merge_by_key(sections, patch, other_section);
    lemma_lookup_single(section, TomlView::Table(inner), section);
    lemma_lookup_single(section, TomlView::Table(inner), other_section);
    lemma_lookup_single(name, value, name);
    lemma_lookup_single(name, value, other_name);
    if lookup(sections, section) is Some {
        let old = lookup(sections, section)->Some_0;
        if old is Table {
            law_merge_by_key(old->Table_0, inner, name);
            law_merge_by_key(old->Table_0, inner, other_name);
        }
    }
}

} // verus!
