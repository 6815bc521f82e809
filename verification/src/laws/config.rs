//! What the configuration is for: its defaults, its places and how a patch
//! changes it.

use vstd::prelude::*;

use crate::config::blob_directory;
use crate::config::data_directory;
use crate::config::database_file;
use crate::config::file_name;
use crate::config::is_absolute;
use crate::config::is_runtime_dir;
use crate::config::is_user_dir;
use crate::config::or_fallback;
use crate::config::path_join;
use crate::config::retention_days;
use crate::config::retention_name;
use crate::config::Config;
use crate::config::Retention;
use crate::text::texts;
use crate::toml_value::key_index;
use crate::toml_value::keys_differ;
use crate::toml_value::lemma_key_index;
use crate::toml_value::lemma_key_index_bounds;
use crate::toml_value::lemma_table_view;
use crate::toml_value::lookup;
use crate::toml_value::merged;
use crate::toml_value::merged_tables;
use crate::toml_value::table_view;
use crate::toml_value::toml_view;
use crate::toml_value::TomlValue;
use crate::toml_value::TomlView;

verus! {

// ---------------------------------------------------------------------------
// Defaults
// ---------------------------------------------------------------------------

/// What the daemon does where nothing is configured: it keeps a thousand
/// entries for ninety days, of secrets a day, takes entries of up to 500
/// megabytes and distrusts three password managers and two kinds of token.
pub proof fn law_default_configuration(c: Config)
    requires
        c.is_default(),
    ensures
        c.general.max_entries == 1000,
        c.general.max_blob_size_mb == 500,
        retention_days(c.general.retention) == Some(90nat),
        c.general.ephemeral_ttl_hours == 24,
        c.ui.theme@ == "auto"@,
        c.ui.width == 680,
        c.ui.max_visible_entries == 8,
        c.ui.show_source_app,
        c.ui.show_content_badges,
        c.ui.position@ == "top-center"@,
        c.keybind.toggle@ == "Super+Shift+V"@,
        c.keybind.open_formatted@ == "Super+V"@,
        c.keybind.open_plain@ == "Super+Shift+V"@,
        c.keybind.restore_original@ == "Return"@,
        c.keybind.restore_plain@ == "Shift+Return"@,
        c.keybind.delete@ == "Ctrl+BackSpace"@,
        c.keybind.pin@ == "Ctrl+P"@,
        c.keybind.clear_all@ == "Ctrl+Shift+Delete"@,
        texts(c.ignore.apps@) == seq![
            "org.keepassxc.KeePassXC"@,
            "com.1password.1Password"@,
            "com.bitwarden.desktop"@,
        ],
        texts(c.ignore.patterns@) == seq!["^sk-[a-zA-Z0-9]{48}"@, "^ghp_[a-zA-Z0-9]{36}"@],
        c.ignore.respect_sensitive_hints,
{
}

/// Each retention lasts for as many days as its name says, a month counting
/// thirty days and a year 365.
pub proof fn law_retentions(r: Retention)
    ensures
        retention_name(r) == "7days"@ ==> retention_days(r) == Some(7nat),
        retention_name(r) == "30days"@ ==> retention_days(r) == Some(30nat),
        retention_name(r) == "3months"@ ==> retention_days(r) == Some(3nat * 30),
        retention_name(r) == "6months"@ ==> retention_days(r) == Some(6nat * 30),
        retention_name(r) == "1year"@ ==> retention_days(r) == Some(365nat),
        retention_name(r) == "unlimited"@ ==> retention_days(r) is None,
        retention_name(r) == "7days"@ || retention_name(r) == "30days"@ || retention_name(r)
            == "3months"@ || retention_name(r) == "6months"@ || retention_name(r) == "1year"@
            || retention_name(r) == "unlimited"@,
        retention_days(r) is None <==> r == Retention::Unlimited,
        r == Retention::Days7 ==> retention_days(r) == Some(7nat),
        r == Retention::Days30 ==> retention_days(r) == Some(30nat),
        r == Retention::Months3 ==> retention_days(r) == Some(90nat),
        r == Retention::Months6 ==> retention_days(r) == Some(180nat),
        r == Retention::Year1 ==> retention_days(r) == Some(365nat),
{
    reveal_strlit("7days");
    reveal_strlit("30days");
    reveal_strlit("3months");
    reveal_strlit("6months");
    reveal_strlit("1year");
    reveal_strlit("unlimited");
    assert("7days"@[0] == '7' && "30days"@[0] == '3' && "3months"@[0] == '3');
    assert("6months"@[0] == '6' && "1year"@[0] == '1' && "unlimited"@[0] == 'u');
    assert("30days"@[1] == '0' && "3months"@[1] == 'm');
}

// ---------------------------------------------------------------------------
// Places
// ---------------------------------------------------------------------------

/// A name is put behind a directory with exactly one separator between them,
/// whether or not the directory ends in one.
pub proof fn law_one_separator(dir: Seq<char>, name: Seq<char>)
    requires
        dir.len() > 0,
        dir.last() != '/',
    ensures
        path_join(dir, name) == dir + seq!['/'] + name,
        path_join(dir.push('/'), name) == dir + seq!['/'] + name,
        path_join(Seq::<char>::empty(), name) == name,
{
    reveal_strlit("/");
    assert("/"@ =~= seq!['/']);
    assert(dir.push('/') + name =~= dir + seq!['/'] + name);
    assert(Seq::<char>::empty() + name =~= name);
}

/// The name of a file is what stands behind the last separator of its path.
pub proof fn law_file_name(dir: Seq<char>, name: Seq<char>)
    requires
        forall|i: int| 0 <= i < name.len() ==> #[trigger] name[i] != '/',
    ensures
        file_name(dir + seq!['/'] + name) == name,
        file_name(name) == name,
    decreases name.len(),
{
    if name.len() == 0 {
        assert(dir + seq!['/'] + name =~= dir.push('/'));
        assert(file_name(dir.push('/')) == Seq::<char>::empty());
        assert(name =~= Seq::<char>::empty());
    } else {
        let short = name.drop_last();
        assert forall|i: int| 0 <= i < short.len() implies #[trigger] short[i] != '/' by {
            assert(short[i] == name[i]);
        }
        law_file_name(dir, short);
        let path = dir + seq!['/'] + name;
        assert(path.last() == name[name.len() - 1]);
        assert(path.drop_last() =~= dir + seq!['/'] + short);
        assert(short.push(name.last()) =~= name);
    }
}

/// The data lies below the user's data directory, or below the usual one where
/// none is known: the database and the blobs in one directory.
pub proof fn law_data_places(base: Seq<char>)
    requires
        base.len() > 0,
        base.last() != '/',
    ensures
        data_directory(Some(base)) == base + "/nixclip"@,
        data_directory(None) == "~/.local/share/nixclip"@,
        database_file(data_directory(Some(base))) == base + "/nixclip/nixclip.db"@,
        blob_directory(data_directory(Some(base))) == base + "/nixclip/blobs"@,
{
    reveal_strlit("/");
    reveal_strlit("~/.local/share");
    reveal_strlit("nixclip");
    reveal_strlit("/nixclip");
    reveal_strlit("~/.local/share/nixclip");
    reveal_strlit("nixclip.db");
    reveal_strlit("blobs");
    reveal_strlit("/nixclip/nixclip.db");
    reveal_strlit("/nixclip/blobs");
    assert("~/.local/share"@.last() == 'e');
    assert("~/.local/share"@ + "/"@ + "nixclip"@ =~= "~/.local/share/nixclip"@);
    assert("/"@ + "nixclip"@ =~= "/nixclip"@);
    let dir = base + "/nixclip"@;
    assert(data_directory(Some(base)) =~= dir);
    assert(dir.last() == 'p');
    assert("/nixclip"@ + "/"@ + "nixclip.db"@ =~= "/nixclip/nixclip.db"@);
    assert("/nixclip"@ + "/"@ + "blobs"@ =~= "/nixclip/blobs"@);
    assert(database_file(dir) =~= base + "/nixclip/nixclip.db"@);
    assert(blob_directory(dir) =~= base + "/nixclip/blobs"@);
}

/// A known directory is used as it is. A directory with an empty name is none,
/// and one for sockets has to begin at the root.
pub proof fn law_known_directories(dir: Seq<char>, fallback: Seq<char>)
    ensures
        or_fallback(Some(dir), fallback) == dir,
        or_fallback(None, fallback) == fallback,
        is_absolute(seq!['/'] + dir),
        dir.len() > 0 && dir[0] != '/' ==> !is_absolute(dir),
        !is_absolute(Seq::<char>::empty()),
        is_runtime_dir(Some(dir)) <==> is_absolute(dir),
        is_user_dir(Some(dir)) <==> dir.len() > 0,
        is_runtime_dir(None) && is_user_dir(None),
{
}

// ---------------------------------------------------------------------------
// Patches
// ---------------------------------------------------------------------------

/// A key has the value that stands beside it where it first occurs, and no
/// value where it does not occur.
pub proof fn law_lookup(table: Seq<(Seq<char>, TomlView)>, key: Seq<char>, i: int)
    requires
        0 <= i <= table.len(),
        forall|j: int| 0 <= j < i ==> (#[trigger] table[j]).0 != key,
    ensures
        i < table.len() && table[i].0 == key ==> lookup(table, key) == Some(table[i].1),
        i == table.len() ==> lookup(table, key) is None,
{
    if i == table.len() || table[i].0 == key {
        lemma_key_index(table, key, i);
    }
}

/// A single setting in a patch takes the place of the old one, where there is
/// one, and else comes last; nothing else moves or changes. Only where both
/// are tables do the two values mix.
pub proof fn law_patch_one_key(
    table: Seq<(Seq<char>, TomlView)>,
    key: Seq<char>,
    value: TomlView,
    i: int,
)
    requires
        0 <= i <= table.len(),
        forall|j: int| 0 <= j < i ==> (#[trigger] table[j]).0 != key,
        i < table.len() ==> table[i].0 == key,
    ensures
        i == table.len() ==> merged_tables(table, seq![(key, value)]) == table.push((key, value)),
        i < table.len() && !(value is Table && table[i].1 is Table) ==> merged_tables(
            table,
            seq![(key, value)],
        ) == table.update(i, (key, value)),
        i < table.len() && value is Table && table[i].1 is Table ==> merged_tables(
            table,
            seq![(key, value)],
        ) == table.update(
            i,
            (key, TomlView::Table(merged_tables(table[i].1->Table_0, value->Table_0))),
        ),
{
    lemma_key_index(table, key, i);
    let patch = seq![(key, value)];
    let rest = patch.subrange(1, 1);
    assert(rest =~= Seq::<(Seq<char>, TomlView)>::empty());
    reveal_with_fuel(merged_tables, 2);
}

/// The settings of a patch are applied one after the other.
pub proof fn law_patch_in_order(
    table: Seq<(Seq<char>, TomlView)>,
    first: Seq<(Seq<char>, TomlView)>,
    second: Seq<(Seq<char>, TomlView)>,
)
    ensures
        merged_tables(table, first + second) == merged_tables(merged_tables(table, first), second),
        merged_tables(table, Seq::<(Seq<char>, TomlView)>::empty()) == table,
        merged(TomlView::Table(table), TomlView::Table(first)) == TomlView::Table(
            merged_tables(table, first),
        ),
    decreases first.len(),
{
    let patch = first + second;
    if first.len() == 0 {
        assert(patch =~= second);
    } else {
        let key = first[0].0;
        let i = key_index(table, key);
        let next = if i < table.len() {
            table.update(i, (key, merged(table[i].1, first[0].1)))
        } else {
            table.push((key, first[0].1))
        };
        let rest = first.subrange(1, first.len() as int);
        law_patch_in_order(next, rest, second);
        assert(patch[0] == first[0]);
        assert(patch.subrange(1, patch.len() as int) =~= rest + second);
    }
}

/// The same patch applied twice changes no more than applied once, where it
/// holds no tables.
pub proof fn law_patch_twice(table: Seq<(Seq<char>, TomlView)>, key: Seq<char>, value: TomlView)
    requires
        !(value is Table),
    ensures
        merged_tables(merged_tables(table, seq![(key, value)]), seq![(key, value)])
            == merged_tables(table, seq![(key, value)]),
{
    lemma_key_index_bounds(table, key);
    let i = key_index(table, key);
    let once = merged_tables(table, seq![(key, value)]);
    law_patch_one_key(table, key, value, i);
    assert forall|j: int| 0 <= j < i implies (#[trigger] once[j]).0 != key by {
        assert(once[j] == table[j]);
    }
    law_patch_one_key(once, key, value, i);
    assert(once.update(i, (key, value)) =~= once);
}

/// The keys of a table differ exactly where no key stands at two places.
pub proof fn law_keys_differ(table: Seq<(Seq<char>, TomlView)>, i: int, j: int)
    requires
        0 <= i < table.len(),
        0 <= j < table.len(),
        i != j,
    ensures
        table[i].0 == table[j].0 ==> !keys_differ(table),
        (forall|a: int, b: int|
            0 <= a < table.len() && 0 <= b < table.len() && a != b ==> (#[trigger] table[a]).0 != (
            #[trigger] table[b]).0) ==> keys_differ(table),
{
    if i < j {
        assert(table[i].0 != table[j].0 || !keys_differ(table));
    } else {
        assert(table[j].0 != table[i].0 || !keys_differ(table));
    }
}

/// A value holds what was put in it, each kind of value as its own kind.
pub proof fn law_toml_value(s: String, n: i64, bits: u64, b: bool, entries: Vec<(String, TomlValue)>)
    ensures
        toml_view(TomlValue::Text(s)) == TomlView::Text(s@),
        toml_view(TomlValue::Integer(n)) == TomlView::Integer(n as int),
        toml_view(TomlValue::Float(bits)) == TomlView::Float(bits),
        toml_view(TomlValue::Boolean(b)) == TomlView::Boolean(b),
        toml_view(TomlValue::Datetime(s)) == TomlView::Datetime(s@),
        toml_view(TomlValue::Table(entries)) == TomlView::Table(table_view(entries@)),
        table_view(entries@).len() == entries@.len(),
        forall|i: int|
            0 <= i < entries@.len() ==> #[trigger] table_view(entries@)[i] == (
                entries@[i].0@,
                toml_view(entries@[i].1),
            ),
{
    lemma_table_view(entries@);
}

} // verus!
