//! The table of recent clipboard history.

use vstd::prelude::*;

use super::calendar::days_to_ymd;
use super::calendar::day_number;
use super::calendar::is_date;
use crate::text::concat2;
use crate::text::concat3;
use crate::text::decimal;
use crate::text::decimal_text;
use crate::text::from_chars;
use crate::text::push_decimal;
use crate::text::quote;
use crate::text::quoted;
use crate::text::signed_decimal;
use crate::text::signed_text;
use crate::text::sub_chars;
use crate::text::texts;
use crate::text::to_chars;
use crate::text::trim;
use crate::text::trim_chars;
use crate::types::class_name;
use crate::types::optional_text;
use crate::types::ContentClass;
use crate::types::EntrySummary;

verus! {

// ---------------------------------------------------------------------------
// Ages
// ---------------------------------------------------------------------------

/// `a` divided by `b`, rounded towards zero.
pub open spec fn quotient(a: int, b: int) -> int {
    if a >= 0 {
        a / b
    } else {
        -((-a) / b)
    }
}

fn divide(a: i64, b: i64) -> (r: i64)
    requires
        b > 1,
    ensures
        r == quotient(a as int, b as int),
{
    if a >= 0 {
        a / b
    } else {
        let n: i128 = -(a as i128);
        let q: i128 = n / (b as i128);
        assert(0 <= q <= n / 2) by (nonlinear_arith)
            requires
                n >= 0,
                b > 1,
                q == n / (b as i128),
        ;
        -(q as i64)
    }
}

/// The short name of a month.
pub open spec fn month_name(month: int) -> Seq<char> {
    if month == 1 {
        "Jan"@
    } else if month == 2 {
        "Feb"@
    } else if month == 3 {
        "Mar"@
    } else if month == 4 {
        "Apr"@
    } else if month == 5 {
        "May"@
    } else if month == 6 {
        "Jun"@
    } else if month == 7 {
        "Jul"@
    } else if month == 8 {
        "Aug"@
    } else if month == 9 {
        "Sep"@
    } else if month == 10 {
        "Oct"@
    } else if month == 11 {
        "Nov"@
    } else {
        "Dec"@
    }
}

fn month_text(month: i64) -> (r: &'static str)
    ensures
        r@ == month_name(month as int),
{
    if month == 1 {
        "Jan"
    } else if month == 2 {
        "Feb"
    } else if month == 3 {
        "Mar"
    } else if month == 4 {
        "Apr"
    } else if month == 5 {
        "May"
    } else if month == 6 {
        "Jun"
    } else if month == 7 {
        "Jul"
    } else if month == 8 {
        "Aug"
    } else if month == 9 {
        "Sep"
    } else if month == 10 {
        "Oct"
    } else if month == 11 {
        "Nov"
    } else {
        "Dec"
    }
}

/// `text` is the month and day of the day that lies `days` days after the first
/// of January 1970.
pub open spec fn is_short_date(text: Seq<char>, days: int) -> bool {
    exists|year: int, month: int, day: int|
        is_date(year, month, day) && #[trigger] day_number(year, month, day) == days && text
            == month_name(month) + " "@ + decimal(day as nat)
}

/// The month and day of a Unix timestamp in seconds.
pub fn time_from_unix_secs(secs: i64) -> (r: String)
    ensures
        is_short_date(r@, quotient(secs as int, 86400)),
{
    let days: i64 = divide(secs, 86400);
    let (year, month, day) = days_to_ymd(days);
    let mut text = concat2(month_text(month), " ");
    push_decimal(&mut text, day as u64);
    assert(day_number(year as int, month as int, day as int) == days);
    text
}

/// How many whole seconds ago `millis` is, and not less than none.
pub open spec fn age_seconds(now_ms: int, millis: int) -> int {
    if now_ms > millis {
        (now_ms - millis) / 1000
    } else {
        0
    }
}

/// `text` says how long ago a timestamp is, and gives the date where that is a
/// week or more.
pub open spec fn is_age(text: Seq<char>, now_ms: int, millis: int) -> bool {
    let secs = age_seconds(now_ms, millis);
    if secs < 60 {
        text == decimal(secs as nat) + "s ago"@
    } else if secs < 3600 {
        text == decimal((secs / 60) as nat) + "m ago"@
    } else if secs < 86400 {
        text == decimal((secs / 3600) as nat) + "h ago"@
    } else if secs < 604800 {
        text == decimal((secs / 86400) as nat) + "d ago"@
    } else {
        is_short_date(text, quotient(quotient(millis, 1000), 86400))
    }
}

/// The time between two timestamps can be told.
pub open spec fn can_tell_age(now_ms: int, millis: int) -> bool {
    i64::MIN <= now_ms - millis <= i64::MAX
}

/// Format a Unix timestamp (milliseconds) as a human-readable age string.
pub fn format_age(now_ms: i64, millis: i64) -> (r: String)
    requires
        can_tell_age(now_ms as int, millis as int),
    ensures
        is_age(r@, now_ms as int, millis as int),
{
    let diff_secs: i64 = if now_ms > millis {
        (now_ms - millis) / 1000
    } else {
        0
    };
    if diff_secs < 60 {
        let n = decimal_text(diff_secs as u64);
        concat2(n.as_str(), "s ago")
    } else if diff_secs < 3600 {
        let n = decimal_text((diff_secs / 60) as u64);
        concat2(n.as_str(), "m ago")
    } else if diff_secs < 86400 {
        let n = decimal_text((diff_secs / 3600) as u64);
        concat2(n.as_str(), "h ago")
    } else if diff_secs < 604800 {
        let n = decimal_text((diff_secs / 86400) as u64);
        concat2(n.as_str(), "d ago")
    } else {
        time_from_unix_secs(divide(millis, 1000))
    }
}

// ---------------------------------------------------------------------------
// Rows
// ---------------------------------------------------------------------------

/// What a row shows of an entry: what stands for content that is no text, or
/// the trimmed text, cut where it is longer than the column.
pub open spec fn preview_column(class: ContentClass, preview: Option<Seq<char>>) -> Seq<char> {
    match class {
        ContentClass::Image => "[Image]"@,
        ContentClass::Files => "[Files]"@,
        _ => match preview {
            None => Seq::<char>::empty(),
            Some(p) => if trim(p).len() > 38 {
                trim(p).take(36) + "…"@
            } else {
                trim(p)
            },
        },
    }
}

/// What a row shows of an entry.
pub fn format_preview(entry: &EntrySummary) -> (r: String)
    ensures
        r@ == preview_column(entry.content_class, optional_text(entry.preview_text)),
{
    match entry.content_class {
        ContentClass::Image => "[Image]".to_owned(),
        ContentClass::Files => "[Files]".to_owned(),
        _ => match &entry.preview_text {
            None => String::new(),
            Some(p) => {
                let chars = to_chars(p.as_str());
                let text = trim_chars(&chars);
                if text.len() > 38 {
                    let kept = sub_chars(&text, 0, 36);
                    assert(kept@ =~= text@.take(36));
                    let head = from_chars(&kept);
                    concat2(head.as_str(), "…")
                } else {
                    from_chars(&text)
                }
            },
        },
    }
}

/// What a row shows of an entry is never longer than its column.
pub proof fn law_preview_fits_column(class: ContentClass, preview: Option<Seq<char>>)
    ensures
        preview_column(class, preview).len() <= 38,
{
    reveal_strlit("[Image]");
    reveal_strlit("[Files]");
    reveal_strlit("…");
}

/// A text followed by as many spaces as it takes to fill a column.
pub open spec fn padded(text: Seq<char>, width: int) -> Seq<char> {
    if text.len() >= width {
        text
    } else {
        text + Seq::new((width - text.len()) as nat, |i: int| ' ')
    }
}

fn pad(text: &str, width: usize) -> (r: String)
    ensures
        r@ == padded(text@, width as int),
{
    let chars = to_chars(text);
    let mut out = text.to_owned();
    let mut n: usize = chars.len();
    assert(out@ =~= text@ + Seq::new(0, |i: int| ' '));
    while n < width
        invariant
            n >= text@.len(),
            text@.len() < width ==> n <= width,
            text@.len() >= width ==> n == text@.len(),
            out@ == text@ + Seq::new((n - text@.len()) as nat, |i: int| ' '),
        decreases width - n,
    {
        out.push(' ');
        n += 1;
        assert(out@ =~= text@ + Seq::new((n - text@.len()) as nat, |i: int| ' '));
    }
    assert(text@.len() >= width ==> out@ =~= text@);
    out
}

/// What stands in a row before the age of the entry.
pub open spec fn row_head(entry: EntrySummary) -> Seq<char> {
    " "@ + (if entry.pinned {
        "*"@
    } else {
        " "@
    }) + padded(signed_decimal(entry.id as int), 5) + "│ "@ + padded(
        class_name(entry.content_class),
        9,
    ) + "│ "@ + padded(
        preview_column(entry.content_class, optional_text(entry.preview_text)),
        38,
    ) + "│ "@
}

/// `text` is the row of an entry.
pub open spec fn is_row(text: Seq<char>, entry: EntrySummary, now_ms: int) -> bool {
    exists|age: Seq<char>| #[trigger]
        is_age(age, now_ms, entry.created_at as int) && text == row_head(entry) + age
}

/// The row of an entry.
pub fn entry_row(entry: &EntrySummary, now_ms: i64) -> (r: String)
    requires
        can_tell_age(now_ms as int, entry.created_at as int),
    ensures
        is_row(r@, *entry, now_ms as int),
{
    let id = signed_text(entry.id);
    let id = pad(id.as_str(), 5);
    let class = pad(entry.content_class.as_str(), 9);
    let preview = format_preview(entry);
    let preview = pad(preview.as_str(), 38);
    let age = format_age(now_ms, entry.created_at);
    let mut row = " ".to_owned();
    row.append(
        if entry.pinned {
            "*"
        } else {
            " "
        },
    );
    row.append(id.as_str());
    row.append("│ ");
    row.append(class.as_str());
    row.append("│ ");
    row.append(preview.as_str());
    row.append("│ ");
    assert(row@ =~= row_head(*entry));
    row.append(age.as_str());
    assert(is_age(age@, now_ms as int, entry.created_at as int));
    row
}

// ---------------------------------------------------------------------------
// Tables
// ---------------------------------------------------------------------------

/// The two lines above the rows.
pub open spec fn table_header() -> Seq<Seq<char>> {
    seq![
        " ID    │ Type      │ Preview                               │ Age"@,
        "───────┼───────────┼───────────────────────────────────────┼────────"@,
    ]
}

/// The lines are a header, a row for each entry, an empty line and a footer.
pub open spec fn is_table(
    lines: Seq<Seq<char>>,
    entries: Seq<EntrySummary>,
    now_ms: int,
    footer: Seq<char>,
) -> bool {
    &&& lines.len() == entries.len() + 4
    &&& lines.take(2) == table_header()
    &&& forall|i: int|
        0 <= i < entries.len() ==> is_row(#[trigger] lines[i + 2], entries[i], now_ms)
    &&& lines[entries.len() as int + 2] == Seq::<char>::empty()
    &&& lines[entries.len() as int + 3] == footer
}

fn table(entries: &Vec<EntrySummary>, now_ms: i64, footer: String) -> (r: Vec<String>)
    requires
        forall|i: int|
            0 <= i < entries@.len() ==> can_tell_age(
                now_ms as int,
                (#[trigger] entries@[i]).created_at as int,
            ),
    ensures
        is_table(texts(r@), entries@, now_ms as int, footer@),
{
    let mut lines: Vec<String> = Vec::new();
    lines.push(" ID    │ Type      │ Preview                               │ Age".to_owned());
    lines.push(
        "───────┼───────────┼───────────────────────────────────────┼────────".to_owned(),
    );
    let mut i: usize = 0;
    assert(texts(lines@).take(2) =~= table_header());
    while i < entries.len()
        invariant
            i <= entries@.len(),
            lines@.len() == i + 2,
            texts(lines@).take(2) == table_header(),
            forall|k: int|
                0 <= k < entries@.len() ==> can_tell_age(
                    now_ms as int,
                    (#[trigger] entries@[k]).created_at as int,
                ),
            forall|k: int|
                0 <= k < i ==> is_row(
                    #[trigger] texts(lines@)[k + 2],
                    entries@[k],
                    now_ms as int,
                ),
        decreases entries@.len() - i,
    {
        let ghost before = texts(lines@);
        let row = entry_row(&entries[i], now_ms);
        let ghost text = row@;
        lines.push(row);
        assert(texts(lines@) =~= before.push(text));
        assert(texts(lines@).take(2) =~= before.take(2));
        i += 1;
    }
    let ghost before = texts(lines@);
    lines.push(String::new());
    lines.push(footer);
    let ghost after = texts(lines@);
    assert(after =~= before.push(Seq::<char>::empty()).push(footer@));
    assert(after.take(2) =~= before.take(2));
    assert forall|k: int| 0 <= k < entries@.len() implies is_row(
        #[trigger] after[k + 2],
        entries@[k],
        now_ms as int,
    ) by {
        assert(after[k + 2] == before[k + 2]);
    }
    lines
}

/// What is said below a list.
pub open spec fn list_footer(shown: nat, total: nat) -> Seq<char> {
    "Showing "@ + decimal(shown) + " of "@ + decimal(total)
        + " entries. Use --limit to see more."@
}

/// What is said below what a search found.
pub open spec fn search_footer(shown: nat, total: nat) -> Seq<char> {
    "Found "@ + decimal(shown) + " of "@ + decimal(total) + " matching entries."@
}

fn count_text(before: &str, shown: usize, total: u32, after: &str) -> (r: String)
    ensures
        r@ == before@ + decimal(shown as nat) + " of "@ + decimal(total as nat) + after@,
{
    let mut text = before.to_owned();
    push_decimal(&mut text, shown as u64);
    text.append(" of ");
    push_decimal(&mut text, total as u64);
    text.append(after);
    text
}

/// The lines of a list of entries.
pub fn list_lines(entries: &Vec<EntrySummary>, total: u32, now_ms: i64) -> (r: Vec<String>)
    requires
        forall|i: int|
            0 <= i < entries@.len() ==> can_tell_age(
                now_ms as int,
                (#[trigger] entries@[i]).created_at as int,
            ),
    ensures
        if entries@.len() == 0 {
            texts(r@) == seq!["No clipboard history found."@]
        } else {
            is_table(
                texts(r@),
                entries@,
                now_ms as int,
                list_footer(entries@.len(), total as nat),
            )
        },
{
    if entries.len() == 0 {
        let mut lines: Vec<String> = Vec::new();
        lines.push("No clipboard history found.".to_owned());
        assert(texts(lines@) =~= seq!["No clipboard history found."@]);
        return lines;
    }
    let footer = count_text(
        "Showing ",
        entries.len(),
        total,
        " entries. Use --limit to see more.",
    );
    table(entries, now_ms, footer)
}

/// The lines of what a search for `query` found.
pub fn search_lines(query: &str, entries: &Vec<EntrySummary>, total: u32, now_ms: i64) -> (r: Vec<
    String,
>)
    requires
        forall|i: int|
            0 <= i < entries@.len() ==> can_tell_age(
                now_ms as int,
                (#[trigger] entries@[i]).created_at as int,
            ),
    ensures
        if entries@.len() == 0 {
            texts(r@) == seq!["No entries found matching "@ + quoted(query@) + "."@]
        } else {
            is_table(
                texts(r@),
                entries@,
                now_ms as int,
                search_footer(entries@.len(), total as nat),
            )
        },
{
    if entries.len() == 0 {
        let shown = quote(query);
        let mut lines: Vec<String> = Vec::new();
        lines.push(concat3("No entries found matching ", shown.as_str(), "."));
        assert(texts(lines@) =~= seq!["No entries found matching "@ + quoted(query@) + "."@]);
        return lines;
    }
    let footer = count_text("Found ", entries.len(), total, " matching entries.");
    table(entries, now_ms, footer)
}

} // verus!
