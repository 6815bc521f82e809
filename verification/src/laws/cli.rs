//! What the command line shows and what it sends.

use vstd::prelude::*;

use crate::cli::calendar::day_number;
use crate::cli::calendar::days_before_year;
use crate::cli::calendar::is_date;
use crate::cli::calendar::law_one_date_per_day;
use crate::cli::calendar::lemma_days_before_month;
use crate::cli::config_cmd::integer_value;
use crate::cli::config_cmd::patch_of;
use crate::cli::config_cmd::scalar;
use crate::cli::doctor::check_line_text;
use crate::cli::doctor::is_check;
use crate::cli::doctor::status_symbol;
use crate::cli::doctor::verdict;
use crate::cli::doctor::Check;
use crate::cli::doctor::CheckStatus;
use crate::cli::list::can_tell_age;
use crate::cli::list::is_age;
use crate::cli::list::is_row;
use crate::cli::list::is_short_date;
use crate::cli::list::law_preview_fits_column;
use crate::cli::list::padded;
use crate::cli::list::preview_column;
use crate::cli::list::quotient;
use crate::cli::list::row_head;
use crate::cli::outcome::deleted_text;
use crate::cli::outcome::is_acknowledged;
use crate::cli::outcome::paste_error_text;
use crate::cli::outcome::unpin_error_text;
use crate::cli::outcome::Outcome;
use crate::cli::show::detail_lines;
use crate::cli::stats::are_counts;
use crate::cli::stats::class_count;
use crate::cli::stats::pinned_entries;
use crate::cli::stats::HistoryCounts;
use crate::ipc::ServerMessage;
use crate::laws::text::law_decimal_reads_back;
use crate::laws::text::law_trim;
use crate::text::decimal;
use crate::text::is_white_space;
use crate::text::signed_decimal;
use crate::toml_value::TomlView;
use crate::types::class_name;
use crate::types::optional_text;
use crate::types::ContentClass;
use crate::types::EntryId;
use crate::types::EntrySummary;

verus! {

// ---------------------------------------------------------------------------
// Dates
// ---------------------------------------------------------------------------

/// How many days the months of a year have.
pub open spec fn month_lengths(leap: bool) -> Seq<int> {
    seq![
        31int,
        if leap {
            29int
        } else {
            28int
        },
        31int,
        30int,
        31int,
        30int,
        31int,
        31int,
        30int,
        31int,
        30int,
        31int,
    ]
}

/// A year with 366 days: one that four divides, but of those that a hundred
/// divides only one that four hundred divides.
pub open spec fn has_leap_day(year: int) -> bool {
    if year % 100 == 0 {
        year % 400 == 0
    } else {
        year % 4 == 0
    }
}

/// The dates that exist are those of the calendar.
pub proof fn law_calendar(year: int, month: int, day: int)
    ensures
        is_date(year, month, day) <==> 1 <= month <= 12 && 1 <= day <= month_lengths(
            has_leap_day(year),
        )[month - 1],
{
    assert(year % 100 == 0 ==> year % 4 == 0);
    assert(year % 400 == 0 ==> year % 100 == 0);
}

/// Days are numbered one after the other, through the ends of months and
/// years, from the first of January 1970 on.
pub proof fn law_days_follow(year: int, month: int, day: int)
    requires
        is_date(year, month, day),
    ensures
        day_number(1970, 1, 1) == 0,
        is_date(year, month, day + 1) ==> day_number(year, month, day + 1) == day_number(
            year,
            month,
            day,
        ) + 1,
        !is_date(year, month, day + 1) && month < 12 ==> day_number(year, month + 1, 1)
            == day_number(year, month, day) + 1,
        !is_date(year, month, day + 1) && month == 12 ==> day_number(year + 1, 1, 1) == day_number(
            year,
            month,
            day,
        ) + 1,
{
    lemma_days_before_month(1970);
    lemma_days_before_month(year);
    lemma_days_before_month(year + 1);
    assert(days_before_year(1970) == 719162);
    let y = year - 1;
    assert((y + 1) / 4 == y / 4 + (if year % 4 == 0 {
        1int
    } else {
        0int
    }));
    assert((y + 1) / 100 == y / 100 + (if year % 100 == 0 {
        1int
    } else {
        0int
    }));
    assert((y + 1) / 400 == y / 400 + (if year % 400 == 0 {
        1int
    } else {
        0int
    }));
    assert(year % 100 == 0 ==> year % 4 == 0);
    assert(year % 400 == 0 ==> year % 100 == 0);
}

/// The short names of the months.
pub open spec fn month_names() -> Seq<Seq<char>> {
    seq![
        "Jan"@,
        "Feb"@,
        "Mar"@,
        "Apr"@,
        "May"@,
        "Jun"@,
        "Jul"@,
        "Aug"@,
        "Sep"@,
        "Oct"@,
        "Nov"@,
        "Dec"@,
    ]
}

/// A day is shown by the month and the day of its date.
pub proof fn law_short_date(text: Seq<char>, year: int, month: int, day: int)
    requires
        is_date(year, month, day),
        is_short_date(text, day_number(year, month, day)),
    ensures
        text == month_names()[month - 1] + " "@ + decimal(day as nat),
{
    let days = day_number(year, month, day);
    let (y, m, d) = choose|y: int, m: int, d: int|
        is_date(y, m, d) && #[trigger] day_number(y, m, d) == days && text
            == crate::cli::list::month_name(m) + " "@ + decimal(d as nat);
    law_one_date_per_day(y, m, d, year, month, day);
}

// ---------------------------------------------------------------------------
// Ages
// ---------------------------------------------------------------------------

/// An age is told in whole seconds below a minute, in minutes below an hour, in
/// hours below a day and in days below a week; nothing is older than it is, and
/// what lies in the future is no age old.
pub proof fn law_age(text: Seq<char>, now_ms: int, millis: int)
    requires
        is_age(text, now_ms, millis),
    ensures
        ({
            let age = now_ms - millis;
            &&& age <= 0 ==> text == decimal(0) + "s ago"@
            &&& 0 <= age < 60_000 ==> text == decimal((age / 1000) as nat) + "s ago"@
            &&& 60_000 <= age < 3_600_000 ==> text == decimal((age / 60_000) as nat) + "m ago"@
            &&& 3_600_000 <= age < 86_400_000 ==> text == decimal((age / 3_600_000) as nat)
                + "h ago"@
            &&& 86_400_000 <= age < 604_800_000 ==> text == decimal((age / 86_400_000) as nat)
                + "d ago"@
        }),
{
    let age = now_ms - millis;
    assert(0 <= age ==> (age / 1000) / 60 == age / 60_000);
    assert(0 <= age ==> (age / 1000) / 3600 == age / 3_600_000);
    assert(0 <= age ==> (age / 1000) / 86400 == age / 86_400_000);
}

/// An age can be told of any two times that are not too far apart for an
/// `i64`, and so of all times since 1970.
pub proof fn law_age_can_be_told(now_ms: i64, millis: i64)
    ensures
        now_ms >= 0 && millis >= 0 ==> can_tell_age(now_ms as int, millis as int),
        -0x8000_0000_0000_0000 <= now_ms - millis <= 0x7fff_ffff_ffff_ffff ==> can_tell_age(
            now_ms as int,
            millis as int,
        ),
{
}

/// What is a week old or older is shown by its date: that of the day, of
/// 86,400,000 milliseconds, which the timestamp lies in.
pub proof fn law_old_entry_shows_its_date(
    text: Seq<char>,
    now_ms: int,
    millis: int,
    year: int,
    month: int,
    day: int,
)
    requires
        is_age(text, now_ms, millis),
        now_ms - millis >= 604_800_000,
        millis >= 0,
        is_date(year, month, day),
        day_number(year, month, day) * 86_400_000 <= millis < (day_number(year, month, day) + 1)
            * 86_400_000,
    ensures
        text == month_names()[month - 1] + " "@ + decimal(day as nat),
{
    assert((millis / 1000) / 86400 == millis / 86_400_000);
    assert(quotient(quotient(millis, 1000), 86400) == day_number(year, month, day));
    law_short_date(text, year, month, day);
}

/// Division rounds towards zero.
pub proof fn law_quotient(a: int, b: int)
    requires
        b > 0,
    ensures
        a >= 0 ==> 0 <= quotient(a, b) && quotient(a, b) * b <= a < (quotient(a, b) + 1) * b,
        a <= 0 ==> quotient(a, b) <= 0 && (quotient(a, b) - 1) * b < a <= quotient(a, b) * b,
{
    let n = if a >= 0 {
        a
    } else {
        -a
    };
    vstd::arithmetic::div_mod::lemma_fundamental_div_mod(n, b);
    vstd::arithmetic::div_mod::lemma_mod_bound(n, b);
    vstd::arithmetic::div_mod::lemma_div_pos_is_pos(n, b);
    let q = n / b;
    assert(q * b == b * q) by (nonlinear_arith);
    assert((q + 1) * b == q * b + b) by (nonlinear_arith);
    assert((-q) * b == -(q * b)) by (nonlinear_arith);
    assert((-q - 1) * b == -(q * b) - b) by (nonlinear_arith);
}

// ---------------------------------------------------------------------------
// Rows
// ---------------------------------------------------------------------------

/// A column begins with the text, has nothing but spaces behind it, and is as
/// wide as asked for or, where the text is wider, as the text.
pub proof fn law_padded(text: Seq<char>, width: int)
    ensures
        padded(text, width).take(text.len() as int) == text,
        forall|i: int|
            text.len() <= i < padded(text, width).len() ==> #[trigger] padded(text, width)[i] == ' ',
        padded(text, width).len() == if text.len() < width {
            width
        } else {
            text.len() as int
        },
{
    assert(padded(text, width).take(text.len() as int) =~= text);
}

/// A preview is shown without the white space around it: whole where it has no
/// more than 38 characters, and otherwise its first 36 and an ellipsis.
/// Images and files are shown by what they are, whatever their preview.
pub proof fn law_preview_column(
    class: ContentClass,
    lead: Seq<char>,
    core: Seq<char>,
    tail: Seq<char>,
    preview: Option<Seq<char>>,
)
    requires
        forall|i: int| 0 <= i < lead.len() ==> is_white_space(#[trigger] lead[i]),
        forall|i: int| 0 <= i < tail.len() ==> is_white_space(#[trigger] tail[i]),
        core.len() > 0 ==> !is_white_space(core[0]) && !is_white_space(core.last()),
        class == ContentClass::Text || class == ContentClass::RichText || class
            == ContentClass::Url,
    ensures
        core.len() <= 38 ==> preview_column(class, Some(lead + core + tail)) == core,
        core.len() > 38 ==> preview_column(class, Some(lead + core + tail)) == core.subrange(0, 36)
            + seq!['…'],
        preview_column(class, None).len() == 0,
        preview_column(ContentClass::Image, preview) == "[Image]"@,
        preview_column(ContentClass::Files, preview) == "[Files]"@,
{
    reveal_strlit("…");
    law_trim(lead, core, tail);
    assert("…"@ =~= seq!['…']);
    if core.len() > 38 {
        assert(core.take(36) =~= core.subrange(0, 36));
    }
}

/// The columns of a row stand at fixed places: a star for a pinned entry, the
/// number, the class, the preview, and last the age of the entry since it was
/// first seen.
pub proof fn law_row(text: Seq<char>, entry: EntrySummary, now_ms: int)
    requires
        is_row(text, entry, now_ms),
        signed_decimal(entry.id as int).len() <= 5,
    ensures
        ({
            let id = signed_decimal(entry.id as int);
            let class = class_name(entry.content_class);
            let preview = preview_column(
                entry.content_class,
                optional_text(entry.preview_text),
            );
            &&& text.len() >= 60
            &&& text[0] == ' '
            &&& text[1] == (if entry.pinned {
                '*'
            } else {
                ' '
            })
            &&& text.subrange(2, 2 + id.len() as int) == id
            &&& forall|i: int| 2 + id.len() <= i < 7 ==> #[trigger] text[i] == ' '
            &&& text[7] == '│' && text[8] == ' '
            &&& text.subrange(9, 9 + class.len() as int) == class
            &&& forall|i: int| 9 + class.len() <= i < 18 ==> #[trigger] text[i] == ' '
            &&& text[18] == '│' && text[19] == ' '
            &&& text.subrange(20, 20 + preview.len() as int) == preview
            &&& forall|i: int| 20 + preview.len() <= i < 58 ==> #[trigger] text[i] == ' '
            &&& text[58] == '│' && text[59] == ' '
            &&& is_age(text.skip(60), now_ms, entry.created_at as int)
        }),
{
    reveal_strlit(" ");
    reveal_strlit("*");
    reveal_strlit("│ ");
    reveal_strlit("text");
    reveal_strlit("richtext");
    reveal_strlit("image");
    reveal_strlit("files");
    reveal_strlit("url");
    let age = choose|age: Seq<char>| #[trigger]
        is_age(age, now_ms, entry.created_at as int) && text == row_head(entry) + age;
    let id = signed_decimal(entry.id as int);
    let class = class_name(entry.content_class);
    let preview = preview_column(entry.content_class, optional_text(entry.preview_text));
    law_preview_fits_column(entry.content_class, optional_text(entry.preview_text));
    let (a, b, c) = (padded(id, 5), padded(class, 9), padded(preview, 38));
    law_padded(id, 5);
    law_padded(class, 9);
    law_padded(preview, 38);
    let mark = if entry.pinned {
        "*"@
    } else {
        " "@
    };
    assert(text == " "@ + mark + a + "│ "@ + b + "│ "@ + c + "│ "@ + age);
    assert(text.subrange(2, 7) =~= a);
    assert(text.subrange(9, 18) =~= b);
    assert(text.subrange(20, 58) =~= c);
    assert(text.skip(60) =~= age);
    assert(text.subrange(2, 2 + id.len() as int) =~= a.take(id.len() as int));
    assert(text.subrange(9, 9 + class.len() as int) =~= b.take(class.len() as int));
    assert(text.subrange(20, 20 + preview.len() as int) =~= c.take(preview.len() as int));
    assert forall|i: int| 2 + id.len() <= i < 7 implies #[trigger] text[i] == ' ' by {
        assert(text[i] == text.subrange(2, 7)[i - 2]);
    }
    assert forall|i: int| 9 + class.len() <= i < 18 implies #[trigger] text[i] == ' ' by {
        assert(text[i] == text.subrange(9, 18)[i - 9]);
    }
    assert forall|i: int| 20 + preview.len() <= i < 58 implies #[trigger] text[i] == ' ' by {
        assert(text[i] == text.subrange(20, 58)[i - 20]);
    }
}

// ---------------------------------------------------------------------------
// Counts and details
// ---------------------------------------------------------------------------

proof fn lemma_same_counts(
    a: Seq<EntrySummary>,
    b: Seq<EntrySummary>,
    class: ContentClass,
    n: int,
)
    requires
        n <= a.len(),
        n <= b.len(),
        forall|i: int| 0 <= i < n ==> a[i] == b[i],
    ensures
        class_count(a, class, n) == class_count(b, class, n),
        pinned_entries(a, n) == pinned_entries(b, n),
    decreases n,
{
    if n > 0 {
        lemma_same_counts(a, b, class, n - 1);
        assert(a[n - 1] == b[n - 1]);
    }
}

/// One more entry counts once for its class and for no other, and is listed as
/// pinned exactly where it is, behind the others.
pub proof fn law_entry_is_counted(
    entries: Seq<EntrySummary>,
    one: EntrySummary,
    class: ContentClass,
)
    ensures
        class_count(entries.push(one), class, entries.len() as int + 1) == class_count(
            entries,
            class,
            entries.len() as int,
        ) + (if one.content_class == class {
            1int
        } else {
            0int
        }),
        pinned_entries(entries.push(one), entries.len() as int + 1) == pinned_entries(
            entries,
            entries.len() as int,
        ) + (if one.pinned {
            seq![one.id]
        } else {
            Seq::<EntryId>::empty()
        }),
        class_count(entries, class, 0) == 0,
        pinned_entries(entries, 0).len() == 0,
{
    let more = entries.push(one);
    lemma_same_counts(entries, more, class, entries.len() as int);
    assert(more[entries.len() as int] == one);
    assert(pinned_entries(more, entries.len() as int + 1) =~= pinned_entries(
        entries,
        entries.len() as int,
    ) + (if one.pinned {
        seq![one.id]
    } else {
        Seq::<EntryId>::empty()
    }));
}

/// Each count is the count of its own class, and that of the pinned entries
/// takes all classes together.
pub proof fn law_counts(c: HistoryCounts, entries: Seq<EntrySummary>, n: int)
    requires
        are_counts(c, entries, n),
    ensures
        c.pinned == pinned_entries(entries, n).len(),
        c.text == class_count(entries, ContentClass::Text, n),
        c.image == class_count(entries, ContentClass::Image, n),
        c.url == class_count(entries, ContentClass::Url, n),
        c.files == class_count(entries, ContentClass::Files, n),
        c.richtext == class_count(entries, ContentClass::RichText, n),
{
}

/// The description of an entry begins with what every entry has, tells the
/// source and the size of the thumbnail only where there are any, and ends with
/// the whole preview or with the word that there is none.
pub proof fn law_details(entry: EntrySummary, created: Seq<char>, last_seen: Seq<char>)
    ensures
        ({
            let lines = detail_lines(entry, created, last_seen);
            let app: int = if entry.source_app is Some {
                1
            } else {
                0
            };
            let thumb: int = if entry.thumbnail is Some {
                1
            } else {
                0
            };
            &&& lines[0] == "ID:           "@ + signed_decimal(entry.id as int)
            &&& lines[1] == "Type:         "@ + class_name(entry.content_class)
            &&& lines[2] == (if entry.pinned {
                "Pinned:       yes"@
            } else {
                "Pinned:       no"@
            })
            &&& lines[3] == (if entry.ephemeral {
                "Ephemeral:    yes"@
            } else {
                "Ephemeral:    no"@
            })
            &&& lines[4] == "Created:      "@ + signed_decimal(entry.created_at as int) + " ("@
                + created + ")"@
            &&& lines[5] == "Last seen:    "@ + last_seen
            &&& entry.source_app is Some ==> lines[6] == "Source app:   "@ + entry.source_app->Some_0@
            &&& entry.thumbnail is Some ==> lines[6 + app] == "Thumbnail:    "@ + decimal(
                entry.thumbnail->Some_0@.len(),
            ) + " bytes"@
            &&& lines[6 + app + thumb].len() == 0
            &&& entry.preview_text is Some ==> lines.len() == 9 + app + thumb && lines[7 + app
                + thumb] == "Preview:"@ && lines.last() == entry.preview_text->Some_0@
            &&& entry.preview_text is None ==> lines.len() == 8 + app + thumb && lines.last()
                == "[No text preview available]"@
        }),
{
    reveal_strlit("Pinned:       ");
    reveal_strlit("Ephemeral:    ");
    reveal_strlit("yes");
    reveal_strlit("no");
    reveal_strlit("Pinned:       yes");
    reveal_strlit("Pinned:       no");
    reveal_strlit("Ephemeral:    yes");
    reveal_strlit("Ephemeral:    no");
    assert("Pinned:       "@ + "yes"@ =~= "Pinned:       yes"@);
    assert("Pinned:       "@ + "no"@ =~= "Pinned:       no"@);
    assert("Ephemeral:    "@ + "yes"@ =~= "Ephemeral:    yes"@);
    assert("Ephemeral:    "@ + "no"@ =~= "Ephemeral:    no"@);
}

// ---------------------------------------------------------------------------
// Outcomes
// ---------------------------------------------------------------------------

/// A request is done only where the daemon acknowledges it; what the daemon
/// reports as an error is shown, and anything else is unexpected.
pub proof fn law_acknowledged(outcome: Outcome, reply: ServerMessage, text: Seq<char>)
    requires
        is_acknowledged(outcome, reply, text),
    ensures
        match reply {
            ServerMessage::Acknowledged { .. } => outcome is Say && outcome->Say_0@ == text,
            ServerMessage::Error { message, .. } => outcome is Fail && outcome->Fail_0@
                == "Error from daemon: "@ + message@,
            _ => outcome == Outcome::Unexpected(reply),
        },
{
}

/// One deleted entry is spoken of in the singular, and any other number by the
/// number.
pub proof fn law_deleted(count: nat)
    ensures
        deleted_text(1) == "Entry deleted."@,
        count != 1 ==> deleted_text(count) == decimal(count) + " entries deleted."@,
{
}

/// A failed change of an entry names the entry and says why.
pub proof fn law_failure_names_the_entry(id: EntryId, why: String)
    ensures
        paste_error_text(id, Some(why)) == "Failed to restore entry "@ + signed_decimal(id as int)
            + ": "@ + why@,
        paste_error_text(id, None) == "Failed to restore entry "@ + signed_decimal(id as int)
            + ": unknown error"@,
        unpin_error_text(id, why@) == "Error unpinning entry "@ + signed_decimal(id as int) + ": "@
            + why@,
{
    reveal_strlit(": ");
    reveal_strlit("unknown error");
    reveal_strlit(": unknown error");
    assert(": "@ + "unknown error"@ =~= ": unknown error"@);
    assert(paste_error_text(id, None) =~= "Failed to restore entry "@ + signed_decimal(id as int)
        + (": "@ + "unknown error"@));
}

/// All is well only where every check passed; one failure outweighs all else,
/// and one warning outweighs what passed.
pub proof fn law_verdict(checks: Seq<Check>, i: int)
    requires
        0 <= i < checks.len(),
    ensures
        checks[i].status == CheckStatus::Error ==> verdict(checks)
            == "One or more checks failed. Run `journalctl --user -u nixclipd` for daemon logs."@,
        checks[i].status == CheckStatus::Warning && (forall|j: int|
            0 <= j < checks.len() ==> (#[trigger] checks[j]).status != CheckStatus::Error)
            ==> verdict(checks)
            == "Some warnings detected. nixclip may work with reduced functionality."@,
        (forall|j: int|
            0 <= j < checks.len() ==> (#[trigger] checks[j]).status == CheckStatus::Passed)
            ==> verdict(checks) == "All checks passed."@,
{
}

/// Each status has its word, and a check holds its label, its status and what
/// was found.
pub proof fn law_check(c: Check, label: Seq<char>, status: CheckStatus, detail: Seq<char>)
    requires
        is_check(c, label, status, detail),
    ensures
        c.label@ == label,
        c.status == status,
        optional_text(c.detail) == Some(detail),
        status_symbol(CheckStatus::Passed) == "OK"@,
        status_symbol(CheckStatus::Warning) == "WARN"@,
        status_symbol(CheckStatus::Error) == "FAIL"@,
{
}

/// The line of a check has its status in brackets, four characters wide, then
/// its label and, two spaces further, its detail.
pub proof fn law_check_line(c: Check)
    ensures
        ({
            let status = match c.status {
                CheckStatus::Passed => "[OK  ] "@,
                CheckStatus::Warning => "[WARN] "@,
                CheckStatus::Error => "[FAIL] "@,
            };
            &&& c.detail is None ==> check_line_text(c) == status + c.label@
            &&& c.detail is Some ==> check_line_text(c) == status + c.label@ + "  "@
                + c.detail->Some_0@
        }),
{
    reveal_strlit("[");
    reveal_strlit("] ");
    reveal_strlit("OK  ");
    reveal_strlit("WARN");
    reveal_strlit("FAIL");
    reveal_strlit("[OK  ] ");
    reveal_strlit("[WARN] ");
    reveal_strlit("[FAIL] ");
    assert("["@ + "OK  "@ + "] "@ =~= "[OK  ] "@);
    assert("["@ + "WARN"@ + "] "@ =~= "[WARN] "@);
    assert("["@ + "FAIL"@ + "] "@ =~= "[FAIL] "@);
    let status = match c.status {
        CheckStatus::Passed => "[OK  ] "@,
        CheckStatus::Warning => "[WARN] "@,
        CheckStatus::Error => "[FAIL] "@,
    };
    match c.detail {
        None => {
            assert(check_line_text(c) =~= status + c.label@);
        },
        Some(d) => {
            assert(check_line_text(c) =~= status + c.label@ + "  "@ + d@);
        },
    }
}

// ---------------------------------------------------------------------------
// Settings
// ---------------------------------------------------------------------------

proof fn lemma_values_agree(s: Seq<char>)
    ensures
        crate::cli::config_cmd::digits_value(s) == crate::laws::text::digits_value(s),
    decreases s.len(),
{
    if s.len() > 0 {
        lemma_values_agree(s.drop_last());
    }
}

/// A number that is written in decimal, with or without the sign that it may
/// have, is set as that number, whatever else it could be read as.
pub proof fn law_number_is_set(n: int, float: Option<u64>)
    requires
        i64::MIN <= n <= i64::MAX,
    ensures
        scalar(signed_decimal(n), float) == TomlView::Integer(n),
        n >= 0 ==> scalar(seq!['+'] + decimal(n as nat), float) == TomlView::Integer(n),
        scalar(seq!['-'] + decimal(0), float) == TomlView::Integer(0),
{
    let m: nat = if n < 0 {
        (-n) as nat
    } else {
        n as nat
    };
    lemma_signed_value(m);
    lemma_signed_value(0);
}

proof fn lemma_signed_value(m: nat)
    ensures
        integer_value(decimal(m)) == Some(m as int),
        integer_value(seq!['+'] + decimal(m)) == Some(m as int),
        integer_value(seq!['-'] + decimal(m)) == Some(-(m as int)),
{
    let d = decimal(m);
    law_decimal_reads_back(m);
    lemma_values_agree(d);
    assert('0' <= d[0] <= '9');
    assert((seq!['+'] + d).skip(1) =~= d);
    assert((seq!['-'] + d).skip(1) =~= d);
}

/// A text with a character in it that is no digit, other than a sign at its
/// beginning, is no number, and neither is a text without digits: it is set as
/// a floating-point number where it is one, else as a truth value where it is
/// the name of one, and else as it stands.
pub proof fn law_text_is_set(s: Seq<char>, i: int, bits: u64)
    requires
        s.len() == 0 || (s.len() == 1 && (s[0] == '+' || s[0] == '-')) || (0 <= i < s.len() && !(
        '0' <= s[i] <= '9') && (i > 0 || (s[0] != '+' && s[0] != '-'))),
    ensures
        scalar(s, Some(bits)) == TomlView::Float(bits),
        s == "true"@ ==> scalar(s, None) == TomlView::Boolean(true),
        s == "false"@ ==> scalar(s, None) == TomlView::Boolean(false),
        s != "true"@ && s != "false"@ ==> scalar(s, None) == TomlView::Text(s),
{
    reveal_strlit("true");
    reveal_strlit("false");
    assert("true"@.len() == 4 && "false"@.len() == 5);
    let digits = crate::cli::config_cmd::unsigned_part(s);
    if digits.len() > 0 {
        let k = i - (s.len() - digits.len());
        assert(digits[k] == s[i]);
        assert(!crate::cli::config_cmd::is_digit(digits[k]));
    }
    assert(integer_value(s) is None);
}

/// A key without a dot is set as it stands; what stands before the first dot
/// of a key names a table, and all behind that dot the key in it.
pub proof fn law_dotted_key(section: Seq<char>, name: Seq<char>, value: TomlView)
    requires
        forall|i: int| 0 <= i < section.len() ==> #[trigger] section[i] != '.',
    ensures
        patch_of(section, value) == TomlView::Table(seq![(section, value)]),
        patch_of(section + seq!['.'] + name, value) == TomlView::Table(
            seq![(section, TomlView::Table(seq![(name, value)]))],
        ),
{
    let key = section + seq!['.'] + name;
    assert forall|j: int| 0 <= j < section.len() implies #[trigger] key[j] != '.' by {
        assert(key[j] == section[j]);
    }
    crate::cli::config_cmd::lemma_first_dot(section, section.len() as int);
    crate::cli::config_cmd::lemma_first_dot(key, section.len() as int);
    assert(key.take(section.len() as int) =~= section);
    assert(key.skip(section.len() as int + 1) =~= name);
}

} // verus!
