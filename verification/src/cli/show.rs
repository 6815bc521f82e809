//! The details of a single entry.

use vstd::prelude::*;

use super::list::can_tell_age;
use super::list::format_age;
use super::list::is_age;
use crate::text::concat2;
use crate::text::decimal;
use crate::text::push_decimal;
use crate::text::signed_decimal;
use crate::text::signed_text;
use crate::text::texts;
use crate::types::class_name;
use crate::types::EntryId;
use crate::types::EntrySummary;

verus! {

/// How many entries are asked for to find one among them.
pub const SHOW_WINDOW: u32 = 1000;

/// The first entry with an identifier.
pub fn find_entry(entries: &Vec<EntrySummary>, id: EntryId) -> (r: Option<usize>)
    ensures
        match r {
            Some(i) => {
                &&& i < entries@.len()
                &&& entries@[i as int].id == id
                &&& forall|j: int| 0 <= j < i ==> (#[trigger] entries@[j]).id != id
            },
            None => forall|j: int| 0 <= j < entries@.len() ==> (#[trigger] entries@[j]).id != id,
        },
{
    let mut i: usize = 0;
    while i < entries.len()
        invariant
            i <= entries@.len(),
            forall|j: int| 0 <= j < i ==> (#[trigger] entries@[j]).id != id,
        decreases entries@.len() - i,
    {
        if entries[i].id == id {
            return Some(i);
        }
        i += 1;
    }
    None
}

/// `yes` or `no`.
pub open spec fn yes_no(b: bool) -> Seq<char> {
    if b {
        "yes"@
    } else {
        "no"@
    }
}

fn yes_or_no(b: bool) -> (r: &'static str)
    ensures
        r@ == yes_no(b),
{
    if b {
        "yes"
    } else {
        "no"
    }
}

/// The lines that describe an entry, given how its two ages are written.
pub open spec fn detail_lines(
    entry: EntrySummary,
    created: Seq<char>,
    last_seen: Seq<char>,
) -> Seq<Seq<char>> {
    seq![
        "ID:           "@ + signed_decimal(entry.id as int),
        "Type:         "@ + class_name(entry.content_class),
        "Pinned:       "@ + yes_no(entry.pinned),
        "Ephemeral:    "@ + yes_no(entry.ephemeral),
        "Created:      "@ + signed_decimal(entry.created_at as int) + " ("@ + created + ")"@,
        "Last seen:    "@ + last_seen,
    ] + (match entry.source_app {
        Some(app) => seq!["Source app:   "@ + app@],
        None => Seq::<Seq<char>>::empty(),
    }) + (match entry.thumbnail {
        Some(t) => seq!["Thumbnail:    "@ + decimal(t@.len()) + " bytes"@],
        None => Seq::<Seq<char>>::empty(),
    }) + seq![Seq::<char>::empty()] + (match entry.preview_text {
        Some(p) => seq!["Preview:"@, p@],
        None => seq!["[No text preview available]"@],
    })
}

fn push_line(lines: &mut Vec<String>, line: String)
    ensures
        texts(final(lines)@) == texts(old(lines)@).push(line@),
{
    lines.push(line);
    assert(texts(lines@) =~= texts(old(lines)@).push(line@));
}

/// The lines that describe an entry.
pub fn entry_details(entry: &EntrySummary, now_ms: i64) -> (r: Vec<String>)
    requires
        can_tell_age(now_ms as int, entry.created_at as int),
        can_tell_age(now_ms as int, entry.last_seen_at as int),
    ensures
        exists|created: Seq<char>, last_seen: Seq<char>|
            {
                &&& is_age(created, now_ms as int, entry.created_at as int)
                &&& is_age(last_seen, now_ms as int, entry.last_seen_at as int)
                &&& texts(r@) == #[trigger] detail_lines(*entry, created, last_seen)
            },
{
    let created = format_age(now_ms, entry.created_at);
    let last_seen = format_age(now_ms, entry.last_seen_at);
    let mut lines: Vec<String> = Vec::new();
    assert(texts(lines@) =~= Seq::<Seq<char>>::empty());
    let id = signed_text(entry.id);
    push_line(&mut lines, concat2("ID:           ", id.as_str()));
    push_line(&mut lines, concat2("Type:         ", entry.content_class.as_str()));
    push_line(&mut lines, concat2("Pinned:       ", yes_or_no(entry.pinned)));
    push_line(&mut lines, concat2("Ephemeral:    ", yes_or_no(entry.ephemeral)));
    let millis = signed_text(entry.created_at);
    let mut line = concat2("Created:      ", millis.as_str());
    line.append(" (");
    line.append(created.as_str());
    line.append(")");
    push_line(&mut lines, line);
    push_line(&mut lines, concat2("Last seen:    ", last_seen.as_str()));
    match &entry.source_app {
        Some(app) => {
            push_line(&mut lines, concat2("Source app:   ", app.as_str()));
        },
        None => {},
    }
    match &entry.thumbnail {
        Some(t) => {
            let mut line = "Thumbnail:    ".to_owned();
            push_decimal(&mut line, t.len() as u64);
            line.append(" bytes");
            push_line(&mut lines, line);
        },
        None => {},
    }
    push_line(&mut lines, String::new());
    match &entry.preview_text {
        Some(p) => {
            push_line(&mut lines, "Preview:".to_owned());
            push_line(&mut lines, p.clone());
        },
        None => {
            push_line(&mut lines, "[No text preview available]".to_owned());
        },
    }
    assert(texts(lines@) =~= detail_lines(*entry, created@, last_seen@));
    lines
}

} // verus!
