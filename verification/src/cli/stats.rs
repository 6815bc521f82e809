//! Counting the entries of the history.

use vstd::prelude::*;

use crate::types::ContentClass;
use crate::types::EntryId;
use crate::types::EntrySummary;

verus! {

/// How many entries are asked for to count them.
pub const STATS_WINDOW: u32 = 10000;

/// How many entries there are of each kind.
#[derive(Debug, Clone, Copy, PartialEq, Eq, Structural)]
pub struct HistoryCounts {
    pub pinned: usize,
    pub text: usize,
    pub image: usize,
    pub url: usize,
    pub files: usize,
    pub richtext: usize,
}

/// How many of the first `n` entries are of a class.
pub open spec fn class_count(entries: Seq<EntrySummary>, class: ContentClass, n: int) -> nat
    decreases n,
{
    if n <= 0 {
        0
    } else if entries[n - 1].content_class == class {
        class_count(entries, class, n - 1) + 1
    } else {
        class_count(entries, class, n - 1)
    }
}

/// The identifiers of those of the first `n` entries that are pinned.
pub open spec fn pinned_entries(entries: Seq<EntrySummary>, n: int) -> Seq<EntryId>
    decreases n,
{
    if n <= 0 {
        Seq::<EntryId>::empty()
    } else if entries[n - 1].pinned {
        pinned_entries(entries, n - 1).push(entries[n - 1].id)
    } else {
        pinned_entries(entries, n - 1)
    }
}

/// The counts of the first `n` entries.
pub open spec fn are_counts(c: HistoryCounts, entries: Seq<EntrySummary>, n: int) -> bool {
    &&& c.pinned == pinned_entries(entries, n).len()
    &&& c.text == class_count(entries, ContentClass::Text, n)
    &&& c.image == class_count(entries, ContentClass::Image, n)
    &&& c.url == class_count(entries, ContentClass::Url, n)
    &&& c.files == class_count(entries, ContentClass::Files, n)
    &&& c.richtext == class_count(entries, ContentClass::RichText, n)
}

proof fn lemma_counts(entries: Seq<EntrySummary>, n: int)
    requires
        0 <= n <= entries.len(),
    ensures
        pinned_entries(entries, n).len() <= n,
        class_count(entries, ContentClass::Text, n) + class_count(
            entries,
            ContentClass::RichText,
            n,
        ) + class_count(entries, ContentClass::Image, n) + class_count(
            entries,
            ContentClass::Files,
            n,
        ) + class_count(entries, ContentClass::Url, n) == n,
    decreases n,
{
    if n > 0 {
        lemma_counts(entries, n - 1);
    }
}

/// Count the entries of each kind.
pub fn count_entries(entries: &Vec<EntrySummary>) -> (r: HistoryCounts)
    ensures
        are_counts(r, entries@, entries@.len() as int),
{
    let mut c = HistoryCounts { pinned: 0, text: 0, image: 0, url: 0, files: 0, richtext: 0 };
    let mut i: usize = 0;
    while i < entries.len()
        invariant
            i <= entries@.len(),
            are_counts(c, entries@, i as int),
        decreases entries@.len() - i,
    {
        proof {
            lemma_counts(entries@, i as int);
        }
        let entry = &entries[i];
        if entry.pinned {
            c.pinned = c.pinned + 1;
        }
        match entry.content_class {
            ContentClass::Text => {
                c.text = c.text + 1;
            },
            ContentClass::RichText => {
                c.richtext = c.richtext + 1;
            },
            ContentClass::Image => {
                c.image = c.image + 1;
            },
            ContentClass::Files => {
                c.files = c.files + 1;
            },
            ContentClass::Url => {
                c.url = c.url + 1;
            },
        }
        i += 1;
    }
    c
}

/// The identifiers of the pinned entries, in order.
pub fn pinned_ids(entries: &Vec<EntrySummary>) -> (r: Vec<EntryId>)
    ensures
        r@ == pinned_entries(entries@, entries@.len() as int),
{
    let mut ids: Vec<EntryId> = Vec::new();
    let mut i: usize = 0;
    while i < entries.len()
        invariant
            i <= entries@.len(),
            ids@ == pinned_entries(entries@, i as int),
        decreases entries@.len() - i,
    {
        if entries[i].pinned {
            ids.push(entries[i].id);
        }
        i += 1;
    }
    ids
}

/// Every entry is of exactly one class: the counts of the classes add up to the
/// number of entries, and no more of them are pinned than there are.
pub proof fn law_counts_add_up(c: HistoryCounts, entries: Seq<EntrySummary>)
    requires
        are_counts(c, entries, entries.len() as int),
    ensures
        c.text + c.richtext + c.image + c.files + c.url == entries.len(),
        c.pinned <= entries.len(),
{
    lemma_counts(entries, entries.len() as int);
}

proof fn lemma_pinned_entries(entries: Seq<EntrySummary>, n: int, i: int)
    requires
        0 <= i < n <= entries.len(),
        entries[i].pinned,
    ensures
        pinned_entries(entries, n).contains(entries[i].id),
    decreases n,
{
    let before = pinned_entries(entries, n - 1);
    if i == n - 1 {
        assert(pinned_entries(entries, n)[before.len() as int] == entries[i].id);
    } else {
        lemma_pinned_entries(entries, n - 1, i);
        let k = choose|k: int| 0 <= k < before.len() && before[k] == entries[i].id;
        assert(pinned_entries(entries, n)[k] == entries[i].id);
    }
}

/// No pinned entry is left out of the identifiers to unpin.
pub proof fn law_every_pinned_entry_listed(entries: Seq<EntrySummary>, i: int)
    requires
        0 <= i < entries.len(),
        entries[i].pinned,
    ensures
        pinned_entries(entries, entries.len() as int).contains(entries[i].id),
{
    lemma_pinned_entries(entries, entries.len() as int, i);
}

} // verus!
