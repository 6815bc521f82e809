//! What the popup asks for, and what it shows of the result.

use vstd::prelude::*;

use crate::cli::stats::class_count;
use crate::cli::stats::count_entries;
use crate::config::UiConfig;
use crate::text::concat2;
use crate::text::concat3;
use crate::types::optional_text;
use crate::types::ContentClass;
use crate::types::EntrySummary;

verus! {

// ---------------------------------------------------------------------------
// Geometry
// ---------------------------------------------------------------------------

/// A number brought into a range.
pub open spec fn clamped(n: int, low: int, high: int) -> int {
    if n < low {
        low
    } else if n > high {
        high
    } else {
        n
    }
}

/// The size of the popup.
#[derive(Debug, Clone, Copy, PartialEq, Eq, Structural)]
pub struct PopupSize {
    /// Width in pixels.
    pub width: i32,
    /// The least height of the list in pixels.
    pub min_list_height: i32,
}

/// The size of the popup: the configured width between 480 and 1600 pixels, and
/// 60 pixels for each of 1 to 16 rows, but not less than 180.
pub fn popup_size(config: &UiConfig) -> (r: PopupSize)
    ensures
        r.width == clamped(config.width as int, 480, 1600),
        ({
            let height = clamped(config.max_visible_entries as int, 1, 16) * 60;
            r.min_list_height == if height < 180 {
                180
            } else {
                height
            }
        }),
{
    let width: i32 = if config.width < 480 {
        480
    } else if config.width > 1600 {
        1600
    } else {
        config.width as i32
    };
    let rows: i32 = if config.max_visible_entries < 1 {
        1
    } else if config.max_visible_entries > 16 {
        16
    } else {
        config.max_visible_entries as i32
    };
    let height: i32 = rows * 60;
    PopupSize {
        width,
        min_list_height: if height < 180 {
            180
        } else {
            height
        },
    }
}

// ---------------------------------------------------------------------------
// Queries
// ---------------------------------------------------------------------------

/// How many entries the popup asks for.
pub const POPUP_LIMIT: u32 = 50;

/// What the popup shows: a search text and a filter.
#[derive(Debug, Clone)]
pub struct QueryState {
    pub text: Option<String>,
    pub class: Option<ContentClass>,
}

impl Default for QueryState {
    fn default() -> (r: QueryState)
        ensures
            r.text is None,
            r.class is None,
    {
        QueryState { text: None, class: None }
    }
}

/// The text to search for: none where the search field is empty.
pub fn search_text(text: String) -> (r: Option<String>)
    ensures
        r == if text@.len() == 0 {
            None
        } else {
            Some(text)
        },
{
    if text.as_str().unicode_len() == 0 {
        None
    } else {
        Some(text)
    }
}

/// What is said where nothing is found.
pub open spec fn empty_text(text: Option<Seq<char>>, class: Option<ContentClass>) -> Seq<char> {
    match (text, class) {
        (Some(q), _) => "No matches for '"@ + q + "'. Try a different search."@,
        (None, Some(_)) => "No clipboard history for the selected filter."@,
        (None, None) => "No clipboard history yet.\nCopy something to get started."@,
    }
}

/// What is said where nothing is found.
pub fn empty_message(state: &QueryState) -> (r: String)
    ensures
        r@ == empty_text(optional_text(state.text), state.class),
{
    match (&state.text, state.class) {
        (Some(q), _) => concat3("No matches for '", q.as_str(), "'. Try a different search."),
        (None, Some(_)) => "No clipboard history for the selected filter.".to_owned(),
        (None, None) => "No clipboard history yet.\nCopy something to get started.".to_owned(),
    }
}

/// What is said where the daemon cannot be asked.
pub open spec fn connection_text(error: Seq<char>) -> Seq<char> {
    "Cannot connect to nixclipd.\nIs the daemon running?\n\nRun 'nixclip doctor' for diagnostics.\n\nError: "@
        + error
}

/// What is said where the daemon cannot be asked.
pub fn connection_message(error: &str) -> (r: String)
    ensures
        r@ == connection_text(error@),
{
    concat2(
        "Cannot connect to nixclipd.\nIs the daemon running?\n\nRun 'nixclip doctor' for diagnostics.\n\nError: ",
        error,
    )
}

// ---------------------------------------------------------------------------
// Filter tabs
// ---------------------------------------------------------------------------

/// A filter tab.
#[derive(Debug, Clone, Copy, PartialEq, Eq, Structural)]
pub enum Tab {
    All,
    Text,
    Images,
    Files,
    Links,
}

/// The tab that shows a content class.
pub open spec fn tab_of(class: Option<ContentClass>) -> Tab {
    match class {
        None => Tab::All,
        Some(ContentClass::Text) => Tab::Text,
        Some(ContentClass::RichText) => Tab::Text,
        Some(ContentClass::Image) => Tab::Images,
        Some(ContentClass::Files) => Tab::Files,
        Some(ContentClass::Url) => Tab::Links,
    }
}

/// The tab to select for a content class.
pub fn set_active(class: Option<ContentClass>) -> (r: Tab)
    ensures
        r == tab_of(class),
{
    match class {
        None => Tab::All,
        Some(ContentClass::Text) => Tab::Text,
        Some(ContentClass::RichText) => Tab::Text,
        Some(ContentClass::Image) => Tab::Images,
        Some(ContentClass::Files) => Tab::Files,
        Some(ContentClass::Url) => Tab::Links,
    }
}

/// Which tabs are shown, besides the one for everything, and which filter
/// applies.
#[derive(Debug, Clone, Copy, PartialEq, Eq, Structural)]
pub struct VisibleTabs {
    pub text: bool,
    pub images: bool,
    pub files: bool,
    pub links: bool,
    pub active: Option<ContentClass>,
}

impl VisibleTabs {
    /// Whether a tab is shown.
    pub open spec fn shows(&self, tab: Tab) -> bool {
        match tab {
            Tab::All => true,
            Tab::Text => self.text,
            Tab::Images => self.images,
            Tab::Files => self.files,
            Tab::Links => self.links,
        }
    }
}

/// Some entry is of a class that the tab shows.
pub open spec fn has_tab(entries: Seq<EntrySummary>, tab: Tab) -> bool {
    exists|i: int|
        0 <= i < entries.len() && tab_of(Some((#[trigger] entries[i]).content_class)) == tab
}

proof fn lemma_class_count(entries: Seq<EntrySummary>, class: ContentClass, n: int)
    requires
        0 <= n <= entries.len(),
    ensures
        class_count(entries, class, n) > 0 <==> exists|i: int|
            0 <= i < n && (#[trigger] entries[i]).content_class == class,
    decreases n,
{
    if n > 0 {
        lemma_class_count(entries, class, n - 1);
        if entries[n - 1].content_class == class {
            assert(0 <= n - 1 < n && entries[n - 1].content_class == class);
        } else if class_count(entries, class, n - 1) > 0 {
            let i = choose|i: int|
                0 <= i < n - 1 && (#[trigger] entries[i]).content_class == class;
            assert(0 <= i < n && entries[i].content_class == class);
        }
    }
}

proof fn lemma_has_tab(entries: Seq<EntrySummary>)
    ensures
        ({
            let n = entries.len() as int;
            &&& has_tab(entries, Tab::Text) <==> (class_count(entries, ContentClass::Text, n) > 0
                || class_count(entries, ContentClass::RichText, n) > 0)
            &&& has_tab(entries, Tab::Images) <==> class_count(entries, ContentClass::Image, n) > 0
            &&& has_tab(entries, Tab::Files) <==> class_count(entries, ContentClass::Files, n) > 0
            &&& has_tab(entries, Tab::Links) <==> class_count(entries, ContentClass::Url, n) > 0
        }),
{
    let n = entries.len() as int;
    lemma_class_count(entries, ContentClass::Text, n);
    lemma_class_count(entries, ContentClass::RichText, n);
    lemma_class_count(entries, ContentClass::Image, n);
    lemma_class_count(entries, ContentClass::Files, n);
    lemma_class_count(entries, ContentClass::Url, n);
}

/// Show or hide filter tabs based on which content classes have entries. If the
/// currently active filter becomes hidden, everything is shown.
pub fn update_visible_tabs(entries: &Vec<EntrySummary>, active: Option<ContentClass>) -> (r:
    VisibleTabs)
    ensures
        r.text == has_tab(entries@, Tab::Text),
        r.images == has_tab(entries@, Tab::Images),
        r.files == has_tab(entries@, Tab::Files),
        r.links == has_tab(entries@, Tab::Links),
        r.active == if active is Some && !has_tab(entries@, tab_of(active)) {
            None
        } else {
            active
        },
{
    let counts = count_entries(entries);
    proof {
        lemma_has_tab(entries@);
    }
    let text = counts.text > 0 || counts.richtext > 0;
    let images = counts.image > 0;
    let files = counts.files > 0;
    let links = counts.url > 0;
    let hidden = match active {
        None => false,
        Some(ContentClass::Text) => !text,
        Some(ContentClass::RichText) => !text,
        Some(ContentClass::Image) => !images,
        Some(ContentClass::Files) => !files,
        Some(ContentClass::Url) => !links,
    };
    VisibleTabs {
        text,
        images,
        files,
        links,
        active: if hidden {
            None
        } else {
            active
        },
    }
}

/// The filter that applies is always one whose tab is shown.
pub proof fn law_active_tab_is_shown(
    tabs: VisibleTabs,
    entries: Seq<EntrySummary>,
    active: Option<ContentClass>,
)
    requires
        tabs.text == has_tab(entries, Tab::Text),
        tabs.images == has_tab(entries, Tab::Images),
        tabs.files == has_tab(entries, Tab::Files),
        tabs.links == has_tab(entries, Tab::Links),
        tabs.active == if active is Some && !has_tab(entries, tab_of(active)) {
            None
        } else {
            active
        },
    ensures
        tabs.shows(tab_of(tabs.active)),
{
}

} // verus!
