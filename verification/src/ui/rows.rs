//! What a row of the popup shows of an entry.

use vstd::prelude::*;

use crate::cli::list::can_tell_age;
use crate::text::concat2;
use crate::text::decimal;
use crate::text::decimal_text;
use crate::types::optional_text;
use crate::types::ContentClass;
use crate::types::EntrySummary;

verus! {

/// The text of the badge of a content class.
pub open spec fn badge_text(class: ContentClass) -> Seq<char> {
    match class {
        ContentClass::Text => "TXT"@,
        ContentClass::RichText => "HTML"@,
        ContentClass::Image => "IMG"@,
        ContentClass::Files => "FILE"@,
        ContentClass::Url => "URL"@,
    }
}

/// The style of the badge of a content class.
pub open spec fn badge_style(class: ContentClass) -> Seq<char> {
    match class {
        ContentClass::Text => "badge-text"@,
        ContentClass::RichText => "badge-richtext"@,
        ContentClass::Image => "badge-image"@,
        ContentClass::Files => "badge-files"@,
        ContentClass::Url => "badge-url"@,
    }
}

/// The text and the style of the badge of a content class.
pub fn build_badge(class: ContentClass) -> (r: (&'static str, &'static str))
    ensures
        r.0@ == badge_text(class),
        r.1@ == badge_style(class),
{
    match class {
        ContentClass::Text => ("TXT", "badge-text"),
        ContentClass::RichText => ("HTML", "badge-richtext"),
        ContentClass::Image => ("IMG", "badge-image"),
        ContentClass::Files => ("FILE", "badge-files"),
        ContentClass::Url => ("URL", "badge-url"),
    }
}

/// What the centre of a row shows.
#[derive(Debug, Clone)]
pub enum RowContent {
    /// The thumbnail of the entry, or a placeholder where it cannot be drawn.
    Thumbnail,
    /// This placeholder.
    Placeholder(String),
    /// This text, in a fixed-width font or not.
    Preview { text: String, monospace: bool },
}

/// What the centre of a row shows: of an image its thumbnail, of anything else
/// its text.
pub fn row_content(entry: &EntrySummary) -> (r: RowContent)
    ensures
        match r {
            RowContent::Thumbnail => entry.content_class == ContentClass::Image
                && entry.thumbnail is Some,
            RowContent::Placeholder(s) => {
                &&& entry.content_class == ContentClass::Image
                &&& entry.thumbnail is None
                &&& s@ == "[Image]"@
            },
            RowContent::Preview { text, monospace } => {
                &&& entry.content_class != ContentClass::Image
                &&& text@ == match entry.preview_text {
                    Some(p) => p@,
                    None => "[No preview]"@,
                }
                &&& monospace == (entry.content_class == ContentClass::Text)
            },
        },
{
    if entry.content_class == ContentClass::Image {
        if entry.thumbnail.is_some() {
            RowContent::Thumbnail
        } else {
            RowContent::Placeholder("[Image]".to_owned())
        }
    } else {
        let text = match &entry.preview_text {
            Some(p) => p.clone(),
            None => "[No preview]".to_owned(),
        };
        RowContent::Preview { text, monospace: entry.content_class == ContentClass::Text }
    }
}

/// The badge of a row, where badges are shown.
pub fn row_badge(class: ContentClass, show_content_badges: bool) -> (r: Option<
    (&'static str, &'static str),
>)
    ensures
        match r {
            Some((text, style)) => {
                &&& show_content_badges
                &&& text@ == badge_text(class)
                &&& style@ == badge_style(class)
            },
            None => !show_content_badges,
        },
{
    if show_content_badges {
        Some(build_badge(class))
    } else {
        None
    }
}

/// How the source of an entry is shown, where sources are shown.
pub fn source_label(entry: &EntrySummary, show_source_app: bool) -> (r: Option<String>)
    ensures
        optional_text(r) == match entry.source_app {
            Some(app) if show_source_app => Some("── "@ + app@),
            _ => None,
        },
{
    match &entry.source_app {
        Some(app) => if show_source_app {
            Some(concat2("── ", app.as_str()))
        } else {
            None
        },
        None => None,
    }
}

/// How a time is shown, seen from now: nothing is known of times of zero, and
/// what lies ahead has just happened.
pub open spec fn relative_time(now_ms: int, millis: int) -> Seq<char> {
    let secs = (now_ms - millis) / 1000;
    if now_ms == 0 || millis == 0 || now_ms < millis || secs < 60 {
        "just now"@
    } else if secs < 3600 {
        decimal((secs / 60) as nat) + "m"@
    } else if secs < 86400 {
        decimal((secs / 3600) as nat) + "h"@
    } else if secs < 2592000 {
        decimal((secs / 86400) as nat) + "d"@
    } else {
        decimal((secs / 604800) as nat) + "w"@
    }
}

/// Format a Unix-millis timestamp into a human-readable relative string.
pub fn format_relative_time(now_ms: i64, millis: i64) -> (r: String)
    requires
        can_tell_age(now_ms as int, millis as int),
    ensures
        r@ == relative_time(now_ms as int, millis as int),
{
    if now_ms == 0 || millis == 0 || now_ms < millis {
        return "just now".to_owned();
    }
    let secs: i64 = (now_ms - millis) / 1000;
    if secs < 60 {
        "just now".to_owned()
    } else if secs < 3600 {
        let n = decimal_text((secs / 60) as u64);
        concat2(n.as_str(), "m")
    } else if secs < 86400 {
        let n = decimal_text((secs / 3600) as u64);
        concat2(n.as_str(), "h")
    } else if secs < 2592000 {
        let n = decimal_text((secs / 86400) as u64);
        concat2(n.as_str(), "d")
    } else {
        let n = decimal_text((secs / 604800) as u64);
        concat2(n.as_str(), "w")
    }
}

} // verus!
