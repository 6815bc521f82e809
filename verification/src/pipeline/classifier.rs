//! Content classification from MIME types and text.

use vstd::prelude::*;

use crate::text::find_first;
use crate::text::is_alnum;
use crate::text::is_white_space;
use crate::text::lemma_find_first;
use crate::text::lists_text;
use crate::text::starts_with;
use crate::text::sub_chars;
use crate::text::texts;
use crate::text::to_chars;
use crate::text::trim;
use crate::text::trim_chars;
use crate::types::optional_str;
use crate::types::ContentClass;

verus! {

// ---------------------------------------------------------------------------
// Classification by MIME type
// ---------------------------------------------------------------------------

/// The class of an offer, from its MIME types alone. The first rule that
/// applies decides.
pub open spec fn class_of(mimes: Seq<Seq<char>>) -> Option<ContentClass> {
    if mimes.contains("image/png"@) || mimes.contains("image/jpeg"@) {
        Some(ContentClass::Image)
    } else if mimes.contains("text/uri-list"@) || mimes.contains(
        "x-special/gnome-copied-files"@,
    ) {
        Some(ContentClass::Files)
    } else if mimes.contains("text/html"@) && mimes.contains("text/plain"@) {
        Some(ContentClass::RichText)
    } else if mimes.contains("text/plain"@) {
        Some(ContentClass::Text)
    } else {
        None
    }
}

/// Classify clipboard content based solely on the offered MIME types.
///
/// Priority (first match wins):
/// 1. `image/png` or `image/jpeg`: [`ContentClass::Image`]
/// 2. `text/uri-list` or `x-special/gnome-copied-files`: [`ContentClass::Files`]
/// 3. `text/html` and `text/plain` both present: [`ContentClass::RichText`]
/// 4. `text/plain` only: [`ContentClass::Text`]
/// 5. Otherwise: `None`
pub fn classify(offered_mimes: &[String]) -> (r: Option<ContentClass>)
    ensures
        r == class_of(texts(offered_mimes@)),
{
    if lists_text(offered_mimes, "image/png") || lists_text(offered_mimes, "image/jpeg") {
        return Some(ContentClass::Image);
    }
    if lists_text(offered_mimes, "text/uri-list") || lists_text(
        offered_mimes,
        "x-special/gnome-copied-files",
    ) {
        return Some(ContentClass::Files);
    }
    let has_html = lists_text(offered_mimes, "text/html");
    let has_plain = lists_text(offered_mimes, "text/plain");
    if has_html && has_plain {
        return Some(ContentClass::RichText);
    }
    if has_plain {
        return Some(ContentClass::Text);
    }
    None
}

// ---------------------------------------------------------------------------
// URLs
// ---------------------------------------------------------------------------

/// A character that may stand in a label of a domain name.
pub open spec fn is_label_char(c: char) -> bool {
    is_alnum(c) || c == '-' || c == '_'
}

/// At least two labels, separated by single dots, none of them empty.
pub open spec fn is_domain(host: Seq<char>) -> bool {
    &&& host.contains('.')
    &&& forall|i: int|
        0 <= i < host.len() ==> (#[trigger] host[i] == '.' || is_label_char(host[i]))
    &&& forall|i: int|
        0 <= i < host.len() && #[trigger] host[i] == '.' ==> 0 < i && i + 1 < host.len()
            && host[i + 1] != '.'
}

/// What stands before the first slash.
pub open spec fn host_part(text: Seq<char>) -> Seq<char> {
    text.take(find_first(text, |c: char| c == '/'))
}

/// A single word that names a web scheme, or that begins with a domain name.
pub open spec fn is_url(text: Seq<char>) -> bool {
    &&& forall|i: int| 0 <= i < text.len() ==> !is_white_space(#[trigger] text[i])
    &&& {
        ||| "http://"@.is_prefix_of(text)
        ||| "https://"@.is_prefix_of(text)
        ||| is_domain(host_part(text))
    }
}

/// Heuristic URL check used by [`classify_with_content`].
///
/// Returns `true` when the text has no white space and
/// - starts with `http://` or `https://`, or
/// - begins with a domain, labels separated by dots, that ends at the first
///   `/` or at the end of the text.
pub fn looks_like_url(text: &str) -> (r: bool)
    ensures
        r == is_url(text@),
{
    let chars = to_chars(text);
    let mut i: usize = 0;
    while i < chars.len()
        invariant
            chars@ == text@,
            i <= chars@.len(),
            forall|j: int| 0 <= j < i ==> !is_white_space(#[trigger] chars@[j]),
        decreases chars@.len() - i,
    {
        if chars[i].is_whitespace() {
            assert(is_white_space(text@[i as int]));
            return false;
        }
        i += 1;
    }
    if starts_with(&chars, "http://") || starts_with(&chars, "https://") {
        return true;
    }
    let mut end: usize = 0;
    while end < chars.len() && chars[end] != '/'
        invariant
            end <= chars@.len(),
            forall|j: int| 0 <= j < end ==> chars@[j] != '/',
        decreases chars@.len() - end,
    {
        end += 1;
    }
    proof {
        lemma_find_first(chars@, |c: char| c == '/', end as int);
    }
    let host = sub_chars(&chars, 0, end);
    assert(host@ =~= host_part(text@));
    domain_shaped(&host)
}

/// Whether the characters form a domain.
fn domain_shaped(host: &Vec<char>) -> (r: bool)
    ensures
        r == is_domain(host@),
{
    let mut dots: bool = false;
    let mut i: usize = 0;
    while i < host.len()
        invariant
            i <= host@.len(),
            dots == (exists|j: int| 0 <= j < i && host@[j] == '.'),
            forall|j: int| 0 <= j < i ==> (#[trigger] host@[j] == '.' || is_label_char(host@[j])),
            forall|j: int|
                0 <= j < i && #[trigger] host@[j] == '.' ==> 0 < j && j + 1 < host@.len()
                    && host@[j + 1] != '.',
        decreases host@.len() - i,
    {
        let c = host[i];
        if c == '.' {
            if i == 0 || i == host.len() - 1 || host[i + 1] == '.' {
                assert(host@[i as int] == '.');
                return false;
            }
            dots = true;
        } else if !(c.is_alphanumeric() || c == '-' || c == '_') {
            assert(!is_label_char(host@[i as int]));
            return false;
        }
        i += 1;
    }
    dots
}

// ---------------------------------------------------------------------------
// Classification by MIME type and text
// ---------------------------------------------------------------------------

/// The class of an offer, from its MIME types and its plain text: that of
/// [`class_of`], but plain text that is a URL makes a `Url`.
pub open spec fn class_with_text(
    mimes: Seq<Seq<char>>,
    text: Option<Seq<char>>,
) -> Option<ContentClass> {
    match (class_of(mimes), text) {
        (Some(ContentClass::Text), Some(t)) if is_url(trim(t)) => Some(ContentClass::Url),
        (class, _) => class,
    }
}

/// Classify clipboard content using both MIME types and text content.
///
/// Identical to [`classify`] except that `Text` is promoted to
/// [`ContentClass::Url`] when the text content, without white space at its
/// ends, looks like a URL.
pub fn classify_with_content(offered_mimes: &[String], text_content: Option<&str>) -> (r: Option<
    ContentClass,
>)
    ensures
        r == class_with_text(texts(offered_mimes@), optional_str(text_content)),
{
    match classify(offered_mimes) {
        Some(ContentClass::Text) => {
            if let Some(text) = text_content {
                let chars = to_chars(text);
                let trimmed = trim_chars(&chars);
                let shown = crate::text::from_chars(&trimmed);
                if looks_like_url(shown.as_str()) {
                    return Some(ContentClass::Url);
                }
            }
            Some(ContentClass::Text)
        },
        other => other,
    }
}

/// Looking at the text changes the class in one case only: `Text` may become
/// `Url`. In particular, an offer that is recognised without its text is
/// recognised with it, and no other class is ever promoted.
pub proof fn law_text_only_promotes_to_url(mimes: Seq<Seq<char>>, text: Option<Seq<char>>)
    ensures
        class_with_text(mimes, text) == class_of(mimes) || (class_of(mimes) == Some(
            ContentClass::Text,
        ) && class_with_text(mimes, text) == Some(ContentClass::Url)),
        class_with_text(mimes, text) is None <==> class_of(mimes) is None,
{
}

/// The order of the rules: an image type decides whatever else is offered,
/// then a file list, then formatted text.
pub proof fn law_class_priority(mimes: Seq<Seq<char>>, text: Option<Seq<char>>)
    ensures
        (mimes.contains("image/png"@) || mimes.contains("image/jpeg"@)) ==> class_with_text(
            mimes,
            text,
        ) == Some(ContentClass::Image),
        class_with_text(mimes, text) == Some(ContentClass::RichText) ==> !mimes.contains(
            "text/uri-list"@,
        ) && !mimes.contains("x-special/gnome-copied-files"@) && mimes.contains("text/html"@)
            && mimes.contains("text/plain"@),
        class_with_text(mimes, text) == Some(ContentClass::Url) ==> !mimes.contains("text/html"@)
            && mimes.contains("text/plain"@),
{
}

} // verus!
