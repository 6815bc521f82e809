//! Privacy rules: whether clipboard content is stored, stored for a while, or
//! not stored at all.

use vstd::prelude::*;

use crate::config::IgnoreConfig;
use crate::error::NixClipError;
use crate::error::Result;
use crate::text::contains_text;
use crate::text::copy_texts;
use crate::text::decimal;
use crate::text::has_substring;
use crate::text::lowercase;
use crate::text::push_decimal;
use crate::text::quote;
use crate::text::quoted;
use crate::text::same_text;
use crate::text::texts;
use crate::types::optional_str;

verus! {

// ---------------------------------------------------------------------------
// Regular expressions
// ---------------------------------------------------------------------------

/// Whether a text is a regular expression, and if not, why.
pub uninterp spec fn regex_compile(pattern: Seq<char>) -> std::result::Result<(), Seq<char>>;

/// Whether a regular expression matches somewhere in a text; `None` where the
/// pattern is no regular expression.
pub uninterp spec fn regex_is_match(pattern: Seq<char>, text: Seq<char>) -> Option<bool>;

/// `regex::Regex::new`: whether the pattern compiles and the text of the error
/// are a fixed function of the pattern, named [`regex_compile`].
#[verifier::external_body]
fn compile_regex(pattern: &str) -> (r: std::result::Result<(), String>)
    ensures
        match r {
            Ok(_) => regex_compile(pattern@) == Ok::<(), Seq<char>>(()),
            Err(e) => regex_compile(pattern@) == Err::<(), Seq<char>>(e@),
        },
{
    regex::Regex::new(pattern).map(|_| ()).map_err(|e| e.to_string())
}

/// `regex::Regex::is_match` on the pattern that `regex::Regex::new` compiles:
/// a fixed function of the pattern and the text, named [`regex_is_match`].
/// There is an answer exactly where the pattern compiles.
#[verifier::external_body]
fn search_regex(pattern: &str, text: &str) -> (r: Option<bool>)
    ensures
        r == regex_is_match(pattern@, text@),
        r is Some <==> regex_compile(pattern@) is Ok,
{
    regex::Regex::new(pattern).ok().map(|re| re.is_match(text))
}

// ---------------------------------------------------------------------------
// The rules
// ---------------------------------------------------------------------------

/// The outcome of a [`PrivacyFilter::check`] call.
#[derive(Debug, Clone, Copy, PartialEq, Eq, Structural)]
pub enum FilterResult {
    /// Content is safe to persist normally.
    Allow,
    /// Content must not be stored at all.
    Reject,
    /// Content may be surfaced in the current session but must not be
    /// persisted beyond it.
    Ephemeral,
}

/// Two application identifiers name the same application, for the purpose of
/// ignoring it: without regard to case, one occurs in the other. An empty
/// identifier names no application.
pub open spec fn same_app(app_id: Seq<char>, ignored: Seq<char>) -> bool {
    let app = lowercase(app_id);
    let entry = lowercase(ignored);
    has_substring(app, entry) || (app.len() > 0 && has_substring(entry, app))
}

/// Some application of the list is the one named.
pub open spec fn is_ignored_app(apps: Seq<Seq<char>>, app_id: Seq<char>) -> bool {
    exists|i: int| 0 <= i < apps.len() && same_app(app_id, #[trigger] apps[i])
}

/// A MIME type that marks sensitive content.
pub open spec fn is_sensitive_mime(mime: Seq<char>) -> bool {
    ||| mime == "x-kde-passwordManagerHint"@
    ||| mime == "org.nspasteboard.ConcealedType"@
    ||| mime == "org.nspasteboard.TransientType"@
    ||| has_substring(lowercase(mime), "password"@)
}

/// Some offered MIME type marks sensitive content.
pub open spec fn has_sensitive_mime(mimes: Seq<Seq<char>>) -> bool {
    exists|i: int| 0 <= i < mimes.len() && is_sensitive_mime(#[trigger] mimes[i])
}

/// Some pattern of the list matches the text.
pub open spec fn matches_pattern(patterns: Seq<Seq<char>>, text: Seq<char>) -> bool {
    exists|i: int|
        0 <= i < patterns.len() && regex_is_match(#[trigger] patterns[i], text) == Some(true)
}

/// The first pattern of the list that is no regular expression stands at `i`.
pub open spec fn first_invalid_pattern(patterns: Seq<Seq<char>>, i: int) -> bool {
    &&& 0 <= i < patterns.len()
    &&& regex_compile(patterns[i]) is Err
    &&& forall|j: int| 0 <= j < i ==> regex_compile(#[trigger] patterns[j]) is Ok
}

/// What is said of a pattern that is no regular expression.
pub open spec fn invalid_pattern_message(patterns: Seq<Seq<char>>, i: int) -> Seq<char> {
    "invalid regex pattern at index "@ + decimal(i as nat) + " ("@ + quoted(patterns[i]) + "): "@
        + regex_compile(patterns[i])->Err_0
}

// ---------------------------------------------------------------------------
// PrivacyFilter
// ---------------------------------------------------------------------------

/// Decides whether a clipboard event should be stored, stored ephemerally,
/// or rejected entirely.
pub struct PrivacyFilter {
    /// Application identifiers whose clipboard content is always ignored.
    ignore_apps: Vec<String>,
    /// Regular expressions. Content that matches one of them is ephemeral.
    patterns: Vec<String>,
    /// Whether MIME types that mark sensitive content cause a rejection.
    respect_sensitive_hints: bool,
}

impl PrivacyFilter {
    /// The applications that are ignored.
    pub closed spec fn apps(&self) -> Seq<Seq<char>> {
        texts(self.ignore_apps@)
    }

    /// The patterns that make content ephemeral.
    pub closed spec fn pattern_list(&self) -> Seq<Seq<char>> {
        texts(self.patterns@)
    }

    /// Whether MIME types that mark sensitive content cause a rejection.
    pub closed spec fn respects_hints(&self) -> bool {
        self.respect_sensitive_hints
    }

    /// The outcome of the first phase: by application and MIME type.
    pub open spec fn pre_content(&self, app: Option<Seq<char>>, mimes: Seq<Seq<char>>) -> FilterResult {
        if app is Some && is_ignored_app(self.apps(), app->Some_0) {
            FilterResult::Reject
        } else if self.respects_hints() && has_sensitive_mime(mimes) {
            FilterResult::Reject
        } else {
            FilterResult::Allow
        }
    }

    /// The outcome of the second phase: by content.
    pub open spec fn by_content(&self, text: Option<Seq<char>>) -> FilterResult {
        if text is Some && matches_pattern(self.pattern_list(), text->Some_0) {
            FilterResult::Ephemeral
        } else {
            FilterResult::Allow
        }
    }

    /// The outcome of both phases: a rejection by the first is final.
    pub open spec fn verdict(
        &self,
        app: Option<Seq<char>>,
        mimes: Seq<Seq<char>>,
        text: Option<Seq<char>>,
    ) -> FilterResult {
        match self.pre_content(app, mimes) {
            FilterResult::Reject => FilterResult::Reject,
            _ => self.by_content(text),
        }
    }

    /// Build a [`PrivacyFilter`] from the `[ignore]` section of the config.
    ///
    /// # Errors
    ///
    /// [`NixClipError::Config`] if any pattern is no regular expression; it
    /// speaks of the first of them.
    pub fn new(config: &IgnoreConfig) -> (r: Result<Self>)
        ensures
            match r {
                Ok(filter) => {
                    &&& filter.apps() == texts(config.apps@)
                    &&& filter.pattern_list() == texts(config.patterns@)
                    &&& filter.respects_hints() == config.respect_sensitive_hints
                    &&& forall|i: int|
                        0 <= i < config.patterns@.len() ==> regex_compile(
                            #[trigger] config.patterns@[i]@,
                        ) is Ok
                },
                Err(e) => {
                    &&& e is Config
                    &&& exists|i: int| #[trigger]
                        first_invalid_pattern(texts(config.patterns@), i) && e.cause()
                            == invalid_pattern_message(texts(config.patterns@), i)
                },
            },
    {
        let ghost all = texts(config.patterns@);
        let mut i: usize = 0;
        while i < config.patterns.len()
            invariant
                i <= config.patterns@.len(),
                all == texts(config.patterns@),
                forall|j: int| 0 <= j < i ==> regex_compile(#[trigger] all[j]) is Ok,
            decreases config.patterns@.len() - i,
        {
            let pattern = config.patterns[i].as_str();
            assert(all[i as int] == pattern@);
            if let Err(e) = compile_regex(pattern) {
                let mut message = "invalid regex pattern at index ".to_owned();
                push_decimal(&mut message, i as u64);
                message.append(" (");
                let literal = quote(pattern);
                message.append(literal.as_str());
                message.append("): ");
                message.append(e.as_str());
                assert(first_invalid_pattern(all, i as int));
                assert(message@ == invalid_pattern_message(all, i as int));
                return Err(NixClipError::Config(message));
            }
            i += 1;
        }
        proof {
            assert forall|i: int| 0 <= i < config.patterns@.len() implies regex_compile(
                #[trigger] config.patterns@[i]@,
            ) is Ok by {
                assert(all[i] == config.patterns@[i]@);
            }
        }
        Ok(
            PrivacyFilter {
                ignore_apps: copy_texts(&config.apps),
                patterns: copy_texts(&config.patterns),
                respect_sensitive_hints: config.respect_sensitive_hints,
            },
        )
    }

    /// Phase-1 check: evaluates source-app and MIME-type rules only.
    ///
    /// This is intended to run **before** content processing, so that events
    /// that are rejected anyway avoid its cost.
    pub fn check_pre_content(&self, source_app: Option<&str>, mimes: &[String]) -> (r: FilterResult)
        ensures
            r == self.pre_content(optional_str(source_app), texts(mimes@)),
    {
        if let Some(app) = source_app {
            if self.should_ignore_app(app) {
                return FilterResult::Reject;
            }
        }
        if self.respect_sensitive_hints && self.has_sensitive_mimes(mimes) {
            return FilterResult::Reject;
        }
        FilterResult::Allow
    }

    /// Phase-2 check: evaluates the patterns against the preview text produced
    /// by the content processor.
    ///
    /// Returns [`FilterResult::Ephemeral`] if any pattern matches, otherwise
    /// [`FilterResult::Allow`].
    pub fn check_content_patterns(&self, preview_text: Option<&str>) -> (r: FilterResult)
        ensures
            r == self.by_content(optional_str(preview_text)),
    {
        if let Some(text) = preview_text {
            if self.matches_sensitive_pattern(text) {
                return FilterResult::Ephemeral;
            }
        }
        FilterResult::Allow
    }

    /// Evaluate a clipboard event and return the appropriate [`FilterResult`].
    ///
    /// Checks are performed in this order:
    /// 1. Source application: [`FilterResult::Reject`]
    /// 2. Sensitive MIME hints: [`FilterResult::Reject`]
    /// 3. Preview text matches a pattern: [`FilterResult::Ephemeral`]
    /// 4. Otherwise: [`FilterResult::Allow`]
    pub fn check(
        &self,
        source_app: Option<&str>,
        mimes: &[String],
        preview_text: Option<&str>,
    ) -> (r: FilterResult)
        ensures
            r == self.verdict(
                optional_str(source_app),
                texts(mimes@),
                optional_str(preview_text),
            ),
    {
        match self.check_pre_content(source_app, mimes) {
            FilterResult::Reject => FilterResult::Reject,
            _ => self.check_content_patterns(preview_text),
        }
    }

    /// Return `true` if the application identifier should be ignored.
    ///
    /// The match is case-insensitive substring containment: for example, both
    /// `"com.1password.1Password"` and `"1password"` match the stored entry
    /// `"com.1password.1Password"`, and the stored entry `"1password"` matches
    /// both.
    pub fn should_ignore_app(&self, app_id: &str) -> (r: bool)
        ensures
            r == is_ignored_app(self.apps(), app_id@),
    {
        let ghost all = self.apps();
        let app = app_id.to_lowercase();
        let mut i: usize = 0;
        while i < self.ignore_apps.len()
            invariant
                i <= self.ignore_apps@.len(),
                all == texts(self.ignore_apps@),
                app@ == lowercase(app_id@),
                forall|j: int| 0 <= j < i ==> !same_app(app_id@, #[trigger] all[j]),
            decreases self.ignore_apps@.len() - i,
        {
            assert(all[i as int] == self.ignore_apps@[i as int]@);
            let entry = self.ignore_apps[i].as_str().to_lowercase();
            if contains_text(app.as_str(), entry.as_str()) {
                return true;
            }
            if !app.as_str().is_empty() && contains_text(entry.as_str(), app.as_str()) {
                return true;
            }
            i += 1;
        }
        false
    }

    /// Return `true` when any offered MIME type indicates sensitive content:
    /// one of three known types, or any type with the word "password" in it,
    /// in whatever case.
    pub fn has_sensitive_mimes(&self, mimes: &[String]) -> (r: bool)
        ensures
            r == has_sensitive_mime(texts(mimes@)),
    {
        let ghost all = texts(mimes@);
        let mut i: usize = 0;
        while i < mimes.len()
            invariant
                i <= mimes@.len(),
                all == texts(mimes@),
                forall|j: int| 0 <= j < i ==> !is_sensitive_mime(#[trigger] all[j]),
            decreases mimes@.len() - i,
        {
            let mime = mimes[i].as_str();
            assert(all[i as int] == mime@);
            if same_text(mime, "x-kde-passwordManagerHint") || same_text(
                mime,
                "org.nspasteboard.ConcealedType",
            ) || same_text(mime, "org.nspasteboard.TransientType") {
                return true;
            }
            let lower = mime.to_lowercase();
            if contains_text(lower.as_str(), "password") {
                return true;
            }
            i += 1;
        }
        false
    }

    /// Return `true` if `text` matches any of the patterns.
    pub fn matches_sensitive_pattern(&self, text: &str) -> (r: bool)
        ensures
            r == matches_pattern(self.pattern_list(), text@),
    {
        let ghost all = self.pattern_list();
        let mut i: usize = 0;
        while i < self.patterns.len()
            invariant
                i <= self.patterns@.len(),
                all == texts(self.patterns@),
                forall|j: int|
                    0 <= j < i ==> regex_is_match(#[trigger] all[j], text@) != Some(true),
            decreases self.patterns@.len() - i,
        {
            assert(all[i as int] == self.patterns@[i as int]@);
            if let Some(true) = search_regex(self.patterns[i].as_str(), text) {
                return true;
            }
            i += 1;
        }
        false
    }
}

// ---------------------------------------------------------------------------
// Laws
// ---------------------------------------------------------------------------

/// Checking in two phases comes to the same as checking at once, and what the
/// first phase rejects no content can save.
pub proof fn law_two_phases(
    filter: PrivacyFilter,
    app: Option<Seq<char>>,
    mimes: Seq<Seq<char>>,
    text: Option<Seq<char>>,
)
    ensures
        filter.pre_content(app, mimes) == FilterResult::Reject ==> filter.verdict(app, mimes, text)
            == FilterResult::Reject,
        filter.pre_content(app, mimes) != FilterResult::Reject ==> filter.verdict(app, mimes, text)
            == filter.by_content(text),
        filter.pre_content(app, mimes) != FilterResult::Ephemeral,
        filter.by_content(text) != FilterResult::Reject,
{
}

/// An ignored application is rejected whatever it offers, and an application
/// that is listed is ignored under its own name.
pub proof fn law_listed_app_rejected(
    filter: PrivacyFilter,
    i: int,
    mimes: Seq<Seq<char>>,
    text: Option<Seq<char>>,
)
    requires
        0 <= i < filter.apps().len(),
    ensures
        filter.verdict(Some(filter.apps()[i]), mimes, text) == FilterResult::Reject,
{
    let app = filter.apps()[i];
    let lower = lowercase(app);
    assert(crate::text::substring_at(lower, lower, 0)) by {
        assert(lower.subrange(0, lower.len() as int) =~= lower);
    }
    assert(same_app(app, filter.apps()[i]));
}

} // verus!
