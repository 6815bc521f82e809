//! What the privacy filter is for.

use vstd::prelude::*;

use crate::daemon::server::bad_filter_message;
use crate::pipeline::privacy::first_invalid_pattern;
use crate::pipeline::privacy::has_sensitive_mime;
use crate::pipeline::privacy::invalid_pattern_message;
use crate::pipeline::privacy::is_ignored_app;
use crate::pipeline::privacy::is_sensitive_mime;
use crate::pipeline::privacy::matches_pattern;
use crate::pipeline::privacy::regex_compile;
use crate::pipeline::privacy::regex_is_match;
use crate::pipeline::privacy::same_app;
use crate::pipeline::privacy::FilterResult;
use crate::pipeline::privacy::PrivacyFilter;
use crate::text::decimal;
use crate::text::has_substring;
use crate::text::lowercase;
use crate::text::quoted;
use crate::text::substring_at;

verus! {

/// An application whose identifier holds a listed name, anywhere and in
/// whatever case, is rejected whatever it offers.
pub proof fn law_listed_name_in_identifier(
    filter: PrivacyFilter,
    i: int,
    id: Seq<char>,
    k: int,
    mimes: Seq<Seq<char>>,
    text: Option<Seq<char>>,
)
    requires
        0 <= i < filter.apps().len(),
        0 <= k <= k + lowercase(filter.apps()[i]).len() <= lowercase(id).len(),
        lowercase(id).subrange(k, k + lowercase(filter.apps()[i]).len()) == lowercase(
            filter.apps()[i],
        ),
    ensures
        filter.verdict(Some(id), mimes, text) == FilterResult::Reject,
        filter.pre_content(Some(id), mimes) == FilterResult::Reject,
{
    assert(substring_at(lowercase(id), lowercase(filter.apps()[i]), k));
    assert(same_app(id, filter.apps()[i]));
    assert(is_ignored_app(filter.apps(), id));
}

/// An application whose identifier is part of a listed name, anywhere and in
/// whatever case, is rejected too, unless the identifier is empty.
pub proof fn law_identifier_in_listed_name(
    filter: PrivacyFilter,
    i: int,
    id: Seq<char>,
    k: int,
    mimes: Seq<Seq<char>>,
    text: Option<Seq<char>>,
)
    requires
        0 <= i < filter.apps().len(),
        lowercase(id).len() > 0,
        0 <= k <= k + lowercase(id).len() <= lowercase(filter.apps()[i]).len(),
        lowercase(filter.apps()[i]).subrange(k, k + lowercase(id).len()) == lowercase(id),
    ensures
        filter.verdict(Some(id), mimes, text) == FilterResult::Reject,
{
    assert(substring_at(lowercase(filter.apps()[i]), lowercase(id), k));
    assert(same_app(id, filter.apps()[i]));
    assert(is_ignored_app(filter.apps(), id));
}

/// Nothing else makes an application ignored: where neither name holds the
/// other, for every listed name, the application itself rejects nothing.
pub proof fn law_other_applications_pass(
    filter: PrivacyFilter,
    id: Seq<char>,
    text: Option<Seq<char>>,
)
    requires
        forall|i: int, k: int|
            0 <= i < filter.apps().len() && 0 <= k <= k + lowercase(
                #[trigger] filter.apps()[i],
            ).len() <= lowercase(id).len() ==> #[trigger] lowercase(id).subrange(
                k,
                k + lowercase(filter.apps()[i]).len(),
            ) != lowercase(filter.apps()[i]),
        forall|i: int, k: int|
            0 <= i < filter.apps().len() && 0 <= k <= k + lowercase(id).len() <= lowercase(
                #[trigger] filter.apps()[i],
            ).len() ==> #[trigger] lowercase(filter.apps()[i]).subrange(
                k,
                k + lowercase(id).len(),
            ) != lowercase(id),
    ensures
        filter.verdict(Some(id), Seq::<Seq<char>>::empty(), text) != FilterResult::Reject,
        filter.verdict(None, Seq::<Seq<char>>::empty(), text) != FilterResult::Reject,
{
    assert forall|i: int| 0 <= i < filter.apps().len() implies !same_app(
        id,
        #[trigger] filter.apps()[i],
    ) by {
        let app = lowercase(id);
        let entry = lowercase(filter.apps()[i]);
        if has_substring(app, entry) {
            let k = choose|k: int| #[trigger] substring_at(app, entry, k);
            assert(lowercase(id).subrange(k, k + lowercase(filter.apps()[i]).len()) == entry);
        }
        if has_substring(entry, app) {
            let k = choose|k: int| #[trigger] substring_at(entry, app, k);
            assert(lowercase(filter.apps()[i]).subrange(k, k + lowercase(id).len()) == app);
        }
    }
    assert(!is_ignored_app(filter.apps(), id));
    assert(!has_sensitive_mime(Seq::<Seq<char>>::empty()));
}

/// Content offered under a type that marks it as sensitive is rejected where
/// such marks are respected: one of the three known types, or any type that has
/// the word "password" in it, anywhere and in whatever case.
pub proof fn law_sensitive_types_rejected(
    filter: PrivacyFilter,
    app: Option<Seq<char>>,
    mimes: Seq<Seq<char>>,
    j: int,
    k: int,
    text: Option<Seq<char>>,
)
    requires
        filter.respects_hints(),
        0 <= j < mimes.len(),
        mimes[j] == "x-kde-passwordManagerHint"@ || mimes[j] == "org.nspasteboard.ConcealedType"@
            || mimes[j] == "org.nspasteboard.TransientType"@ || (0 <= k <= lowercase(
            mimes[j],
        ).len() - 8 && lowercase(mimes[j]).subrange(k, k + 8) == seq![
            'p',
            'a',
            's',
            's',
            'w',
            'o',
            'r',
            'd',
        ]),
    ensures
        filter.verdict(app, mimes, text) == FilterResult::Reject,
{
    reveal_strlit("password");
    if 0 <= k <= lowercase(mimes[j]).len() - 8 && lowercase(mimes[j]).subrange(k, k + 8) == seq![
        'p',
        'a',
        's',
        's',
        'w',
        'o',
        'r',
        'd',
    ] {
        assert("password"@ =~= seq!['p', 'a', 's', 's', 'w', 'o', 'r', 'd']);
        assert(substring_at(lowercase(mimes[j]), "password"@, k));
    }
    assert(is_sensitive_mime(mimes[j]));
}

/// Other types reject nothing, and where the marks are not respected no type
/// does: only the application can then be a reason.
pub proof fn law_other_types_pass(
    filter: PrivacyFilter,
    app: Option<Seq<char>>,
    mimes: Seq<Seq<char>>,
    text: Option<Seq<char>>,
)
    requires
        !filter.respects_hints() || forall|j: int|
            0 <= j < mimes.len() ==> {
                &&& #[trigger] mimes[j] != "x-kde-passwordManagerHint"@
                &&& mimes[j] != "org.nspasteboard.ConcealedType"@
                &&& mimes[j] != "org.nspasteboard.TransientType"@
                &&& forall|k: int|
                    0 <= k <= lowercase(mimes[j]).len() - 8 ==> #[trigger] lowercase(
                        mimes[j],
                    ).subrange(k, k + 8) != "password"@
            },
    ensures
        filter.verdict(app, mimes, text) == filter.verdict(app, Seq::<Seq<char>>::empty(), text),
{
    reveal_strlit("password");
    assert(!has_sensitive_mime(Seq::<Seq<char>>::empty()));
    if filter.respects_hints() {
        assert forall|j: int| 0 <= j < mimes.len() implies !is_sensitive_mime(
            #[trigger] mimes[j],
        ) by {
            let lower = lowercase(mimes[j]);
            if has_substring(lower, "password"@) {
                let k = choose|k: int| #[trigger] substring_at(lower, "password"@, k);
                assert(lowercase(mimes[j]).subrange(k, k + 8) == "password"@);
            }
        }
    }
}

/// Content that is not rejected is kept for a while exactly where some pattern
/// matches its text, and for good otherwise.
pub proof fn law_secrets_are_ephemeral(
    filter: PrivacyFilter,
    app: Option<Seq<char>>,
    mimes: Seq<Seq<char>>,
    text: Seq<char>,
)
    requires
        filter.pre_content(app, mimes) != FilterResult::Reject,
    ensures
        (exists|i: int|
            0 <= i < filter.pattern_list().len() && regex_is_match(
                #[trigger] filter.pattern_list()[i],
                text,
            ) == Some(true)) ==> filter.verdict(app, mimes, Some(text)) == FilterResult::Ephemeral,
        (forall|i: int|
            0 <= i < filter.pattern_list().len() ==> regex_is_match(
                #[trigger] filter.pattern_list()[i],
                text,
            ) != Some(true)) ==> filter.verdict(app, mimes, Some(text)) == FilterResult::Allow,
        filter.verdict(app, mimes, None) == FilterResult::Allow,
{
    if exists|i: int|
        0 <= i < filter.pattern_list().len() && regex_is_match(
            #[trigger] filter.pattern_list()[i],
            text,
        ) == Some(true) {
        let i = choose|i: int|
            0 <= i < filter.pattern_list().len() && regex_is_match(
                #[trigger] filter.pattern_list()[i],
                text,
            ) == Some(true);
        assert(matches_pattern(filter.pattern_list(), text));
    }
}

/// Of several patterns that are no regular expressions the first is reported,
/// by its place, counted from zero, and with the reason; there is none to
/// report where every pattern compiles.
pub proof fn law_first_bad_pattern(patterns: Seq<Seq<char>>, i: int, j: int)
    requires
        first_invalid_pattern(patterns, i),
    ensures
        0 <= i < patterns.len(),
        regex_compile(patterns[i]) is Err,
        0 <= j < i ==> regex_compile(patterns[j]) is Ok,
        first_invalid_pattern(patterns, j) ==> i == j,
        regex_compile(patterns[i]) matches Err(why) ==> invalid_pattern_message(patterns, i)
            == "invalid regex pattern at index "@ + decimal(i as nat) + " ("@ + quoted(patterns[i])
            + "): "@ + why,
        bad_filter_message(patterns, i)
            == "invalid privacy filter config: configuration error: "@ + invalid_pattern_message(
            patterns,
            i,
        ),
{
    reveal_strlit("invalid privacy filter config: ");
    reveal_strlit("configuration error: ");
    reveal_strlit("invalid privacy filter config: configuration error: ");
    assert("invalid privacy filter config: "@ + "configuration error: "@
        =~= "invalid privacy filter config: configuration error: "@);
    assert(bad_filter_message(patterns, i) =~= "invalid privacy filter config: "@
        + "configuration error: "@ + invalid_pattern_message(patterns, i));
}

/// The case of ASCII letters makes no difference to an application.
pub proof fn law_case_of_letters(a: Seq<char>, i: int)
    requires
        vstd::utf8::is_ascii_chars(a),
        0 <= i < a.len(),
    ensures
        lowercase(a).len() == a.len(),
        'A' <= a[i] <= 'Z' ==> lowercase(a)[i] as int == a[i] as int + 32,
        !('A' <= a[i] <= 'Z') ==> lowercase(a)[i] == a[i],
{
}

} // verus!
