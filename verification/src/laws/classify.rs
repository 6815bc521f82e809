//! What classifying an offer is for.

use vstd::prelude::*;

use crate::laws::search::is_letter_or_digit;
use crate::laws::text::law_trim;
use crate::laws::text::lemma_trimmed;
use crate::pipeline::classifier::class_of;
use crate::pipeline::classifier::class_with_text;
use crate::pipeline::classifier::host_part;
use crate::pipeline::classifier::is_domain;
use crate::pipeline::classifier::is_label_char;
use crate::pipeline::classifier::is_url;
use crate::text::is_white_space;
use crate::text::lemma_find_first;
use crate::types::ContentClass;

verus! {

/// The class by types: an image where a PNG or JPEG is offered; else files where
/// a list of files is; else formatted text where HTML and plain text are; else
/// text where plain text is; else none.
pub proof fn law_class_by_types(mimes: Seq<Seq<char>>)
    ensures
        ({
            let image = mimes.contains("image/png"@) || mimes.contains("image/jpeg"@);
            let files = mimes.contains("text/uri-list"@) || mimes.contains(
                "x-special/gnome-copied-files"@,
            );
            let html = mimes.contains("text/html"@);
            let plain = mimes.contains("text/plain"@);
            &&& image ==> class_of(mimes) == Some(ContentClass::Image)
            &&& !image && files ==> class_of(mimes) == Some(ContentClass::Files)
            &&& !image && !files && html && plain ==> class_of(mimes) == Some(
                ContentClass::RichText,
            )
            &&& !image && !files && !html && plain ==> class_of(mimes) == Some(ContentClass::Text)
            &&& !image && !files && !plain ==> class_of(mimes) is None
        }),
{
}

/// Text offered without its content, or beside anything but plain text, is never
/// a URL, and looking at it changes no other class.
pub proof fn law_content_matters_for_text_alone(mimes: Seq<Seq<char>>, text: Seq<char>)
    ensures
        class_with_text(mimes, None) == class_of(mimes),
        class_of(mimes) != Some(ContentClass::Text) ==> class_with_text(mimes, Some(text))
            == class_of(mimes),
        class_of(mimes) == Some(ContentClass::Text) ==> class_with_text(mimes, Some(text)) == Some(
            ContentClass::Text,
        ) || class_with_text(mimes, Some(text)) == Some(ContentClass::Url),
{
}

/// White space around a text has no influence on its class.
pub proof fn law_space_around_a_url(
    mimes: Seq<Seq<char>>,
    lead: Seq<char>,
    core: Seq<char>,
    tail: Seq<char>,
)
    requires
        forall|i: int| 0 <= i < lead.len() ==> is_white_space(#[trigger] lead[i]),
        forall|i: int| 0 <= i < tail.len() ==> is_white_space(#[trigger] tail[i]),
        core.len() > 0 ==> !is_white_space(core[0]) && !is_white_space(core.last()),
    ensures
        class_with_text(mimes, Some(lead + core + tail)) == class_with_text(mimes, Some(core)),
{
    law_trim(lead, core, tail);
    lemma_trimmed(core);
}

proof fn lemma_plain_class()
    ensures
        class_of(seq!["text/plain"@]) == Some(ContentClass::Text),
{
    reveal_strlit("text/plain");
    reveal_strlit("image/png");
    reveal_strlit("image/jpeg");
    reveal_strlit("text/uri-list");
    reveal_strlit("text/html");
    reveal_strlit("x-special/gnome-copied-files");
    let mimes = seq!["text/plain"@];
    assert(mimes[0] == "text/plain"@);
    assert("text/plain"@[0] == 't');
    assert("image/jpeg"@[0] == 'i');
    assert(mimes.contains("text/plain"@));
    assert(!mimes.contains("image/png"@));
    assert(!mimes.contains("image/jpeg"@));
    assert(!mimes.contains("text/uri-list"@));
    assert(!mimes.contains("x-special/gnome-copied-files"@));
    assert(!mimes.contains("text/html"@)) by {
        assert("text/html"@.len() != "text/plain"@.len());
    }
}

proof fn lemma_label_char(c: char)
    ensures
        is_label_char(c) <==> is_letter_or_digit(c) || c == '-' || c == '_',
{
}

/// Labels of letters, digits, hyphens and underscores, none of them empty, with
/// single dots between them, make a URL, with or without a path.
pub proof fn law_domain_is_a_url(host: Seq<char>, path: Seq<char>)
    requires
        host.contains('.'),
        forall|i: int|
            0 <= i < host.len() ==> is_letter_or_digit(#[trigger] host[i]) || host[i] == '-'
                || host[i] == '_' || host[i] == '.',
        host[0] != '.',
        host.last() != '.',
        forall|i: int|
            0 <= i < host.len() - 1 && #[trigger] host[i] == '.' ==> host[i + 1] != '.',
        forall|i: int| 0 <= i < host.len() ==> !is_white_space(#[trigger] host[i]),
        forall|i: int| 0 <= i < path.len() ==> !is_white_space(#[trigger] path[i]),
    ensures
        class_with_text(seq!["text/plain"@], Some(host)) == Some(ContentClass::Url),
        class_with_text(seq!["text/plain"@], Some(host + seq!['/'] + path)) == Some(
            ContentClass::Url,
        ),
{
    lemma_plain_class();
    let slash = |c: char| c == '/';
    let k = choose|k: int| 0 <= k < host.len() && host[k] == '.';
    assert(is_domain(host)) by {
        assert forall|i: int| 0 <= i < host.len() implies (#[trigger] host[i] == '.'
            || is_label_char(host[i])) by {
            lemma_label_char(host[i]);
        }
        assert forall|i: int| 0 <= i < host.len() && #[trigger] host[i] == '.' implies 0 < i && i
            + 1 < host.len() && host[i + 1] != '.' by {
            if i == host.len() - 1 {
                assert(host.last() == '.');
            }
        }
    }
    assert forall|j: int| 0 <= j < host.len() implies !slash(#[trigger] host[j]) by {}
    lemma_find_first(host, slash, host.len() as int);
    assert(host.take(host.len() as int) =~= host);
    assert(host_part(host) == host);
    assert(host[host.len() - 1] == host.last());
    lemma_trimmed(host);
    assert(is_url(host));
    let text = host + seq!['/'] + path;
    assert forall|j: int| 0 <= j < host.len() implies !slash(#[trigger] text[j]) by {
        assert(text[j] == host[j]);
    }
    lemma_find_first(text, slash, host.len() as int);
    assert(text.take(host.len() as int) =~= host);
    assert(host_part(text) == host);
    assert forall|i: int| 0 <= i < text.len() implies !is_white_space(#[trigger] text[i]) by {
        if i < host.len() {
            assert(text[i] == host[i]);
        } else if i > host.len() {
            assert(text[i] == path[i - host.len() - 1]);
        }
    }
    assert(!is_white_space(text[0]) && !is_white_space(text[text.len() - 1]));
    lemma_trimmed(text);
    assert(is_url(text));
}

/// A text without white space that names a web scheme is a URL.
pub proof fn law_scheme_is_a_url(rest: Seq<char>)
    requires
        forall|i: int| 0 <= i < rest.len() ==> !is_white_space(#[trigger] rest[i]),
    ensures
        class_with_text(seq!["text/plain"@], Some("http://"@ + rest)) == Some(ContentClass::Url),
        class_with_text(seq!["text/plain"@], Some("https://"@ + rest)) == Some(ContentClass::Url),
{
    lemma_plain_class();
    reveal_strlit("http://");
    reveal_strlit("https://");
    lemma_no_space_behind("http://"@, rest);
    lemma_no_space_behind("https://"@, rest);
    assert(("http://"@ + rest).subrange(0, "http://"@.len() as int) =~= "http://"@);
    assert(("https://"@ + rest).subrange(0, "https://"@.len() as int) =~= "https://"@);
    lemma_trimmed("http://"@ + rest);
    lemma_trimmed("https://"@ + rest);
}

proof fn lemma_no_space_behind(front: Seq<char>, rest: Seq<char>)
    requires
        front.len() > 0,
        forall|i: int| 0 <= i < front.len() ==> !is_white_space(#[trigger] front[i]),
        forall|i: int| 0 <= i < rest.len() ==> !is_white_space(#[trigger] rest[i]),
    ensures
        forall|i: int|
            0 <= i < (front + rest).len() ==> !is_white_space(#[trigger] (front + rest)[i]),
        !is_white_space((front + rest)[0]),
        !is_white_space((front + rest).last()),
{
    let s = front + rest;
    assert forall|i: int| 0 <= i < s.len() implies !is_white_space(#[trigger] s[i]) by {
        if i < front.len() {
            assert(s[i] == front[i]);
        } else {
            assert(s[i] == rest[i - front.len()]);
        }
    }
    assert(s[s.len() - 1] == s.last());
}

/// A text is no URL where white space stands inside it; nor, without a web
/// scheme, where what stands before its first slash has no dot, begins or ends
/// with one, has two in a row, or holds any other character than letters,
/// digits, hyphens and underscores.
pub proof fn law_what_is_no_url(mimes: Seq<Seq<char>>, text: Seq<char>, k: int, slash: int)
    requires
        text.len() > 0,
        !is_white_space(text[0]),
        !is_white_space(text.last()),
        0 <= slash <= text.len(),
        forall|j: int| 0 <= j < slash ==> text[j] != '/',
        slash < text.len() ==> text[slash] == '/',
        0 <= k < text.len(),
    ensures
        is_white_space(text[k]) ==> class_with_text(mimes, Some(text)) != Some(ContentClass::Url),
        !"http://"@.is_prefix_of(text) && !"https://"@.is_prefix_of(text) ==> {
            &&& !text.take(slash).contains('.') ==> class_with_text(mimes, Some(text)) != Some(
                ContentClass::Url,
            )
            &&& k < slash && !is_letter_or_digit(text[k]) && text[k] != '-' && text[k] != '_'
                && text[k] != '.' ==> class_with_text(mimes, Some(text)) != Some(ContentClass::Url)
            &&& k < slash && text[k] == '.' && (k == 0 || k == slash - 1 || text[k + 1] == '.')
                ==> class_with_text(mimes, Some(text)) != Some(ContentClass::Url)
        },
{
    lemma_trimmed(text);
    lemma_find_first(text, |c: char| c == '/', slash);
    let host = host_part(text);
    assert(host == text.take(slash));
    if k < slash {
        assert(host[k] == text[k]);
        if !is_letter_or_digit(text[k]) && text[k] != '-' && text[k] != '_' && text[k] != '.' {
            lemma_label_char(text[k]);
            assert(!is_label_char(host[k]));
            assert(!is_domain(host));
        }
        if text[k] == '.' && (k == 0 || k == slash - 1 || text[k + 1] == '.') {
            if k + 1 < slash {
                assert(host[k + 1] == text[k + 1]);
            }
            assert(!is_domain(host));
        }
    }
}

} // verus!
