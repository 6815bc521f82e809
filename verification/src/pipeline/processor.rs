//! Content processing: turns the payloads of a clipboard offer into a
//! [`ProcessedEntry`].

use vstd::prelude::*;

use crate::digest::blake3_digest;
use crate::digest::blake3_hash;
use crate::error::NixClipError;
use crate::error::Result;
use crate::pipeline::classifier::class_with_text;
use crate::pipeline::classifier::classify_with_content;
use crate::pipeline::thumbnail::decode_and_thumbnail;
use crate::pipeline::thumbnail::image_decode;
use crate::pipeline::thumbnail::is_encoding_failure;
use crate::pipeline::thumbnail::is_thumbnail;
use crate::text::find_first;
use crate::text::from_chars;
use crate::text::from_utf8_lossy;
use crate::text::is_white_space;
use crate::text::join;
use crate::text::join_texts;
use crate::text::lemma_find_first;
use crate::text::lemma_trim_ends;
use crate::text::lossy_text;
use crate::text::same_text;
use crate::text::split_chars;
use crate::text::split_on;
use crate::text::starts_with;
use crate::text::sub_chars;
use crate::text::texts;
use crate::text::to_chars;
use crate::text::trim;
use crate::text::trim_chars;
use crate::types::optional_text;
use crate::types::payloads;
use crate::types::ContentClass;
use crate::types::EntryMetadata;
use crate::types::MimePayload;
use crate::types::PayloadView;
use crate::types::ProcessedEntry;

verus! {

/// Maximum number of *characters* (not bytes) kept in a preview.
pub const PREVIEW_CHAR_LIMIT: usize = 32_768;

// ---------------------------------------------------------------------------
// Truncation
// ---------------------------------------------------------------------------

/// The first `limit` characters of a text, or all of it where it is shorter.
pub open spec fn truncated(s: Seq<char>, limit: int) -> Seq<char> {
    if s.len() <= limit {
        s
    } else {
        s.take(limit)
    }
}

/// Truncate `s` to at most `limit` Unicode scalar values (chars).
pub fn truncate_chars(s: &str, limit: usize) -> (r: String)
    ensures
        r@ == truncated(s@, limit as int),
{
    let chars = to_chars(s);
    if chars.len() <= limit {
        return s.to_owned();
    }
    let kept = sub_chars(&chars, 0, limit);
    assert(kept@ =~= s@.take(limit as int));
    from_chars(&kept)
}

// ---------------------------------------------------------------------------
// Domains
// ---------------------------------------------------------------------------

/// The URL without its web scheme.
pub open spec fn without_scheme(url: Seq<char>) -> Seq<char> {
    if "http://"@.is_prefix_of(url) {
        url.skip(7)
    } else if "https://"@.is_prefix_of(url) {
        url.skip(8)
    } else {
        url
    }
}

/// A character that ends the host of a URL.
pub open spec fn ends_host(c: char) -> bool {
    c == '/' || c == '?' || c == '#' || c == ':'
}

/// The host of a URL, where it has one: what stands between the scheme and
/// the path, query, fragment or port.
pub open spec fn domain_of(url: Seq<char>) -> Option<Seq<char>> {
    let rest = without_scheme(url);
    let host = rest.take(find_first(rest, |c: char| ends_host(c)));
    if host.len() == 0 {
        None
    } else {
        Some(host)
    }
}

/// Extract the domain (host) from a URL string.
///
/// Handles both scheme-prefixed URLs (`http://example.com/path`) and bare
/// domain-style strings (`example.com/path`).
pub fn extract_domain(url: &str) -> (r: Option<String>)
    ensures
        optional_text(r) == domain_of(url@),
{
    let chars = to_chars(url);
    proof {
        reveal_strlit("http://");
        reveal_strlit("https://");
    }
    let from: usize = if starts_with(&chars, "http://") {
        7
    } else if starts_with(&chars, "https://") {
        8
    } else {
        0
    };
    let ghost rest = without_scheme(url@);
    assert(rest =~= chars@.skip(from as int));
    let mut end: usize = from;
    while end < chars.len() && !(chars[end] == '/' || chars[end] == '?' || chars[end] == '#'
        || chars[end] == ':')
        invariant
            from <= end <= chars@.len(),
            rest == chars@.skip(from as int),
            forall|j: int| 0 <= j < end - from ==> !ends_host(#[trigger] rest[j]),
        decreases chars@.len() - end,
    {
        assert(rest[end - from] == chars@[end as int]);
        end += 1;
    }
    proof {
        if end < chars@.len() {
            assert(rest[end - from] == chars@[end as int]);
        }
        lemma_find_first(rest, |c: char| ends_host(c), end - from);
        assert(rest.take(end - from) =~= chars@.subrange(from as int, end as int));
    }
    if end == from {
        None
    } else {
        let host = sub_chars(&chars, from, end);
        Some(from_chars(&host))
    }
}

// ---------------------------------------------------------------------------
// File names
// ---------------------------------------------------------------------------

/// The value of a hexadecimal digit.
pub open spec fn hex_value(c: char) -> Option<int> {
    if '0' <= c <= '9' {
        Some(c as int - '0' as int)
    } else if 'a' <= c <= 'f' {
        Some(c as int - 'a' as int + 10)
    } else if 'A' <= c <= 'F' {
        Some(c as int - 'A' as int + 10)
    } else {
        None
    }
}

/// The number that two characters stand for: two hexadecimal digits, or a plus
/// sign and one.
pub open spec fn hex_pair(h1: char, h2: char) -> Option<int> {
    match (hex_value(h1), hex_value(h2)) {
        (Some(a), Some(b)) => Some(16 * a + b),
        (None, Some(b)) if h1 == '+' => Some(b),
        _ => None,
    }
}

/// A text with each percent escape of an ASCII character replaced by that
/// character. Every other escape, and one that is cut off, stays as it is.
pub open spec fn percent_decoded(s: Seq<char>) -> Seq<char>
    decreases s.len(),
{
    if s.len() == 0 {
        s
    } else if s[0] != '%' {
        seq![s[0]] + percent_decoded(s.skip(1))
    } else if s.len() < 3 {
        s
    } else {
        match hex_pair(s[1], s[2]) {
            Some(byte) if byte < 128 => seq![byte as char] + percent_decoded(s.skip(3)),
            _ => s.take(3) + percent_decoded(s.skip(3)),
        }
    }
}

/// The value of a hexadecimal digit.
fn hex_digit(c: char) -> (r: Option<u8>)
    ensures
        match (r, hex_value(c)) {
            (Some(a), Some(b)) => a == b,
            (None, None) => true,
            _ => false,
        },
        r matches Some(a) ==> a < 16,
{
    if '0' <= c && c <= '9' {
        Some((c as u32 - '0' as u32) as u8)
    } else if 'a' <= c && c <= 'f' {
        Some((c as u32 - 'a' as u32 + 10) as u8)
    } else if 'A' <= c && c <= 'F' {
        Some((c as u32 - 'A' as u32 + 10) as u8)
    } else {
        None
    }
}

/// The ASCII character that a percent escape stands for, if it stands for one.
fn escaped_ascii(h1: char, h2: char) -> (r: Option<u8>)
    ensures
        match (r, hex_pair(h1, h2)) {
            (Some(a), Some(b)) => a == b && b < 128,
            (None, Some(b)) => b >= 128,
            (None, None) => true,
            _ => false,
        },
{
    let low: u8 = match hex_digit(h2) {
        Some(b) => b,
        None => return None,
    };
    let high: u8 = match hex_digit(h1) {
        Some(a) => a,
        None => {
            if h1 == '+' {
                0
            } else {
                return None;
            }
        },
    };
    let byte: u8 = 16 * high + low;
    if byte < 128 {
        Some(byte)
    } else {
        None
    }
}

/// Minimal percent-decoding for filenames extracted from `file://` URIs.
pub fn percent_decode(s: &str) -> (r: String)
    ensures
        r@ == percent_decoded(s@),
{
    let chars = to_chars(s);
    let mut out = String::new();
    let mut i: usize = 0;
    assert(out@ + percent_decoded(chars@.skip(0)) =~= percent_decoded(chars@)) by {
        assert(chars@.skip(0) =~= chars@);
    }
    while i < chars.len()
        invariant
            i <= chars@.len(),
            out@ + percent_decoded(chars@.skip(i as int)) == percent_decoded(chars@),
        decreases chars@.len() - i,
    {
        let c = chars[i];
        let ghost rest = chars@.skip(i as int);
        let ghost before = out@;
        if c != '%' {
            out.push(c);
            i += 1;
            assert(rest.skip(1) =~= chars@.skip(i as int));
            assert(before + (seq![c] + percent_decoded(rest.skip(1))) =~= out@ + percent_decoded(
                chars@.skip(i as int),
            ));
        } else if chars.len() - i < 3 {
            while i < chars.len()
                invariant
                    i <= chars@.len(),
                    out@ + chars@.skip(i as int) == percent_decoded(chars@),
                decreases chars@.len() - i,
            {
                out.push(chars[i]);
                assert(out@ + chars@.skip(i + 1) =~= out@.drop_last() + chars@.skip(i as int));
                i += 1;
            }
            assert(percent_decoded(chars@.skip(i as int)) =~= chars@.skip(i as int));
        } else {
            let h1 = chars[i + 1];
            let h2 = chars[i + 2];
            match escaped_ascii(h1, h2) {
                Some(byte) => {
                    out.push(byte as char);
                    assert(before + (seq![byte as char] + percent_decoded(rest.skip(3))) =~= out@
                        + percent_decoded(rest.skip(3)));
                },
                None => {
                    out.push('%');
                    out.push(h1);
                    out.push(h2);
                    assert(before + (rest.take(3) + percent_decoded(rest.skip(3))) =~= out@
                        + percent_decoded(rest.skip(3)));
                },
            }
            i += 3;
            assert(rest.skip(3) =~= chars@.skip(i as int));
        }
    }
    assert(out@ + percent_decoded(chars@.skip(i as int)) =~= out@);
    out
}

/// A path without the slashes at its end.
pub open spec fn without_trailing_slashes(path: Seq<char>) -> Seq<char>
    decreases path.len(),
{
    if path.len() > 0 && path.last() == '/' {
        without_trailing_slashes(path.drop_last())
    } else {
        path
    }
}

/// What stands after the last slash.
pub open spec fn after_last_slash(path: Seq<char>) -> Seq<char>
    decreases path.len(),
{
    if path.len() == 0 || path.last() == '/' {
        Seq::<char>::empty()
    } else {
        after_last_slash(path.drop_last()).push(path.last())
    }
}

/// The last segment of a path that is not empty; the path itself where there
/// is none.
pub open spec fn last_segment(path: Seq<char>) -> Seq<char> {
    let trimmed = without_trailing_slashes(path);
    if trimmed.len() == 0 {
        path
    } else {
        after_last_slash(trimmed)
    }
}

/// The path of a `file://` URI, given what follows the two slashes: what
/// follows the host, where there is one.
pub open spec fn path_of(rest: Seq<char>) -> Seq<char> {
    let slash = find_first(rest, |c: char| c == '/');
    if 0 < slash < rest.len() {
        rest.skip(slash + 1)
    } else {
        rest
    }
}

/// The name under which a URI is shown: the decoded last segment of a
/// `file://` URI, any other URI as it is.
pub open spec fn file_name(uri: Seq<char>) -> Seq<char> {
    if "file://"@.is_prefix_of(uri) {
        percent_decoded(last_segment(path_of(uri.skip(7))))
    } else {
        uri
    }
}

proof fn lemma_without_trailing_slashes(path: Seq<char>, i: int)
    requires
        0 <= i <= path.len(),
        forall|j: int| i <= j < path.len() ==> path[j] == '/',
        i > 0 ==> path[i - 1] != '/',
    ensures
        without_trailing_slashes(path) == path.take(i),
    decreases path.len(),
{
    if i < path.len() {
        assert(path[path.len() - 1] == '/');
        lemma_without_trailing_slashes(path.drop_last(), i);
        assert(path.drop_last().take(i) =~= path.take(i));
    } else {
        assert(path.take(i) =~= path);
    }
}

proof fn lemma_after_last_slash(path: Seq<char>, i: int)
    requires
        0 <= i <= path.len(),
        forall|j: int| i <= j < path.len() ==> path[j] != '/',
        i > 0 ==> path[i - 1] == '/',
    ensures
        after_last_slash(path) == path.skip(i),
    decreases path.len(),
{
    if i < path.len() {
        assert(path[path.len() - 1] != '/');
        lemma_after_last_slash(path.drop_last(), i);
        assert(path.drop_last().skip(i).push(path.last()) =~= path.skip(i));
    } else {
        assert(path.skip(i) =~= Seq::<char>::empty());
    }
}

/// The last segment of a path that is not empty; the path itself where there
/// is none.
fn find_last_segment(path: &Vec<char>) -> (r: Vec<char>)
    ensures
        r@ == last_segment(path@),
{
    let mut end: usize = path.len();
    while end > 0 && path[end - 1] == '/'
        invariant
            end <= path@.len(),
            forall|j: int| end <= j < path@.len() ==> path@[j] == '/',
        decreases end,
    {
        end -= 1;
    }
    proof {
        lemma_without_trailing_slashes(path@, end as int);
    }
    if end == 0 {
        return sub_chars(path, 0, path.len());
    }
    let mut from: usize = end;
    while from > 0 && path[from - 1] != '/'
        invariant
            from <= end <= path@.len(),
            forall|j: int| from <= j < end ==> path@[j] != '/',
        decreases from,
    {
        from -= 1;
    }
    proof {
        lemma_after_last_slash(path@.take(end as int), from as int);
        assert(path@.take(end as int).skip(from as int) =~= path@.subrange(
            from as int,
            end as int,
        ));
    }
    sub_chars(path, from, end)
}

/// Extract a human-readable filename from a URI.
///
/// For `file://` URIs the path component's last segment is returned (percent-
/// decoded where possible). For other schemes the full URI is returned as-is.
pub fn extract_filename_from_uri(uri: &str) -> (r: String)
    ensures
        r@ == file_name(uri@),
{
    let chars = to_chars(uri);
    proof {
        reveal_strlit("file://");
    }
    if !starts_with(&chars, "file://") {
        return uri.to_owned();
    }
    let rest = sub_chars(&chars, 7, chars.len());
    assert(rest@ =~= uri@.skip(7));
    let mut slash: usize = 0;
    while slash < rest.len() && rest[slash] != '/'
        invariant
            slash <= rest@.len(),
            forall|j: int| 0 <= j < slash ==> rest@[j] != '/',
        decreases rest@.len() - slash,
    {
        slash += 1;
    }
    proof {
        lemma_find_first(rest@, |c: char| c == '/', slash as int);
    }
    let path = if 0 < slash && slash < rest.len() {
        let p = sub_chars(&rest, slash + 1, rest.len());
        assert(p@ =~= rest@.skip(slash + 1));
        p
    } else {
        rest
    };
    let name = find_last_segment(&path);
    let shown = from_chars(&name);
    percent_decode(shown.as_str())
}

// ---------------------------------------------------------------------------
// URI lists
// ---------------------------------------------------------------------------

/// A line of a URI list that names a file: neither empty nor a comment.
pub open spec fn is_uri_line(line: Seq<char>) -> bool {
    line.len() > 0 && line[0] != '#'
}

/// The names of the files in the first `n` lines.
pub open spec fn names_in(lines: Seq<Seq<char>>, n: int) -> Seq<Seq<char>>
    decreases n,
{
    if n <= 0 {
        Seq::<Seq<char>>::empty()
    } else {
        let line = trim(lines[n - 1]);
        if is_uri_line(line) {
            names_in(lines, n - 1).push(file_name(line))
        } else {
            names_in(lines, n - 1)
        }
    }
}

/// The names of the files that a URI list holds, in its order: one for each
/// line that, without white space at its ends, is neither empty nor a comment.
pub open spec fn listed_files(text: Seq<char>) -> Seq<Seq<char>> {
    let lines = split_on(text, '\n');
    names_in(lines, lines.len() as int)
}

/// The names of the files that a URI list holds.
pub fn list_files(text: &str) -> (r: Vec<String>)
    ensures
        texts(r@) == listed_files(text@),
{
    let chars = to_chars(text);
    let lines = split_chars(&chars, '\n');
    let ghost all = split_on(text@, '\n');
    let mut names: Vec<String> = Vec::new();
    let mut i: usize = 0;
    assert(texts(names@) =~= Seq::<Seq<char>>::empty());
    while i < lines.len()
        invariant
            i <= lines@.len(),
            lines@.map_values(|x: Vec<char>| x@) == all,
            texts(names@) == names_in(all, i as int),
        decreases lines@.len() - i,
    {
        assert(all[i as int] == lines@[i as int]@);
        let line = trim_chars(&lines[i]);
        if line.len() > 0 && line[0] != '#' {
            let uri = from_chars(&line);
            let name = extract_filename_from_uri(uri.as_str());
            let ghost before = texts(names@);
            names.push(name);
            assert(texts(names@) =~= before.push(file_name(line@)));
        }
        i += 1;
    }
    assert(lines@.len() == all.len());
    names
}

// ---------------------------------------------------------------------------
// HTML
// ---------------------------------------------------------------------------

/// Whether a text ends inside a tag.
pub open spec fn in_tag(html: Seq<char>) -> bool
    decreases html.len(),
{
    if html.len() == 0 {
        false
    } else if html.last() == '<' {
        true
    } else if html.last() == '>' {
        false
    } else {
        in_tag(html.drop_last())
    }
}

/// A text without its tags; a space stands where each one began.
pub open spec fn untagged(html: Seq<char>) -> Seq<char>
    decreases html.len(),
{
    if html.len() == 0 {
        html
    } else if html.last() == '<' {
        untagged(html.drop_last()).push(' ')
    } else if html.last() == '>' || in_tag(html.drop_last()) {
        untagged(html.drop_last())
    } else {
        untagged(html.drop_last()).push(html.last())
    }
}

/// A text with each run of white space replaced by one space.
pub open spec fn collapsed(s: Seq<char>) -> Seq<char>
    decreases s.len(),
{
    if s.len() == 0 {
        s
    } else {
        let before = collapsed(s.drop_last());
        if !is_white_space(s.last()) {
            before.push(s.last())
        } else if before.len() > 0 && before.last() == ' ' {
            before
        } else {
            before.push(' ')
        }
    }
}

/// The text that an HTML fragment shows: no tags, single spaces, no white
/// space at the ends.
pub open spec fn html_text(html: Seq<char>) -> Seq<char> {
    trim(collapsed(untagged(html)))
}

/// Strip HTML tags using a simple state machine.
///
/// Collapses runs of whitespace and trims the result.
pub fn strip_html_tags(html: &str) -> (r: String)
    ensures
        r@ == html_text(html@),
{
    let chars = to_chars(html);
    let mut out: Vec<char> = Vec::new();
    let mut inside: bool = false;
    let mut last_was_space: bool = false;
    let mut i: usize = 0;
    assert(chars@.take(0) =~= Seq::<char>::empty());
    while i < chars.len()
        invariant
            i <= chars@.len(),
            inside == in_tag(chars@.take(i as int)),
            out@ == collapsed(untagged(chars@.take(i as int))),
            last_was_space == (out@.len() > 0 && out@.last() == ' '),
        decreases chars@.len() - i,
    {
        let c = chars[i];
        let ghost done = chars@.take(i as int);
        let ghost now = chars@.take(i + 1);
        assert(now.drop_last() =~= done);
        assert(now.last() == c);
        if c == '<' {
            inside = true;
            assert(untagged(done).push(' ').drop_last() =~= untagged(done));
            if !last_was_space {
                out.push(' ');
                last_was_space = true;
            }
        } else if c == '>' {
            inside = false;
        } else if inside {
        } else if c.is_whitespace() {
            assert(untagged(done).push(c).drop_last() =~= untagged(done));
            if !last_was_space {
                out.push(' ');
                last_was_space = true;
            }
        } else {
            assert(untagged(done).push(c).drop_last() =~= untagged(done));
            out.push(c);
            last_was_space = false;
        }
        i += 1;
    }
    assert(chars@.take(chars@.len() as int) =~= chars@);
    let shown = trim_chars(&out);
    from_chars(&shown)
}

proof fn lemma_untagged_plain(html: Seq<char>)
    ensures
        forall|i: int|
            0 <= i < untagged(html).len() ==> #[trigger] untagged(html)[i] != '<' && untagged(
                html,
            )[i] != '>',
    decreases html.len(),
{
    if html.len() > 0 {
        let before = untagged(html.drop_last());
        lemma_untagged_plain(html.drop_last());
        assert forall|i: int| 0 <= i < untagged(html).len() implies #[trigger] untagged(html)[i]
            != '<' && untagged(html)[i] != '>' by {
            if i < before.len() {
                assert(untagged(html)[i] == before[i]);
            }
        }
    }
}

proof fn lemma_collapsed(s: Seq<char>)
    ensures
        forall|i: int|
            0 <= i < collapsed(s).len() ==> (#[trigger] collapsed(s)[i] == ' ' || (!is_white_space(
                collapsed(s)[i],
            ) && s.contains(collapsed(s)[i]))),
        forall|i: int|
            0 <= i < collapsed(s).len() - 1 ==> !(#[trigger] collapsed(s)[i] == ' ' && collapsed(
                s,
            )[i + 1] == ' '),
    decreases s.len(),
{
    if s.len() > 0 {
        let t = s.drop_last();
        lemma_collapsed(t);
        assert forall|i: int| 0 <= i < collapsed(s).len() implies (#[trigger] collapsed(s)[i] == ' '
            || (!is_white_space(collapsed(s)[i]) && s.contains(collapsed(s)[i]))) by {
            if i < collapsed(t).len() {
                assert(collapsed(s)[i] == collapsed(t)[i]);
                if collapsed(t)[i] != ' ' {
                    let k = choose|k: int| 0 <= k < t.len() && t[k] == collapsed(t)[i];
                    assert(s[k] == collapsed(s)[i]);
                }
            } else if !is_white_space(s.last()) {
                assert(s[s.len() - 1] == collapsed(s)[i]);
            }
        }
        assert forall|i: int| 0 <= i < collapsed(s).len() - 1 implies !(#[trigger] collapsed(s)[i]
            == ' ' && collapsed(s)[i + 1] == ' ') by {
            if i < collapsed(t).len() {
                assert(collapsed(s)[i] == collapsed(t)[i]);
            }
            if i + 1 < collapsed(t).len() {
                assert(collapsed(s)[i + 1] == collapsed(t)[i + 1]);
            }
        }
    }
}

/// Stripped text holds no angle bracket and no white space but single spaces
/// between words.
pub proof fn law_stripped_text_is_clean(html: Seq<char>)
    ensures
        forall|i: int|
            0 <= i < html_text(html).len() ==> #[trigger] html_text(html)[i] != '<' && html_text(
                html,
            )[i] != '>' && (is_white_space(html_text(html)[i]) ==> html_text(html)[i] == ' '),
        forall|i: int|
            0 <= i < html_text(html).len() - 1 ==> !(#[trigger] html_text(html)[i] == ' '
                && html_text(html)[i + 1] == ' '),
        html_text(html).len() > 0 ==> html_text(html)[0] != ' ' && html_text(html).last() != ' ',
{
    let u = untagged(html);
    let c = collapsed(u);
    let t = html_text(html);
    lemma_untagged_plain(html);
    lemma_collapsed(u);
    lemma_trim_ends(c);
    crate::text::lemma_trim_is_subrange(c);
    let from = choose|from: int| 0 <= from <= from + t.len() <= c.len() && t == #[trigger] c.subrange(
        from,
        from + t.len(),
    );
    assert forall|i: int| 0 <= i < t.len() implies #[trigger] t[i] != '<' && t[i] != '>' && (
    is_white_space(t[i]) ==> t[i] == ' ') by {
        assert(t[i] == c[from + i]);
        if c[from + i] != ' ' {
            assert(u.contains(c[from + i]));
            let k = choose|k: int| 0 <= k < u.len() && u[k] == c[from + i];
            assert(u[k] != '<' && u[k] != '>');
        }
    }
    assert forall|i: int| 0 <= i < t.len() - 1 implies !(#[trigger] t[i] == ' ' && t[i + 1]
        == ' ') by {
        assert(t[i] == c[from + i]);
        assert(t[i + 1] == c[from + i + 1]);
    }
}

// ---------------------------------------------------------------------------
// Offers
// ---------------------------------------------------------------------------

/// The first payload offered under a MIME type.
pub open spec fn first_offer(offers: Seq<PayloadView>, mime: Seq<char>) -> Option<PayloadView>
    decreases offers.len(),
{
    if offers.len() == 0 {
        None
    } else if offers[0].mime == mime {
        Some(offers[0])
    } else {
        first_offer(offers.drop_first(), mime)
    }
}

/// The first payload offered under one of two MIME types, the first of them
/// preferred.
pub open spec fn first_of_two(offers: Seq<PayloadView>, a: Seq<char>, b: Seq<char>) -> Option<
    PayloadView,
> {
    match first_offer(offers, a) {
        Some(p) => Some(p),
        None => first_offer(offers, b),
    }
}

/// The MIME types of an offer.
pub open spec fn mimes_of(offers: Seq<PayloadView>) -> Seq<Seq<char>> {
    offers.map_values(|p: PayloadView| p.mime)
}

pub proof fn lemma_first_offer(offers: Seq<PayloadView>, mime: Seq<char>, i: int)
    requires
        0 <= i <= offers.len(),
        forall|j: int| 0 <= j < i ==> (#[trigger] offers[j]).mime != mime,
        i < offers.len() ==> offers[i].mime == mime,
    ensures
        first_offer(offers, mime) == if i < offers.len() {
            Some(offers[i])
        } else {
            None
        },
    decreases offers.len(),
{
    if i > 0 {
        assert(offers[0].mime != mime);
        let rest = offers.drop_first();
        assert forall|j: int| 0 <= j < i - 1 implies (#[trigger] rest[j]).mime != mime by {
            assert(rest[j] == offers[j + 1]);
        }
        lemma_first_offer(rest, mime, i - 1);
    }
}

/// A MIME type is offered exactly where there is a first payload of it, and
/// that payload is of that type and among the offers.
pub proof fn lemma_offered(offers: Seq<PayloadView>, mime: Seq<char>)
    ensures
        mimes_of(offers).contains(mime) <==> first_offer(offers, mime) is Some,
        first_offer(offers, mime) matches Some(p) ==> p.mime == mime && offers.contains(p),
    decreases offers.len(),
{
    if offers.len() > 0 {
        let rest = offers.drop_first();
        lemma_offered(rest, mime);
        if offers[0].mime == mime {
            assert(mimes_of(offers)[0] == mime);
        } else {
            if mimes_of(rest).contains(mime) {
                let k = choose|k: int| 0 <= k < rest.len() && mimes_of(rest)[k] == mime;
                assert(mimes_of(offers)[k + 1] == mime);
            }
            if mimes_of(offers).contains(mime) {
                let k = choose|k: int| 0 <= k < offers.len() && mimes_of(offers)[k] == mime;
                assert(mimes_of(rest)[k - 1] == mime);
            }
            if let Some(p) = first_offer(rest, mime) {
                let k = choose|k: int| 0 <= k < rest.len() && rest[k] == p;
                assert(offers[k + 1] == p);
            }
        }
    }
}

/// Where the first payload of a MIME type stands among the offers.
fn find_offer(offers: &Vec<MimePayload>, mime: &str) -> (r: Option<usize>)
    ensures
        match r {
            Some(i) => i < offers@.len() && first_offer(payloads(offers@), mime@) == Some(
                offers@[i as int]@,
            ),
            None => first_offer(payloads(offers@), mime@) is None,
        },
{
    let ghost all = payloads(offers@);
    let mut i: usize = 0;
    while i < offers.len()
        invariant
            i <= offers@.len(),
            all == payloads(offers@),
            forall|j: int| 0 <= j < i ==> (#[trigger] all[j]).mime != mime@,
        decreases offers@.len() - i,
    {
        assert(all[i as int] == offers@[i as int]@);
        if same_text(offers[i].mime.as_str(), mime) {
            proof {
                lemma_first_offer(all, mime@, i as int);
            }
            return Some(i);
        }
        i += 1;
    }
    proof {
        lemma_first_offer(all, mime@, all.len() as int);
    }
    None
}

/// The MIME types of an offer.
fn offered_mimes(offers: &Vec<MimePayload>) -> (r: Vec<String>)
    ensures
        texts(r@) == mimes_of(payloads(offers@)),
{
    let ghost all = mimes_of(payloads(offers@));
    let mut out: Vec<String> = Vec::new();
    let mut i: usize = 0;
    while i < offers.len()
        invariant
            i <= offers@.len(),
            all == mimes_of(payloads(offers@)),
            texts(out@) =~= all.take(i as int),
        decreases offers@.len() - i,
    {
        let ghost before = texts(out@);
        out.push(offers[i].mime.clone());
        assert(texts(out@) =~= before.push(offers@[i as int].mime@));
        assert(payloads(offers@)[i as int] == offers@[i as int]@);
        assert(all[i as int] == offers@[i as int].mime@);
        assert(all.take(i + 1) =~= all.take(i as int).push(all[i as int]));
        i += 1;
    }
    assert(all.take(all.len() as int) =~= all);
    out
}

// ---------------------------------------------------------------------------
// Processed entries
// ---------------------------------------------------------------------------

/// What a processed entry holds.
pub struct ProcessedView {
    pub content_class: ContentClass,
    pub preview: Option<Seq<char>>,
    pub canonical_hash: Seq<u8>,
    pub representations: Seq<PayloadView>,
    pub thumbnail: Option<Seq<u8>>,
    pub image_dimensions: Option<(u32, u32)>,
    pub file_count: Option<nat>,
    pub url_domain: Option<Seq<char>>,
}

impl View for ProcessedEntry {
    type V = ProcessedView;

    open spec fn view(&self) -> ProcessedView {
        ProcessedView {
            content_class: self.content_class,
            preview: optional_text(self.preview_text),
            canonical_hash: self.canonical_hash@,
            representations: payloads(self.representations@),
            thumbnail: match self.thumbnail {
                Some(t) => Some(t@),
                None => None,
            },
            image_dimensions: self.metadata.image_dimensions,
            file_count: match self.metadata.file_count {
                Some(n) => Some(n as nat),
                None => None,
            },
            url_domain: optional_text(self.metadata.url_domain),
        }
    }
}

/// A preview of a text.
pub open spec fn preview_of(text: Seq<char>) -> Seq<char> {
    truncated(text, PREVIEW_CHAR_LIMIT as int)
}

/// A preview never holds more characters than the limit, and a text within
/// the limit is its own preview.
pub proof fn law_preview_length(text: Seq<char>)
    ensures
        preview_of(text).len() <= PREVIEW_CHAR_LIMIT,
        preview_of(text).is_prefix_of(text),
        text.len() <= PREVIEW_CHAR_LIMIT ==> preview_of(text) == text,
{
    assert(text.subrange(0, text.len() as int) =~= text);
}

/// The entry of plain text, given its bytes and their hash.
pub open spec fn text_view(
    offers: Seq<PayloadView>,
    plain: Seq<u8>,
    hash: Seq<u8>,
) -> ProcessedView {
    ProcessedView {
        content_class: ContentClass::Text,
        preview: Some(preview_of(lossy_text(plain))),
        canonical_hash: hash,
        representations: offers,
        thumbnail: None,
        image_dimensions: None,
        file_count: None,
        url_domain: None,
    }
}

/// The entry of a URL, given its bytes and their hash.
pub open spec fn url_view(
    offers: Seq<PayloadView>,
    plain: Seq<u8>,
    hash: Seq<u8>,
) -> ProcessedView {
    ProcessedView {
        content_class: ContentClass::Url,
        preview: Some(preview_of(trim(lossy_text(plain)))),
        canonical_hash: hash,
        representations: offers,
        thumbnail: None,
        image_dimensions: None,
        file_count: None,
        url_domain: domain_of(trim(lossy_text(plain))),
    }
}

/// The entry of formatted text, given its HTML, its plain text, where there is
/// any, and the hash of the HTML.
pub open spec fn richtext_view(
    html: PayloadView,
    plain: Option<PayloadView>,
    hash: Seq<u8>,
) -> ProcessedView {
    ProcessedView {
        content_class: ContentClass::RichText,
        preview: Some(
            preview_of(
                trim(
                    match plain {
                        Some(p) => lossy_text(p.data),
                        None => html_text(lossy_text(html.data)),
                    },
                ),
            ),
        ),
        canonical_hash: hash,
        representations: match plain {
            Some(p) => seq![html, p],
            None => seq![html],
        },
        thumbnail: None,
        image_dimensions: None,
        file_count: None,
        url_domain: None,
    }
}

/// The entry of a file list, given its bytes and their hash.
pub open spec fn files_view(
    offers: Seq<PayloadView>,
    list: Seq<u8>,
    hash: Seq<u8>,
) -> ProcessedView {
    let names = listed_files(lossy_text(list));
    ProcessedView {
        content_class: ContentClass::Files,
        preview: Some(preview_of(join(names, "\n"@))),
        canonical_hash: hash,
        representations: offers,
        thumbnail: None,
        image_dimensions: None,
        file_count: Some(names.len()),
        url_domain: None,
    }
}

/// The entry of an image, given the hash of its bytes and what came of
/// decoding them: a thumbnail and the dimensions of the image, or nothing.
pub open spec fn image_view(
    offers: Seq<PayloadView>,
    decoded: Option<(Seq<u8>, (u32, u32))>,
    hash: Seq<u8>,
) -> ProcessedView {
    ProcessedView {
        content_class: ContentClass::Image,
        preview: None,
        canonical_hash: hash,
        representations: offers,
        thumbnail: match decoded {
            Some((thumb, _)) => Some(thumb),
            None => None,
        },
        image_dimensions: match decoded {
            Some((_, dimensions)) => Some(dimensions),
            None => None,
        },
        file_count: None,
        url_domain: None,
    }
}

/// What decoding and scaling down an image can come to: nothing where the
/// image cannot be decoded or its thumbnail cannot be encoded; otherwise a
/// thumbnail and the dimensions of the image.
pub open spec fn image_outcome(
    image: PayloadView,
    decoded: Option<(Seq<u8>, (u32, u32))>,
) -> bool {
    let png = image.mime == "image/png"@;
    match (image_decode(image.data, png), decoded) {
        (Ok(dimensions), Some((thumb, d))) => {
            &&& dimensions == d
            &&& is_thumbnail(image.data, png, thumb)
        },
        (Ok(_), None) => exists|reason: Seq<char>| #[trigger]
            is_encoding_failure(image.data, png, reason),
        (Err(_), Some(_)) => false,
        (Err(_), None) => true,
    }
}

/// What a value of an `image_outcome` looks like in an entry.
pub open spec fn decoded_view(decoded: Option<(Vec<u8>, (u32, u32))>) -> Option<
    (Seq<u8>, (u32, u32)),
> {
    match decoded {
        Some((thumb, dimensions)) => Some((thumb@, dimensions)),
        None => None,
    }
}

/// The entry of plain text: the payload at `at`, decoded and truncated, with
/// the given hash.
pub fn text_entry(offers: Vec<MimePayload>, at: usize, hash: [u8; 32]) -> (r: ProcessedEntry)
    requires
        at < offers@.len(),
    ensures
        r@ == text_view(payloads(offers@), offers@[at as int].data@, hash@),
{
    let text = from_utf8_lossy(&offers[at].data);
    let preview = truncate_chars(text.as_str(), PREVIEW_CHAR_LIMIT);
    ProcessedEntry {
        content_class: ContentClass::Text,
        preview_text: Some(preview),
        canonical_hash: hash,
        representations: offers,
        thumbnail: None,
        metadata: EntryMetadata { image_dimensions: None, file_count: None, url_domain: None },
    }
}

/// The entry of a URL: like that of plain text, but without white space at the
/// ends and with the domain of the URL.
pub fn url_entry(offers: Vec<MimePayload>, at: usize, hash: [u8; 32]) -> (r: ProcessedEntry)
    requires
        at < offers@.len(),
    ensures
        r@ == url_view(payloads(offers@), offers@[at as int].data@, hash@),
{
    let text = from_utf8_lossy(&offers[at].data);
    let chars = to_chars(text.as_str());
    let trimmed_chars = trim_chars(&chars);
    let trimmed = from_chars(&trimmed_chars);
    let preview = truncate_chars(trimmed.as_str(), PREVIEW_CHAR_LIMIT);
    let url_domain = extract_domain(trimmed.as_str());
    ProcessedEntry {
        content_class: ContentClass::Url,
        preview_text: Some(preview),
        canonical_hash: hash,
        representations: offers,
        thumbnail: None,
        metadata: EntryMetadata { image_dimensions: None, file_count: None, url_domain },
    }
}

/// The entry of formatted text.
///
/// - The preview is the plain text, or else the HTML with tags stripped.
/// - The representations are the HTML and then the plain text.
pub fn richtext_entry(html: &MimePayload, plain: Option<&MimePayload>, hash: [u8; 32]) -> (r:
    ProcessedEntry)
    ensures
        r@ == richtext_view(
            html@,
            match plain {
                Some(p) => Some(p@),
                None => None,
            },
            hash@,
        ),
{
    let shown = match plain {
        Some(p) => from_utf8_lossy(&p.data),
        None => {
            let text = from_utf8_lossy(&html.data);
            strip_html_tags(text.as_str())
        },
    };
    let chars = to_chars(shown.as_str());
    let trimmed_chars = trim_chars(&chars);
    let trimmed = from_chars(&trimmed_chars);
    let preview = truncate_chars(trimmed.as_str(), PREVIEW_CHAR_LIMIT);
    let mut representations: Vec<MimePayload> = Vec::new();
    representations.push(html.duplicate());
    if let Some(p) = plain {
        representations.push(p.duplicate());
        assert(payloads(representations@) =~= seq![html@, p@]);
    } else {
        assert(payloads(representations@) =~= seq![html@]);
    }
    ProcessedEntry {
        content_class: ContentClass::RichText,
        preview_text: Some(preview),
        canonical_hash: hash,
        representations,
        thumbnail: None,
        metadata: EntryMetadata { image_dimensions: None, file_count: None, url_domain: None },
    }
}

/// The entry of a file list: one line of preview for each file that the
/// payload at `at` lists.
pub fn files_entry(offers: Vec<MimePayload>, at: usize, hash: [u8; 32]) -> (r: ProcessedEntry)
    requires
        at < offers@.len(),
    ensures
        r@ == files_view(payloads(offers@), offers@[at as int].data@, hash@),
{
    let text = from_utf8_lossy(&offers[at].data);
    let names = list_files(text.as_str());
    let count: usize = names.len();
    let all = join_texts(&names, "\n");
    let preview = truncate_chars(all.as_str(), PREVIEW_CHAR_LIMIT);
    assert(texts(names@).len() == names@.len());
    ProcessedEntry {
        content_class: ContentClass::Files,
        preview_text: Some(preview),
        canonical_hash: hash,
        representations: offers,
        thumbnail: None,
        metadata: EntryMetadata {
            image_dimensions: None,
            file_count: Some(count),
            url_domain: None,
        },
    }
}

/// The entry of an image. Where it could not be decoded, the raw bytes are
/// kept without a thumbnail.
pub fn image_entry(
    offers: Vec<MimePayload>,
    decoded: Option<(Vec<u8>, (u32, u32))>,
    hash: [u8; 32],
) -> (r: ProcessedEntry)
    ensures
        r@ == image_view(payloads(offers@), decoded_view(decoded), hash@),
{
    let (thumbnail, image_dimensions) = match decoded {
        Some((thumb, dimensions)) => (Some(thumb), Some(dimensions)),
        None => (None, None),
    };
    ProcessedEntry {
        content_class: ContentClass::Image,
        preview_text: None,
        canonical_hash: hash,
        representations: offers,
        thumbnail,
        metadata: EntryMetadata { image_dimensions, file_count: None, url_domain: None },
    }
}

// ---------------------------------------------------------------------------
// ContentProcessor
// ---------------------------------------------------------------------------

/// The text by which an offer is classified: its first plain-text payload.
pub open spec fn offered_text(offers: Seq<PayloadView>) -> Option<Seq<char>> {
    match first_offer(offers, "text/plain"@) {
        Some(p) => Some(lossy_text(p.data)),
        None => None,
    }
}

/// The class of an offer.
pub open spec fn offered_class(offers: Seq<PayloadView>) -> Option<ContentClass> {
    class_with_text(mimes_of(offers), offered_text(offers))
}

/// The first image payload of an offer, PNG preferred.
pub open spec fn offered_image(offers: Seq<PayloadView>) -> Option<PayloadView> {
    first_of_two(offers, "image/png"@, "image/jpeg"@)
}

/// The first file list of an offer, the standard one preferred.
pub open spec fn offered_files(offers: Seq<PayloadView>) -> Option<PayloadView> {
    first_of_two(offers, "text/uri-list"@, "x-special/gnome-copied-files"@)
}

/// `entry` is what an offer of a class comes to.
pub open spec fn is_processed(
    class: ContentClass,
    offers: Seq<PayloadView>,
    entry: ProcessedView,
) -> bool {
    match class {
        ContentClass::Text => first_offer(offers, "text/plain"@) matches Some(p) && entry
            == text_view(offers, p.data, blake3_digest(p.data)),
        ContentClass::Url => first_offer(offers, "text/plain"@) matches Some(p) && entry
            == url_view(offers, p.data, blake3_digest(p.data)),
        ContentClass::RichText => first_offer(offers, "text/html"@) matches Some(p) && entry
            == richtext_view(p, first_offer(offers, "text/plain"@), blake3_digest(p.data)),
        ContentClass::Files => offered_files(offers) matches Some(p) && entry == files_view(
            offers,
            p.data,
            blake3_digest(p.data),
        ),
        ContentClass::Image => offered_image(offers) matches Some(p) && exists|
            decoded: Option<(Seq<u8>, (u32, u32))>,
        |
            #[trigger] image_outcome(p, decoded) && entry
                == image_view(offers, decoded, blake3_digest(p.data)),
    }
}

/// Processes clipboard offers.
pub struct ContentProcessor;

impl ContentProcessor {
    /// Process a set of MIME payloads into a [`ProcessedEntry`].
    ///
    /// The offer is classified by its MIME types and its `text/plain` payload
    /// (if present), which allows URL promotion. The source application is
    /// not part of the outcome: the caller records it with the entry.
    ///
    /// # Errors
    ///
    /// [`NixClipError::Pipeline`] where no offered MIME type is recognised.
    pub fn process(offers: Vec<MimePayload>, source_app: Option<String>) -> (r: Result<
        ProcessedEntry,
    >)
        ensures
            match (r, offered_class(payloads(offers@))) {
                (Ok(entry), Some(class)) => is_processed(class, payloads(offers@), entry@),
                (Err(e), None) => {
                    &&& e is Pipeline
                    &&& e.cause() == "no recognised MIME type in clipboard offer"@
                },
                _ => false,
            },
    {
        let ghost all = payloads(offers@);
        let mimes = offered_mimes(&offers);
        let text = match find_offer(&offers, "text/plain") {
            Some(i) => Some(from_utf8_lossy(&offers[i].data)),
            None => None,
        };
        let class = match &text {
            Some(t) => classify_with_content(&mimes, Some(t.as_str())),
            None => classify_with_content(&mimes, None),
        };
        proof {
            lemma_offered(all, "text/plain"@);
            lemma_offered(all, "text/html"@);
            lemma_offered(all, "image/png"@);
            lemma_offered(all, "image/jpeg"@);
            lemma_offered(all, "text/uri-list"@);
            lemma_offered(all, "x-special/gnome-copied-files"@);
        }
        match class {
            None => Err(
                NixClipError::Pipeline("no recognised MIME type in clipboard offer".to_owned()),
            ),
            Some(ContentClass::Image) => Self::process_image(offers),
            Some(ContentClass::Files) => Self::process_files(offers),
            Some(ContentClass::RichText) => Self::process_richtext(&offers),
            Some(ContentClass::Url) => Self::process_url(offers),
            Some(ContentClass::Text) => Self::process_text(offers),
        }
    }

    /// Decode the `text/plain` bytes, truncate the text and hash the bytes.
    fn process_text(offers: Vec<MimePayload>) -> (r: Result<ProcessedEntry>)
        ensures
            match r {
                Ok(entry) => is_processed(ContentClass::Text, payloads(offers@), entry@),
                Err(e) => {
                    &&& first_offer(payloads(offers@), "text/plain"@) is None
                    &&& e is Pipeline
                    &&& e.cause() == "text class but no text/plain payload found"@
                },
            },
    {
        match find_offer(&offers, "text/plain") {
            None => Err(
                NixClipError::Pipeline("text class but no text/plain payload found".to_owned()),
            ),
            Some(i) => {
                let hash = blake3_hash(&offers[i].data);
                Ok(text_entry(offers, i, hash))
            },
        }
    }

    /// Like plain text, but with the domain of the URL.
    fn process_url(offers: Vec<MimePayload>) -> (r: Result<ProcessedEntry>)
        ensures
            match r {
                Ok(entry) => is_processed(ContentClass::Url, payloads(offers@), entry@),
                Err(e) => {
                    &&& first_offer(payloads(offers@), "text/plain"@) is None
                    &&& e is Pipeline
                    &&& e.cause() == "url class but no text/plain payload found"@
                },
            },
    {
        match find_offer(&offers, "text/plain") {
            None => Err(
                NixClipError::Pipeline("url class but no text/plain payload found".to_owned()),
            ),
            Some(i) => {
                let hash = blake3_hash(&offers[i].data);
                Ok(url_entry(offers, i, hash))
            },
        }
    }

    /// Process the `text/html` and `text/plain` payloads; the HTML is hashed.
    fn process_richtext(offers: &Vec<MimePayload>) -> (r: Result<ProcessedEntry>)
        ensures
            match r {
                Ok(entry) => is_processed(ContentClass::RichText, payloads(offers@), entry@),
                Err(e) => {
                    &&& first_offer(payloads(offers@), "text/html"@) is None
                    &&& e is Pipeline
                    &&& e.cause() == "richtext: missing text/html payload"@
                },
            },
    {
        match find_offer(offers, "text/html") {
            None => Err(NixClipError::Pipeline("richtext: missing text/html payload".to_owned())),
            Some(i) => {
                let hash = blake3_hash(&offers[i].data);
                match find_offer(offers, "text/plain") {
                    Some(j) => Ok(richtext_entry(&offers[i], Some(&offers[j]), hash)),
                    None => Ok(richtext_entry(&offers[i], None, hash)),
                }
            },
        }
    }

    /// Decode the image, generate a thumbnail, and record its dimensions. Where
    /// that fails, the raw bytes are still kept.
    fn process_image(offers: Vec<MimePayload>) -> (r: Result<ProcessedEntry>)
        ensures
            match r {
                Ok(entry) => is_processed(ContentClass::Image, payloads(offers@), entry@),
                Err(e) => {
                    &&& offered_image(payloads(offers@)) is None
                    &&& e is Pipeline
                    &&& e.cause() == "image MIME listed but no payload found"@
                },
            },
    {
        let (i, png): (usize, bool) = match find_offer(&offers, "image/png") {
            Some(i) => (i, true),
            None => match find_offer(&offers, "image/jpeg") {
                Some(i) => (i, false),
                None => {
                    return Err(
                        NixClipError::Pipeline("image MIME listed but no payload found".to_owned()),
                    );
                },
            },
        };
        let ghost all = payloads(offers@);
        let ghost image = offers@[i as int]@;
        proof {
            lemma_offered(all, "image/png"@);
            lemma_offered(all, "image/jpeg"@);
            reveal_strlit("image/png");
            reveal_strlit("image/jpeg");
            assert("image/png"@.len() != "image/jpeg"@.len());
        }
        let hash = blake3_hash(&offers[i].data);
        let decoded = match decode_and_thumbnail(&offers[i].data, png) {
            Ok(d) => Some(d),
            Err(_) => None,
        };
        assert(image_outcome(image, decoded_view(decoded)));
        Ok(image_entry(offers, decoded, hash))
    }

    /// Parse a `text/uri-list`: one URI per line, lines that begin with `#` are
    /// comments.
    fn process_files(offers: Vec<MimePayload>) -> (r: Result<ProcessedEntry>)
        ensures
            match r {
                Ok(entry) => is_processed(ContentClass::Files, payloads(offers@), entry@),
                Err(e) => {
                    &&& offered_files(payloads(offers@)) is None
                    &&& e is Pipeline
                    &&& e.cause() == "files MIME listed but no payload found"@
                },
            },
    {
        let i: usize = match find_offer(&offers, "text/uri-list") {
            Some(i) => i,
            None => match find_offer(&offers, "x-special/gnome-copied-files") {
                Some(i) => i,
                None => {
                    return Err(
                        NixClipError::Pipeline("files MIME listed but no payload found".to_owned()),
                    );
                },
            },
        };
        let hash = blake3_hash(&offers[i].data);
        Ok(files_entry(offers, i, hash))
    }
}

/// The hash of an entry depends on one payload alone: two offers of the same
/// class whose deciding payloads hold the same bytes have the same hash.
pub proof fn law_same_content_same_hash(
    class: ContentClass,
    a: Seq<PayloadView>,
    b: Seq<PayloadView>,
    x: ProcessedView,
    y: ProcessedView,
)
    requires
        is_processed(class, a, x),
        is_processed(class, b, y),
        deciding_bytes(class, a) == deciding_bytes(class, b),
    ensures
        x.canonical_hash == y.canonical_hash,
{
}

/// The bytes that the hash of an entry is taken over.
pub open spec fn deciding_bytes(class: ContentClass, offers: Seq<PayloadView>) -> Option<Seq<u8>> {
    let payload = match class {
        ContentClass::Text | ContentClass::Url => first_offer(offers, "text/plain"@),
        ContentClass::RichText => first_offer(offers, "text/html"@),
        ContentClass::Files => offered_files(offers),
        ContentClass::Image => offered_image(offers),
    };
    match payload {
        Some(p) => Some(p.data),
        None => None,
    }
}

/// Nothing that was offered is lost: every payload of an offer that is not
/// formatted text is kept, in its order; of formatted text the HTML and the
/// plain text are kept, in that order.
pub proof fn law_representations_kept(
    class: ContentClass,
    offers: Seq<PayloadView>,
    entry: ProcessedView,
)
    requires
        is_processed(class, offers, entry),
    ensures
        class != ContentClass::RichText ==> entry.representations == offers,
        class == ContentClass::RichText ==> entry.representations[0].mime == "text/html"@,
        class == ContentClass::RichText && first_offer(offers, "text/plain"@) is Some ==> {
            &&& entry.representations.len() == 2
            &&& entry.representations[1].mime == "text/plain"@
        },
        entry.content_class == class,
        entry.preview matches Some(p) ==> p.len() <= PREVIEW_CHAR_LIMIT,
{
    lemma_offered(offers, "text/html"@);
    lemma_offered(offers, "text/plain"@);
}

} // verus!
