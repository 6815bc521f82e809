//! What processing an offer is for.

use vstd::prelude::*;

use crate::digest::blake3_digest;
use crate::laws::text::law_split_parts;
use crate::laws::text::law_trim;
use crate::laws::text::lemma_trimmed;
use crate::pipeline::classifier::class_with_text;
use crate::pipeline::processor::after_last_slash;
use crate::pipeline::processor::collapsed;
use crate::pipeline::processor::deciding_bytes;
use crate::pipeline::processor::domain_of;
use crate::pipeline::processor::ends_host;
use crate::pipeline::processor::file_name;
use crate::pipeline::processor::hex_pair;
use crate::pipeline::processor::html_text;
use crate::pipeline::processor::in_tag;
use crate::pipeline::processor::is_processed;
use crate::pipeline::processor::last_segment;
use crate::pipeline::processor::lemma_first_offer;
use crate::pipeline::processor::listed_files;
use crate::pipeline::processor::mimes_of;
use crate::pipeline::processor::names_in;
use crate::pipeline::processor::offered_class;
use crate::pipeline::processor::path_of;
use crate::pipeline::processor::percent_decoded;
use crate::pipeline::processor::preview_of;
use crate::pipeline::processor::untagged;
use crate::pipeline::processor::without_scheme;
use crate::pipeline::processor::without_trailing_slashes;
use crate::pipeline::processor::ProcessedView;
use crate::pipeline::thumbnail::can_scale_to;
use crate::pipeline::thumbnail::image_decode;
use crate::pipeline::thumbnail::is_scaled;
use crate::pipeline::thumbnail::png_encode;
use crate::text::find_first;
use crate::text::is_white_space;
use crate::text::join;
use crate::text::lemma_find_first;
use crate::text::lossy_text;
use crate::text::split_on;
use crate::text::trim;
use crate::types::ContentClass;
use crate::types::PayloadView;

verus! {

// ---------------------------------------------------------------------------
// Percent escapes
// ---------------------------------------------------------------------------

/// `h` is a spelling of the hexadecimal digit of value `d`, in either case.
pub open spec fn spells_digit(h: char, d: int) -> bool {
    ||| 0 <= d < 10 && h as int == '0' as int + d
    ||| 10 <= d < 16 && h as int == 'A' as int + (d - 10)
    ||| 10 <= d < 16 && h as int == 'a' as int + (d - 10)
}

proof fn lemma_spelled(h1: char, h2: char, a: int, b: int)
    requires
        spells_digit(h1, a),
        spells_digit(h2, b),
    ensures
        hex_pair(h1, h2) == Some(16 * a + b),
        h1 != '%',
{
}

/// Decoding undoes encoding: an escape of an ASCII character, spelled with upper
/// or lower case digits, stands for that character.
pub proof fn law_escape_is_decoded(c: char, h1: char, h2: char, s: Seq<char>)
    requires
        c <= '\u{7f}',
        spells_digit(h1, c as int / 16),
        spells_digit(h2, c as int % 16),
    ensures
        percent_decoded(seq!['%', h1, h2] + s) == seq![c] + percent_decoded(s),
{
    let t = seq!['%', h1, h2] + s;
    lemma_spelled(h1, h2, c as int / 16, c as int % 16);
    assert(t[0] == '%' && t[1] == h1 && t[2] == h2);
    assert(t.skip(3) =~= s);
    assert(16 * (c as int / 16) + c as int % 16 == c as int);
}

/// An escape of anything beyond ASCII stays as it is.
pub proof fn law_other_escape_stays(h1: char, h2: char, a: int, b: int, s: Seq<char>)
    requires
        8 <= a < 16,
        0 <= b < 16,
        spells_digit(h1, a),
        spells_digit(h2, b),
    ensures
        percent_decoded(seq!['%', h1, h2] + s) == seq!['%', h1, h2] + percent_decoded(s),
{
    let t = seq!['%', h1, h2] + s;
    lemma_spelled(h1, h2, a, b);
    assert(t[0] == '%' && t[1] == h1 && t[2] == h2);
    assert(t.skip(3) =~= s);
    assert(t.take(3) =~= seq!['%', h1, h2]);
}

/// A percent sign without a hexadecimal digit at the second place behind it
/// stays as it is, with those two characters.
pub proof fn law_no_escape_stays(h1: char, h2: char, s: Seq<char>)
    requires
        forall|d: int| !#[trigger] spells_digit(h2, d),
    ensures
        percent_decoded(seq!['%', h1, h2] + s) == seq!['%', h1, h2] + percent_decoded(s),
        percent_decoded(seq!['%', h1]) == seq!['%', h1],
        percent_decoded(seq!['%']) == seq!['%'],
{
    let t = seq!['%', h1, h2] + s;
    assert(t[0] == '%' && t[1] == h1 && t[2] == h2);
    assert(t.skip(3) =~= s);
    assert(t.take(3) =~= seq!['%', h1, h2]);
    lemma_not_spelled(h2);
}

proof fn lemma_not_spelled(h: char)
    requires
        forall|d: int| !#[trigger] spells_digit(h, d),
    ensures
        crate::pipeline::processor::hex_value(h) is None,
{
    let n = h as int;
    assert(!spells_digit(h, n - '0' as int));
    assert(!spells_digit(h, n - 'A' as int + 10));
    assert(!spells_digit(h, n - 'a' as int + 10));
}

/// A text without percent signs is its own decoding.
pub proof fn law_plain_name_stays(s: Seq<char>)
    requires
        !s.contains('%'),
    ensures
        percent_decoded(s) == s,
    decreases s.len(),
{
    if s.len() > 0 {
        assert(s[0] != '%');
        let t = s.skip(1);
        assert(!t.contains('%')) by {
            if t.contains('%') {
                let k = choose|k: int| 0 <= k < t.len() && t[k] == '%';
                assert(s[k + 1] == '%');
            }
        }
        law_plain_name_stays(t);
        assert(seq![s[0]] + t =~= s);
    }
}

/// A character that is no percent sign is kept.
pub proof fn law_character_stays(c: char, s: Seq<char>)
    requires
        c != '%',
    ensures
        percent_decoded(seq![c] + s) == seq![c] + percent_decoded(s),
{
    assert((seq![c] + s).skip(1) =~= s);
}

// ---------------------------------------------------------------------------
// File names
// ---------------------------------------------------------------------------

/// The name of a file is what stands behind the last slash of its URI, decoded;
/// slashes at the end do not count.
pub proof fn law_name_of_a_file(front: Seq<char>, name: Seq<char>, slashes: Seq<char>)
    requires
        front.len() > 0,
        front.last() == '/',
        name.len() > 0,
        !name.contains('/'),
        forall|i: int| 0 <= i < slashes.len() ==> #[trigger] slashes[i] == '/',
    ensures
        file_name("file://"@ + front + name + slashes) == percent_decoded(name),
{
    reveal_strlit("file://");
    let uri = "file://"@ + front + name + slashes;
    let rest = front + name + slashes;
    assert(uri.subrange(0, 7) =~= "file://"@);
    assert(uri.skip(7) =~= rest);
    let slash = |c: char| c == '/';
    let at = find_first(rest, slash);
    lemma_slash_in_front(front, name + slashes);
    assert(rest =~= front + (name + slashes));
    assert(0 <= at < front.len());
    let path = path_of(rest);
    let left = if at > 0 {
        front.skip(at + 1)
    } else {
        front
    };
    assert(path =~= left + name + slashes);
    assert(left.len() == 0 || left.last() == '/');
    lemma_no_trailing(left + name, slashes);
    assert(name[name.len() - 1] == name.last());
    assert((left + name).last() == name.last());
    assert(without_trailing_slashes(left + name) == left + name);
    lemma_behind_slash(left, name);
    assert(last_segment(path) == name);
}

proof fn lemma_slash_in_front(front: Seq<char>, rest: Seq<char>)
    requires
        front.len() > 0,
        front.last() == '/',
    ensures
        0 <= find_first(front + rest, |c: char| c == '/') < front.len(),
    decreases front.len(),
{
    let slash = |c: char| c == '/';
    if front[0] != '/' {
        assert((front + rest)[0] == front[0]);
        assert((front + rest).drop_first() =~= front.drop_first() + rest);
        lemma_slash_in_front(front.drop_first(), rest);
    } else {
        assert((front + rest)[0] == '/');
    }
}

proof fn lemma_no_trailing(s: Seq<char>, slashes: Seq<char>)
    requires
        forall|i: int| 0 <= i < slashes.len() ==> #[trigger] slashes[i] == '/',
    ensures
        without_trailing_slashes(s + slashes) == without_trailing_slashes(s),
    decreases slashes.len(),
{
    if slashes.len() > 0 {
        assert((s + slashes).last() == slashes[slashes.len() - 1]);
        assert((s + slashes).drop_last() =~= s + slashes.drop_last());
        lemma_no_trailing(s, slashes.drop_last());
    } else {
        assert(s + slashes =~= s);
    }
}

proof fn lemma_behind_slash(front: Seq<char>, name: Seq<char>)
    requires
        front.len() == 0 || front.last() == '/',
        !name.contains('/'),
    ensures
        after_last_slash(front + name) == name,
    decreases name.len(),
{
    let s = front + name;
    if name.len() == 0 {
        assert(s =~= front);
        assert(after_last_slash(s) =~= name);
    } else {
        assert(name[name.len() - 1] == name.last());
        assert(s.last() == name.last());
        assert(s.drop_last() =~= front + name.drop_last());
        assert(!name.drop_last().contains('/')) by {
            if name.drop_last().contains('/') {
                let k = choose|k: int| 0 <= k < name.len() - 1 && name.drop_last()[k] == '/';
                assert(name[k] == '/');
            }
        }
        lemma_behind_slash(front, name.drop_last());
        assert(name.drop_last().push(name.last()) =~= name);
    }
}

/// Any other URI is shown as it is.
pub proof fn law_other_uri_is_shown(uri: Seq<char>)
    requires
        uri.len() < 7 || uri.take(7) != "file://"@,
    ensures
        file_name(uri) == uri,
{
    reveal_strlit("file://");
    if uri.len() >= 7 {
        assert(uri.subrange(0, 7) =~= uri.take(7));
    }
}

/// A list of files is read line by line: the names of the first lines come
/// first.
pub proof fn law_files_by_line(a: Seq<char>, b: Seq<char>)
    ensures
        listed_files(a + seq!['\n'] + b) == listed_files(a) + listed_files(b),
{
    law_split_parts(a, b, '\n');
    let x = split_on(a, '\n');
    let y = split_on(b, '\n');
    lemma_names_apart(x, y, y.len() as int);
}

proof fn lemma_names_apart(x: Seq<Seq<char>>, y: Seq<Seq<char>>, n: int)
    requires
        0 <= n <= y.len(),
    ensures
        names_in(x + y, x.len() + n) == names_in(x, x.len() as int) + names_in(y, n),
    decreases n,
{
    if n > 0 {
        lemma_names_apart(x, y, n - 1);
        assert((x + y)[x.len() + n - 1] == y[n - 1]);
        assert(names_in(x + y, x.len() + n) =~= names_in(x, x.len() as int) + names_in(y, n));
    } else {
        lemma_names_prefix(x, y, x.len() as int);
        assert(names_in(x + y, x.len() + n) =~= names_in(x, x.len() as int) + names_in(y, n));
    }
}

proof fn lemma_names_prefix(x: Seq<Seq<char>>, y: Seq<Seq<char>>, n: int)
    requires
        0 <= n <= x.len(),
    ensures
        names_in(x + y, n) == names_in(x, n),
    decreases n,
{
    if n > 0 {
        lemma_names_prefix(x, y, n - 1);
        assert((x + y)[n - 1] == x[n - 1]);
    }
}

/// A line names one file, white space around it aside; an empty line, and one
/// that begins with a hash sign, names none.
pub proof fn law_line_of_a_list(lead: Seq<char>, core: Seq<char>, tail: Seq<char>)
    requires
        !(lead + core + tail).contains('\n'),
        forall|i: int| 0 <= i < lead.len() ==> is_white_space(#[trigger] lead[i]),
        forall|i: int| 0 <= i < tail.len() ==> is_white_space(#[trigger] tail[i]),
        core.len() > 0 ==> !is_white_space(core[0]) && !is_white_space(core.last()),
    ensures
        core.len() == 0 ==> listed_files(lead + core + tail).len() == 0,
        core.len() > 0 && core[0] == '#' ==> listed_files(lead + core + tail).len() == 0,
        core.len() > 0 && core[0] != '#' ==> listed_files(lead + core + tail) == seq![
            file_name(core),
        ],
{
    let line = lead + core + tail;
    law_split_parts(line, line, '\n');
    law_trim(lead, core, tail);
    let lines = split_on(line, '\n');
    assert(lines[0] == line);
    assert(names_in(lines, 0) =~= Seq::<Seq<char>>::empty());
    if core.len() > 0 && core[0] != '#' {
        assert(names_in(lines, 1) =~= seq![file_name(core)]);
    }
}

// ---------------------------------------------------------------------------
// HTML
// ---------------------------------------------------------------------------

spec fn no_brackets(s: Seq<char>) -> bool {
    forall|i: int| 0 <= i < s.len() ==> #[trigger] s[i] != '<' && s[i] != '>'
}

proof fn lemma_plain_html(s: Seq<char>)
    requires
        no_brackets(s),
    ensures
        !in_tag(s),
        untagged(s) == s,
    decreases s.len(),
{
    if s.len() > 0 {
        let t = s.drop_last();
        assert forall|i: int| 0 <= i < t.len() implies #[trigger] t[i] != '<' && t[i] != '>' by {
            assert(t[i] == s[i]);
        }
        lemma_plain_html(t);
        assert(s[s.len() - 1] == s.last());
        assert(t.push(s.last()) =~= s);
    }
}

proof fn lemma_html_apart(x: Seq<char>, y: Seq<char>)
    requires
        !in_tag(x),
    ensures
        in_tag(x + y) == in_tag(y),
        untagged(x + y) == untagged(x) + untagged(y),
    decreases y.len(),
{
    if y.len() > 0 {
        lemma_html_apart(x, y.drop_last());
        assert((x + y).drop_last() =~= x + y.drop_last());
        assert((x + y).last() == y.last());
        assert(untagged(x + y) =~= untagged(x) + untagged(y));
    } else {
        assert(x + y =~= x);
        assert(untagged(x + y) =~= untagged(x) + untagged(y));
    }
}

proof fn lemma_tag(tag: Seq<char>)
    requires
        no_brackets(tag),
    ensures
        in_tag(seq!['<'] + tag),
        untagged(seq!['<'] + tag) == seq![' '],
        !in_tag(seq!['<'] + tag + seq!['>']),
        untagged(seq!['<'] + tag + seq!['>']) == seq![' '],
    decreases tag.len(),
{
    let s = seq!['<'] + tag;
    if tag.len() == 0 {
        assert(s.last() == '<');
        assert(s.drop_last() =~= Seq::<char>::empty());
        assert(untagged(s.drop_last()) =~= Seq::<char>::empty());
        assert(untagged(s) =~= seq![' ']);
    } else {
        let t = tag.drop_last();
        assert forall|i: int| 0 <= i < t.len() implies #[trigger] t[i] != '<' && t[i] != '>' by {
            assert(t[i] == tag[i]);
        }
        lemma_tag(t);
        assert(tag[tag.len() - 1] == tag.last());
        assert(s.last() == tag.last());
        assert(s.drop_last() =~= seq!['<'] + t);
    }
    let closed = s + seq!['>'];
    assert(closed.last() == '>');
    assert(closed.drop_last() =~= s);
}

/// A tag counts as a blank, wherever it stands and whatever it holds.
pub proof fn law_tag_is_a_blank(front: Seq<char>, tag: Seq<char>, rest: Seq<char>)
    requires
        forall|i: int| 0 <= i < front.len() ==> #[trigger] front[i] != '<' && front[i] != '>',
        forall|i: int| 0 <= i < tag.len() ==> #[trigger] tag[i] != '<' && tag[i] != '>',
    ensures
        html_text(front + seq!['<'] + tag + seq!['>'] + rest) == html_text(
            front + seq![' '] + rest,
        ),
{
    let element = seq!['<'] + tag + seq!['>'];
    lemma_plain_html(front);
    lemma_tag(tag);
    lemma_html_apart(front, element);
    lemma_html_apart(front + element, rest);
    let blank = seq![' '];
    assert(no_brackets(blank));
    lemma_plain_html(blank);
    lemma_html_apart(front, blank);
    lemma_html_apart(front + blank, rest);
    assert(front + seq!['<'] + tag + seq!['>'] + rest =~= front + element + rest);
    assert(front + seq![' '] + rest =~= front + blank + rest);
}

proof fn lemma_collapse_onwards(x: Seq<char>, y: Seq<char>, rest: Seq<char>)
    requires
        collapsed(x) == collapsed(y),
    ensures
        collapsed(x + rest) == collapsed(y + rest),
    decreases rest.len(),
{
    if rest.len() > 0 {
        lemma_collapse_onwards(x, y, rest.drop_last());
        assert((x + rest).drop_last() =~= x + rest.drop_last());
        assert((y + rest).drop_last() =~= y + rest.drop_last());
        assert((x + rest).last() == rest.last());
        assert((y + rest).last() == rest.last());
    } else {
        assert(x + rest =~= x);
        assert(y + rest =~= y);
    }
}

/// Any white space, and any two white spaces in a row, count as one blank.
pub proof fn law_white_space_is_one_blank(
    front: Seq<char>,
    first: char,
    second: char,
    rest: Seq<char>,
)
    requires
        forall|i: int| 0 <= i < front.len() ==> #[trigger] front[i] != '<' && front[i] != '>',
        forall|i: int| 0 <= i < rest.len() ==> #[trigger] rest[i] != '<' && rest[i] != '>',
        is_white_space(first),
        is_white_space(second),
    ensures
        html_text(front + seq![first] + rest) == html_text(front + seq![' '] + rest),
        html_text(front + seq![first, second] + rest) == html_text(front + seq![' '] + rest),
{
    let one = front + seq![first];
    let two = front + seq![first, second];
    let blank = front + seq![' '];
    assert(is_white_space(' '));
    assert(one.drop_last() =~= front);
    assert(blank.drop_last() =~= front);
    assert(two.drop_last() =~= one);
    assert(collapsed(one) == collapsed(blank));
    assert(collapsed(one).last() == ' ');
    assert(collapsed(two) == collapsed(one));
    lemma_collapse_onwards(one, blank, rest);
    lemma_collapse_onwards(two, blank, rest);
    lemma_no_brackets(one, rest);
    lemma_no_brackets(two, rest);
    lemma_no_brackets(blank, rest);
    lemma_plain_html(one + rest);
    lemma_plain_html(two + rest);
    lemma_plain_html(blank + rest);
}

proof fn lemma_no_brackets(x: Seq<char>, y: Seq<char>)
    requires
        no_brackets(x),
        no_brackets(y),
    ensures
        no_brackets(x + y),
{
    let s = x + y;
    assert forall|i: int| 0 <= i < s.len() implies #[trigger] s[i] != '<' && s[i] != '>' by {
        if i < x.len() {
            assert(s[i] == x[i]);
        } else {
            assert(s[i] == y[i - x.len()]);
        }
    }
}

/// Words without brackets, with single blanks between them, are shown as they
/// are.
pub proof fn law_words_are_shown(s: Seq<char>)
    requires
        forall|i: int| 0 <= i < s.len() ==> #[trigger] s[i] != '<' && s[i] != '>',
        forall|i: int| 0 <= i < s.len() ==> is_white_space(#[trigger] s[i]) ==> s[i] == ' ',
        forall|i: int| 0 <= i < s.len() - 1 ==> !(#[trigger] s[i] == ' ' && s[i + 1] == ' '),
        s.len() > 0 ==> s[0] != ' ' && s.last() != ' ',
    ensures
        html_text(s) == s,
{
    lemma_plain_html(s);
    lemma_already_collapsed(s);
    if s.len() > 0 {
        assert(s[s.len() - 1] == s.last());
        assert(!is_white_space(s[0]));
        assert(!is_white_space(s.last()));
    }
    lemma_trimmed(s);
}

proof fn lemma_already_collapsed(s: Seq<char>)
    requires
        forall|i: int| 0 <= i < s.len() ==> is_white_space(#[trigger] s[i]) ==> s[i] == ' ',
        forall|i: int| 0 <= i < s.len() - 1 ==> !(#[trigger] s[i] == ' ' && s[i + 1] == ' '),
    ensures
        collapsed(s) == s,
    decreases s.len(),
{
    if s.len() > 0 {
        let t = s.drop_last();
        assert forall|i: int| 0 <= i < t.len() implies is_white_space(#[trigger] t[i]) ==> t[i]
            == ' ' by {
            assert(t[i] == s[i]);
        }
        assert forall|i: int| 0 <= i < t.len() - 1 implies !(#[trigger] t[i] == ' ' && t[i + 1]
            == ' ') by {
            assert(t[i] == s[i]);
        }
        lemma_already_collapsed(t);
        assert(s[s.len() - 1] == s.last());
        if t.len() > 0 {
            assert(t.last() == s[s.len() - 2]);
        }
        assert(t.push(s.last()) =~= s);
    }
}

// ---------------------------------------------------------------------------
// Domains
// ---------------------------------------------------------------------------

/// The domain of a URL with a web scheme is what stands between the scheme and
/// the first slash, question mark, hash sign or colon.
pub proof fn law_domain_behind_scheme(host: Seq<char>, end: char, rest: Seq<char>)
    requires
        host.len() > 0,
        forall|i: int|
            0 <= i < host.len() ==> #[trigger] host[i] != '/' && host[i] != '?' && host[i] != '#'
                && host[i] != ':',
        end == '/' || end == '?' || end == '#' || end == ':',
    ensures
        domain_of("http://"@ + host) == Some(host),
        domain_of("https://"@ + host) == Some(host),
        domain_of("http://"@ + (host + (seq![end] + rest))) == Some(host),
        domain_of("https://"@ + (host + (seq![end] + rest))) == Some(host),
        domain_of("http://"@ + (seq![end] + rest)) is None,
        domain_of("https://"@ + (seq![end] + rest)) is None,
{
    let none = Seq::<char>::empty();
    let more = seq![end] + rest;
    assert(more[0] == end);
    lemma_scheme(host);
    lemma_scheme(host + more);
    lemma_scheme(more);
    lemma_host(host, none);
    assert(host + none =~= host);
    lemma_host(host, more);
    lemma_host(none, more);
    assert(none + more =~= more);
}

/// Without a scheme, the domain is what stands before the first slash, question
/// mark, hash sign or colon.
pub proof fn law_domain_in_front(host: Seq<char>, end: char, rest: Seq<char>)
    requires
        host.len() > 0,
        forall|i: int|
            0 <= i < host.len() ==> #[trigger] host[i] != '/' && host[i] != '?' && host[i] != '#'
                && host[i] != ':',
        end == '/' || end == '?' || end == '#' || end == ':',
    ensures
        domain_of(host) == Some(host),
        host != "http"@ && host != "https"@ ==> domain_of(host + (seq![end] + rest)) == Some(host),
{
    let none = Seq::<char>::empty();
    let more = seq![end] + rest;
    assert(more[0] == end);
    lemma_host(host, none);
    assert(host + none =~= host);
    lemma_no_scheme(host, none);
    lemma_host(host, more);
    if host != "http"@ && host != "https"@ {
        lemma_no_scheme(host, more);
    }
}

proof fn lemma_no_scheme(host: Seq<char>, more: Seq<char>)
    requires
        forall|i: int|
            0 <= i < host.len() ==> #[trigger] host[i] != '/' && host[i] != '?' && host[i] != '#'
                && host[i] != ':',
        more.len() == 0 || (host != "http"@ && host != "https"@),
        more.len() > 0 ==> more[0] == '/' || more[0] == '?' || more[0] == '#' || more[0] == ':',
    ensures
        without_scheme(host + more) == host + more,
{
    lemma_no_http(host, more);
    lemma_no_https(host, more);
}

proof fn lemma_no_http(host: Seq<char>, more: Seq<char>)
    requires
        forall|i: int|
            0 <= i < host.len() ==> #[trigger] host[i] != '/' && host[i] != '?' && host[i] != '#'
                && host[i] != ':',
        more.len() == 0 || host != "http"@,
        more.len() > 0 ==> more[0] == '/' || more[0] == '?' || more[0] == '#' || more[0] == ':',
    ensures
        !"http://"@.is_prefix_of(host + more),
{
    reveal_strlit("http://");
    reveal_strlit("http");
    let full = host + more;
    if "http://"@.is_prefix_of(full) {
        let p = full.subrange(0, 7);
        assert(p == "http://"@);
        assert(p[0] == 'h' && p[1] == 't' && p[2] == 't' && p[3] == 'p' && p[4] == ':');
        assert(full[0] == 'h' && full[1] == 't' && full[2] == 't' && full[3] == 'p' && full[4]
            == ':');
        lemma_ends_at(host, more, 4);
        assert(host =~= "http"@);
    }
}

proof fn lemma_no_https(host: Seq<char>, more: Seq<char>)
    requires
        forall|i: int|
            0 <= i < host.len() ==> #[trigger] host[i] != '/' && host[i] != '?' && host[i] != '#'
                && host[i] != ':',
        more.len() == 0 || host != "https"@,
        more.len() > 0 ==> more[0] == '/' || more[0] == '?' || more[0] == '#' || more[0] == ':',
    ensures
        !"https://"@.is_prefix_of(host + more),
{
    reveal_strlit("https://");
    reveal_strlit("https");
    let full = host + more;
    if "https://"@.is_prefix_of(full) {
        let p = full.subrange(0, 8);
        assert(p == "https://"@);
        assert(p[0] == 'h' && p[1] == 't' && p[2] == 't' && p[3] == 'p' && p[4] == 's' && p[5]
            == ':');
        assert(full[0] == 'h' && full[1] == 't' && full[2] == 't' && full[3] == 'p' && full[4]
            == 's' && full[5] == ':');
        lemma_ends_at(host, more, 5);
        assert(host =~= "https"@);
    }
}

proof fn lemma_ends_at(host: Seq<char>, more: Seq<char>, k: int)
    requires
        forall|i: int|
            0 <= i < host.len() ==> #[trigger] host[i] != '/' && host[i] != '?' && host[i] != '#'
                && host[i] != ':',
        more.len() > 0 ==> more[0] == '/' || more[0] == '?' || more[0] == '#' || more[0] == ':',
        0 <= k < (host + more).len(),
        (host + more)[k] == ':',
        forall|j: int|
            0 <= j < k ==> {
                let c = #[trigger] (host + more)[j];
                c == 'h' || c == 't' || c == 'p' || c == 's'
            },
    ensures
        host.len() == k,
        more.len() > 0,
{
    let full = host + more;
    if k < host.len() {
        assert(full[k] == host[k]);
    }
    if k > host.len() {
        assert(full[host.len() as int] == more[0]);
    }
}

proof fn lemma_scheme(s: Seq<char>)
    ensures
        without_scheme("http://"@ + s) == s,
        without_scheme("https://"@ + s) == s,
{
    reveal_strlit("http://");
    reveal_strlit("https://");
    let a = "http://"@ + s;
    let b = "https://"@ + s;
    assert(a.subrange(0, 7) =~= "http://"@);
    assert(a.skip(7) =~= s);
    assert(b.subrange(0, 8) =~= "https://"@);
    assert(!"http://"@.is_prefix_of(b)) by {
        if "http://"@.is_prefix_of(b) {
            assert(b.subrange(0, 7)[4] == "http://"@[4]);
            assert(b[4] == 's');
        }
    }
    assert(b.skip(8) =~= s);
}

proof fn lemma_host(host: Seq<char>, more: Seq<char>)
    requires
        forall|i: int|
            0 <= i < host.len() ==> #[trigger] host[i] != '/' && host[i] != '?' && host[i] != '#'
                && host[i] != ':',
        more.len() > 0 ==> more[0] == '/' || more[0] == '?' || more[0] == '#' || more[0] == ':',
    ensures
        (host + more).take(find_first(host + more, |c: char| ends_host(c))) == host,
{
    let s = host + more;
    let p = |c: char| ends_host(c);
    assert forall|j: int| 0 <= j < host.len() implies !p(#[trigger] s[j]) by {
        assert(s[j] == host[j]);
    }
    if more.len() > 0 {
        assert(s[host.len() as int] == more[0]);
    }
    lemma_find_first(s, p, host.len() as int);
    assert(s.take(host.len() as int) =~= host);
}

// ---------------------------------------------------------------------------
// Entries
// ---------------------------------------------------------------------------

/// A preview is the first 32768 characters of a text, or all of it.
pub proof fn law_preview(text: Seq<char>)
    ensures
        text.len() <= 32_768 ==> preview_of(text) == text,
        text.len() > 32_768 ==> preview_of(text) == text.take(32_768),
{
}

/// Payload `i` is the first one offered under a type.
pub open spec fn is_first(offers: Seq<PayloadView>, mime: Seq<char>, i: int) -> bool {
    &&& 0 <= i < offers.len()
    &&& offers[i].mime == mime
    &&& forall|j: int| 0 <= j < i ==> (#[trigger] offers[j]).mime != mime
}

/// Nothing is offered under a type.
pub open spec fn none_offered(offers: Seq<PayloadView>, mime: Seq<char>) -> bool {
    forall|j: int| 0 <= j < offers.len() ==> (#[trigger] offers[j]).mime != mime
}

/// The class of an offer is that of its types, with the text of the first plain
/// text that it holds.
pub proof fn law_offer_is_classified(offers: Seq<PayloadView>, i: int)
    ensures
        is_first(offers, "text/plain"@, i) ==> offered_class(offers) == class_with_text(
            Seq::new(offers.len(), |k: int| offers[k].mime),
            Some(lossy_text(offers[i].data)),
        ),
        none_offered(offers, "text/plain"@) ==> offered_class(offers) == class_with_text(
            Seq::new(offers.len(), |k: int| offers[k].mime),
            None,
        ),
{
    assert(Seq::new(offers.len(), |k: int| offers[k].mime) =~= mimes_of(offers));
    if is_first(offers, "text/plain"@, i) {
        lemma_first_offer(offers, "text/plain"@, i);
    }
    if none_offered(offers, "text/plain"@) {
        lemma_first_offer(offers, "text/plain"@, offers.len() as int);
    }
}

/// The entry of a text shows the text as it was copied, white space and all, and
/// is known by the hash of its bytes.
pub proof fn law_text_entry(offers: Seq<PayloadView>, i: int, entry: ProcessedView)
    requires
        is_processed(ContentClass::Text, offers, entry),
        is_first(offers, "text/plain"@, i),
    ensures
        entry.content_class == ContentClass::Text,
        entry.preview == Some(preview_of(lossy_text(offers[i].data))),
        entry.canonical_hash == blake3_digest(offers[i].data),
        entry.representations == offers,
        entry.thumbnail is None,
        entry.image_dimensions is None,
        entry.file_count is None,
        entry.url_domain is None,
{
    lemma_first_offer(offers, "text/plain"@, i);
}

/// The entry of a URL shows it without white space around it, and holds its
/// domain.
pub proof fn law_url_entry(offers: Seq<PayloadView>, i: int, entry: ProcessedView)
    requires
        is_processed(ContentClass::Url, offers, entry),
        is_first(offers, "text/plain"@, i),
    ensures
        entry.content_class == ContentClass::Url,
        entry.preview == Some(preview_of(trim(lossy_text(offers[i].data)))),
        entry.canonical_hash == blake3_digest(offers[i].data),
        entry.representations == offers,
        entry.thumbnail is None,
        entry.image_dimensions is None,
        entry.file_count is None,
        entry.url_domain == domain_of(trim(lossy_text(offers[i].data))),
{
    lemma_first_offer(offers, "text/plain"@, i);
}

/// The entry of formatted text shows the plain text, without white space around
/// it, keeps the HTML and the plain text, and is known by the hash of the HTML.
pub proof fn law_richtext_entry(offers: Seq<PayloadView>, i: int, j: int, entry: ProcessedView)
    requires
        is_processed(ContentClass::RichText, offers, entry),
        is_first(offers, "text/html"@, i),
    ensures
        entry.content_class == ContentClass::RichText,
        entry.canonical_hash == blake3_digest(offers[i].data),
        is_first(offers, "text/plain"@, j) ==> entry.preview == Some(
            preview_of(trim(lossy_text(offers[j].data))),
        ) && entry.representations == seq![offers[i], offers[j]],
        none_offered(offers, "text/plain"@) ==> entry.preview == Some(
            preview_of(trim(html_text(lossy_text(offers[i].data)))),
        ) && entry.representations == seq![offers[i]],
        entry.thumbnail is None,
        entry.image_dimensions is None,
        entry.file_count is None,
        entry.url_domain is None,
{
    lemma_first_offer(offers, "text/html"@, i);
    if is_first(offers, "text/plain"@, j) {
        lemma_first_offer(offers, "text/plain"@, j);
    }
    if none_offered(offers, "text/plain"@) {
        lemma_first_offer(offers, "text/plain"@, offers.len() as int);
    }
}

/// The entry of a list of files shows their names, one on each line, and counts
/// them. The standard list counts before the other one.
pub proof fn law_files_entry(offers: Seq<PayloadView>, i: int, entry: ProcessedView)
    requires
        is_processed(ContentClass::Files, offers, entry),
        is_first(offers, "text/uri-list"@, i) || (none_offered(offers, "text/uri-list"@)
            && is_first(offers, "x-special/gnome-copied-files"@, i)),
    ensures
        entry.content_class == ContentClass::Files,
        entry.preview == Some(
            preview_of(join(listed_files(lossy_text(offers[i].data)), seq!['\n'])),
        ),
        entry.file_count == Some(listed_files(lossy_text(offers[i].data)).len()),
        entry.canonical_hash == blake3_digest(offers[i].data),
        entry.representations == offers,
        entry.thumbnail is None,
        entry.image_dimensions is None,
        entry.url_domain is None,
{
    reveal_strlit("\n");
    assert("\n"@ =~= seq!['\n']);
    if is_first(offers, "text/uri-list"@, i) {
        lemma_first_offer(offers, "text/uri-list"@, i);
    } else {
        lemma_first_offer(offers, "text/uri-list"@, offers.len() as int);
        lemma_first_offer(offers, "x-special/gnome-copied-files"@, i);
    }
}

/// What decides whether two offers hold the same content: of text and of links
/// the plain text, of formatted text the HTML, of images the PNG and of files the
/// list of their names, each where it was first offered.
pub proof fn law_deciding_bytes(offers: Seq<PayloadView>, i: int)
    ensures
        is_first(offers, "text/plain"@, i) ==> deciding_bytes(ContentClass::Text, offers) == Some(
            offers[i].data,
        ) && deciding_bytes(ContentClass::Url, offers) == Some(offers[i].data),
        is_first(offers, "text/html"@, i) ==> deciding_bytes(ContentClass::RichText, offers)
            == Some(offers[i].data),
        is_first(offers, "image/png"@, i) ==> deciding_bytes(ContentClass::Image, offers) == Some(
            offers[i].data,
        ),
        is_first(offers, "text/uri-list"@, i) ==> deciding_bytes(ContentClass::Files, offers)
            == Some(offers[i].data),
{
    if is_first(offers, "text/plain"@, i) {
        lemma_first_offer(offers, "text/plain"@, i);
    }
    if is_first(offers, "text/html"@, i) {
        lemma_first_offer(offers, "text/html"@, i);
    }
    if is_first(offers, "image/png"@, i) {
        lemma_first_offer(offers, "image/png"@, i);
    }
    if is_first(offers, "text/uri-list"@, i) {
        lemma_first_offer(offers, "text/uri-list"@, i);
    }
}

/// The entry of an image has no text. Where the image can be decoded, and its
/// thumbnail encoded, it holds the dimensions of the image and a thumbnail of
/// it, 64 by 64; else neither. A PNG counts before a JPEG.
pub proof fn law_image_entry(offers: Seq<PayloadView>, i: int, png: bool, entry: ProcessedView)
    requires
        is_processed(ContentClass::Image, offers, entry),
        png ==> is_first(offers, "image/png"@, i),
        !png ==> none_offered(offers, "image/png"@) && is_first(offers, "image/jpeg"@, i),
    ensures
        entry.content_class == ContentClass::Image,
        entry.preview is None,
        entry.canonical_hash == blake3_digest(offers[i].data),
        entry.representations == offers,
        entry.file_count is None,
        entry.url_domain is None,
        entry.thumbnail is Some <==> entry.image_dimensions is Some,
        image_decode(offers[i].data, png) is Err ==> entry.thumbnail is None,
        image_decode(offers[i].data, png) matches Ok(dimensions) ==> (entry.thumbnail is Some
            ==> entry.image_dimensions == Some(dimensions)),
        entry.thumbnail matches Some(thumb) ==> exists|rgba: Seq<u8>|
            #![trigger can_scale_to(offers[i].data, png, 64, 64, rgba)]
            can_scale_to(offers[i].data, png, 64, 64, rgba) && png_encode(rgba, 64, 64) == Ok::<
                Seq<u8>,
                Seq<char>,
            >(thumb),
{
    reveal_strlit("image/png");
    reveal_strlit("image/jpeg");
    assert("image/png"@.len() != "image/jpeg"@.len());
    if png {
        lemma_first_offer(offers, "image/png"@, i);
    } else {
        lemma_first_offer(offers, "image/png"@, offers.len() as int);
        lemma_first_offer(offers, "image/jpeg"@, i);
    }
    if let Some(thumb) = entry.thumbnail {
        let rgba = choose|rgba: Seq<u8>| #[trigger]
            is_scaled(offers[i].data, png, rgba)
                && crate::pipeline::thumbnail::thumbnail_png(rgba) == Ok::<Seq<u8>, Seq<char>>(
                thumb,
            );
        assert(can_scale_to(offers[i].data, png, 64, 64, rgba));
    }
}

} // verus!
