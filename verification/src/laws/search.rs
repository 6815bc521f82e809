//! What a search is for: every word of the query counts, candidates hold all of
//! them, and what matched is marked.

use vstd::prelude::*;
use vstd::utf8::encode_utf8;

use crate::laws::text::law_replace;
use crate::laws::text::lemma_join_push;
use crate::laws::text::lemma_trimmed;
use crate::search::byte_offset;
use crate::search::candidates_for;
use crate::search::entry_haystack;
use crate::search::entry_match;
use crate::search::fts_query;
use crate::search::fuzzy_positions;
use crate::search::fuzzy_score;
use crate::search::in_range;
use crate::search::indices_of;
use crate::search::is_matched;
use crate::search::is_max_score;
use crate::search::is_plan;
use crate::search::is_token_char;
use crate::search::law_ranges_mark_the_match;
use crate::search::like_pattern_of;
use crate::search::normalized_query;
use crate::search::page_of;
use crate::search::prefix_atom;
use crate::search::query_tokens;
use crate::search::ranges_of;
use crate::search::raw_words;
use crate::search::score_of;
use crate::search::tokens_in;
use crate::search::without_hyphens;
use crate::search::SearchPlan;
use crate::text::is_white_space;
use crate::text::join;
use crate::text::unicode_alphanumeric;
use crate::text::uppercase;
use crate::types::optional_text;
use crate::types::EntrySummary;

verus! {

/// A letter or a digit, of ASCII or of Unicode.
pub open spec fn is_letter_or_digit(c: char) -> bool {
    ||| 'a' <= c <= 'z'
    ||| 'A' <= c <= 'Z'
    ||| '0' <= c <= '9'
    ||| c > '\u{7f}' && unicode_alphanumeric(c)
}

/// Made of letters, digits, apostrophes and hyphens alone.
pub open spec fn is_plain_word(s: Seq<char>) -> bool {
    forall|i: int|
        0 <= i < s.len() ==> is_letter_or_digit(#[trigger] s[i]) || s[i] == '\'' || s[i] == '-'
}

proof fn lemma_token_char(c: char)
    ensures
        is_token_char(c) <==> is_letter_or_digit(c) || c == '\'' || c == '-',
{
}

proof fn lemma_one_raw_word(s: Seq<char>)
    requires
        is_plain_word(s),
    ensures
        raw_words(s) == seq![s],
    decreases s.len(),
{
    if s.len() > 0 {
        let t = s.drop_last();
        assert forall|i: int| 0 <= i < t.len() implies is_letter_or_digit(#[trigger] t[i]) || t[i]
            == '\'' || t[i] == '-' by {
            assert(t[i] == s[i]);
        }
        lemma_one_raw_word(t);
        assert(s[s.len() - 1] == s.last());
        lemma_token_char(s.last());
        assert(t.push(s.last()) =~= s);
        assert(raw_words(s) =~= seq![s]);
    } else {
        assert(s =~= Seq::<char>::empty());
        assert(raw_words(s) =~= seq![s]);
    }
}

proof fn lemma_raw_words_apart(a: Seq<char>, sep: char, b: Seq<char>)
    requires
        !is_letter_or_digit(sep),
        sep != '\'',
        sep != '-',
    ensures
        raw_words(a).len() > 0,
        raw_words(b).len() > 0,
        raw_words(a + seq![sep] + b) == raw_words(a) + raw_words(b),
    decreases b.len(),
{
    lemma_some_word(a);
    lemma_some_word(b);
    lemma_token_char(sep);
    let s = a + seq![sep] + b;
    if b.len() == 0 {
        assert(s.drop_last() =~= a);
        assert(s.last() == sep);
        assert(raw_words(s) =~= raw_words(a) + raw_words(b));
    } else {
        lemma_raw_words_apart(a, sep, b.drop_last());
        assert(s.drop_last() =~= a + seq![sep] + b.drop_last());
        assert(s.last() == b.last());
        let x = raw_words(a);
        let y = raw_words(b.drop_last());
        assert((x + y).drop_last() =~= x + y.drop_last());
        assert((x + y).last() == y.last());
        assert(raw_words(s) =~= x + raw_words(b));
    }
}

proof fn lemma_some_word(s: Seq<char>)
    ensures
        raw_words(s).len() > 0,
    decreases s.len(),
{
    if s.len() > 0 {
        lemma_some_word(s.drop_last());
    }
}

proof fn lemma_tokens_apart(x: Seq<Seq<char>>, y: Seq<Seq<char>>, n: int)
    requires
        0 <= n <= y.len(),
    ensures
        tokens_in(x + y, x.len() + n) == tokens_in(x, x.len() as int) + tokens_in(y, n),
    decreases n,
{
    if n > 0 {
        lemma_tokens_apart(x, y, n - 1);
        assert((x + y)[x.len() + n - 1] == y[n - 1]);
        assert(tokens_in(x + y, x.len() + n) =~= tokens_in(x, x.len() as int) + tokens_in(y, n));
    } else {
        lemma_tokens_prefix(x, y, x.len() as int);
        assert(tokens_in(x + y, x.len() + n) =~= tokens_in(x, x.len() as int) + tokens_in(y, n));
    }
}

proof fn lemma_tokens_prefix(x: Seq<Seq<char>>, y: Seq<Seq<char>>, n: int)
    requires
        0 <= n <= x.len(),
    ensures
        tokens_in(x + y, n) == tokens_in(x, n),
    decreases n,
{
    if n > 0 {
        lemma_tokens_prefix(x, y, n - 1);
        assert((x + y)[n - 1] == x[n - 1]);
    }
}

/// A word of letters, digits, apostrophes and inner hyphens is a token as it
/// stands, unless it is one of the three operators: nothing of it is dropped,
/// and it is nowhere split.
pub proof fn law_word_is_token(word: Seq<char>)
    requires
        word.len() > 0,
        is_plain_word(word),
        word[0] != '-',
        word.last() != '-',
    ensures
        uppercase(word) != "OR"@ && uppercase(word) != "AND"@ && uppercase(word) != "NOT"@
            ==> query_tokens(word) == seq![word],
        uppercase(word) == "OR"@ || uppercase(word) == "AND"@ || uppercase(word) == "NOT"@
            ==> query_tokens(word) == Seq::<Seq<char>>::empty(),
{
    lemma_one_raw_word(word);
    let words = raw_words(word);
    assert(words[0] == word);
    assert(without_hyphens(word) == word);
    assert(tokens_in(words, 0) =~= Seq::<Seq<char>>::empty());
    if uppercase(word) != "OR"@ && uppercase(word) != "AND"@ && uppercase(word) != "NOT"@ {
        assert(tokens_in(words, 1) =~= seq![word]);
    } else {
        assert(tokens_in(words, 1) =~= Seq::<Seq<char>>::empty());
    }
}

/// Whatever is no letter, digit, apostrophe or hyphen parts the words before it
/// from those behind it, and is itself dropped: the tokens of both sides are
/// kept, in their order.
pub proof fn law_tokens_apart(a: Seq<char>, sep: char, b: Seq<char>)
    requires
        !is_letter_or_digit(sep),
        sep != '\'',
        sep != '-',
    ensures
        query_tokens(a + seq![sep] + b) == query_tokens(a) + query_tokens(b),
{
    lemma_raw_words_apart(a, sep, b);
    lemma_tokens_apart(raw_words(a), raw_words(b), raw_words(b).len() as int);
}

/// Hyphens at the ends of a word do not count.
pub proof fn law_outer_hyphens_dropped(word: Seq<char>)
    requires
        is_plain_word(word),
    ensures
        query_tokens(seq!['-'] + word) == query_tokens(word),
        query_tokens(word.push('-')) == query_tokens(word),
{
    let front = seq!['-'] + word;
    let back = word.push('-');
    assert forall|i: int| 0 <= i < front.len() implies is_letter_or_digit(#[trigger] front[i])
        || front[i] == '\'' || front[i] == '-' by {
        if i > 0 {
            assert(front[i] == word[i - 1]);
        }
    }
    assert forall|i: int| 0 <= i < back.len() implies is_letter_or_digit(#[trigger] back[i])
        || back[i] == '\'' || back[i] == '-' by {
        if i < word.len() {
            assert(back[i] == word[i]);
        }
    }
    lemma_one_raw_word(word);
    lemma_one_raw_word(front);
    lemma_one_raw_word(back);
    assert(front.drop_first() =~= word);
    assert(without_hyphens(front) == without_hyphens(word));
    lemma_hyphen_behind(word);
    assert(raw_words(front)[0] == front);
    assert(raw_words(back)[0] == back);
    assert(raw_words(word)[0] == word);
    assert(tokens_in(raw_words(front), 0) == tokens_in(raw_words(word), 0));
    assert(tokens_in(raw_words(back), 0) == tokens_in(raw_words(word), 0));
    assert(tokens_in(raw_words(front), 1) == tokens_in(raw_words(word), 1));
    assert(tokens_in(raw_words(back), 1) == tokens_in(raw_words(word), 1));
}

proof fn lemma_hyphen_behind(word: Seq<char>)
    ensures
        without_hyphens(word.push('-')) == without_hyphens(word),
    decreases word.len(),
{
    let back = word.push('-');
    if word.len() == 0 {
        assert(back.drop_first() =~= word);
    } else if word[0] == '-' {
        assert(back.drop_first() =~= word.drop_first().push('-'));
        lemma_hyphen_behind(word.drop_first());
    } else {
        assert(back[0] == word[0]);
        assert(back.drop_last() =~= word);
    }
}

/// The two-letter and three-letter operators are recognised in every case.
pub proof fn law_operators(x: char, y: char, z: char)
    requires
        is_letter_or_digit(x),
        is_letter_or_digit(y),
        is_letter_or_digit(z),
    ensures
        (x == 'o' || x == 'O') && (y == 'r' || y == 'R') ==> query_tokens(seq![x, y])
            == Seq::<Seq<char>>::empty(),
        (x == 'a' || x == 'A') && (y == 'n' || y == 'N') && (z == 'd' || z == 'D')
            ==> query_tokens(seq![x, y, z]) == Seq::<Seq<char>>::empty(),
        (x == 'n' || x == 'N') && (y == 'o' || y == 'O') && (z == 't' || z == 'T')
            ==> query_tokens(seq![x, y, z]) == Seq::<Seq<char>>::empty(),
        x <= '\u{7f}' && y <= '\u{7f}' && !((x == 'o' || x == 'O') && (y == 'r' || y == 'R'))
            ==> query_tokens(seq![x, y]) == seq![seq![x, y]],
{
    reveal_strlit("OR");
    reveal_strlit("AND");
    reveal_strlit("NOT");
    let two = seq![x, y];
    let three = seq![x, y, z];
    law_word_is_token(two);
    law_word_is_token(three);
    if (x == 'o' || x == 'O') && (y == 'r' || y == 'R') {
        assert(uppercase(two) =~= "OR"@);
    }
    if (x == 'a' || x == 'A') && (y == 'n' || y == 'N') && (z == 'd' || z == 'D') {
        assert(uppercase(three) =~= "AND"@);
    }
    if (x == 'n' || x == 'N') && (y == 'o' || y == 'O') && (z == 't' || z == 'T') {
        assert(uppercase(three) =~= "NOT"@);
    }
    if x <= '\u{7f}' && y <= '\u{7f}' {
        assert(uppercase(two).len() == 2);
        if uppercase(two) == "OR"@ {
            assert(uppercase(two)[0] == 'O');
            assert(uppercase(two)[1] == 'R');
        }
    }
}

proof fn lemma_join_two(x: Seq<Seq<char>>, y: Seq<Seq<char>>, sep: Seq<char>)
    requires
        x.len() > 0,
        y.len() > 0,
    ensures
        join(x + y, sep) == join(x, sep) + sep + join(y, sep),
    decreases y.len(),
{
    let before = y.drop_last();
    assert(y =~= before.push(y.last()));
    assert(x + y =~= (x + before).push(y.last()));
    lemma_join_push(x + before, y.last(), sep);
    lemma_join_push(before, y.last(), sep);
    if before.len() > 0 {
        lemma_join_two(x, before, sep);
        assert(join(x + y, sep) =~= join(x, sep) + sep + join(y, sep));
    } else {
        assert(x + before =~= x);
        assert(join(x + y, sep) =~= join(x, sep) + sep + join(y, sep));
    }
}

/// The full-text query of a single word asks for the words that begin with it,
/// quoted; and the word is its own normal form.
pub proof fn law_word_is_searched(word: Seq<char>)
    requires
        query_tokens(word) == seq![word],
        !word.contains('"'),
    ensures
        fts_query(word) == Some(seq!['"'] + word + seq!['"', '*']),
        normalized_query(word) == Some(word),
{
    reveal_strlit("\"");
    reveal_strlit("\"*");
    reveal_strlit("\"\"");
    law_replace(word, Seq::<char>::empty(), '"', "\"\""@);
    let atoms = query_tokens(word).map_values(|t: Seq<char>| prefix_atom(t));
    assert(atoms =~= seq![prefix_atom(word)]);
    assert(prefix_atom(word) =~= seq!['"'] + word + seq!['"', '*']);
    assert(join(atoms, " "@) == atoms[0]);
    assert(join(query_tokens(word), " "@) == word);
}

/// The queries of two texts side by side are those of each, one after the
/// other: all words are asked for, those of the first text first.
pub proof fn law_all_words_are_searched(a: Seq<char>, sep: char, b: Seq<char>)
    requires
        !is_letter_or_digit(sep),
        sep != '\'',
        sep != '-',
    ensures
        fts_query(a + seq![sep] + b) == match (fts_query(a), fts_query(b)) {
            (Some(x), Some(y)) => Some(x + seq![' '] + y),
            (Some(x), None) => Some(x),
            (None, y) => y,
        },
        normalized_query(a + seq![sep] + b) == match (normalized_query(a), normalized_query(b)) {
            (Some(x), Some(y)) => Some(x + seq![' '] + y),
            (Some(x), None) => Some(x),
            (None, y) => y,
        },
{
    reveal_strlit(" ");
    assert(" "@ =~= seq![' ']);
    law_tokens_apart(a, sep, b);
    let x = query_tokens(a);
    let y = query_tokens(b);
    let atom = |t: Seq<char>| prefix_atom(t);
    assert((x + y).map_values(atom) =~= x.map_values(atom) + y.map_values(atom));
    if x.len() > 0 && y.len() > 0 {
        lemma_join_two(x, y, " "@);
        lemma_join_two(x.map_values(atom), y.map_values(atom), " "@);
    } else if x.len() == 0 {
        assert(x + y =~= y);
        assert((x + y).map_values(atom) =~= y.map_values(atom));
    } else {
        assert(x + y =~= x);
        assert((x + y).map_values(atom) =~= x.map_values(atom));
    }
}

/// No text without a letter, digit or apostrophe asks for anything in the
/// full-text index.
pub proof fn law_no_word_no_query(raw: Seq<char>)
    requires
        forall|i: int|
            0 <= i < raw.len() ==> !is_letter_or_digit(#[trigger] raw[i]) && raw[i] != '\'',
    ensures
        query_tokens(raw) == Seq::<Seq<char>>::empty(),
        fts_query(raw) is None,
    decreases raw.len(),
{
    if raw.len() == 0 {
        lemma_one_raw_word(raw);
        assert(raw_words(raw)[0] == raw);
        assert(without_hyphens(raw) == raw);
        assert(tokens_in(raw_words(raw), 0) =~= Seq::<Seq<char>>::empty());
        assert(tokens_in(raw_words(raw), 1) =~= Seq::<Seq<char>>::empty());
    } else {
        let t = raw.drop_last();
        let none = Seq::<char>::empty();
        assert forall|i: int| 0 <= i < t.len() implies !is_letter_or_digit(#[trigger] t[i]) && t[i]
            != '\'' by {
            assert(t[i] == raw[i]);
        }
        law_no_word_no_query(t);
        assert(raw[raw.len() - 1] == raw.last());
        if raw.last() == '-' {
            lemma_hyphens_only(raw);
        } else {
            law_no_word_no_query(none);
            law_tokens_apart(t, raw.last(), none);
            assert(t + seq![raw.last()] + none =~= raw);
            assert(query_tokens(raw) =~= Seq::<Seq<char>>::empty());
        }
    }
}

proof fn lemma_hyphens_only(raw: Seq<char>)
    requires
        forall|i: int|
            0 <= i < raw.len() ==> !is_letter_or_digit(#[trigger] raw[i]) && raw[i] != '\'',
    ensures
        query_tokens(raw) == Seq::<Seq<char>>::empty(),
{
    lemma_words_of_hyphens(raw);
    lemma_no_tokens(raw_words(raw), raw_words(raw).len() as int);
}

proof fn lemma_words_of_hyphens(raw: Seq<char>)
    requires
        forall|i: int|
            0 <= i < raw.len() ==> !is_letter_or_digit(#[trigger] raw[i]) && raw[i] != '\'',
    ensures
        raw_words(raw).len() > 0,
        forall|i: int| 0 <= i < raw_words(raw).len() ==> all_hyphens(#[trigger] raw_words(raw)[i]),
    decreases raw.len(),
{
    if raw.len() > 0 {
        let t = raw.drop_last();
        assert forall|i: int| 0 <= i < t.len() implies !is_letter_or_digit(#[trigger] t[i]) && t[i]
            != '\'' by {
            assert(t[i] == raw[i]);
        }
        lemma_words_of_hyphens(t);
        assert(raw[raw.len() - 1] == raw.last());
        lemma_token_char(raw.last());
        let before = raw_words(t);
        let now = raw_words(raw);
        assert forall|i: int| 0 <= i < now.len() implies all_hyphens(#[trigger] now[i]) by {
            if i < before.len() - 1 {
                assert(now[i] == before[i]);
            } else if i == before.len() - 1 {
                assert(all_hyphens(before[i]));
            }
        }
    }
}

spec fn all_hyphens(s: Seq<char>) -> bool {
    forall|i: int| 0 <= i < s.len() ==> #[trigger] s[i] == '-'
}

proof fn lemma_no_tokens(words: Seq<Seq<char>>, n: int)
    requires
        0 <= n <= words.len(),
        forall|i: int| 0 <= i < words.len() ==> all_hyphens(#[trigger] words[i]),
    ensures
        tokens_in(words, n) == Seq::<Seq<char>>::empty(),
    decreases n,
{
    if n > 0 {
        lemma_no_tokens(words, n - 1);
        lemma_nothing_left(words[n - 1]);
    }
}

proof fn lemma_nothing_left(s: Seq<char>)
    requires
        all_hyphens(s),
    ensures
        without_hyphens(s).len() == 0,
    decreases s.len(),
{
    if s.len() > 0 {
        let t = s.drop_first();
        assert forall|i: int| 0 <= i < t.len() implies #[trigger] t[i] == '-' by {
            assert(t[i] == s[i + 1]);
        }
        lemma_nothing_left(t);
    }
}

/// The pattern of a substring search: wildcards around the text, and in it a
/// backslash before every character that would be a wildcard, and nowhere else.
pub proof fn law_substring_pattern(a: Seq<char>, c: char)
    ensures
        like_pattern_of(a).len() >= 2,
        like_pattern_of(a)[0] == '%',
        like_pattern_of(a).last() == '%',
        !a.contains('%') && !a.contains('_') ==> like_pattern_of(a) == seq!['%'] + a + seq!['%'],
        c == '%' || c == '_' ==> like_pattern_of(a.push(c)) == like_pattern_of(a).drop_last() + seq![
            '\\',
            c,
            '%',
        ],
        c != '%' && c != '_' ==> like_pattern_of(a.push(c)) == like_pattern_of(a).drop_last()
            + seq![c, '%'],
{
    reveal_strlit("%");
    reveal_strlit("\\%");
    reveal_strlit("\\_");
    let none = Seq::<char>::empty();
    let one = seq![c];
    let inner = crate::text::replace_char(a, '%', "\\%"@);
    law_replace(a, none, '%', "\\%"@);
    law_replace(a, one, '%', "\\%"@);
    law_replace(one, none, '%', "\\%"@);
    assert(a.push(c) =~= a + one);
    let one_step = crate::text::replace_char(one, '%', "\\%"@);
    law_replace(inner, one_step, '_', "\\_"@);
    law_replace(one_step, none, '_', "\\_"@);
    law_replace(one, none, '_', "\\_"@);
    law_replace(inner, none, '_', "\\_"@);
    if c == '%' {
        assert(one_step =~= seq!['\\', '%']);
    } else {
        assert(one_step =~= one) by {
            assert(!one.contains('%'));
        }
    }
    if !a.contains('%') && !a.contains('_') {
        assert(like_pattern_of(a) =~= seq!['%'] + a + seq!['%']);
    }
    let twice = crate::text::replace_char(inner, '_', "\\_"@);
    let last = crate::text::replace_char(one_step, '_', "\\_"@);
    assert(like_pattern_of(a) =~= seq!['%'] + twice + seq!['%']);
    assert(like_pattern_of(a.push(c)) =~= seq!['%'] + (twice + last) + seq!['%']);
    assert(like_pattern_of(a).drop_last() =~= seq!['%'] + twice);
    if c == '%' {
        assert(!one_step.contains('_')) by {
            assert(one_step[0] == '\\' && one_step[1] == '%');
        }
        assert(last =~= seq!['\\', '%']);
        assert(like_pattern_of(a.push(c)) =~= like_pattern_of(a).drop_last() + seq!['\\', c, '%']);
    } else if c == '_' {
        assert(last =~= seq!['\\', '_']);
        assert(like_pattern_of(a.push(c)) =~= like_pattern_of(a).drop_last() + seq!['\\', c, '%']);
    } else {
        assert(!one.contains('_'));
        assert(last =~= one);
        assert(like_pattern_of(a.push(c)) =~= like_pattern_of(a).drop_last() + seq![c, '%']);
    }
}

/// A search for one word asks the full-text index for words that begin with it,
/// falls back to a search for the word anywhere, ranks by the word, and fetches
/// the entries up to the end of the page and five hundred more.
pub proof fn law_plan_of_a_word(plan: SearchPlan, word: Seq<char>, offset: u32, limit: u32)
    requires
        is_plan(plan, word, offset, limit),
        word.len() > 0,
        forall|i: int| 0 <= i < word.len() ==> is_letter_or_digit(#[trigger] word[i]),
        forall|i: int| 0 <= i < word.len() ==> !is_white_space(#[trigger] word[i]),
        uppercase(word) != "OR"@ && uppercase(word) != "AND"@ && uppercase(word) != "NOT"@,
    ensures
        plan matches SearchPlan::Ranked { fts_query: f, like_pattern: p, fuzzy_query: q, candidate_limit: c } && {
            &&& optional_text(f) == Some(seq!['"'] + word + seq!['"', '*'])
            &&& p@ == seq!['%'] + word + seq!['%']
            &&& q@ == word
            &&& offset + limit + 500 <= u32::MAX ==> c == offset + limit + 500
            &&& offset + limit + 500 > u32::MAX ==> c == u32::MAX
        },
{
    lemma_trimmed(word);
    assert(word[word.len() - 1] == word.last());
    assert(is_letter_or_digit(word[0]) && is_letter_or_digit(word.last())) by {
        assert(is_letter_or_digit(word[0]));
        assert(is_letter_or_digit(word[word.len() - 1]));
    }
    assert(is_plain_word(word));
    law_word_is_token(word);
    assert(!word.contains('"') && !word.contains('%') && !word.contains('_')) by {
        if word.contains('"') {
            let k = choose|k: int| 0 <= k < word.len() && word[k] == '"';
            assert(is_letter_or_digit(word[k]));
        }
        if word.contains('%') {
            let k = choose|k: int| 0 <= k < word.len() && word[k] == '%';
            assert(is_letter_or_digit(word[k]));
        }
        if word.contains('_') {
            let k = choose|k: int| 0 <= k < word.len() && word[k] == '_';
            assert(is_letter_or_digit(word[k]));
        }
    }
    law_word_is_searched(word);
    law_substring_pattern(word, 'a');
}

/// Whatever the text, a search that is not empty ranks by the words of the text
/// or, where it has none, by the text itself, without white space at its ends.
pub proof fn law_plan_of_a_text(
    plan: SearchPlan,
    lead: Seq<char>,
    core: Seq<char>,
    tail: Seq<char>,
    offset: u32,
    limit: u32,
)
    requires
        is_plan(plan, lead + core + tail, offset, limit),
        forall|i: int| 0 <= i < lead.len() ==> is_white_space(#[trigger] lead[i]),
        forall|i: int| 0 <= i < tail.len() ==> is_white_space(#[trigger] tail[i]),
        core.len() > 0 ==> !is_white_space(core[0]) && !is_white_space(core.last()),
    ensures
        core.len() == 0 ==> (plan matches SearchPlan::Recent { offset: o, limit: l } && o == offset
            && l == limit),
        core.len() > 0 ==> (plan matches SearchPlan::Ranked { fts_query: f, like_pattern: p, fuzzy_query: q, .. } && {
            &&& optional_text(f) == fts_query(core)
            &&& p@ == like_pattern_of(core)
            &&& fts_query(core) is Some ==> normalized_query(core) == Some(q@)
            &&& fts_query(core) is None ==> q@ == core
        }),
{
    crate::laws::text::law_trim(lead, core, tail);
}

// ---------------------------------------------------------------------------
// Matching and pages
// ---------------------------------------------------------------------------

/// An entry is matched by its preview and its source, with a blank between
/// them; an entry that does not match has the score zero and nothing marked.
pub proof fn law_entry_is_matched(query: Seq<char>, entry: EntrySummary)
    ensures
        entry.preview_text matches Some(p) ==> (entry.source_app matches Some(a) ==> entry_haystack(
            entry,
        ) == p@ + seq![' '] + a@),
        entry.preview_text matches Some(p) ==> (entry.source_app is None ==> entry_haystack(entry)
            == p@),
        entry.preview_text is None ==> (entry.source_app matches Some(a) ==> entry_haystack(entry)
            == a@),
        entry.preview_text is None && entry.source_app is None ==> entry_haystack(entry).len() == 0,
        fuzzy_score(query, entry_haystack(entry)) matches Some(s) ==> score_of(
            entry_match(query, entry),
        ) == s,
        fuzzy_score(query, entry_haystack(entry)) is None ==> score_of(entry_match(query, entry))
            == 0 && indices_of(entry_match(query, entry)).len() == 0,
        fuzzy_score(query, entry_haystack(entry)) is Some ==> (fuzzy_positions(
            query,
            entry_haystack(entry),
        ) matches Some(at) ==> indices_of(entry_match(query, entry)) == at),
{
    reveal_strlit(" ");
    assert(" "@ =~= seq![' ']);
}

/// The marked ranges are exactly the matched characters: a character of the
/// preview lies in a range if and only if its position was matched.
pub proof fn law_marked_is_matched(text: Seq<char>, indices: Seq<u32>, k: int)
    requires
        encode_utf8(text).len() <= u32::MAX,
        0 <= k < text.len(),
        k <= u32::MAX,
    ensures
        indices.contains(k as u32) <==> exists|i: int|
            0 <= i < ranges_of(text, indices).len() && (#[trigger] ranges_of(text, indices)[i]).0
                <= encode_utf8(text.take(k)).len() < ranges_of(text, indices)[i].0 + ranges_of(
                text,
                indices,
            )[i].1,
{
    law_ranges_mark_the_match(text, indices);
    let ranges = ranges_of(text, indices);
    assert(byte_offset(text, k) == encode_utf8(text.take(k)).len());
    if indices.contains(k as u32) {
        let w = choose|w: int| 0 <= w < indices.len() && indices[w] == k as u32;
        assert(indices[w] == k);
        assert(is_matched(indices, k));
        let i = choose|i: int| 0 <= i < ranges.len() && in_range(
            #[trigger] ranges[i],
            byte_offset(text, k),
        );
        assert(ranges[i].0 <= encode_utf8(text.take(k)).len() < ranges[i].0 + ranges[i].1);
    } else {
        assert(!is_matched(indices, k)) by {
            if is_matched(indices, k) {
                let w = choose|w: int| 0 <= w < indices.len() && #[trigger] indices[w] == k;
                assert(indices[w] == k as u32);
            }
        }
        assert forall|i: int| 0 <= i < ranges.len() implies !((#[trigger] ranges[i]).0
            <= encode_utf8(text.take(k)).len() < ranges[i].0 + ranges[i].1) by {
            assert(!in_range(ranges[i], byte_offset(text, k)));
        }
    }
}

/// The greatest score is at least one, none is greater, and unless it is one it
/// is the score of an entry.
pub proof fn law_greatest_score(scores: Seq<u32>, max: u32, i: int)
    requires
        is_max_score(scores, max),
    ensures
        max >= 1,
        0 <= i < scores.len() ==> scores[i] <= max,
        max > 1 ==> scores.contains(max),
{
}

/// A page holds the entries from the offset on, in their order, up to the
/// limit.
pub proof fn law_page<A>(all: Seq<A>, offset: nat, limit: nat, i: int)
    ensures
        page_of(all, offset as int, limit as int).len() <= limit,
        offset < all.len() && offset + limit <= all.len() ==> page_of(
            all,
            offset as int,
            limit as int,
        ).len() == limit,
        offset < all.len() && offset + limit > all.len() ==> page_of(
            all,
            offset as int,
            limit as int,
        ).len() == all.len() - offset,
        offset >= all.len() ==> page_of(all, offset as int, limit as int).len() == 0,
        0 <= i < page_of(all, offset as int, limit as int).len() ==> page_of(
            all,
            offset as int,
            limit as int,
        )[i] == all[offset + i],
{
}

/// Candidates are fetched up to the end of the page, and five hundred more.
pub proof fn law_headroom(offset: u32, limit: u32)
    ensures
        offset + limit + 500 <= u32::MAX ==> candidates_for(offset, limit) == offset + limit + 500,
        offset + limit + 500 > u32::MAX ==> candidates_for(offset, limit) == u32::MAX,
{
}

} // verus!
