//! What holds of pieces of text.

use vstd::prelude::*;

use crate::text::decimal;
use crate::text::is_alnum;
use crate::text::is_white_space;
use crate::text::join;
use crate::text::replace_char;
use crate::text::signed_decimal;
use crate::text::split_on;
use crate::text::trim;
use crate::text::trim_end;
use crate::text::trim_start;
use crate::text::unicode_alphanumeric;

verus! {

/// Letters and digits are those of ASCII, and elsewhere those of Unicode.
pub proof fn law_letters_and_digits(c: char)
    ensures
        'a' <= c <= 'z' ==> is_alnum(c),
        'A' <= c <= 'Z' ==> is_alnum(c),
        '0' <= c <= '9' ==> is_alnum(c),
        c > '\u{7f}' ==> is_alnum(c) == unicode_alphanumeric(c),
        c <= '\u{7f}' && is_alnum(c) ==> 'a' <= c <= 'z' || 'A' <= c <= 'Z' || '0' <= c <= '9',
{
}

/// Blanks, tabs and line ends are white space; no letter, digit or other
/// visible character of ASCII is.
pub proof fn law_white_space(c: char)
    ensures
        c == ' ' || c == '\t' || c == '\n' || c == '\r' || c == '\u{b}' || c == '\u{c}'
            ==> is_white_space(c),
        c == '\u{85}' || c == '\u{a0}' || c == '\u{1680}' || c == '\u{2028}' || c == '\u{2029}'
            || c == '\u{202f}' || c == '\u{205f}' || c == '\u{3000}' ==> is_white_space(c),
        '\u{2000}' <= c <= '\u{200a}' ==> is_white_space(c),
        '!' <= c <= '~' ==> !is_white_space(c),
        c < '\t' || '\r' < c < ' ' ==> !is_white_space(c),
        '\u{a0}' < c < '\u{1680}' || c > '\u{3000}' ==> !is_white_space(c),
{
}

/// Trimming takes the white space around a text, all of it, and nothing else.
pub proof fn law_trim(lead: Seq<char>, core: Seq<char>, tail: Seq<char>)
    requires
        forall|i: int| 0 <= i < lead.len() ==> is_white_space(#[trigger] lead[i]),
        forall|i: int| 0 <= i < tail.len() ==> is_white_space(#[trigger] tail[i]),
        core.len() > 0 ==> !is_white_space(core[0]) && !is_white_space(core.last()),
    ensures
        trim(lead + core + tail) == core,
{
    lemma_trim_lead(lead, core + tail);
    assert(lead + core + tail =~= lead + (core + tail));
    if core.len() > 0 {
        assert((core + tail)[0] == core[0]);
        assert(trim_start(core + tail) == core + tail);
        lemma_trim_tail(core, tail);
        assert(trim_end(core) == core);
    } else {
        assert(core + tail =~= tail);
        lemma_trim_lead(tail, Seq::<char>::empty());
        assert(tail + Seq::<char>::empty() =~= tail);
        assert(trim_start(Seq::<char>::empty()) =~= Seq::<char>::empty());
        assert(trim_end(Seq::<char>::empty()) =~= Seq::<char>::empty());
        assert(core =~= Seq::<char>::empty());
    }
}

proof fn lemma_trim_lead(lead: Seq<char>, rest: Seq<char>)
    requires
        forall|i: int| 0 <= i < lead.len() ==> is_white_space(#[trigger] lead[i]),
    ensures
        trim_start(lead + rest) == trim_start(rest),
    decreases lead.len(),
{
    if lead.len() > 0 {
        assert((lead + rest)[0] == lead[0]);
        assert((lead + rest).drop_first() =~= lead.drop_first() + rest);
        let t = lead.drop_first();
        assert forall|i: int| 0 <= i < t.len() implies is_white_space(#[trigger] t[i]) by {
            assert(t[i] == lead[i + 1]);
        }
        lemma_trim_lead(t, rest);
    } else {
        assert(lead + rest =~= rest);
    }
}

proof fn lemma_trim_tail(rest: Seq<char>, tail: Seq<char>)
    requires
        forall|i: int| 0 <= i < tail.len() ==> is_white_space(#[trigger] tail[i]),
    ensures
        trim_end(rest + tail) == trim_end(rest),
    decreases tail.len(),
{
    if tail.len() > 0 {
        assert((rest + tail).last() == tail[tail.len() - 1]);
        assert((rest + tail).drop_last() =~= rest + tail.drop_last());
        lemma_trim_tail(rest, tail.drop_last());
    } else {
        assert(rest + tail =~= rest);
    }
}

/// A text without white space at its ends is left as it is.
pub proof fn lemma_trimmed(s: Seq<char>)
    requires
        s.len() > 0 ==> !is_white_space(s[0]) && !is_white_space(s.last()),
    ensures
        trim(s) == s,
{
    let none = Seq::<char>::empty();
    law_trim(none, s, none);
    assert(none + s + none =~= s);
}

pub proof fn lemma_join_push(parts: Seq<Seq<char>>, p: Seq<char>, sep: Seq<char>)
    ensures
        join(parts.push(p), sep) == if parts.len() == 0 {
            p
        } else {
            join(parts, sep) + sep + p
        },
{
    assert(parts.push(p).drop_last() =~= parts);
}

/// Splitting takes a text apart at every separator and nowhere else: no piece
/// holds one, and with the separators between them the pieces make the text.
pub proof fn law_split(s: Seq<char>, sep: char)
    ensures
        split_on(s, sep).len() > 0,
        join(split_on(s, sep), seq![sep]) == s,
        forall|i: int|
            0 <= i < split_on(s, sep).len() ==> !(#[trigger] split_on(s, sep)[i]).contains(sep),
    decreases s.len(),
{
    let pieces = split_on(s, sep);
    if s.len() == 0 {
        assert(pieces[0] =~= Seq::<char>::empty());
        assert(join(pieces, seq![sep]) =~= s);
    } else {
        let before = split_on(s.drop_last(), sep);
        law_split(s.drop_last(), sep);
        assert(before =~= before.drop_last().push(before.last()));
        lemma_join_push(before.drop_last(), before.last(), seq![sep]);
        if s.last() == sep {
            lemma_join_push(before, Seq::<char>::empty(), seq![sep]);
            assert(join(pieces, seq![sep]) =~= s);
            assert forall|i: int| 0 <= i < pieces.len() implies !(#[trigger] pieces[i]).contains(
                sep,
            ) by {
                if i < before.len() {
                    assert(pieces[i] == before[i]);
                }
            }
        } else {
            lemma_join_push(before.drop_last(), before.last().push(s.last()), seq![sep]);
            assert(join(before, seq![sep]) == s.drop_last());
            assert(join(pieces, seq![sep]) =~= join(before, seq![sep]).push(s.last()));
            assert(join(pieces, seq![sep]) =~= s);
            assert forall|i: int| 0 <= i < pieces.len() implies !(#[trigger] pieces[i]).contains(
                sep,
            ) by {
                if i < before.len() - 1 {
                    assert(pieces[i] == before[i]);
                } else {
                    assert(!before[before.len() - 1].contains(sep));
                    let piece = pieces[i];
                    assert(piece == before.last().push(s.last()));
                    if piece.contains(sep) {
                        let k = choose|k: int| 0 <= k < piece.len() && piece[k] == sep;
                        assert(before.last()[k] == sep);
                    }
                }
            }
        }
    }
}

/// Splitting a text that has no separator changes nothing, and a separator
/// between two texts parts what comes of each.
pub proof fn law_split_parts(a: Seq<char>, b: Seq<char>, sep: char)
    ensures
        split_on(a + seq![sep] + b, sep) == split_on(a, sep) + split_on(b, sep),
        !a.contains(sep) ==> split_on(a, sep) == seq![a],
    decreases b.len(),
{
    law_split(a, sep);
    if !a.contains(sep) {
        lemma_split_whole(a, sep);
    }
    let s = a + seq![sep] + b;
    if b.len() == 0 {
        assert(s =~= a.push(sep));
        assert(s.drop_last() =~= a);
        assert(split_on(s, sep) =~= split_on(a, sep) + split_on(b, sep));
    } else {
        law_split_parts(a, b.drop_last(), sep);
        law_split(b.drop_last(), sep);
        assert(s.drop_last() =~= a + seq![sep] + b.drop_last());
        assert(s.last() == b.last());
        let before = split_on(b.drop_last(), sep);
        let x = split_on(a, sep);
        if b.last() == sep {
            assert(split_on(s, sep) =~= x + split_on(b, sep));
        } else {
            assert((x + before).drop_last() =~= x + before.drop_last());
            assert((x + before).last() == before.last());
            assert(split_on(s, sep) =~= x + split_on(b, sep));
        }
    }
}

proof fn lemma_split_whole(a: Seq<char>, sep: char)
    requires
        !a.contains(sep),
    ensures
        split_on(a, sep) == seq![a],
    decreases a.len(),
{
    if a.len() > 0 {
        assert(a[a.len() - 1] == a.last());
        assert(!a.drop_last().contains(sep)) by {
            if a.drop_last().contains(sep) {
                let k = choose|k: int| 0 <= k < a.len() - 1 && a.drop_last()[k] == sep;
                assert(a[k] == sep);
            }
        }
        lemma_split_whole(a.drop_last(), sep);
        assert(a.drop_last().push(a.last()) =~= a);
        assert(split_on(a, sep) =~= seq![a]);
    } else {
        assert(a =~= Seq::<char>::empty());
        assert(split_on(a, sep) =~= seq![a]);
    }
}

/// Replacing a character touches that character alone, wherever it stands.
pub proof fn law_replace(a: Seq<char>, b: Seq<char>, from: char, to: Seq<char>)
    ensures
        replace_char(a + b, from, to) == replace_char(a, from, to) + replace_char(b, from, to),
        replace_char(seq![from], from, to) == to,
        !a.contains(from) ==> replace_char(a, from, to) == a,
    decreases b.len(),
{
    let one = seq![from];
    assert(one.drop_last() =~= Seq::<char>::empty());
    assert(replace_char(one.drop_last(), from, to) =~= Seq::<char>::empty());
    assert(replace_char(one, from, to) =~= to);
    if !a.contains(from) {
        lemma_replace_nothing(a, from, to);
    }
    if b.len() == 0 {
        assert(a + b =~= a);
        assert(replace_char(a + b, from, to) =~= replace_char(a, from, to) + replace_char(
            b,
            from,
            to,
        ));
    } else {
        law_replace(a, b.drop_last(), from, to);
        assert((a + b).drop_last() =~= a + b.drop_last());
        assert((a + b).last() == b.last());
        assert(replace_char(a + b, from, to) =~= replace_char(a, from, to) + replace_char(
            b,
            from,
            to,
        ));
    }
}

proof fn lemma_replace_nothing(a: Seq<char>, from: char, to: Seq<char>)
    requires
        !a.contains(from),
    ensures
        replace_char(a, from, to) == a,
    decreases a.len(),
{
    if a.len() > 0 {
        assert(a[a.len() - 1] == a.last());
        assert(!a.drop_last().contains(from)) by {
            if a.drop_last().contains(from) {
                let k = choose|k: int| 0 <= k < a.len() - 1 && a.drop_last()[k] == from;
                assert(a[k] == from);
            }
        }
        lemma_replace_nothing(a.drop_last(), from, to);
        assert(a.drop_last().push(a.last()) =~= a);
    } else {
        assert(replace_char(a, from, to) =~= a);
    }
}

/// The number that decimal digits stand for.
pub open spec fn digits_value(s: Seq<char>) -> int
    decreases s.len(),
{
    if s.len() == 0 {
        0
    } else {
        10 * digits_value(s.drop_last()) + (s.last() as int - '0' as int)
    }
}

/// A number in decimal is made of digits, begins with no zero unless it is
/// zero, and reads back as the number.
pub proof fn law_decimal_reads_back(n: nat)
    ensures
        decimal(n).len() > 0,
        forall|i: int| 0 <= i < decimal(n).len() ==> '0' <= #[trigger] decimal(n)[i] <= '9',
        n > 0 ==> decimal(n)[0] != '0',
        digits_value(decimal(n)) == n,
        decimal(n)[0] != '-',
    decreases n,
{
    let d = decimal(n);
    if n < 10 {
        assert(d.drop_last() =~= Seq::<char>::empty());
        assert(digits_value(d.drop_last()) == 0);
    } else {
        law_decimal_reads_back(n / 10);
        assert(d.drop_last() =~= decimal(n / 10));
        assert(d[0] == decimal(n / 10)[0]);
        assert forall|i: int| 0 <= i < d.len() implies '0' <= #[trigger] d[i] <= '9' by {
            if i < d.len() - 1 {
                assert(d[i] == decimal(n / 10)[i]);
            }
        }
    }
}

/// A signed number is its magnitude in decimal, with a minus sign before it
/// exactly where it is negative.
pub proof fn law_signed_decimal(n: int)
    ensures
        n >= 0 ==> digits_value(signed_decimal(n)) == n && signed_decimal(n)[0] != '-',
        n < 0 ==> signed_decimal(n)[0] == '-' && digits_value(signed_decimal(n).skip(1)) == -n,
{
    if n < 0 {
        law_decimal_reads_back((-n) as nat);
        assert(signed_decimal(n).skip(1) =~= decimal((-n) as nat));
    } else {
        law_decimal_reads_back(n as nat);
    }
}

} // verus!
