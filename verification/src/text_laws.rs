//! What the text primitives mean, over the texts that they are given.
use vstd::prelude::*;

use crate::number;
use crate::text;
use crate::text::CharClass;

verus! {

/// Whether a text holds characters of a class alone.
pub open spec fn all_in(s: Seq<char>, class: CharClass) -> bool {
    forall|i: int| 0 <= i < s.len() ==> class.has_char(#[trigger] s[i])
}

/// Whether a text begins and ends with characters outside of a class.
pub open spec fn bare_ends(s: Seq<char>, class: CharClass) -> bool {
    s.len() > 0 ==> !class.has_char(s.first()) && !class.has_char(s.last())
}

/// Which characters are in which class.
pub proof fn law_classes(c: char, only: char)
    ensures
        CharClass::WhiteSpace.has_char(c) <==> ({
            let n = c as u32;
            ||| 9 <= n <= 13
            ||| n == 0x20 || n == 0x85 || n == 0xa0 || n == 0x1680
            ||| 0x2000 <= n <= 0x200a
            ||| n == 0x2028 || n == 0x2029 || n == 0x202f || n == 0x205f || n == 0x3000
        }),
        CharClass::Only(only).has_char(c) <==> c == only,
        CharClass::TokenBreak.has_char(c) <==> (CharClass::WhiteSpace.has_char(c) || seq![
            '"',
            '\'',
            '`',
            '<',
            '>',
            '(',
            ')',
            '[',
            ']',
            '{',
            '}',
            ',',
            ';',
        ].contains(c)),
{
    let breaks = seq!['"', '\'', '`', '<', '>', '(', ')', '[', ']', '{', '}', ',', ';'];
    assert(breaks[0] == '"' && breaks[1] == '\'' && breaks[2] == '`' && breaks[3] == '<');
    assert(breaks[4] == '>' && breaks[5] == '(' && breaks[6] == ')' && breaks[7] == '[');
    assert(breaks[8] == ']' && breaks[9] == '{' && breaks[10] == '}' && breaks[11] == ',');
    assert(breaks[12] == ';');
}

/// Putting a text in lower case keeps its length, moves each ASCII capital to its
/// small letter, and keeps every other character.
pub proof fn law_lower_case(s: Seq<char>, i: int)
    ensures
        text::lowercased(s).len() == s.len(),
        0 <= i < s.len() && 65 <= s[i] as u32 <= 90 ==> text::lowercased(s)[i] as u32 == s[i] as u32 + 32,
        0 <= i < s.len() && !(65 <= s[i] as u32 <= 90) ==> text::lowercased(s)[i] == s[i],
{
}

/// The length of a text is that of its UTF-8.
pub proof fn law_byte_len(s: Seq<char>)
    ensures
        text::byte_len(s) == vstd::utf8::encode_utf8(s).len(),
{
}

/// Trimming the start takes off a run of characters of the class, however long it
/// is, and no other character.
pub proof fn law_left_trim(lead: Seq<char>, rest: Seq<char>, class: CharClass)
    requires
        all_in(lead, class),
        rest.len() > 0 ==> !class.has_char(rest.first()),
    ensures
        text::left_trimmed(lead + rest, class) == rest,
    decreases lead.len(),
{
    let whole = lead + rest;
    if lead.len() == 0 {
        assert(whole =~= rest);
    } else {
        assert(whole.first() == lead[0]);
        assert(whole.drop_first() =~= lead.drop_first() + rest);
        assert forall|i: int| 0 <= i < lead.drop_first().len() implies class.has_char(
            #[trigger] lead.drop_first()[i],
        ) by {
            assert(lead.drop_first()[i] == lead[i + 1]);
        }
        law_left_trim(lead.drop_first(), rest, class);
    }
}

/// Trimming the end takes off a run of characters of the class, however long it
/// is, and no other character.
pub proof fn law_right_trim(rest: Seq<char>, tail: Seq<char>, class: CharClass)
    requires
        all_in(tail, class),
        rest.len() > 0 ==> !class.has_char(rest.last()),
    ensures
        text::right_trimmed(rest + tail, class) == rest,
    decreases tail.len(),
{
    let whole = rest + tail;
    if tail.len() == 0 {
        assert(whole =~= rest);
    } else {
        assert(whole.last() == tail[tail.len() - 1]);
        assert(whole.drop_last() =~= rest + tail.drop_last());
        assert forall|i: int| 0 <= i < tail.drop_last().len() implies class.has_char(
            #[trigger] tail.drop_last()[i],
        ) by {
            assert(tail.drop_last()[i] == tail[i]);
        }
        law_right_trim(rest, tail.drop_last(), class);
    }
}

/// Trimming both ends leaves what stands between two runs of characters of the
/// class.
pub proof fn law_trim(lead: Seq<char>, core: Seq<char>, tail: Seq<char>, class: CharClass)
    requires
        all_in(lead, class),
        all_in(tail, class),
        bare_ends(core, class),
    ensures
        text::both_trimmed(lead + core + tail, class) == core,
        class is WhiteSpace ==> text::trimmed(lead + core + tail) == core,
{
    if core.len() == 0 {
        let whole = lead + core + tail;
        assert(whole =~= (lead + tail) + core);
        assert(all_in(lead + tail, class)) by {
            assert forall|i: int| 0 <= i < (lead + tail).len() implies class.has_char(
                #[trigger] (lead + tail)[i],
            ) by {
                if i < lead.len() {
                    assert((lead + tail)[i] == lead[i]);
                } else {
                    assert((lead + tail)[i] == tail[i - lead.len()]);
                }
            }
        }
        law_left_trim(lead + tail, core, class);
        assert(text::right_trimmed(core, class) == core);
    } else {
        assert(lead + core + tail =~= lead + (core + tail));
        assert((core + tail).first() == core.first());
        law_left_trim(lead, core + tail, class);
        law_right_trim(core, tail, class);
    }
}

/// Every copy of a prefix is taken off the start, and nothing else.
pub proof fn law_prefixes(prefix: Seq<char>, rest: Seq<char>)
    requires
        prefix.len() > 0,
    ensures
        text::prefixes_removed(prefix + rest, prefix) == text::prefixes_removed(rest, prefix),
        !prefix.is_prefix_of(rest) ==> text::prefixes_removed(rest, prefix) == rest,
{
    let whole = prefix + rest;
    assert(whole.take(prefix.len() as int) =~= prefix);
    assert(whole.skip(prefix.len() as int) =~= rest);
}

/// A text is parted at the first of a character, and whole where there is none.
pub proof fn law_first(before: Seq<char>, c: char, after: Seq<char>)
    requires
        !before.contains(c),
    ensures
        text::before_first(before, c) == before,
        text::before_first(before.push(c) + after, c) == before,
{
    let whole = before.push(c) + after;
    assert forall|j: int| 0 <= j < before.len() implies whole[j] != c by {
        assert(before.contains(before[j]));
    }
    text::lemma_first_position(whole, c, before.len() as int);
    assert(whole.take(before.len() as int) =~= before);
    before.index_of_first_ensures(c);
}

/// A text is parted at the last of a character, and whole where there is none.
pub proof fn law_last(before: Seq<char>, c: char, after: Seq<char>)
    requires
        !after.contains(c),
    ensures
        text::after_last(after, c) == after,
        text::split_at_last(after, c) is None,
        text::after_last(before.push(c) + after, c) == after,
        text::split_at_last(before.push(c) + after, c) == Some((before, after)),
{
    let whole = before.push(c) + after;
    assert forall|j: int| before.len() < j < whole.len() implies whole[j] != c by {
        assert(whole[j] == after[j - before.len() - 1]);
        assert(after.contains(after[j - before.len() - 1]));
    }
    text::lemma_last_position(whole, c, before.len() as int);
    assert(whole.take(before.len() as int) =~= before);
    assert(whole.skip(before.len() as int + 1) =~= after);
    after.index_of_last_ensures(c);
}

proof fn lemma_pieces_some(s: Seq<char>, class: CharClass)
    ensures
        text::pieces(s, class).len() > 0,
    decreases s.len(),
{
    if s.len() > 0 {
        lemma_pieces_some(s.drop_last(), class);
    }
}

/// A text is split at each character of a class, wherever it stands: the pieces
/// before it come first, then those behind it.
pub proof fn law_split(before: Seq<char>, c: char, after: Seq<char>, class: CharClass)
    requires
        class.has_char(c),
    ensures
        text::pieces(before.push(c) + after, class) == text::pieces(before, class) + text::pieces(
            after,
            class,
        ),
    decreases after.len(),
{
    let whole = before.push(c) + after;
    let left = text::pieces(before, class);
    if after.len() == 0 {
        assert(whole =~= before.push(c));
        assert(whole.drop_last() =~= before);
        assert(text::pieces(whole, class) =~= left + text::pieces(after, class));
    } else {
        let rest = after.drop_last();
        law_split(before, c, rest, class);
        lemma_pieces_some(rest, class);
        assert(whole.drop_last() =~= before.push(c) + rest);
        assert(whole.last() == after.last());
        let right = text::pieces(rest, class);
        assert((left + right).last() == right.last());
        assert(text::pieces(whole, class) =~= left + text::pieces(after, class));
    }
}

/// A text without characters of a class is one piece.
pub proof fn law_unsplit(s: Seq<char>, class: CharClass)
    requires
        forall|i: int| 0 <= i < s.len() ==> !class.has_char(#[trigger] s[i]),
    ensures
        text::pieces(s, class) == seq![s],
    decreases s.len(),
{
    if s.len() == 0 {
        assert(s =~= Seq::empty());
    } else {
        let rest = s.drop_last();
        assert forall|i: int| 0 <= i < rest.len() implies !class.has_char(#[trigger] rest[i]) by {
            assert(rest[i] == s[i]);
        }
        law_unsplit(rest, class);
        assert(!class.has_char(s[s.len() - 1]));
        assert(rest.push(s.last()) =~= s);
        assert(text::pieces(s, class) =~= seq![s]);
    }
}

/// A text stands in another just where that is it with something before and
/// something behind.
pub proof fn law_has_text(before: Seq<char>, part: Seq<char>, after: Seq<char>, s: Seq<char>)
    ensures
        text::has_text(before + part + after, part),
        text::has_text(s, part) ==> exists|i: int|
            0 <= i && i + part.len() <= s.len() && #[trigger] s.subrange(i, i + part.len())
                == part,
{
    let whole = before + part + after;
    assert(whole.skip(before.len() as int).take(part.len() as int) =~= part);
    assert(part.is_prefix_of(whole.skip(before.len() as int)));
    if text::has_text(s, part) {
        let i = choose|i: int| 0 <= i <= s.len() && #[trigger] part.is_prefix_of(s.skip(i));
        assert(s.subrange(i, i + part.len()) =~= s.skip(i).take(part.len() as int));
        assert(s.subrange(i, i + part.len()) == part);
    }
}

/// The first copy of a text is replaced, and what stands behind it is treated in
/// the same way.
pub proof fn law_replace_first(
    before: Seq<char>,
    part: Seq<char>,
    after: Seq<char>,
    by: Seq<char>,
)
    requires
        part.len() > 0,
        forall|i: int|
            0 <= i < before.len() ==> !(#[trigger] part.is_prefix_of(
                (before + part + after).skip(i),
            )),
    ensures
        text::replaced(before + part + after, part, by) == before + by + text::replaced(
            after,
            part,
            by,
        ),
    decreases before.len(),
{
    let whole = before + part + after;
    if before.len() == 0 {
        assert(whole.take(part.len() as int) =~= part);
        assert(whole.skip(part.len() as int) =~= after);
        assert(before + by =~= by);
    } else {
        assert(whole.skip(0) =~= whole);
        assert(!part.is_prefix_of(whole.skip(0)));
        let rest = before.drop_first();
        assert(whole.drop_first() =~= rest + part + after);
        assert forall|i: int| 0 <= i < rest.len() implies !(#[trigger] part.is_prefix_of(
            (rest + part + after).skip(i),
        )) by {
            assert((rest + part + after).skip(i) =~= whole.skip(i + 1));
            assert(!part.is_prefix_of(whole.skip(i + 1)));
        }
        law_replace_first(rest, part, after, by);
        assert(seq![whole.first()] + (rest + by + text::replaced(after, part, by)) =~= before + by
            + text::replaced(after, part, by));
    }
}

/// A text without a copy of the part is not changed.
pub proof fn law_replace_none(s: Seq<char>, part: Seq<char>, by: Seq<char>)
    requires
        part.len() > 0,
        forall|i: int| 0 <= i <= s.len() ==> !(#[trigger] part.is_prefix_of(s.skip(i))),
    ensures
        text::replaced(s, part, by) == s,
    decreases s.len(),
{
    if s.len() > 0 {
        assert(s.skip(0) =~= s);
        assert(!part.is_prefix_of(s.skip(0)));
        let rest = s.drop_first();
        assert forall|i: int| 0 <= i <= rest.len() implies !(#[trigger] part.is_prefix_of(
            rest.skip(i),
        )) by {
            assert(rest.skip(i) =~= s.skip(i + 1));
            assert(!part.is_prefix_of(s.skip(i + 1)));
        }
        law_replace_none(rest, part, by);
        assert(seq![s.first()] + rest =~= s);
    }
}

/// Each further digit counts ten times what stands before it, and itself.
pub proof fn law_digits(s: Seq<char>, c: char)
    requires
        48 <= c as u32 <= 57,
    ensures
        number::digits_value(Seq::empty()) == 0,
        number::digits_value(s.push(c)) == number::digits_value(s) * 10 + (c as u32 - 48),
{
    assert(s.push(c).drop_last() =~= s);
}

/// A number is digits, at least one, with at most one plus sign before them.
pub proof fn law_unsigned(s: Seq<char>)
    ensures
        (s.len() > 0 && forall|i: int| 0 <= i < s.len() ==> '0' <= #[trigger] s[i] <= '9')
            ==> number::unsigned_value(s) == Some(number::digits_value(s))
            && number::unsigned_value(seq!['+'] + s) == Some(number::digits_value(s)),
        s.len() == 0 ==> number::unsigned_value(s) is None && number::unsigned_value(
            seq!['+'] + s,
        ) is None,
        (exists|i: int| 0 <= i < s.len() && !('0' <= #[trigger] s[i] <= '9') && (i > 0 || s[i]
            != '+')) ==> number::unsigned_value(s) is None,
{
    let signed = seq!['+'] + s;
    assert(signed.drop_first() =~= s);
    assert(signed.first() == '+');
    if s.len() > 0 && forall|i: int| 0 <= i < s.len() ==> '0' <= #[trigger] s[i] <= '9' {
        assert('0' <= s[0] <= '9');
        assert forall|i: int| 0 <= i < s.len() implies number::is_digit(#[trigger] s[i]) by {
            assert('0' <= s[i] <= '9');
        }
        assert(number::all_digits(s));
    }
    if exists|i: int|
        0 <= i < s.len() && !('0' <= #[trigger] s[i] <= '9') && (i > 0 || s[i] != '+') {
        let i = choose|i: int|
            0 <= i < s.len() && !('0' <= #[trigger] s[i] <= '9') && (i > 0 || s[i] != '+');
        assert(!number::is_digit(s[i]));
        if s.first() == '+' {
            assert(s.drop_first()[i - 1] == s[i]);
        }
    }
}

/// A number is written with digits alone, without a zero before them unless it is
/// zero itself.
pub proof fn law_decimal(n: nat)
    ensures
        number::decimal_text(n).len() > 0,
        forall|i: int|
            0 <= i < number::decimal_text(n).len() ==> '0' <= (
            #[trigger] number::decimal_text(n)[i]) <= '9',
        n > 0 ==> number::decimal_text(n)[0] != '0',
        number::digits_value(number::decimal_text(n)) == n,
    decreases n,
{
    number::lemma_decimal_text(n);
    assert forall|i: int| 0 <= i < number::decimal_text(n).len() implies '0' <= (
    #[trigger] number::decimal_text(n)[i]) <= '9' by {
        assert(number::is_digit(number::decimal_text(n)[i]));
    }
    if n >= 10 {
        law_decimal(n / 10);
        assert(number::decimal_text(n)[0] == number::decimal_text(n / 10)[0]);
    }
}

} // verus!
