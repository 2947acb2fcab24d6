//! Text primitives: trimming, splitting, searching and number formats, each
//! stated over the sequence of characters of a string.
use vstd::prelude::*;

verus! {

/// `String::push` appends one character.
pub assume_specification[ String::push ](s: &mut String, c: char)
    ensures
        final(s)@ == old(s)@.push(c),
;

/// Whether `c` has the Unicode property White_Space.
pub open spec fn is_white_space(c: char) -> bool {
    ||| '\u{9}' <= c <= '\u{d}'
    ||| c == ' '
    ||| c == '\u{85}'
    ||| c == '\u{a0}'
    ||| c == '\u{1680}'
    ||| '\u{2000}' <= c <= '\u{200a}'
    ||| c == '\u{2028}'
    ||| c == '\u{2029}'
    ||| c == '\u{202f}'
    ||| c == '\u{205f}'
    ||| c == '\u{3000}'
}

/// Whether `c` has the Unicode property White_Space.
pub fn is_whitespace(c: char) -> (found: bool)
    ensures
        found == is_white_space(c),
{
    ('\u{9}' <= c && c <= '\u{d}') || c == ' ' || c == '\u{85}' || c == '\u{a0}' || c == '\u{1680}'
        || ('\u{2000}' <= c && c <= '\u{200a}') || c == '\u{2028}' || c == '\u{2029}' || c
        == '\u{202f}' || c == '\u{205f}' || c == '\u{3000}'
}

/// The ASCII lower-case letter for an ASCII upper-case one; any other character as it is.
pub open spec fn ascii_lower(c: char) -> char {
    if 'A' <= c <= 'Z' {
        (c as u32 + 32) as char
    } else {
        c
    }
}

pub open spec fn lowercased(s: Seq<char>) -> Seq<char> {
    s.map_values(|c: char| ascii_lower(c))
}

fn lower_char(c: char) -> (lower: char)
    ensures
        lower == ascii_lower(c),
{
    if 'A' <= c && c <= 'Z' {
        (c as u8 + 32) as char
    } else {
        c
    }
}

/// The characters of `s`.
pub fn to_chars(s: &str) -> (chars: Vec<char>)
    ensures
        chars@ == s@,
{
    let mut chars: Vec<char> = Vec::new();
    for c in iter: s.chars()
        invariant
            chars@ == s@.take(iter.index()),
            iter.seq() == s@,
    {
        chars.push(c);
    }
    chars
}

/// A copy of `s` with every ASCII letter in lower case.
pub fn to_ascii_lowercase(s: &str) -> (lower: String)
    ensures
        lower@ == lowercased(s@),
{
    let chars = to_chars(s);
    let mut lower = String::new();
    let mut i: usize = 0;
    while i < chars.len()
        invariant
            i <= chars.len(),
            chars@ == s@,
            lower@ == lowercased(s@.take(i as int)),
        decreases chars.len() - i,
    {
        lower.push(lower_char(chars[i]));
        i += 1;
    }
    assert(s@.take(i as int) =~= s@);
    lower
}

/// The number of bytes of a text in UTF-8.
pub open spec fn byte_len(s: Seq<char>) -> nat {
    vstd::utf8::encode_utf8(s).len()
}

/// The number of bytes of a text in UTF-8.
pub fn count_bytes(s: &str) -> (count: usize)
    ensures
        count == byte_len(s@),
{
    s.as_bytes().len()
}

/// Whether two strings hold the same characters.
pub fn same_text(a: &str, b: &str) -> (same: bool)
    ensures
        same == (a@ == b@),
{
    a.to_owned() == b.to_owned()
}

/// A set of characters to trim by or to split at.
#[derive(Clone, Copy)]
pub enum CharClass {
    /// Characters with the Unicode property White_Space.
    WhiteSpace,
    /// One character.
    Only(char),
    /// Characters that end a reference in running text.
    TokenBreak,
}

/// Whether `c` ends a reference in running text: white space, quotes,
/// brackets, a comma or a semicolon.
pub open spec fn breaks_token(c: char) -> bool {
    ||| is_white_space(c)
    ||| c == '"' || c == '\'' || c == '`'
    ||| c == '<' || c == '>' || c == '(' || c == ')'
    ||| c == '[' || c == ']' || c == '{' || c == '}'
    ||| c == ',' || c == ';'
}

impl CharClass {
    pub open spec fn has_char(self, c: char) -> bool {
        match self {
            CharClass::WhiteSpace => is_white_space(c),
            CharClass::Only(only) => c == only,
            CharClass::TokenBreak => breaks_token(c),
        }
    }

    /// Whether `c` is in the class.
    pub fn holds(self, c: char) -> (found: bool)
        ensures
            found == self.has_char(c),
    {
        match self {
            CharClass::WhiteSpace => is_whitespace(c),
            CharClass::Only(only) => c == only,
            CharClass::TokenBreak => is_whitespace(c) || c == '"' || c == '\'' || c == '`' || c
                == '<' || c == '>' || c == '(' || c == ')' || c == '[' || c == ']' || c == '{' || c
                == '}' || c == ',' || c == ';',
        }
    }
}

/// `s` without the characters of the class at its start.
pub open spec fn left_trimmed(s: Seq<char>, class: CharClass) -> Seq<char>
    decreases s.len(),
{
    if s.len() > 0 && class.has_char(s.first()) {
        left_trimmed(s.drop_first(), class)
    } else {
        s
    }
}

/// `s` without the characters of the class at its end.
pub open spec fn right_trimmed(s: Seq<char>, class: CharClass) -> Seq<char>
    decreases s.len(),
{
    if s.len() > 0 && class.has_char(s.last()) {
        right_trimmed(s.drop_last(), class)
    } else {
        s
    }
}

/// `s` without the characters of the class at either end.
pub open spec fn both_trimmed(s: Seq<char>, class: CharClass) -> Seq<char> {
    right_trimmed(left_trimmed(s, class), class)
}

/// `s` without white space at either end.
pub open spec fn trimmed(s: Seq<char>) -> Seq<char> {
    both_trimmed(s, CharClass::WhiteSpace)
}

/// Removes the characters of the class at the start.
pub fn trim_start_class<'a>(s: &'a str, class: CharClass) -> (rest: &'a str)
    ensures
        rest@ == left_trimmed(s@, class),
{
    let chars = to_chars(s);
    let mut start: usize = 0;
    assert(s@.skip(0) =~= s@);
    while start < chars.len() && class.holds(chars[start])
        invariant
            start <= chars.len(),
            chars@ == s@,
            left_trimmed(s@, class) == left_trimmed(s@.skip(start as int), class),
        decreases chars.len() - start,
    {
        assert(s@.skip(start as int).drop_first() =~= s@.skip(start + 1));
        start += 1;
    }
    assert(s@.subrange(start as int, s@.len() as int) =~= s@.skip(start as int));
    s.substring_char(start, chars.len())
}

/// Removes the characters of the class at the end.
pub fn trim_end_class<'a>(s: &'a str, class: CharClass) -> (rest: &'a str)
    ensures
        rest@ == right_trimmed(s@, class),
{
    let chars = to_chars(s);
    let mut end: usize = chars.len();
    assert(s@.take(end as int) =~= s@);
    while end > 0 && class.holds(chars[end - 1])
        invariant
            end <= chars.len(),
            chars@ == s@,
            right_trimmed(s@, class) == right_trimmed(s@.take(end as int), class),
        decreases end,
    {
        assert(s@.take(end as int).drop_last() =~= s@.take(end - 1));
        end -= 1;
    }
    assert(s@.subrange(0, end as int) =~= s@.take(end as int));
    s.substring_char(0, end)
}

/// Removes the characters of the class at both ends.
pub fn trim_class<'a>(s: &'a str, class: CharClass) -> (rest: &'a str)
    ensures
        rest@ == both_trimmed(s@, class),
{
    trim_end_class(trim_start_class(s, class), class)
}

/// Removes white space at both ends.
pub fn trim<'a>(s: &'a str) -> (rest: &'a str)
    ensures
        rest@ == trimmed(s@),
{
    trim_class(s, CharClass::WhiteSpace)
}

/// `s` without any copies of `prefix` at its start.
pub open spec fn prefixes_removed(s: Seq<char>, prefix: Seq<char>) -> Seq<char>
    decreases s.len(),
{
    if prefix.len() > 0 && prefix.is_prefix_of(s) {
        prefixes_removed(s.skip(prefix.len() as int), prefix)
    } else {
        s
    }
}

/// Whether `part` stands in `chars` at `at`.
fn stands_at(chars: &Vec<char>, at: usize, part: &Vec<char>) -> (found: bool)
    requires
        at <= chars@.len(),
    ensures
        found == part@.is_prefix_of(chars@.skip(at as int)),
{
    if part.len() > chars.len() - at {
        return false;
    }
    let mut i: usize = 0;
    while i < part.len()
        invariant
            i <= part.len(),
            at + part.len() <= chars.len(),
            forall|j: int| 0 <= j < i ==> part@[j] == chars@.skip(at as int)[j],
        decreases part.len() - i,
    {
        if part[i] != chars[at + i] {
            assert(part@[i as int] != chars@.skip(at as int)[i as int]);
            return false;
        }
        i += 1;
    }
    assert(part@ =~= chars@.skip(at as int).subrange(0, part@.len() as int));
    true
}

/// Whether `s` begins with `prefix`.
pub fn starts_with(s: &str, prefix: &str) -> (found: bool)
    ensures
        found == prefix@.is_prefix_of(s@),
{
    let chars = to_chars(s);
    let part = to_chars(prefix);
    assert(chars@.skip(0) =~= chars@);
    stands_at(&chars, 0, &part)
}

/// Whether `s` ends with `suffix`.
pub fn ends_with(s: &str, suffix: &str) -> (found: bool)
    ensures
        found == suffix@.is_suffix_of(s@),
{
    let chars = to_chars(s);
    let part = to_chars(suffix);
    if part.len() > chars.len() {
        return false;
    }
    let at: usize = chars.len() - part.len();
    let ghost tail = s@.skip(at as int);
    assert(tail =~= s@.subrange(at as int, s@.len() as int));
    assert(tail.subrange(0, tail.len() as int) =~= tail);
    stands_at(&chars, at, &part)
}

/// Removes every copy of `prefix` at the start.
pub fn trim_start_text<'a>(s: &'a str, prefix: &str) -> (rest: &'a str)
    ensures
        rest@ == prefixes_removed(s@, prefix@),
{
    let chars = to_chars(s);
    let part = to_chars(prefix);
    let mut start: usize = 0;
    assert(s@.skip(0) =~= s@);
    while part.len() > 0 && stands_at(&chars, start, &part)
        invariant
            start <= chars.len(),
            chars@ == s@,
            part@ == prefix@,
            prefixes_removed(s@, prefix@) == prefixes_removed(s@.skip(start as int), prefix@),
        decreases chars.len() - start,
    {
        assert(s@.skip(start as int).skip(part@.len() as int) =~= s@.skip(start + part@.len()));
        start += part.len();
    }
    assert(s@.subrange(start as int, s@.len() as int) =~= s@.skip(start as int));
    s.substring_char(start, chars.len())
}

/// The part of `s` before the first `c`; all of `s` where there is none.
pub open spec fn before_first(s: Seq<char>, c: char) -> Seq<char> {
    match s.index_of_first(c) {
        Some(i) => s.take(i),
        None => s,
    }
}

/// The part of `s` after the last `c`; all of `s` where there is none.
pub open spec fn after_last(s: Seq<char>, c: char) -> Seq<char> {
    match s.index_of_last(c) {
        Some(i) => s.skip(i + 1),
        None => s,
    }
}

/// The parts of `s` before and after the last `c`, where there is one.
pub open spec fn split_at_last(s: Seq<char>, c: char) -> Option<(Seq<char>, Seq<char>)> {
    match s.index_of_last(c) {
        Some(i) => Some((s.take(i), s.skip(i + 1))),
        None => None,
    }
}

/// `i` is the only first position of `c` in `s`.
pub proof fn lemma_first_position(s: Seq<char>, c: char, i: int)
    requires
        0 <= i < s.len(),
        s[i] == c,
        forall|j: int| 0 <= j < i ==> s[j] != c,
    ensures
        s.index_of_first(c) == Some(i),
{
    s.index_of_first_ensures(c);
}

/// `i` is the only last position of `c` in `s`.
pub proof fn lemma_last_position(s: Seq<char>, c: char, i: int)
    requires
        0 <= i < s.len(),
        s[i] == c,
        forall|j: int| i < j < s.len() ==> s[j] != c,
    ensures
        s.index_of_last(c) == Some(i),
{
    s.index_of_last_ensures(c);
}

/// The position of the first `c`.
pub fn find_first(chars: &Vec<char>, c: char) -> (found: Option<usize>)
    ensures
        match found {
            Some(i) => i < chars@.len() && chars@.index_of_first(c) == Some(i as int),
            None => chars@.index_of_first(c) is None,
        },
{
    let mut i: usize = 0;
    while i < chars.len()
        invariant
            i <= chars.len(),
            forall|j: int| 0 <= j < i ==> chars@[j] != c,
        decreases chars.len() - i,
    {
        if chars[i] == c {
            proof {
                lemma_first_position(chars@, c, i as int);
            }
            return Some(i);
        }
        i += 1;
    }
    proof {
        chars@.index_of_first_ensures(c);
    }
    None
}

/// The position of the last `c`.
pub fn find_last(chars: &Vec<char>, c: char) -> (found: Option<usize>)
    ensures
        match found {
            Some(i) => i < chars@.len() && chars@.index_of_last(c) == Some(i as int),
            None => chars@.index_of_last(c) is None,
        },
{
    let mut i: usize = chars.len();
    while i > 0
        invariant
            i <= chars.len(),
            forall|j: int| i <= j < chars@.len() ==> chars@[j] != c,
        decreases i,
    {
        i -= 1;
        if chars[i] == c {
            proof {
                lemma_last_position(chars@, c, i as int);
            }
            return Some(i);
        }
    }
    proof {
        chars@.index_of_last_ensures(c);
    }
    None
}

/// Whether `s` holds `c`.
pub fn contains_char(s: &str, c: char) -> (found: bool)
    ensures
        found == s@.contains(c),
{
    let chars = to_chars(s);
    proof {
        s@.index_of_first_ensures(c);
    }
    find_first(&chars, c).is_some()
}

/// The part of `s` before the first `c`; all of `s` where there is none.
pub fn split_first<'a>(s: &'a str, c: char) -> (part: &'a str)
    ensures
        part@ == before_first(s@, c),
{
    let chars = to_chars(s);
    match find_first(&chars, c) {
        Some(i) => {
            assert(s@.subrange(0, i as int) =~= s@.take(i as int));
            s.substring_char(0, i)
        },
        None => s,
    }
}

/// The part of `s` after the last `c`; all of `s` where there is none.
pub fn split_last<'a>(s: &'a str, c: char) -> (part: &'a str)
    ensures
        part@ == after_last(s@, c),
{
    let chars = to_chars(s);
    match find_last(&chars, c) {
        Some(i) => {
            let end: usize = chars.len();
            assert(s@.subrange(i + 1, s@.len() as int) =~= s@.skip(i + 1));
            s.substring_char(i + 1, end)
        },
        None => s,
    }
}

/// The parts of `s` before and after the last `c`, where there is one.
pub fn rsplit_once<'a>(s: &'a str, c: char) -> (parts: Option<(&'a str, &'a str)>)
    ensures
        match parts {
            Some((head, tail)) => split_at_last(s@, c) == Some((head@, tail@)),
            None => split_at_last(s@, c) is None,
        },
{
    let chars = to_chars(s);
    match find_last(&chars, c) {
        Some(i) => {
            assert(s@.subrange(0, i as int) =~= s@.take(i as int));
            assert(s@.subrange(i + 1, s@.len() as int) =~= s@.skip(i + 1));
            let end: usize = chars.len();
            Some((s.substring_char(0, i), s.substring_char(i + 1, end)))
        },
        None => None,
    }
}

/// The parts of `s` between the characters of the class: one more than there
/// are such characters, empty ones included.
pub open spec fn pieces(s: Seq<char>, class: CharClass) -> Seq<Seq<char>>
    decreases s.len(),
{
    if s.len() == 0 {
        seq![Seq::empty()]
    } else {
        let before = pieces(s.drop_last(), class);
        if class.has_char(s.last()) {
            before.push(Seq::empty())
        } else {
            before.drop_last().push(before.last().push(s.last()))
        }
    }
}

/// Splits `s` at every character of the class.
pub fn split_class(s: &str, class: CharClass) -> (parts: Vec<String>)
    ensures
        parts.deep_view() == pieces(s@, class),
{
    let chars = to_chars(s);
    let mut parts: Vec<String> = Vec::new();
    let mut part = String::new();
    let mut i: usize = 0;
    assert(parts.deep_view().push(part@) =~= pieces(s@.take(0), class));
    while i < chars.len()
        invariant
            i <= chars.len(),
            chars@ == s@,
            parts.deep_view().push(part@) == pieces(s@.take(i as int), class),
        decreases chars.len() - i,
    {
        let ghost before = parts.deep_view().push(part@);
        let ghost done = parts.deep_view();
        assert(s@.take(i + 1).drop_last() =~= s@.take(i as int));
        let c = chars[i];
        if class.holds(c) {
            parts.push(part);
            part = String::new();
            assert(parts.deep_view() =~= before);
        } else {
            part.push(c);
            assert(before.drop_last() =~= done);
        }
        i += 1;
    }
    let ghost before = parts.deep_view().push(part@);
    parts.push(part);
    assert(parts.deep_view() =~= before);
    assert(s@.take(i as int) =~= s@);
    parts
}

/// Whether `part` stands somewhere in `s`.
pub open spec fn has_text(s: Seq<char>, part: Seq<char>) -> bool {
    exists|i: int| 0 <= i <= s.len() && #[trigger] part.is_prefix_of(s.skip(i))
}

/// Whether `part` stands somewhere in `s`.
pub fn contains_text(s: &str, part: &str) -> (found: bool)
    ensures
        found == has_text(s@, part@),
{
    let chars = to_chars(s);
    let wanted = to_chars(part);
    let mut i: usize = 0;
    while i <= chars.len()
        invariant
            i <= chars.len() + 1,
            chars@ == s@,
            wanted@ == part@,
            forall|j: int| 0 <= j < i ==> !(#[trigger] part@.is_prefix_of(s@.skip(j))),
        decreases chars.len() + 1 - i,
    {
        if stands_at(&chars, i, &wanted) {
            return true;
        }
        if i == chars.len() {
            return false;
        }
        i += 1;
    }
    false
}

/// `s` with every copy of `part`, taken from the left without overlap,
/// replaced by `by`.
pub open spec fn replaced(s: Seq<char>, part: Seq<char>, by: Seq<char>) -> Seq<char>
    decreases s.len(),
{
    if s.len() == 0 || part.len() == 0 {
        s
    } else if part.is_prefix_of(s) {
        by + replaced(s.skip(part.len() as int), part, by)
    } else {
        seq![s.first()] + replaced(s.drop_first(), part, by)
    }
}

/// Replaces every copy of `part`, taken from the left, by `by`.
pub fn replace_text(s: &str, part: &str, by: &str) -> (out: String)
    requires
        part@.len() > 0,
    ensures
        out@ == replaced(s@, part@, by@),
{
    let chars = to_chars(s);
    let wanted = to_chars(part);
    let mut out = String::new();
    let mut i: usize = 0;
    assert(s@.skip(0) =~= s@);
    assert(out@ + replaced(s@, part@, by@) =~= replaced(s@, part@, by@));
    while i < chars.len()
        invariant
            i <= chars.len(),
            chars@ == s@,
            wanted@ == part@,
            part@.len() > 0,
            replaced(s@, part@, by@) == out@ + replaced(s@.skip(i as int), part@, by@),
        decreases chars.len() - i,
    {
        let ghost rest = s@.skip(i as int);
        let ghost before = out@;
        if stands_at(&chars, i, &wanted) {
            out.append(by);
            assert(rest.skip(part@.len() as int) =~= s@.skip(i + part@.len()));
            i += wanted.len();
        } else {
            out.push(chars[i]);
            assert(rest.drop_first() =~= s@.skip(i + 1));
            i += 1;
        }
        assert(out@ + replaced(s@.skip(i as int), part@, by@) =~= before + replaced(
            rest,
            part@,
            by@,
        ));
    }
    assert(out@ + replaced(s@.skip(i as int), part@, by@) =~= out@);
    out
}

/// Whether two strings differ at most in the case of ASCII letters.
pub fn eq_ignore_ascii_case(a: &str, b: &str) -> (same: bool)
    ensures
        same == (lowercased(a@) == lowercased(b@)),
{
    same_text(to_ascii_lowercase(a).as_str(), to_ascii_lowercase(b).as_str())
}

/// `a`, `b` and `c` one after the other.
pub fn concat3(a: &str, b: &str, c: &str) -> (joined: String)
    ensures
        joined@ == a@ + b@ + c@,
{
    let mut joined = a.to_owned();
    joined.append(b);
    joined.append(c);
    joined
}

/// Whether one of the items is `wanted`.
pub fn holds_text(items: &Vec<String>, wanted: &str) -> (found: bool)
    ensures
        found == items.deep_view().contains(wanted@),
{
    let mut i: usize = 0;
    while i < items.len()
        invariant
            i <= items.len(),
            forall|j: int| 0 <= j < i ==> items.deep_view()[j] != wanted@,
        decreases items.len() - i,
    {
        if same_text(items[i].as_str(), wanted) {
            assert(items.deep_view()[i as int] == wanted@);
            return true;
        }
        i += 1;
    }
    false
}

/// A copy of a list of texts.
pub fn copy_texts(items: &Vec<String>) -> (copy: Vec<String>)
    ensures
        copy.deep_view() == items.deep_view(),
{
    let mut copy: Vec<String> = Vec::new();
    let mut i: usize = 0;
    while i < items.len()
        invariant
            i <= items.len(),
            copy.deep_view() == items.deep_view().take(i as int),
        decreases items.len() - i,
    {
        let ghost before = copy.deep_view();
        copy.push(items[i].clone());
        assert(copy.deep_view() =~= before.push(items.deep_view()[i as int]));
        i += 1;
    }
    assert(items.deep_view().take(i as int) =~= items.deep_view());
    copy
}

pub proof fn lemma_push_contains<A>(s: Seq<A>, last: A, item: A)
    ensures
        s.push(last).contains(item) <==> s.contains(item) || item == last,
{
    if s.contains(item) {
        let i = choose|i: int| 0 <= i < s.len() && s[i] == item;
        assert(s.push(last)[i] == item);
    }
    assert(s.push(last)[s.len() as int] == last);
    if s.push(last).contains(item) && item != last {
        let i = choose|i: int| 0 <= i < s.push(last).len() && s.push(last)[i] == item;
        assert(s[i] == item);
    }
}

pub proof fn lemma_add_contains<A>(a: Seq<A>, b: Seq<A>, item: A)
    ensures
        (a + b).contains(item) <==> a.contains(item) || b.contains(item),
{
    if a.contains(item) {
        let i = choose|i: int| 0 <= i < a.len() && a[i] == item;
        assert((a + b)[i] == item);
    }
    if b.contains(item) {
        let i = choose|i: int| 0 <= i < b.len() && b[i] == item;
        assert((a + b)[a.len() + i] == item);
    }
    if (a + b).contains(item) {
        let i = choose|i: int| 0 <= i < (a + b).len() && (a + b)[i] == item;
        if i < a.len() {
            assert(a[i] == item);
        } else {
            assert(b[i - a.len()] == item);
        }
    }
}

} // verus!
