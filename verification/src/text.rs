//! Text primitives with exact contracts over `Seq<char>`.

use vstd::prelude::*;
use vstd::string::*;

verus! {

/// `String::push` of std appends one character to the end of the text.
pub assume_specification[ std::string::String::push ](string: &mut std::string::String, c: char)
    ensures
        final(string)@ == old(string)@.push(c),
;

/// What std's `str::to_lowercase` makes of a text.
pub uninterp spec fn lowercased(text: Seq<char>) -> Seq<char>;

/// The ASCII lower case of one character; every other character stays.
pub open spec fn ascii_lower(c: char) -> char {
    if 'A' <= c && c <= 'Z' {
        ((c as int) + 32) as char
    } else {
        c
    }
}

/// Calls `str::to_lowercase` of std. The result is a function of the text alone, and
/// on a text of ASCII characters it maps `A`..`Z` to `a`..`z` and keeps the rest.
#[verifier::external_body]
pub(crate) fn to_lowercase(text: &str) -> (lower: String)
    ensures
        lower@ == lowercased(text@),
        is_ascii(text) ==> lower@ == text@.map_values(|c: char| ascii_lower(c)),
{
    text.to_lowercase()
}

/// The characters of a text, in order.
pub fn chars_of(text: &str) -> (chars: Vec<char>)
    ensures
        chars@ == text@,
{
    let mut chars: Vec<char> = Vec::new();
    for c in iter: text.chars()
        invariant
            iter.seq() == text@,
            chars@ == text@.take(iter.index() as int),
    {
        chars.push(c);
    }
    chars
}

/// The text made of the characters from `from` up to but not including `to`.
pub fn text_of(chars: &Vec<char>, from: usize, to: usize) -> (text: String)
    requires
        from <= to <= chars@.len(),
    ensures
        text@ == chars@.subrange(from as int, to as int),
{
    let mut text = String::new();
    let mut i: usize = from;
    while i < to
        invariant
            from <= i <= to <= chars@.len(),
            text@ == chars@.subrange(from as int, i as int),
        decreases to - i,
    {
        text.push(chars[i]);
        i = i + 1;
    }
    text
}

/// Whether two texts are the same.
pub fn same_text(a: &str, b: &str) -> (same: bool)
    ensures
        same == (a@ == b@),
{
    let left = chars_of(a);
    let right = chars_of(b);
    if left.len() != right.len() {
        return false;
    }
    let mut i: usize = 0;
    while i < left.len()
        invariant
            i <= left@.len(),
            left@.len() == right@.len(),
            left@ == a@,
            right@ == b@,
            left@.take(i as int) == right@.take(i as int),
        decreases left.len() - i,
    {
        if left[i] != right[i] {
            return false;
        }
        i = i + 1;
    }
    assert(left@.take(i as int) == left@);
    assert(right@.take(i as int) == right@);
    true
}

/// Whether `part` stands in `text` at position `at`.
pub open spec fn occurs_at(text: Seq<char>, part: Seq<char>, at: int) -> bool {
    0 <= at && at + part.len() <= text.len() && text.subrange(at, at + part.len()) == part
}

/// Whether `part` stands anywhere in `text`.
pub open spec fn contains_text(text: Seq<char>, part: Seq<char>) -> bool {
    exists|at: int| occurs_at(text, part, at)
}

/// The first position at which `part` stands in `text`, if it does.
pub open spec fn first_occurrence(text: Seq<char>, part: Seq<char>) -> Option<int> {
    first_occurrence_from(text, part, 0)
}

/// The first position, not before `from`, at which `part` stands in `text`.
pub open spec fn first_occurrence_from(text: Seq<char>, part: Seq<char>, from: int) -> Option<int>
    decreases text.len() + 1 - from,
{
    if from + part.len() > text.len() {
        None
    } else if occurs_at(text, part, from) {
        Some(from)
    } else {
        first_occurrence_from(text, part, from + 1)
    }
}

/// Where the first occurrence is, and that there is none before it.
pub proof fn lemma_first_occurrence_from(text: Seq<char>, part: Seq<char>, from: int)
    requires
        0 <= from,
    ensures
        match first_occurrence_from(text, part, from) {
            Some(at) => from <= at && occurs_at(text, part, at) && forall|j: int|
                from <= j < at ==> !occurs_at(text, part, j),
            None => forall|j: int| from <= j ==> !occurs_at(text, part, j),
        },
    decreases text.len() + 1 - from,
{
    if from + part.len() > text.len() {
    } else if occurs_at(text, part, from) {
    } else {
        lemma_first_occurrence_from(text, part, from + 1);
    }
}

/// A text is contained in another exactly when it has a first occurrence there.
pub proof fn lemma_contains_has_first_occurrence(text: Seq<char>, part: Seq<char>)
    ensures
        contains_text(text, part) == (first_occurrence(text, part) is Some),
{
    lemma_first_occurrence_from(text, part, 0);
}

/// What a part of a text contains, the text contains.
pub proof fn law_what_a_part_contains_the_whole_contains(
    whole: Seq<char>,
    middle: Seq<char>,
    part: Seq<char>,
)
    requires
        contains_text(whole, middle),
        contains_text(middle, part),
    ensures
        contains_text(whole, part),
{
    let at = choose|at: int| occurs_at(whole, middle, at);
    let inner = choose|inner: int| occurs_at(middle, part, inner);
    assert(whole.subrange(at + inner, at + inner + part.len()) =~= middle.subrange(
        inner,
        inner + part.len(),
    ));
    assert(occurs_at(whole, part, at + inner));
}

/// Containment is kept when text is added on either side.
pub proof fn lemma_contains_in_larger(
    before: Seq<char>,
    text: Seq<char>,
    after: Seq<char>,
    part: Seq<char>,
)
    requires
        contains_text(text, part),
    ensures
        contains_text(before + text + after, part),
{
    let at = choose|at: int| occurs_at(text, part, at);
    let whole = before + text + after;
    assert(whole.subrange(before.len() + at, before.len() + at + part.len()) =~= text.subrange(
        at,
        at + part.len(),
    ));
    assert(occurs_at(whole, part, before.len() + at));
}

/// Whether `part` stands in `chars` at position `at`.
fn occurs_here(chars: &Vec<char>, part: &Vec<char>, at: usize) -> (found: bool)
    requires
        at <= chars@.len(),
    ensures
        found == occurs_at(chars@, part@, at as int),
{
    let total: usize = chars.len();
    if total - at < part.len() {
        return false;
    }
    let mut i: usize = 0;
    while i < part.len()
        invariant
            i <= part@.len(),
            total == chars@.len(),
            at + part@.len() <= total,
            forall|j: int| 0 <= j < i ==> chars@[at + j] == part@[j],
        decreases part.len() - i,
    {
        if chars[at + i] != part[i] {
            assert(chars@.subrange(at as int, at + part@.len())[i as int] != part@[i as int]);
            return false;
        }
        i = i + 1;
    }
    assert(chars@.subrange(at as int, at + part@.len()) =~= part@);
    true
}

/// The first position of `part` in `chars`, if there is one.
pub fn find_chars(chars: &Vec<char>, part: &Vec<char>) -> (found: Option<usize>)
    ensures
        match found {
            Some(at) => first_occurrence(chars@, part@) == Some(at as int) && occurs_at(
                chars@,
                part@,
                at as int,
            ),
            None => first_occurrence(chars@, part@) is None,
        },
{
    let total: usize = chars.len();
    let size: usize = part.len();
    if size > total {
        return None;
    }
    let mut at: usize = 0;
    loop
        invariant
            at <= total - size,
            total == chars@.len(),
            size == part@.len(),
            first_occurrence(chars@, part@) == first_occurrence_from(chars@, part@, at as int),
        decreases total - at,
    {
        if occurs_here(chars, part, at) {
            return Some(at);
        }
        if at == total - size {
            assert(first_occurrence_from(chars@, part@, at + 1) is None);
            return None;
        }
        at = at + 1;
    }
}

/// Whether `part` stands anywhere in `text`.
pub fn contains(text: &str, part: &str) -> (found: bool)
    ensures
        found == contains_text(text@, part@),
{
    proof {
        lemma_contains_has_first_occurrence(text@, part@);
    }
    find_chars(&chars_of(text), &chars_of(part)).is_some()
}

/// The text before the first occurrence of a separator and the text after it.
pub open spec fn split_once_spec(text: Seq<char>, separator: Seq<char>) -> Option<
    (Seq<char>, Seq<char>),
> {
    match first_occurrence(text, separator) {
        Some(at) => Some((text.take(at), text.skip(at + separator.len()))),
        None => None,
    }
}

/// Parts a text at the first occurrence of a separator.
pub fn split_once(text: &str, separator: &str) -> (parts: Option<(String, String)>)
    ensures
        match (parts, split_once_spec(text@, separator@)) {
            (Some(got), Some(want)) => got.0@ == want.0 && got.1@ == want.1,
            (None, None) => true,
            _ => false,
        },
{
    let chars = chars_of(text);
    let part = chars_of(separator);
    match find_chars(&chars, &part) {
        Some(at) => {
            let total: usize = chars.len();
            let rest: usize = at + part.len();
            assert(text@.skip(at + separator@.len()) =~= text@.subrange(
                at + separator@.len(),
                text@.len() as int,
            ));
            Some((text_of(&chars, 0, at), text_of(&chars, rest, total)))
        },
        None => None,
    }
}

/// Whether `text` begins with `prefix`.
pub fn starts_with(text: &str, prefix: &str) -> (yes: bool)
    ensures
        yes == prefix@.is_prefix_of(text@),
{
    let chars = chars_of(text);
    let part = chars_of(prefix);
    let yes = occurs_here(&chars, &part, 0);
    assert(yes == prefix@.is_prefix_of(text@)) by {
        if prefix@.len() <= text@.len() {
            assert(text@.subrange(0, prefix@.len() as int) =~= text@.take(prefix@.len() as int));
        }
    }
    yes
}

/// The Unicode property `White_Space`, which is what std's `char::is_whitespace` tests.
pub open spec fn is_white_space(c: char) -> bool {
    ||| '\u{9}' <= c && c <= '\u{D}'
    ||| c == ' '
    ||| c == '\u{85}'
    ||| c == '\u{A0}'
    ||| c == '\u{1680}'
    ||| '\u{2000}' <= c && c <= '\u{200A}'
    ||| c == '\u{2028}'
    ||| c == '\u{2029}'
    ||| c == '\u{202F}'
    ||| c == '\u{205F}'
    ||| c == '\u{3000}'
}

/// Whether a character is white space.
pub fn white_space(c: char) -> (yes: bool)
    ensures
        yes == is_white_space(c),
{
    ('\u{9}' <= c && c <= '\u{D}') || c == ' ' || c == '\u{85}' || c == '\u{A0}' || c == '\u{1680}'
        || ('\u{2000}' <= c && c <= '\u{200A}') || c == '\u{2028}' || c == '\u{2029}' || c
        == '\u{202F}' || c == '\u{205F}' || c == '\u{3000}'
}

/// The text without the white space at its start.
pub open spec fn trim_start_spec(text: Seq<char>) -> Seq<char>
    decreases text.len(),
{
    if text.len() > 0 && is_white_space(text[0]) {
        trim_start_spec(text.skip(1))
    } else {
        text
    }
}

/// The text without the white space at its end.
pub open spec fn trim_end_spec(text: Seq<char>) -> Seq<char>
    decreases text.len(),
{
    if text.len() > 0 && is_white_space(text.last()) {
        trim_end_spec(text.drop_last())
    } else {
        text
    }
}

/// The text without the white space at its two ends.
pub open spec fn trim_spec(text: Seq<char>) -> Seq<char> {
    trim_end_spec(trim_start_spec(text))
}

/// Whether a text holds white space alone.
pub open spec fn is_blank(text: Seq<char>) -> bool {
    trim_spec(text).len() == 0
}

/// Removes the white space at both ends.
pub fn trim(text: &str) -> (trimmed: String)
    ensures
        trimmed@ == trim_spec(text@),
{
    let chars = chars_of(text);
    let mut from: usize = 0;
    assert(text@.skip(0) =~= text@);
    while from < chars.len() && white_space(chars[from])
        invariant
            from <= chars@.len(),
            chars@ == text@,
            trim_start_spec(text@) == trim_start_spec(text@.skip(from as int)),
        decreases chars.len() - from,
    {
        assert(text@.skip(from as int).skip(1) =~= text@.skip(from + 1));
        from = from + 1;
    }
    let mut to: usize = chars.len();
    assert(text@.skip(from as int) =~= text@.subrange(from as int, to as int));
    while from < to && white_space(chars[to - 1])
        invariant
            from <= to <= chars@.len(),
            chars@ == text@,
            trim_spec(text@) == trim_end_spec(text@.subrange(from as int, to as int)),
        decreases to - from,
    {
        assert(text@.subrange(from as int, to as int).drop_last() =~= text@.subrange(
            from as int,
            to - 1,
        ));
        to = to - 1;
    }
    text_of(&chars, from, to)
}

/// The longest end of a text without white space in it.
pub open spec fn word_at_end(text: Seq<char>) -> Seq<char>
    decreases text.len(),
{
    if text.len() == 0 || is_white_space(text.last()) {
        Seq::empty()
    } else {
        word_at_end(text.drop_last()).push(text.last())
    }
}

/// The last of the words that white space separates; empty on a blank text.
pub open spec fn last_word_spec(text: Seq<char>) -> Seq<char> {
    word_at_end(trim_spec(text))
}

/// The last word of a text; empty on a blank text.
pub fn last_word(text: &str) -> (word: String)
    ensures
        word@ == last_word_spec(text@),
{
    let trimmed = trim(text);
    let chars = chars_of(trimmed.as_str());
    let mut from: usize = chars.len();
    assert(chars@.take(from as int) =~= chars@);
    while from > 0 && !white_space(chars[from - 1])
        invariant
            from <= chars@.len(),
            chars@ == trim_spec(text@),
            last_word_spec(text@) == word_at_end(chars@.take(from as int)) + chars@.skip(
                from as int,
            ),
        decreases from,
    {
        let ghost head = chars@.take(from as int);
        assert(head.drop_last() =~= chars@.take(from - 1));
        assert(word_at_end(head) + chars@.skip(from as int) =~= word_at_end(head.drop_last())
            + chars@.skip(from - 1));
        from = from - 1;
    }
    assert(word_at_end(chars@.take(from as int)).len() == 0);
    assert(last_word_spec(text@) =~= chars@.subrange(from as int, chars@.len() as int));
    text_of(&chars, from, chars.len())
}

/// The pieces of a text that a separator character parts, empty ones kept; there is
/// always at least one.
pub open spec fn split_on_spec(text: Seq<char>, separator: char) -> Seq<Seq<char>>
    decreases text.len(),
{
    if text.len() == 0 {
        seq![Seq::empty()]
    } else {
        let pieces = split_on_spec(text.drop_last(), separator);
        if text.last() == separator {
            pieces.push(Seq::empty())
        } else {
            pieces.drop_last().push(pieces.last().push(text.last()))
        }
    }
}

/// There is always at least one piece.
pub proof fn lemma_split_on_nonempty(text: Seq<char>, separator: char)
    ensures
        split_on_spec(text, separator).len() > 0,
    decreases text.len(),
{
    if text.len() > 0 {
        lemma_split_on_nonempty(text.drop_last(), separator);
    }
}

/// The contents of a list of texts.
pub open spec fn texts(list: Seq<String>) -> Seq<Seq<char>> {
    list.map_values(|text: String| text@)
}

/// Adding a text at the end of a list adds its contents at the end.
pub proof fn lemma_texts_push(list: Seq<String>, text: String)
    ensures
        texts(list.push(text)) == texts(list).push(text@),
{
    assert(texts(list.push(text)) =~= texts(list).push(text@));
}

/// Parts a text at every occurrence of a separator character.
pub fn split_on(text: &str, separator: char) -> (pieces: Vec<String>)
    ensures
        texts(pieces@) == split_on_spec(text@, separator),
        pieces@.len() > 0,
{
    let chars = chars_of(text);
    let mut pieces: Vec<String> = Vec::new();
    let mut piece = String::new();
    let mut i: usize = 0;
    assert(text@.take(0) =~= Seq::empty());
    assert(texts(pieces@).push(piece@) =~= seq![Seq::<char>::empty()]);
    while i < chars.len()
        invariant
            i <= chars@.len(),
            chars@ == text@,
            texts(pieces@).push(piece@) == split_on_spec(text@.take(i as int), separator),
        decreases chars.len() - i,
    {
        let ghost head = text@.take(i + 1);
        assert(head.drop_last() =~= text@.take(i as int));
        let c = chars[i];
        assert(head.last() == c);
        if c == separator {
            proof {
                lemma_texts_push(pieces@, piece);
            }
            pieces.push(piece);
            piece = String::new();
        } else {
            let ghost before = texts(pieces@).push(piece@);
            piece.push(c);
            assert(before.drop_last() =~= texts(pieces@));
        }
        i = i + 1;
    }
    assert(text@.take(i as int) =~= text@);
    proof {
        lemma_texts_push(pieces@, piece);
    }
    pieces.push(piece);
    pieces
}

/// The texts of a list with a separator between each two.
pub open spec fn join_spec(pieces: Seq<Seq<char>>, separator: Seq<char>) -> Seq<char>
    decreases pieces.len(),
{
    if pieces.len() == 0 {
        Seq::empty()
    } else if pieces.len() == 1 {
        pieces[0]
    } else {
        join_spec(pieces.drop_last(), separator) + separator + pieces.last()
    }
}

/// Joins texts with a separator.
pub fn join(pieces: &[String], separator: &str) -> (joined: String)
    ensures
        joined@ == join_spec(texts(pieces@), separator@),
{
    let mut joined = String::new();
    let mut i: usize = 0;
    assert(texts(pieces@).take(0) =~= Seq::empty());
    while i < pieces.len()
        invariant
            i <= pieces@.len(),
            joined@ == join_spec(texts(pieces@).take(i as int), separator@),
        decreases pieces.len() - i,
    {
        let ghost head = texts(pieces@).take(i + 1);
        assert(head.drop_last() =~= texts(pieces@).take(i as int));
        assert(head.last() == pieces@[i as int]@);
        if i > 0 {
            joined.append(separator);
        }
        joined.append(pieces[i].as_str());
        assert(i == 0 ==> Seq::<char>::empty() + pieces@[0]@ =~= pieces@[0]@);
        i = i + 1;
    }
    assert(texts(pieces@).take(i as int) =~= texts(pieces@));
    joined
}

/// What splitting on a character takes apart, joining with it puts back together.
pub proof fn lemma_join_undoes_split_on(text: Seq<char>, separator: char)
    ensures
        join_spec(split_on_spec(text, separator), seq![separator]) == text,
    decreases text.len(),
{
    if text.len() > 0 {
        let before = text.drop_last();
        lemma_join_undoes_split_on(before, separator);
        lemma_split_on_nonempty(before, separator);
        let pieces = split_on_spec(before, separator);
        let all = split_on_spec(text, separator);
        if text.last() == separator {
            assert(all.drop_last() =~= pieces);
            assert(join_spec(all, seq![separator]) =~= text);
        } else {
            assert(all.drop_last() =~= pieces.drop_last());
            assert(join_spec(all, seq![separator]) =~= join_spec(pieces, seq![separator]).push(
                text.last(),
            ));
            assert(before.push(text.last()) =~= text);
        }
    }
}

/// A text with every occurrence of one character replaced.
pub open spec fn replace_char_spec(text: Seq<char>, c: char, with: Seq<char>) -> Seq<char>
    decreases text.len(),
{
    if text.len() == 0 {
        Seq::empty()
    } else {
        let before = replace_char_spec(text.drop_last(), c, with);
        if text.last() == c {
            before + with
        } else {
            before.push(text.last())
        }
    }
}

/// Replaces every occurrence of one character by a text.
pub fn replace_char(text: &str, c: char, with: &str) -> (replaced: String)
    ensures
        replaced@ == replace_char_spec(text@, c, with@),
{
    let chars = chars_of(text);
    let mut replaced = String::new();
    let mut i: usize = 0;
    assert(text@.take(0) =~= Seq::empty());
    while i < chars.len()
        invariant
            i <= chars@.len(),
            chars@ == text@,
            replaced@ == replace_char_spec(text@.take(i as int), c, with@),
        decreases chars.len() - i,
    {
        assert(text@.take(i + 1).drop_last() =~= text@.take(i as int));
        if chars[i] == c {
            replaced.append(with);
        } else {
            replaced.push(chars[i]);
        }
        i = i + 1;
    }
    assert(text@.take(i as int) =~= text@);
    replaced
}

/// The character of a hexadecimal digit in lower case; also that of a decimal digit.
pub open spec fn digit_char(digit: int) -> char {
    if digit < 10 {
        (48 + digit) as char
    } else {
        (87 + digit) as char
    }
}

/// A number in decimal notation, without leading zeros.
pub open spec fn decimal(n: nat) -> Seq<char>
    decreases n,
{
    if n < 10 {
        seq![digit_char(n as int)]
    } else {
        decimal(n / 10).push(digit_char((n % 10) as int))
    }
}

/// Decimal notation is made of digits.
pub proof fn lemma_decimal_is_digits(n: nat, i: int)
    requires
        0 <= i < decimal(n).len(),
    ensures
        '0' <= decimal(n)[i] && decimal(n)[i] <= '9',
    decreases n,
{
    if n >= 10 && i < decimal(n).len() - 1 {
        lemma_decimal_is_digits(n / 10, i);
    }
}

/// Different numbers are written differently.
pub proof fn law_decimal_is_injective(a: nat, b: nat)
    requires
        decimal(a) == decimal(b),
    ensures
        a == b,
    decreases a,
{
    assert(decimal(a).len() >= 1 && decimal(b).len() >= 1);
    assert(decimal(a).last() == digit_char((a % 10) as int));
    assert(decimal(b).last() == digit_char((b % 10) as int));
    if a >= 10 && b >= 10 {
        assert(decimal(a).drop_last() =~= decimal(a / 10));
        assert(decimal(b).drop_last() =~= decimal(b / 10));
        law_decimal_is_injective(a / 10, b / 10);
    } else if a >= 10 {
        lemma_decimal_is_not_empty(a / 10);
    } else if b >= 10 {
        lemma_decimal_is_not_empty(b / 10);
    }
}

/// Decimal notation is not empty.
proof fn lemma_decimal_is_not_empty(n: nat)
    ensures
        decimal(n).len() >= 1,
{
}

/// Two numbers with a dash between them can be read back.
pub proof fn lemma_dashed_numbers_are_distinct(a: nat, b: nat, c: nat, d: nat)
    requires
        decimal(a) + "-"@ + decimal(b) == decimal(c) + "-"@ + decimal(d),
    ensures
        a == c && b == d,
{
    reveal_strlit("-");
    let left = decimal(a) + "-"@ + decimal(b);
    let right = decimal(c) + "-"@ + decimal(d);
    let i = decimal(a).len() as int;
    let j = decimal(c).len() as int;
    assert(left[i] == '-' && right[j] == '-');
    if i < j {
        lemma_decimal_is_digits(c, i);
        assert(right[i] == decimal(c)[i]);
    }
    if j < i {
        lemma_decimal_is_digits(a, j);
        assert(left[j] == decimal(a)[j]);
    }
    assert(left.take(i) =~= decimal(a));
    assert(right.take(j) =~= decimal(c));
    assert(left.skip(i + 1) =~= decimal(b));
    assert(right.skip(j + 1) =~= decimal(d));
    law_decimal_is_injective(a, c);
    law_decimal_is_injective(b, d);
}

/// A number in decimal notation, with a minus sign where it is negative.
pub open spec fn decimal_int(n: int) -> Seq<char> {
    if n < 0 {
        "-"@ + decimal((-n) as nat)
    } else {
        decimal(n as nat)
    }
}

/// The character of one digit below sixteen, in lower case.
fn digit(value: u8) -> (c: char)
    requires
        value < 16,
    ensures
        c == digit_char(value as int),
{
    if value < 10 {
        (48 + value) as char
    } else {
        (87 + value) as char
    }
}

/// A number in decimal notation.
pub fn decimal_text(n: u64) -> (text: String)
    ensures
        text@ == decimal(n as nat),
    decreases n,
{
    if n < 10 {
        let mut text = String::new();
        text.push(digit(n as u8));
        assert(text@ =~= decimal(n as nat));
        text
    } else {
        let mut text = decimal_text(n / 10);
        text.push(digit((n % 10) as u8));
        text
    }
}

/// A signed number in decimal notation.
pub fn decimal_int_text(n: i32) -> (text: String)
    ensures
        text@ == decimal_int(n as int),
{
    if n < 0 {
        let mut text = "-".to_owned();
        text.append(decimal_text((-(n as i64)) as u64).as_str());
        text
    } else {
        decimal_text(n as u64)
    }
}

/// The bytes in hexadecimal notation, two lower-case digits each.
pub open spec fn hex_spec(bytes: Seq<u8>) -> Seq<char>
    decreases bytes.len(),
{
    if bytes.len() == 0 {
        Seq::empty()
    } else {
        hex_spec(bytes.drop_last()).push(digit_char(bytes.last() as int / 16)).push(
            digit_char(bytes.last() as int % 16),
        )
    }
}

/// Writes bytes in hexadecimal notation, two lower-case digits each.
pub fn hex(bytes: &[u8]) -> (text: String)
    ensures
        text@ == hex_spec(bytes@),
{
    let mut text = String::new();
    let mut i: usize = 0;
    assert(bytes@.take(0) =~= Seq::empty());
    while i < bytes.len()
        invariant
            i <= bytes@.len(),
            text@ == hex_spec(bytes@.take(i as int)),
        decreases bytes.len() - i,
    {
        assert(bytes@.take(i + 1).drop_last() =~= bytes@.take(i as int));
        text.push(digit(bytes[i] / 16));
        text.push(digit(bytes[i] % 16));
        i = i + 1;
    }
    assert(bytes@.take(i as int) =~= bytes@);
    text
}

/// The last byte's digits end the notation, and the length is twice that of the bytes.
pub proof fn lemma_hex_len(bytes: Seq<u8>)
    ensures
        hex_spec(bytes).len() == 2 * bytes.len(),
    decreases bytes.len(),
{
    if bytes.len() > 0 {
        lemma_hex_len(bytes.drop_last());
    }
}

/// A text stands in every text that is written around it.
pub proof fn law_a_text_is_contained_in_what_surrounds_it(
    before: Seq<char>,
    part: Seq<char>,
    after: Seq<char>,
)
    ensures
        contains_text(before + part + after, part),
{
    let at = before.len() as int;
    assert((before + part + after).subrange(at, at + part.len()) =~= part);
    assert(occurs_at(before + part + after, part, at));
}

/// Where a text is contained in another, the other goes on with it from some position on.
pub proof fn law_what_is_contained_stands_there(text: Seq<char>, part: Seq<char>)
    requires
        contains_text(text, part),
    ensures
        exists|at: int|
            0 <= at <= text.len() && #[trigger] text.skip(at).len() >= part.len() && text.skip(
                at,
            ).take(part.len() as int) == part,
{
    let at = choose|at: int| occurs_at(text, part, at);
    assert(text.skip(at).take(part.len() as int) =~= text.subrange(at, at + part.len()));
}

/// White space before a text does not matter to what is left once white space is taken off
/// its start.
proof fn lemma_trim_start_skips(left: Seq<char>, rest: Seq<char>)
    requires
        forall|i: int| 0 <= i < left.len() ==> is_white_space(#[trigger] left[i]),
    ensures
        trim_start_spec(left + rest) == trim_start_spec(rest),
    decreases left.len(),
{
    if left.len() == 0 {
        assert(left + rest =~= rest);
    } else {
        assert(is_white_space(left[0]));
        let fewer = left.skip(1);
        assert forall|i: int| 0 <= i < fewer.len() implies is_white_space(#[trigger] fewer[i]) by {
            assert(fewer[i] == left[i + 1]);
        }
        assert((left + rest).skip(1) =~= fewer + rest);
        lemma_trim_start_skips(fewer, rest);
    }
}

/// White space behind a text does not matter to what is left once white space is taken off
/// its end.
proof fn lemma_trim_end_skips(rest: Seq<char>, right: Seq<char>)
    requires
        forall|i: int| 0 <= i < right.len() ==> is_white_space(#[trigger] right[i]),
    ensures
        trim_end_spec(rest + right) == trim_end_spec(rest),
    decreases right.len(),
{
    if right.len() == 0 {
        assert(rest + right =~= rest);
    } else {
        assert(is_white_space(right[right.len() - 1]));
        let fewer = right.drop_last();
        assert forall|i: int| 0 <= i < fewer.len() implies is_white_space(#[trigger] fewer[i]) by {
            assert(fewer[i] == right[i]);
        }
        assert((rest + right).drop_last() =~= rest + fewer);
        assert((rest + right).last() == right.last());
        lemma_trim_end_skips(rest, fewer);
    }
}

/// Trimming takes off the white space at the two ends and nothing else: what stands between
/// comes out as it is, white space inside it included.
pub proof fn law_trim_keeps_what_stands_between(left: Seq<char>, core: Seq<char>, right: Seq<char>)
    requires
        forall|i: int| 0 <= i < left.len() ==> is_white_space(#[trigger] left[i]),
        forall|i: int| 0 <= i < right.len() ==> is_white_space(#[trigger] right[i]),
        core.len() > 0 ==> !is_white_space(core[0]) && !is_white_space(core.last()),
    ensures
        trim_spec(left + core + right) == core,
{
    assert(left + core + right =~= left + (core + right));
    lemma_trim_start_skips(left, core + right);
    if core.len() > 0 {
        assert((core + right)[0] == core[0]);
        lemma_trim_end_skips(core, right);
    } else {
        assert(core + right =~= right + Seq::empty());
        lemma_trim_start_skips(right, Seq::empty());
        assert(core =~= Seq::empty());
    }
}

/// The blank, the tabulator and the characters that end a line are white space; no printed
/// ASCII character is.
pub proof fn law_white_space_in_ascii(c: char)
    requires
        c <= '\u{7F}',
    ensures
        is_white_space(c) <==> c == ' ' || c == '\t' || c == '\n' || c == '\r' || c == '\u{B}' || c
            == '\u{C}',
{
}

/// What taking white space off the start leaves of a text that holds a word.
proof fn lemma_trim_start_keeps_word(before: Seq<char>, word: Seq<char>, right: Seq<char>) -> (kept:
    Seq<char>)
    requires
        word.len() > 0,
        !is_white_space(word[0]),
        before.len() > 0 ==> is_white_space(before.last()),
    ensures
        trim_start_spec(before + word + right) == kept + word + right,
        kept.len() > 0 ==> is_white_space(kept.last()),
    decreases before.len(),
{
    let whole = before + word + right;
    if before.len() == 0 {
        assert(whole[0] == word[0]);
        before
    } else if is_white_space(before[0]) {
        let fewer = before.skip(1);
        assert(whole[0] == before[0]);
        assert(whole.skip(1) =~= fewer + word + right);
        if fewer.len() > 0 {
            assert(fewer.last() == before.last());
        }
        lemma_trim_start_keeps_word(fewer, word, right)
    } else {
        assert(whole[0] == before[0]);
        before
    }
}

/// The longest end without white space is the word behind the last white space.
proof fn lemma_word_at_end(kept: Seq<char>, word: Seq<char>)
    requires
        forall|i: int| 0 <= i < word.len() ==> !is_white_space(#[trigger] word[i]),
        kept.len() > 0 ==> is_white_space(kept.last()),
    ensures
        word_at_end(kept + word) == word,
    decreases word.len(),
{
    let whole = kept + word;
    if word.len() == 0 {
        assert(whole =~= kept);
        assert(word =~= Seq::empty());
    } else {
        let fewer = word.drop_last();
        assert forall|i: int| 0 <= i < fewer.len() implies !is_white_space(#[trigger] fewer[i]) by {
            assert(fewer[i] == word[i]);
        }
        lemma_word_at_end(kept, fewer);
        assert(whole.drop_last() =~= kept + fewer);
        assert(whole.last() == word[word.len() - 1]);
        assert(fewer.push(word.last()) =~= word);
    }
}

/// The last word of a text is the one behind the last white space before it, whatever stands
/// before and however much white space follows.
pub proof fn law_last_word_is_the_one_at_the_end(
    before: Seq<char>,
    word: Seq<char>,
    right: Seq<char>,
)
    requires
        word.len() > 0,
        forall|i: int| 0 <= i < word.len() ==> !is_white_space(#[trigger] word[i]),
        before.len() > 0 ==> is_white_space(before.last()),
        forall|i: int| 0 <= i < right.len() ==> is_white_space(#[trigger] right[i]),
    ensures
        last_word_spec(before + word + right) == word,
{
    assert(!is_white_space(word[0]));
    assert(!is_white_space(word[word.len() - 1]));
    let kept = lemma_trim_start_keeps_word(before, word, right);
    lemma_trim_end_skips(kept + word, right);
    assert((kept + word).last() == word.last());
    assert(trim_spec(before + word + right) == kept + word);
    lemma_word_at_end(kept, word);
}

/// Splitting a text that goes on without the separator makes the last piece longer.
pub proof fn lemma_split_goes_on(head: Seq<char>, more: Seq<char>, separator: char)
    requires
        forall|i: int| 0 <= i < more.len() ==> #[trigger] more[i] != separator,
    ensures
        split_on_spec(head + more, separator) == split_on_spec(head, separator).drop_last().push(
            split_on_spec(head, separator).last() + more,
        ),
    decreases more.len(),
{
    lemma_split_on_nonempty(head, separator);
    let pieces = split_on_spec(head, separator);
    if more.len() == 0 {
        assert(head + more =~= head);
        assert(pieces.last() + more =~= pieces.last());
        assert(pieces.drop_last().push(pieces.last()) =~= pieces);
    } else {
        let before = more.drop_last();
        assert forall|i: int| 0 <= i < before.len() implies #[trigger] before[i] != separator by {
            assert(before[i] == more[i]);
        }
        lemma_split_goes_on(head, before, separator);
        assert((head + more).drop_last() =~= head + before);
        assert((head + more).last() == more[more.len() - 1]);
        let got = split_on_spec(head + before, separator);
        assert(got.drop_last() =~= pieces.drop_last());
        assert((pieces.last() + before).push(more.last()) =~= pieces.last() + more);
    }
}

/// A separator and a text without one behind it add one piece: that text.
pub proof fn law_a_separator_begins_a_piece(head: Seq<char>, piece: Seq<char>, separator: char)
    requires
        forall|i: int| 0 <= i < piece.len() ==> #[trigger] piece[i] != separator,
    ensures
        split_on_spec(head + seq![separator] + piece, separator) == split_on_spec(
            head,
            separator,
        ).push(piece),
        split_on_spec(piece, separator) == seq![piece],
{
    let begun = head + seq![separator];
    assert(begun.drop_last() =~= head);
    assert(begun.last() == separator);
    lemma_split_goes_on(begun, piece, separator);
    let pieces = split_on_spec(begun, separator);
    assert(pieces.drop_last() =~= split_on_spec(head, separator));
    assert(Seq::<char>::empty() + piece =~= piece);
    lemma_split_goes_on(Seq::empty(), piece, separator);
    let none = split_on_spec(Seq::empty(), separator);
    assert(none.drop_last() =~= Seq::empty());
    assert(none.last() =~= Seq::empty());
    assert(Seq::<Seq<char>>::empty().push(piece) =~= seq![piece]);
}

/// What a separator joins, splitting at it takes apart again, piece by piece.
pub proof fn law_splitting_undoes_joining(pieces: Seq<Seq<char>>, separator: char)
    requires
        pieces.len() > 0,
        forall|i: int, j: int|
            0 <= i < pieces.len() && 0 <= j < pieces[i].len() ==> #[trigger] pieces[i][j]
                != separator,
    ensures
        split_on_spec(join_spec(pieces, seq![separator]), separator) == pieces,
    decreases pieces.len(),
{
    let last = pieces.last();
    assert forall|j: int| 0 <= j < last.len() implies #[trigger] last[j] != separator by {
        assert(pieces[pieces.len() - 1][j] != separator);
    }
    if pieces.len() == 1 {
        law_a_separator_begins_a_piece(Seq::empty(), last, separator);
        assert(seq![last] =~= pieces);
    } else {
        let before = pieces.drop_last();
        assert forall|i: int, j: int|
            0 <= i < before.len() && 0 <= j < before[i].len() implies #[trigger] before[i][j]
            != separator by {
            assert(pieces[i][j] != separator);
        }
        law_splitting_undoes_joining(before, separator);
        law_a_separator_begins_a_piece(join_spec(before, seq![separator]), last, separator);
        assert(before.push(last) =~= pieces);
    }
}

/// A text is parted at the first place where the separator stands, and is not parted exactly
/// where the separator stands nowhere.
pub proof fn law_split_once_parts_at_the_first(
    before: Seq<char>,
    separator: Seq<char>,
    after: Seq<char>,
)
    requires
        forall|at: int|
            0 <= at < before.len() ==> !occurs_at(before + separator + after, separator, at),
    ensures
        split_once_spec(before + separator + after, separator) == Some((before, after)),
        forall|text: Seq<char>|
            !contains_text(text, separator) ==> #[trigger] split_once_spec(text, separator) is None,
{
    let whole = before + separator + after;
    let at = before.len() as int;
    assert(whole.subrange(at, at + separator.len()) =~= separator);
    assert(occurs_at(whole, separator, at));
    lemma_first_occurrence_from(whole, separator, 0);
    assert(whole.take(at) =~= before);
    assert(whole.skip(at + separator.len()) =~= after);
    assert forall|text: Seq<char>| !contains_text(text, separator) implies (
    #[trigger] split_once_spec(text, separator)) is None by {
        lemma_first_occurrence_from(text, separator, 0);
    }
}

/// Replacing a character replaces every occurrence of it and keeps every other character
/// where it is.
pub proof fn law_every_occurrence_is_replaced(
    before: Seq<char>,
    after: Seq<char>,
    c: char,
    with: Seq<char>,
)
    requires
        forall|i: int| 0 <= i < after.len() ==> #[trigger] after[i] != c,
    ensures
        replace_char_spec(after, c, with) == after,
        replace_char_spec(before + seq![c] + after, c, with) == replace_char_spec(before, c, with)
            + with + after,
    decreases after.len(),
{
    if after.len() == 0 {
        assert((before + seq![c] + after) =~= before.push(c));
        assert(before.push(c).drop_last() =~= before);
        assert(replace_char_spec(before, c, with) + with + after =~= replace_char_spec(
            before,
            c,
            with,
        ) + with);
        assert(after =~= Seq::empty());
    } else {
        let fewer = after.drop_last();
        assert forall|i: int| 0 <= i < fewer.len() implies #[trigger] fewer[i] != c by {
            assert(fewer[i] == after[i]);
        }
        law_every_occurrence_is_replaced(before, fewer, c, with);
        let whole = before + seq![c] + after;
        assert(whole.drop_last() =~= before + seq![c] + fewer);
        assert(whole.last() == after[after.len() - 1]);
        assert(fewer.push(after.last()) =~= after);
        assert((replace_char_spec(before, c, with) + with + fewer).push(after.last())
            =~= replace_char_spec(before, c, with) + with + after);
    }
}

/// The value of a digit in hexadecimal notation.
pub open spec fn hex_digit_value(c: char) -> int {
    if '0' <= c && c <= '9' {
        c as int - '0' as int
    } else {
        c as int - 'a' as int + 10
    }
}

/// Hexadecimal notation is read back byte by byte: the two digits of each byte stand for it,
/// the higher one first, and each is a digit or a letter from `a` to `f`.
pub proof fn law_hex_is_read_back(bytes: Seq<u8>, i: int)
    requires
        0 <= i < bytes.len(),
    ensures
        hex_spec(bytes).len() == 2 * bytes.len(),
        16 * hex_digit_value(hex_spec(bytes)[2 * i]) + hex_digit_value(hex_spec(bytes)[2 * i + 1])
            == bytes[i],
        0 <= hex_digit_value(hex_spec(bytes)[2 * i]) < 16,
        0 <= hex_digit_value(hex_spec(bytes)[2 * i + 1]) < 16,
    decreases bytes.len(),
{
    lemma_hex_len(bytes);
    let before = bytes.drop_last();
    lemma_hex_len(before);
    if i < before.len() {
        law_hex_is_read_back(before, i);
        assert(hex_spec(bytes)[2 * i] == hex_spec(before)[2 * i]);
        assert(hex_spec(bytes)[2 * i + 1] == hex_spec(before)[2 * i + 1]);
        assert(before[i] == bytes[i]);
    }
}

/// Joined texts stand behind one another with the separator between each two and nowhere else:
/// what is joined of two lists is what is joined of each, with one separator between.
pub proof fn law_joining_puts_the_separator_between(
    pieces: Seq<Seq<char>>,
    more: Seq<Seq<char>>,
    separator: Seq<char>,
)
    requires
        more.len() > 0,
    ensures
        join_spec(Seq::empty(), separator) == Seq::<char>::empty(),
        join_spec(seq![more[0]], separator) == more[0],
        pieces.len() > 0 ==> join_spec(pieces + more, separator) == join_spec(pieces, separator)
            + separator + join_spec(more, separator),
    decreases more.len(),
{
    if pieces.len() > 0 {
        let all = pieces + more;
        assert(all.last() == more.last());
        if more.len() == 1 {
            assert(all.drop_last() =~= pieces);
            assert(more[0] == more.last());
        } else {
            let fewer = more.drop_last();
            law_joining_puts_the_separator_between(pieces, fewer, separator);
            assert(all.drop_last() =~= pieces + fewer);
            assert(join_spec(all, separator) =~= join_spec(pieces, separator) + separator
                + join_spec(more, separator));
        }
    }
}

/// Beyond ASCII, exactly the nineteen other spaces and line ends of Unicode are white space.
pub proof fn law_white_space_beyond_ascii(c: char)
    requires
        c > '\u{7F}',
    ensures
        is_white_space(c) <==> (c == '\u{85}' || c == '\u{A0}' || c == '\u{1680}' || c == '\u{2000}'
            || c == '\u{2001}' || c == '\u{2002}' || c == '\u{2003}' || c == '\u{2004}' || c
            == '\u{2005}' || c == '\u{2006}' || c == '\u{2007}' || c == '\u{2008}' || c
            == '\u{2009}' || c == '\u{200A}' || c == '\u{2028}' || c == '\u{2029}' || c
            == '\u{202F}' || c == '\u{205F}' || c == '\u{3000}'),
{
}

/// A text is blank exactly where every character of it is white space, and has no last word
/// then.
pub proof fn law_what_a_blank_text_is(text: Seq<char>)
    ensures
        is_blank(text) <==> (forall|i: int|
            0 <= i < text.len() ==> is_white_space(#[trigger] text[i])),
        is_blank(text) ==> last_word_spec(text) == Seq::<char>::empty(),
{
    if forall|i: int| 0 <= i < text.len() ==> is_white_space(#[trigger] text[i]) {
        law_trim_keeps_what_stands_between(text, Seq::empty(), Seq::empty());
        assert(text + Seq::<char>::empty() + Seq::<char>::empty() =~= text);
    } else {
        lemma_something_is_left(text);
    }
    if is_blank(text) {
        assert(trim_spec(text) =~= Seq::empty());
    }
}

/// Of a text that is not white space alone something is left once it is trimmed.
proof fn lemma_something_is_left(text: Seq<char>)
    requires
        exists|i: int| 0 <= i < text.len() && !is_white_space(#[trigger] text[i]),
    ensures
        trim_spec(text).len() > 0,
    decreases text.len(),
{
    let at = choose|i: int| 0 <= i < text.len() && !is_white_space(#[trigger] text[i]);
    if is_white_space(text[0]) {
        let rest = text.skip(1);
        assert(rest[at - 1] == text[at]);
        lemma_something_is_left(rest);
    } else {
        lemma_start_is_left(text);
    }
}

/// A text that does not begin with white space is not trimmed away from its end.
proof fn lemma_start_is_left(text: Seq<char>)
    requires
        text.len() > 0,
        !is_white_space(text[0]),
    ensures
        trim_end_spec(text).len() > 0,
    decreases text.len(),
{
    if is_white_space(text.last()) {
        assert(text.len() > 1);
        assert(text.drop_last()[0] == text[0]);
        lemma_start_is_left(text.drop_last());
    }
}

/// A number in decimal notation is made of digits alone, begins with a zero only where it is
/// zero, and grows by one digit with each factor of ten: the digits of `10 * n + d` are those of
/// `n` and then that of `d`.
pub proof fn law_decimal_notation(n: nat, d: nat, i: int)
    requires
        d < 10,
    ensures
        0 <= i < decimal(n).len() ==> '0' <= decimal(n)[i] <= '9',
        decimal(d).len() == 1 && decimal(d)[0] as int == '0' as int + d,
        n > 0 ==> decimal(10 * n + d) == decimal(n) + decimal(d),
        n > 0 ==> decimal(n)[0] != '0',
        n > 0 ==> decimal_int(-(n as int)) == "-"@ + decimal(n),
        decimal_int(n as int) == decimal(n),
    decreases n,
{
    if 0 <= i < decimal(n).len() {
        lemma_decimal_is_digits(n, i);
    }
    if n > 0 {
        let longer = 10 * n + d;
        assert(longer / 10 == n && longer % 10 == d);
        assert(decimal(longer) =~= decimal(n) + decimal(d));
        if n >= 10 {
            law_decimal_notation(n / 10, d, 0);
            assert(decimal(n)[0] == decimal(n / 10)[0]);
        }
    }
}

} // verus!
