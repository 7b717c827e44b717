//! Text as sequences of characters: searching, trimming, splitting, joining
//! and comparing, each stated over the characters a string holds.
use vstd::prelude::*;
use vstd::string::*;

verus! {

/// Appends one character to the end of a string (`String::push`).
pub assume_specification[ String::push ](string: &mut String, character: char)
    ensures
        final(string)@ == old(string)@.push(character),
;

/// What `String::from_utf8_lossy` makes of bytes.
pub uninterp spec fn lossy(bytes: Seq<u8>) -> Seq<char>;

/// Bytes as text, with `String::from_utf8_lossy`: bytes that are UTF-8 are
/// decoded as they are. How many replacement characters stand for other bytes is
/// left unsaid.
#[verifier::external_body]
pub(crate) fn decode_lossy(bytes: &Vec<u8>) -> (text: String)
    ensures
        text@ == lossy(bytes@),
        vstd::utf8::valid_utf8(bytes@) ==> text@ == vstd::utf8::decode_utf8(bytes@),
{
    String::from_utf8_lossy(bytes).into_owned()
}

/// The characters of a string, in order.
pub fn characters(text: &str) -> (list: Vec<char>)
    ensures
        list@ == text@,
{
    let mut list: Vec<char> = Vec::new();
    for character in iter: text.chars()
        invariant
            iter.seq() == text@,
            list@ == text@.take(iter.index()),
    {
        list.push(character);
    }
    list
}

/// The string made of the characters `list[from..to]`.
pub fn text_of(list: &Vec<char>, from: usize, to: usize) -> (text: String)
    requires
        from <= to <= list@.len(),
    ensures
        text@ == list@.subrange(from as int, to as int),
{
    let mut text = String::new();
    let mut index: usize = from;
    while index < to
        invariant
            from <= index <= to <= list@.len(),
            text@ == list@.subrange(from as int, index as int),
        decreases to - index,
    {
        text.push(list[index]);
        index += 1;
        assert(list@.subrange(from as int, index as int) =~= list@.subrange(
            from as int,
            index - 1,
        ).push(list@[index - 1]));
    }
    text
}

/// Whether two strings hold the same characters.
pub fn same(left: &str, right: &str) -> (equal: bool)
    ensures
        equal == (left@ == right@),
{
    let left_list = characters(left);
    let right_list = characters(right);
    if left_list.len() != right_list.len() {
        return false;
    }
    let mut index: usize = 0;
    while index < left_list.len()
        invariant
            left_list@ == left@,
            right_list@ == right@,
            left_list@.len() == right_list@.len(),
            index <= left_list@.len(),
            forall|i: int| 0 <= i < index ==> left_list@[i] == right_list@[i],
        decreases left_list.len() - index,
    {
        if left_list[index] != right_list[index] {
            return false;
        }
        index += 1;
    }
    assert(left@ =~= right@);
    true
}

/// How many bytes the UTF-8 encoding of a string takes.
pub fn byte_length(text: &str) -> (length: usize)
    ensures
        length == vstd::utf8::encode_utf8(text@).len(),
{
    text.as_bytes().len()
}

/// `left` followed by `right`.
pub fn join2(left: &str, right: &str) -> (text: String)
    ensures
        text@ == left@ + right@,
{
    let mut text = left.to_owned();
    text.append(right);
    text
}

/// Three strings, one after another.
pub fn join3(first: &str, second: &str, third: &str) -> (text: String)
    ensures
        text@ == first@ + second@ + third@,
{
    let mut text = join2(first, second);
    text.append(third);
    text
}

/// Four strings, one after another.
pub fn join4(first: &str, second: &str, third: &str, fourth: &str) -> (text: String)
    ensures
        text@ == first@ + second@ + third@ + fourth@,
{
    let mut text = join3(first, second, third);
    text.append(fourth);
    text
}

/// Five strings, one after another.
pub fn join5(first: &str, second: &str, third: &str, fourth: &str, fifth: &str) -> (text: String)
    ensures
        text@ == first@ + second@ + third@ + fourth@ + fifth@,
{
    let mut text = join4(first, second, third, fourth);
    text.append(fifth);
    text
}

/// The characters with the Unicode `White_Space` property.
pub open spec fn is_white(character: char) -> bool {
    let code = character as u32;
    ||| 0x9 <= code <= 0xd
    ||| code == 0x20
    ||| code == 0x85
    ||| code == 0xa0
    ||| code == 0x1680
    ||| 0x2000 <= code <= 0x200a
    ||| code == 0x2028
    ||| code == 0x2029
    ||| code == 0x202f
    ||| code == 0x205f
    ||| code == 0x3000
}

/// Whether a character is white space.
pub fn white(character: char) -> (answer: bool)
    ensures
        answer == is_white(character),
{
    let code: u32 = character as u32;
    (0x9 <= code && code <= 0xd) || code == 0x20 || code == 0x85 || code == 0xa0 || code == 0x1680
        || (0x2000 <= code && code <= 0x200a) || code == 0x2028 || code == 0x2029 || code == 0x202f
        || code == 0x205f || code == 0x3000
}

/// A class of characters that trimming takes away.
#[derive(Clone, Copy, Debug)]
pub enum Class {
    /// White space.
    White,
    /// One character.
    Is(char),
    /// Either of two characters.
    Either(char, char),
}

impl Class {
    /// Whether the class holds a character.
    pub open spec fn covers(self, character: char) -> bool {
        match self {
            Class::White => is_white(character),
            Class::Is(one) => character == one,
            Class::Either(one, other) => character == one || character == other,
        }
    }

    /// Whether the class holds a character.
    pub fn holds(self, character: char) -> (answer: bool)
        ensures
            answer == self.covers(character),
    {
        match self {
            Class::White => white(character),
            Class::Is(one) => character == one,
            Class::Either(one, other) => character == one || character == other,
        }
    }
}

/// A text without the characters of a class at its start.
pub open spec fn trimmed_start(text: Seq<char>, class: Class) -> Seq<char>
    decreases text.len(),
{
    if text.len() > 0 && class.covers(text[0]) {
        trimmed_start(text.drop_first(), class)
    } else {
        text
    }
}

/// A text without the characters of a class at its end.
pub open spec fn trimmed_end(text: Seq<char>, class: Class) -> Seq<char>
    decreases text.len(),
{
    if text.len() > 0 && class.covers(text.last()) {
        trimmed_end(text.drop_last(), class)
    } else {
        text
    }
}

/// A text without the characters of a class at either end.
pub open spec fn trimmed(text: Seq<char>, class: Class) -> Seq<char> {
    trimmed_start(trimmed_end(text, class), class)
}

/// Takes the characters of a class away from the start.
pub fn trim_start(text: &str, class: Class) -> (rest: String)
    ensures
        rest@ == trimmed_start(text@, class),
{
    let list = characters(text);
    let mut start: usize = 0;
    assert(text@.skip(0) =~= text@);
    while start < list.len() && class.holds(list[start])
        invariant
            list@ == text@,
            start <= list@.len(),
            trimmed_start(text@, class) == trimmed_start(text@.skip(start as int), class),
        decreases list.len() - start,
    {
        assert(text@.skip(start as int).drop_first() =~= text@.skip(start + 1));
        start += 1;
    }
    assert(list@.subrange(start as int, list@.len() as int) =~= text@.skip(start as int));
    text_of(&list, start, list.len())
}

/// Takes the characters of a class away from the end.
pub fn trim_end(text: &str, class: Class) -> (rest: String)
    ensures
        rest@ == trimmed_end(text@, class),
{
    let list = characters(text);
    let mut end: usize = list.len();
    assert(text@.take(end as int) =~= text@);
    while end > 0 && class.holds(list[end - 1])
        invariant
            list@ == text@,
            end <= list@.len(),
            trimmed_end(text@, class) == trimmed_end(text@.take(end as int), class),
        decreases end,
    {
        assert(text@.take(end as int).drop_last() =~= text@.take(end - 1));
        end -= 1;
    }
    assert(list@.subrange(0, end as int) =~= text@.take(end as int));
    text_of(&list, 0, end)
}

/// Takes the characters of a class away from both ends.
pub fn trim(text: &str, class: Class) -> (rest: String)
    ensures
        rest@ == trimmed(text@, class),
{
    let front = trim_end(text, class);
    trim_start(&front, class)
}

/// Whether `pattern` stands in `text` at position `at`.
pub open spec fn occurs_at(text: Seq<char>, pattern: Seq<char>, at: int) -> bool {
    &&& 0 <= at
    &&& at + pattern.len() <= text.len()
    &&& text.subrange(at, at + pattern.len()) == pattern
}

/// Whether `pattern` stands anywhere in `text`.
pub open spec fn holds_text(text: Seq<char>, pattern: Seq<char>) -> bool {
    exists|at: int| occurs_at(text, pattern, at)
}

/// The first position from `from` on at which `pattern` stands in `text`.
pub open spec fn found_from(text: Seq<char>, pattern: Seq<char>, from: int) -> Option<int>
    decreases text.len() + 1 - from,
{
    if from < 0 || from + pattern.len() > text.len() {
        None
    } else if occurs_at(text, pattern, from) {
        Some(from)
    } else {
        found_from(text, pattern, from + 1)
    }
}

/// What it is to be the first position from `from` on.
pub proof fn lemma_found_from(text: Seq<char>, pattern: Seq<char>, from: int)
    requires
        0 <= from,
    ensures
        match found_from(text, pattern, from) {
            Some(at) => from <= at && occurs_at(text, pattern, at) && forall|i: int|
                from <= i < at ==> !occurs_at(text, pattern, i),
            None => forall|i: int| from <= i ==> !occurs_at(text, pattern, i),
        },
    decreases text.len() + 1 - from,
{
    if from + pattern.len() <= text.len() && !occurs_at(text, pattern, from) {
        lemma_found_from(text, pattern, from + 1);
    }
}

/// Whether `pattern` stands in `text` at position `at`.
fn stands_at(text: &Vec<char>, pattern: &Vec<char>, at: usize) -> (answer: bool)
    requires
        at + pattern@.len() <= text@.len(),
    ensures
        answer == occurs_at(text@, pattern@, at as int),
{
    let length: usize = text.len();
    let mut index: usize = 0;
    while index < pattern.len()
        invariant
            length == text@.len(),
            at + pattern@.len() <= length,
            index <= pattern@.len(),
            forall|i: int| 0 <= i < index ==> text@[at + i] == pattern@[i],
        decreases pattern.len() - index,
    {
        if text[at + index] != pattern[index] {
            assert(text@.subrange(at as int, at + pattern@.len())[index as int]
                != pattern@[index as int]);
            return false;
        }
        index += 1;
    }
    assert(text@.subrange(at as int, at + pattern@.len()) =~= pattern@);
    true
}

/// Looks for `pattern` from position `from` on.
pub fn locate(text: &Vec<char>, pattern: &Vec<char>, from: usize) -> (place: Option<usize>)
    ensures
        match found_from(text@, pattern@, from as int) {
            Some(at) => place == Some(at as usize) && at + pattern@.len() <= text@.len(),
            None => place is None,
        },
{
    if pattern.len() > text.len() || from > text.len() - pattern.len() {
        return None;
    }
    let last: usize = text.len() - pattern.len();
    let mut at: usize = from;
    while at < last
        invariant
            from <= at <= last,
            last == text@.len() - pattern@.len(),
            found_from(text@, pattern@, from as int) == found_from(text@, pattern@, at as int),
        decreases last - at,
    {
        if stands_at(text, pattern, at) {
            return Some(at);
        }
        at += 1;
    }
    if stands_at(text, pattern, last) {
        Some(last)
    } else {
        assert(found_from(text@, pattern@, last + 1) is None);
        None
    }
}

/// Whether `pattern` stands anywhere in `text`.
pub fn contains(text: &str, pattern: &str) -> (answer: bool)
    ensures
        answer == holds_text(text@, pattern@),
{
    let list = characters(text);
    let wanted = characters(pattern);
    proof {
        lemma_found_from(text@, pattern@, 0);
    }
    match locate(&list, &wanted, 0) {
        Some(_) => true,
        None => {
            assert forall|at: int| !occurs_at(text@, pattern@, at) by {
                if at >= 0 {
                }
            }
            false
        },
    }
}

/// Whether `text` begins with `prefix`.
pub open spec fn begins(text: Seq<char>, prefix: Seq<char>) -> bool {
    prefix.len() <= text.len() && text.take(prefix.len() as int) == prefix
}

/// Whether `text` ends with `suffix`.
pub open spec fn finishes(text: Seq<char>, suffix: Seq<char>) -> bool {
    suffix.len() <= text.len() && text.skip(text.len() - suffix.len()) == suffix
}

/// Whether `text` begins with `prefix`.
pub fn starts_with(text: &str, prefix: &str) -> (answer: bool)
    ensures
        answer == begins(text@, prefix@),
{
    let list = characters(text);
    let wanted = characters(prefix);
    if wanted.len() > list.len() {
        return false;
    }
    assert(text@.subrange(0, prefix@.len() as int) =~= text@.take(prefix@.len() as int));
    stands_at(&list, &wanted, 0)
}

/// Whether `text` ends with `suffix`.
pub fn ends_with(text: &str, suffix: &str) -> (answer: bool)
    ensures
        answer == finishes(text@, suffix@),
{
    let list = characters(text);
    let wanted = characters(suffix);
    if wanted.len() > list.len() {
        return false;
    }
    let at: usize = list.len() - wanted.len();
    assert(text@.subrange(at as int, text@.len() as int) =~= text@.skip(at as int));
    stands_at(&list, &wanted, at)
}

/// What follows `prefix` in a text that begins with it.
pub open spec fn without_prefix(text: Seq<char>, prefix: Seq<char>) -> Option<Seq<char>> {
    if begins(text, prefix) {
        Some(text.skip(prefix.len() as int))
    } else {
        None
    }
}

/// What follows `prefix` in a text that begins with it.
pub fn strip_prefix(text: &str, prefix: &str) -> (rest: Option<String>)
    ensures
        seen(rest) == without_prefix(text@, prefix@),
{
    if !starts_with(text, prefix) {
        return None;
    }
    let list = characters(text);
    let wanted = characters(prefix);
    assert(text@.subrange(prefix@.len() as int, text@.len() as int) =~= text@.skip(
        prefix@.len() as int,
    ));
    Some(text_of(&list, wanted.len(), list.len()))
}

/// An optional string by its characters.
pub open spec fn seen(text: Option<String>) -> Option<Seq<char>> {
    match text {
        Some(held) => Some(held@),
        None => None,
    }
}

/// A list of strings by their characters.
pub open spec fn texts(list: Seq<String>) -> Seq<Seq<char>> {
    Seq::new(list.len(), |i: int| list[i]@)
}

/// The longest beginning of a text that holds no character of a class.
pub open spec fn until(text: Seq<char>, class: Class) -> Seq<char>
    decreases text.len(),
{
    if text.len() == 0 || class.covers(text[0]) {
        Seq::empty()
    } else {
        seq![text[0]] + until(text.drop_first(), class)
    }
}

/// How far the longest beginning without a character of a class reaches.
pub proof fn lemma_until(text: Seq<char>, class: Class)
    ensures
        until(text, class).len() <= text.len(),
        until(text, class) == text.take(until(text, class).len() as int),
        forall|i: int| 0 <= i < until(text, class).len() ==> !class.covers(#[trigger] text[i]),
        until(text, class).len() < text.len() ==> class.covers(
            text[until(text, class).len() as int],
        ),
    decreases text.len(),
{
    if text.len() > 0 && !class.covers(text[0]) {
        lemma_until(text.drop_first(), class);
        let rest = until(text.drop_first(), class);
        assert(until(text, class).len() == rest.len() + 1);
        assert forall|i: int| 0 <= i < rest.len() + 1 implies !class.covers(#[trigger] text[i]) by {
            if i > 0 {
                assert(text[i] == text.drop_first()[i - 1]);
            }
        }
        assert(until(text, class) =~= text.take(rest.len() as int + 1));
    }
}

/// The prefix up to the first character of a class is the longest one without it.
pub proof fn lemma_until_at(text: Seq<char>, class: Class, at: int)
    requires
        0 <= at <= text.len(),
        forall|i: int| 0 <= i < at ==> !class.covers(#[trigger] text[i]),
        at < text.len() ==> class.covers(text[at]),
    ensures
        until(text, class) == text.take(at),
{
    lemma_until(text, class);
    let reach = until(text, class).len() as int;
    if reach < at {
        assert(class.covers(text[reach]));
    } else if at < reach {
        assert(!class.covers(text[at]));
    }
}

/// The first position from `from` on that holds a character of a class, or the
/// end of the list.
pub fn reach(list: &Vec<char>, class: Class, from: usize) -> (at: usize)
    requires
        from <= list@.len(),
    ensures
        from <= at <= list@.len(),
        until(list@.skip(from as int), class) == list@.subrange(from as int, at as int),
        at < list@.len() ==> class.covers(list@[at as int]),
{
    let mut at: usize = from;
    while at < list.len() && !class.holds(list[at])
        invariant
            from <= at <= list@.len(),
            forall|i: int| from <= i < at ==> !class.covers(#[trigger] list@[i]),
        decreases list.len() - at,
    {
        at += 1;
    }
    proof {
        let rest = list@.skip(from as int);
        assert forall|i: int| 0 <= i < at - from implies !class.covers(#[trigger] rest[i]) by {
            assert(rest[i] == list@[from + i]);
        }
        lemma_until_at(rest, class, at - from);
        assert(rest.take(at - from) =~= list@.subrange(from as int, at as int));
    }
    at
}

/// The beginning of a text up to the first character of a class.
pub fn before(text: &str, class: Class) -> (start: String)
    ensures
        start@ == until(text@, class),
{
    let list = characters(text);
    assert(text@.skip(0) =~= text@);
    let end: usize = reach(&list, class, 0);
    text_of(&list, 0, end)
}

/// The two sides of the first occurrence of a character.
pub open spec fn parted(text: Seq<char>, separator: char) -> Option<(Seq<char>, Seq<char>)> {
    let front = until(text, Class::Is(separator));
    if front.len() < text.len() {
        Some((front, text.skip(front.len() as int + 1)))
    } else {
        None
    }
}

/// The two sides of the first occurrence of a character.
pub fn split_once(text: &str, separator: char) -> (sides: Option<(String, String)>)
    ensures
        match (sides, parted(text@, separator)) {
            (Some((front, back)), Some((wanted_front, wanted_back))) => front@ == wanted_front
                && back@ == wanted_back,
            (None, None) => true,
            _ => false,
        },
{
    let list = characters(text);
    assert(text@.skip(0) =~= text@);
    let end: usize = reach(&list, Class::Is(separator), 0);
    if end == list.len() {
        return None;
    }
    let front = text_of(&list, 0, end);
    let back = text_of(&list, end + 1, list.len());
    assert(back@ =~= text@.skip(end + 1));
    Some((front, back))
}

/// The pieces of a text between the occurrences of a character.
pub open spec fn pieces(text: Seq<char>, separator: char) -> Seq<Seq<char>>
    decreases text.len(),
{
    match parted(text, separator) {
        Some((front, back)) => seq![front] + pieces(back, separator),
        None => seq![text],
    }
}

/// The pieces of a text between the occurrences of a character.
pub fn split(text: &str, separator: char) -> (list: Vec<String>)
    ensures
        texts(list@) == pieces(text@, separator),
{
    let all = characters(text);
    let class = Class::Is(separator);
    let mut list: Vec<String> = Vec::new();
    let mut start: usize = 0;
    assert(text@.skip(0) =~= text@);
    assert(texts(list@) + pieces(text@, separator) =~= pieces(text@, separator));
    loop
        invariant
            all@ == text@,
            start <= all@.len(),
            class == Class::Is(separator),
            texts(list@) + pieces(text@.skip(start as int), separator) == pieces(text@, separator),
        decreases all@.len() - start,
    {
        let end: usize = reach(&all, class, start);
        let ghost rest = text@.skip(start as int);
        let ghost done = texts(list@);
        list.push(text_of(&all, start, end));
        assert(texts(list@) =~= done.push(text@.subrange(start as int, end as int)));
        if end == all.len() {
            assert(rest =~= text@.subrange(start as int, end as int));
            assert(texts(list@) =~= done + pieces(rest, separator));
            return list;
        }
        assert(rest.skip(end - start + 1) =~= text@.skip(end + 1));
        assert(texts(list@) + pieces(text@.skip(end + 1), separator) =~= done + pieces(
            rest,
            separator,
        ));
        start = end + 1;
    }
}

/// A line without the carriage return at its end.
pub open spec fn without_return(line: Seq<char>) -> Seq<char> {
    if line.len() > 0 && line.last() == '\r' {
        line.drop_last()
    } else {
        line
    }
}

/// The lines of a text: each ends with a line feed or with a carriage return
/// and a line feed, which are not part of it; the last may lack that ending.
pub open spec fn text_lines(text: Seq<char>) -> Seq<Seq<char>>
    decreases text.len(),
{
    if text.len() == 0 {
        Seq::empty()
    } else {
        match parted(text, '\n') {
            Some((front, back)) => seq![without_return(front)] + text_lines(back),
            None => seq![text],
        }
    }
}

/// The lines of a text.
pub fn lines(text: &str) -> (list: Vec<String>)
    ensures
        texts(list@) == text_lines(text@),
{
    let all = characters(text);
    let mut list: Vec<String> = Vec::new();
    let mut start: usize = 0;
    assert(text@.skip(0) =~= text@);
    assert(texts(list@) + text_lines(text@) =~= text_lines(text@));
    while start < all.len()
        invariant
            all@ == text@,
            start <= all@.len(),
            texts(list@) + text_lines(text@.skip(start as int)) == text_lines(text@),
        decreases all@.len() - start,
    {
        let end: usize = reach(&all, Class::Is('\n'), start);
        let ghost rest = text@.skip(start as int);
        let ghost done = texts(list@);
        if end == all.len() {
            list.push(text_of(&all, start, end));
            assert(texts(list@) =~= done.push(text@.subrange(start as int, end as int)));
            assert(rest =~= text@.subrange(start as int, end as int));
            assert(texts(list@) =~= done + text_lines(rest));
            return list;
        }
        let ghost front = text@.subrange(start as int, end as int);
        let stop: usize = if end > start && all[end - 1] == '\r' {
            end - 1
        } else {
            end
        };
        list.push(text_of(&all, start, stop));
        assert(text@.subrange(start as int, stop as int) =~= without_return(front));
        assert(texts(list@) =~= done.push(without_return(front)));
        assert(rest.skip(end - start + 1) =~= text@.skip(end + 1));
        assert(texts(list@) + text_lines(text@.skip(end + 1)) =~= done + text_lines(rest));
        start = end + 1;
    }
    assert(text@.skip(start as int) =~= Seq::<char>::empty());
    assert(texts(list@) + text_lines(text@.skip(start as int)) =~= texts(list@));
    list
}

/// The first run of characters that are not white space.
pub open spec fn first_word(text: Seq<char>) -> Seq<char> {
    until(trimmed_start(text, Class::White), Class::White)
}

/// What follows the first word of a text.
pub open spec fn after_first_word(text: Seq<char>) -> Seq<char> {
    trimmed_start(text, Class::White).skip(first_word(text).len() as int)
}

/// The first word of a text and what follows it.
pub fn take_word(text: &str) -> (parts: (String, String))
    ensures
        parts.0@ == first_word(text@),
        parts.1@ == after_first_word(text@),
{
    let rest = trim_start(text, Class::White);
    let list = characters(&rest);
    assert(rest@.skip(0) =~= rest@);
    let end: usize = reach(&list, Class::White, 0);
    let word = text_of(&list, 0, end);
    let tail = text_of(&list, end, list.len());
    assert(tail@ =~= rest@.skip(end as int));
    (word, tail)
}

/// Texts one after another, with a separator between every two.
pub open spec fn joined(parts: Seq<Seq<char>>, separator: Seq<char>) -> Seq<char>
    decreases parts.len(),
{
    if parts.len() == 0 {
        Seq::empty()
    } else if parts.len() == 1 {
        parts[0]
    } else {
        joined(parts.drop_last(), separator) + separator + parts.last()
    }
}

/// Puts texts one after another, with a separator between every two.
pub fn join(parts: &Vec<String>, separator: &str) -> (text: String)
    ensures
        text@ == joined(texts(parts@), separator@),
{
    let mut text = String::new();
    let mut index: usize = 0;
    while index < parts.len()
        invariant
            index <= parts@.len(),
            text@ == joined(texts(parts@).take(index as int), separator@),
        decreases parts.len() - index,
    {
        let ghost all = texts(parts@);
        assert(all.take(index + 1).drop_last() =~= all.take(index as int));
        if index > 0 {
            text.append(separator);
        }
        text.append(&parts[index]);
        assert(text@ =~= joined(all.take(index + 1), separator@));
        index += 1;
    }
    assert(texts(parts@).take(index as int) =~= texts(parts@));
    text
}

/// How often `pattern` stands in `text` from position `from` on, counting
/// occurrences that do not overlap, from left to right.
pub open spec fn occurrences(text: Seq<char>, pattern: Seq<char>, from: int) -> nat
    decreases text.len() + 1 - from,
    when 0 <= from && pattern.len() > 0
{
    match found_from(text, pattern, from) {
        Some(at) => {
            proof {
                lemma_found_from(text, pattern, from);
            }
            1 + occurrences(text, pattern, at + pattern.len())
        },
        None => 0,
    }
}

/// How often `pattern` stands in `text`; the empty pattern stands before and
/// after every character.
pub open spec fn times(text: Seq<char>, pattern: Seq<char>) -> nat {
    if pattern.len() == 0 {
        text.len() + 1
    } else {
        occurrences(text, pattern, 0)
    }
}

/// Whether `pattern` stands exactly once in `text`.
pub fn stands_once(text: &str, pattern: &str) -> (answer: bool)
    ensures
        answer == (times(text@, pattern@) == 1),
{
    let list = characters(text);
    let wanted = characters(pattern);
    if wanted.len() == 0 {
        return list.len() == 0;
    }
    assert(list.len() <= usize::MAX);
    proof {
        reveal_with_fuel(occurrences, 2);
        lemma_found_from(text@, pattern@, 0);
    }
    match locate(&list, &wanted, 0) {
        None => false,
        Some(at) => {
            let next: usize = at + wanted.len();
            proof {
                lemma_found_from(text@, pattern@, next as int);
            }
            locate(&list, &wanted, next).is_none()
        },
    }
}

/// A text with the first occurrence of `from` replaced by `to`.
pub open spec fn replaced_first(text: Seq<char>, from: Seq<char>, to: Seq<char>) -> Seq<char> {
    match found_from(text, from, 0) {
        Some(at) => text.take(at) + to + text.skip(at + from.len()),
        None => text,
    }
}

/// Replaces the first occurrence of `from` by `to`.
pub fn replace_first(text: &str, from: &str, to: &str) -> (changed: String)
    ensures
        changed@ == replaced_first(text@, from@, to@),
{
    let list = characters(text);
    let wanted = characters(from);
    let length: usize = list.len();
    proof {
        lemma_found_from(text@, from@, 0);
    }
    match locate(&list, &wanted, 0) {
        None => text.to_owned(),
        Some(at) => {
            let front = text_of(&list, 0, at);
            let back = text_of(&list, at + wanted.len(), length);
            assert(front@ =~= text@.take(at as int));
            assert(back@ =~= text@.skip(at + from@.len()));
            join3(&front, to, &back)
        },
    }
}

/// A text without the copies of `suffix` at its end.
pub open spec fn trimmed_end_text(text: Seq<char>, suffix: Seq<char>) -> Seq<char>
    decreases text.len(),
{
    if suffix.len() > 0 && finishes(text, suffix) {
        trimmed_end_text(text.take(text.len() - suffix.len()), suffix)
    } else {
        text
    }
}

/// Takes every copy of `suffix` away from the end.
pub fn trim_end_text(text: &str, suffix: &str) -> (rest: String)
    ensures
        rest@ == trimmed_end_text(text@, suffix@),
{
    let list = characters(text);
    let wanted = characters(suffix);
    let mut end: usize = list.len();
    assert(text@.take(end as int) =~= text@);
    while wanted.len() > 0 && wanted.len() <= end && stands_at(&list, &wanted, end - wanted.len())
        invariant
            list@ == text@,
            wanted@ == suffix@,
            end <= list@.len(),
            trimmed_end_text(text@, suffix@) == trimmed_end_text(text@.take(end as int), suffix@),
        decreases end,
    {
        let ghost kept = text@.take(end as int);
        assert(kept.skip(kept.len() - suffix@.len()) =~= text@.subrange(
            end - suffix@.len(),
            end as int,
        ));
        assert(kept.take(kept.len() - suffix@.len()) =~= text@.take(end - suffix@.len()));
        end -= wanted.len();
    }
    assert(list@.subrange(0, end as int) =~= text@.take(end as int));
    proof {
        let kept = text@.take(end as int);
        if suffix@.len() > 0 && suffix@.len() <= end {
            assert(kept.skip(kept.len() - suffix@.len()) =~= text@.subrange(
                end - suffix@.len(),
                end as int,
            ));
        }
    }
    text_of(&list, 0, end)
}

/// Whether a character is an ASCII capital letter.
pub open spec fn is_capital(character: char) -> bool {
    'A' <= character && character <= 'Z'
}

/// An ASCII capital letter as a small one, any other character as it is.
pub open spec fn small(character: char) -> char {
    if is_capital(character) {
        (character as u32 + 32) as char
    } else {
        character
    }
}

/// A text with small ASCII letters for its ASCII capitals.
pub open spec fn lowered(text: Seq<char>) -> Seq<char> {
    Seq::new(text.len(), |i: int| small(text[i]))
}

/// An ASCII capital letter as a small one, any other character as it is.
pub fn small_letter(character: char) -> (letter: char)
    ensures
        letter == small(character),
{
    if 'A' <= character && character <= 'Z' {
        (character as u8 + 32) as char
    } else {
        character
    }
}

/// A text with small ASCII letters for its ASCII capitals.
pub fn lower(text: &str) -> (changed: String)
    ensures
        changed@ == lowered(text@),
{
    let list = characters(text);
    let mut changed = String::new();
    let mut index: usize = 0;
    while index < list.len()
        invariant
            list@ == text@,
            index <= list@.len(),
            changed@ == lowered(text@).take(index as int),
        decreases list.len() - index,
    {
        changed.push(small_letter(list[index]));
        assert(changed@ =~= lowered(text@).take(index + 1));
        index += 1;
    }
    assert(lowered(text@).take(index as int) =~= lowered(text@));
    changed
}

/// Whether `left` comes before `right`, character by character.
pub open spec fn earlier(left: Seq<char>, right: Seq<char>) -> bool
    decreases left.len(),
{
    if right.len() == 0 {
        false
    } else if left.len() == 0 {
        true
    } else if left[0] == right[0] {
        earlier(left.drop_first(), right.drop_first())
    } else {
        left[0] < right[0]
    }
}

/// No text comes before itself.
pub proof fn lemma_earlier_irreflexive(text: Seq<char>)
    ensures
        !earlier(text, text),
    decreases text.len(),
{
    if text.len() > 0 {
        lemma_earlier_irreflexive(text.drop_first());
    }
}

/// What comes before a text comes before all that the text comes before.
pub proof fn lemma_earlier_transitive(first: Seq<char>, second: Seq<char>, third: Seq<char>)
    requires
        earlier(first, second),
        earlier(second, third),
    ensures
        earlier(first, third),
    decreases first.len(),
{
    if first.len() > 0 && first[0] == second[0] && second[0] == third[0] {
        lemma_earlier_transitive(first.drop_first(), second.drop_first(), third.drop_first());
    }
}

/// Of two texts that differ one comes before the other.
pub proof fn lemma_earlier_total(left: Seq<char>, right: Seq<char>)
    ensures
        earlier(left, right) || earlier(right, left) || left == right,
        !(earlier(left, right) && earlier(right, left)),
    decreases left.len(),
{
    if left.len() == 0 {
        if right.len() == 0 {
            assert(left =~= right);
        }
    } else if right.len() > 0 && left[0] == right[0] {
        lemma_earlier_total(left.drop_first(), right.drop_first());
        if left.drop_first() == right.drop_first() {
            assert(left =~= seq![left[0]] + left.drop_first());
            assert(right =~= seq![right[0]] + right.drop_first());
        }
    }
}

/// Whether `left` comes before `right`, character by character.
pub fn comes_before(left: &str, right: &str) -> (answer: bool)
    ensures
        answer == earlier(left@, right@),
{
    let left_list = characters(left);
    let right_list = characters(right);
    let mut index: usize = 0;
    assert(left@.skip(0) =~= left@);
    assert(right@.skip(0) =~= right@);
    while index < left_list.len() && index < right_list.len()
        invariant
            left_list@ == left@,
            right_list@ == right@,
            index <= left_list@.len(),
            index <= right_list@.len(),
            earlier(left@, right@) == earlier(left@.skip(index as int), right@.skip(index as int)),
        decreases left_list.len() - index,
    {
        assert(left@.skip(index as int).drop_first() =~= left@.skip(index + 1));
        assert(right@.skip(index as int).drop_first() =~= right@.skip(index + 1));
        if left_list[index] != right_list[index] {
            return left_list[index] < right_list[index];
        }
        index += 1;
    }
    index < right_list.len()
}

/// The decimal digit for a number below ten.
pub open spec fn digit(number: nat) -> char {
    (number + 48) as char
}

/// A number in decimal digits.
pub open spec fn decimal(number: nat) -> Seq<char>
    decreases number,
{
    if number < 10 {
        seq![digit(number)]
    } else {
        decimal(number / 10).push(digit(number % 10))
    }
}

/// A number in decimal digits.
pub fn number_text(number: u64) -> (text: String)
    ensures
        text@ == decimal(number as nat),
    decreases number,
{
    let mut text = if number < 10 {
        String::new()
    } else {
        number_text(number / 10)
    };
    let last: u8 = (number % 10) as u8 + 48;
    text.push(last as char);
    assert(number < 10 ==> text@ =~= decimal(number as nat));
    text
}

/// The hexadecimal digit for a number below sixteen.
pub open spec fn hexadecimal_digit(number: int) -> char {
    if number < 10 {
        (number + 48) as char
    } else {
        (number + 87) as char
    }
}

/// Bytes as two small hexadecimal digits each.
pub open spec fn hexadecimal(bytes: Seq<u8>) -> Seq<char> {
    Seq::new(
        2 * bytes.len(),
        |i: int|
            if i % 2 == 0 {
                hexadecimal_digit(bytes[i / 2] as int / 16)
            } else {
                hexadecimal_digit(bytes[i / 2] as int % 16)
            },
    )
}

/// The hexadecimal digit for a number below sixteen.
fn hexadecimal_character(number: u8) -> (character: char)
    requires
        number < 16,
    ensures
        character == hexadecimal_digit(number as int),
{
    if number < 10 {
        (number + 48) as char
    } else {
        (number + 87) as char
    }
}

/// Bytes as two small hexadecimal digits each.
pub fn hexadecimal_text(bytes: &Vec<u8>) -> (text: String)
    ensures
        text@ == hexadecimal(bytes@),
{
    let mut text = String::new();
    let mut index: usize = 0;
    while index < bytes.len()
        invariant
            index <= bytes@.len(),
            text@ == hexadecimal(bytes@).take(2 * index),
        decreases bytes.len() - index,
    {
        let byte: u8 = bytes[index];
        text.push(hexadecimal_character(byte / 16));
        text.push(hexadecimal_character(byte % 16));
        assert(text@ =~= hexadecimal(bytes@).take(2 * (index + 1)));
        index += 1;
    }
    assert(hexadecimal(bytes@).take(2 * index) =~= hexadecimal(bytes@));
    text
}

/// The first `count` characters of a text, or all of it where it is shorter.
pub open spec fn clipped(text: Seq<char>, count: nat) -> Seq<char> {
    if text.len() <= count {
        text
    } else {
        text.take(count as int)
    }
}

/// The first `count` characters of a text.
pub fn clip(text: &str, count: usize) -> (start: String)
    ensures
        start@ == clipped(text@, count as nat),
{
    let list = characters(text);
    if list.len() <= count {
        text.to_owned()
    } else {
        assert(list@.subrange(0, count as int) =~= text@.take(count as int));
        text_of(&list, 0, count)
    }
}

/// Copies a list of strings.
pub fn copied(list: &Vec<String>) -> (copy: Vec<String>)
    ensures
        texts(copy@) == texts(list@),
{
    let mut copy: Vec<String> = Vec::new();
    let mut index: usize = 0;
    while index < list.len()
        invariant
            index <= list@.len(),
            texts(copy@) == texts(list@).take(index as int),
        decreases list.len() - index,
    {
        let ghost done = texts(copy@);
        copy.push(list[index].clone());
        assert(texts(copy@) =~= done.push(texts(list@)[index as int]));
        assert(texts(copy@) =~= texts(list@).take(index + 1));
        index += 1;
    }
    assert(texts(list@).take(index as int) =~= texts(list@));
    copy
}

/// Whether a list of strings holds a text.
pub fn holds(list: &Vec<String>, wanted: &str) -> (answer: bool)
    ensures
        answer == texts(list@).contains(wanted@),
{
    let mut index: usize = 0;
    while index < list.len()
        invariant
            index <= list@.len(),
            forall|i: int| 0 <= i < index ==> texts(list@)[i] != wanted@,
        decreases list.len() - index,
    {
        if same(&list[index], wanted) {
            assert(texts(list@)[index as int] == wanted@);
            return true;
        }
        index += 1;
    }
    false
}

/// Whether a character is a decimal digit.
pub open spec fn is_digit(character: char) -> bool {
    '0' <= character && character <= '9'
}

/// A number in decimal is at least one digit, and digits alone.
pub proof fn lemma_decimal(number: nat)
    ensures
        decimal(number).len() > 0,
        forall|i: int| 0 <= i < decimal(number).len() ==> is_digit(#[trigger] decimal(number)[i]),
    decreases number,
{
    if number >= 10 {
        lemma_decimal(number / 10);
    }
}

/// What is left of a text after trimming its end is a beginning of it.
pub proof fn lemma_trimmed_end_begins(text: Seq<char>, class: Class)
    ensures
        begins(text, trimmed_end(text, class)),
    decreases text.len(),
{
    if text.len() > 0 && class.covers(text.last()) {
        lemma_trimmed_end_begins(text.drop_last(), class);
        let kept = trimmed_end(text, class);
        assert(text.take(kept.len() as int) =~= text.drop_last().take(kept.len() as int));
    } else {
        assert(text.take(text.len() as int) =~= text);
    }
}

/// What is left of a text after taking copies of a suffix away is a beginning
/// of it.
pub proof fn lemma_trimmed_end_text_begins(text: Seq<char>, suffix: Seq<char>)
    ensures
        begins(text, trimmed_end_text(text, suffix)),
    decreases text.len(),
{
    if suffix.len() > 0 && finishes(text, suffix) {
        let front = text.take(text.len() - suffix.len());
        lemma_trimmed_end_text_begins(front, suffix);
        let kept = trimmed_end_text(text, suffix);
        assert(text.take(kept.len() as int) =~= front.take(kept.len() as int));
    } else {
        assert(text.take(text.len() as int) =~= text);
    }
}

/// A beginning of a beginning is a beginning.
pub proof fn lemma_begins_transitive(text: Seq<char>, longer: Seq<char>, shorter: Seq<char>)
    requires
        begins(text, longer),
        begins(longer, shorter),
    ensures
        begins(text, shorter),
{
    assert(text.take(shorter.len() as int) =~= longer.take(shorter.len() as int));
}

/// Trimming the start takes away a run of characters of the class, all of it, and
/// nothing else: what is left is the text from some position on.
pub proof fn trimming_the_start_takes_a_run_of_the_class(text: Seq<char>, class: Class) -> (from:
    int)
    ensures
        0 <= from <= text.len(),
        trimmed_start(text, class) == text.skip(from),
        forall|i: int| 0 <= i < from ==> class.covers(#[trigger] text[i]),
        from < text.len() ==> !class.covers(text[from]),
    decreases text.len(),
{
    if text.len() > 0 && class.covers(text[0]) {
        let rest = text.drop_first();
        let from = trimming_the_start_takes_a_run_of_the_class(rest, class);
        assert(rest.skip(from) =~= text.skip(from + 1));
        assert forall|i: int| 0 <= i < from + 1 implies class.covers(#[trigger] text[i]) by {
            if i > 0 {
                assert(text[i] == rest[i - 1]);
            }
        }
        from + 1
    } else {
        assert(text.skip(0) =~= text);
        0
    }
}

/// Trimming the end takes away a run of characters of the class, all of it, and
/// nothing else: what is left is the text up to some position.
pub proof fn trimming_the_end_takes_a_run_of_the_class(text: Seq<char>, class: Class) -> (to: int)
    ensures
        0 <= to <= text.len(),
        trimmed_end(text, class) == text.take(to),
        forall|i: int| to <= i < text.len() ==> class.covers(#[trigger] text[i]),
        to > 0 ==> !class.covers(text[to - 1]),
    decreases text.len(),
{
    if text.len() > 0 && class.covers(text.last()) {
        let rest = text.drop_last();
        let to = trimming_the_end_takes_a_run_of_the_class(rest, class);
        assert(rest.take(to) =~= text.take(to));
        assert forall|i: int| to <= i < text.len() implies class.covers(#[trigger] text[i]) by {
            if i < rest.len() {
                assert(text[i] == rest[i]);
            }
        }
        to
    } else {
        assert(text.take(text.len() as int) =~= text);
        text.len() as int
    }
}

/// Trimming takes characters of the class from both ends, all of them, and nothing
/// from between: what is left is one stretch of the text that neither begins nor
/// ends with such a character, and everything outside it is one.
pub proof fn trimming_takes_the_ends_alone(text: Seq<char>, class: Class) -> (ends: (int, int))
    ensures
        0 <= ends.0 <= ends.1 <= text.len(),
        trimmed(text, class) == text.subrange(ends.0, ends.1),
        forall|i: int|
            0 <= i < ends.0 || ends.1 <= i < text.len() ==> class.covers(#[trigger] text[i]),
        ends.0 < ends.1 ==> !class.covers(text[ends.0]) && !class.covers(text[ends.1 - 1]),
{
    let to = trimming_the_end_takes_a_run_of_the_class(text, class);
    let front = text.take(to);
    let from = trimming_the_start_takes_a_run_of_the_class(front, class);
    assert(front.skip(from) =~= text.subrange(from, to));
    assert forall|i: int| 0 <= i < from || to <= i < text.len() implies class.covers(
        #[trigger] text[i],
    ) by {
        if i < from {
            assert(text[i] == front[i]);
        }
    }
    if from < to {
        assert(front[from] == text[from]);
    }
    (from, to)
}

/// A text is blank exactly where nothing is left of it once white space is taken
/// from its ends, and then all of it is white space.
pub proof fn nothing_is_left_of_a_blank_text(text: Seq<char>)
    ensures
        trimmed(text, Class::White).len() == 0 <==> forall|i: int|
            0 <= i < text.len() ==> is_white(#[trigger] text[i]),
{
    let ends = trimming_takes_the_ends_alone(text, Class::White);
    if trimmed(text, Class::White).len() == 0 {
        assert forall|i: int| 0 <= i < text.len() implies is_white(#[trigger] text[i]) by {
            assert(Class::White.covers(text[i]));
        }
    } else {
        assert(!is_white(text[ends.0]));
    }
}

/// White space is the tab, the four line endings next to it, the space, the next
/// line, the space that does not break and the spaces of typography; no character
/// of a name, a number or an address is white space.
pub proof fn white_space_is_what_unicode_says(character: char)
    ensures
        is_white(character) <==> seq![
            '\t',
            '\n',
            '\u{b}',
            '\u{c}',
            '\r',
            ' ',
            '\u{85}',
            '\u{a0}',
            '\u{1680}',
            '\u{2000}',
            '\u{2001}',
            '\u{2002}',
            '\u{2003}',
            '\u{2004}',
            '\u{2005}',
            '\u{2006}',
            '\u{2007}',
            '\u{2008}',
            '\u{2009}',
            '\u{200a}',
            '\u{2028}',
            '\u{2029}',
            '\u{202f}',
            '\u{205f}',
            '\u{3000}',
        ].contains(character),
        '!' <= character <= '~' ==> !is_white(character),
{
    let all = seq![
        '\t',
        '\n',
        '\u{b}',
        '\u{c}',
        '\r',
        ' ',
        '\u{85}',
        '\u{a0}',
        '\u{1680}',
        '\u{2000}',
        '\u{2001}',
        '\u{2002}',
        '\u{2003}',
        '\u{2004}',
        '\u{2005}',
        '\u{2006}',
        '\u{2007}',
        '\u{2008}',
        '\u{2009}',
        '\u{200a}',
        '\u{2028}',
        '\u{2029}',
        '\u{202f}',
        '\u{205f}',
        '\u{3000}',
    ];
    assert(all[0] == '\t' && all[1] == '\n' && all[2] == '\u{b}' && all[3] == '\u{c}' && all[4]
        == '\r' && all[5] == ' ' && all[6] == '\u{85}' && all[7] == '\u{a0}');
    assert(all[8] == '\u{1680}' && all[9] == '\u{2000}' && all[10] == '\u{2001}' && all[11]
        == '\u{2002}' && all[12] == '\u{2003}' && all[13] == '\u{2004}' && all[14] == '\u{2005}'
        && all[15] == '\u{2006}');
    assert(all[16] == '\u{2007}' && all[17] == '\u{2008}' && all[18] == '\u{2009}' && all[19]
        == '\u{200a}' && all[20] == '\u{2028}' && all[21] == '\u{2029}' && all[22] == '\u{202f}'
        && all[23] == '\u{205f}' && all[24] == '\u{3000}');
    if all.contains(character) {
        let k = choose|k: int| 0 <= k < all.len() && all[k] == character;
        assert(all[k] == character);
    }
}

/// Clipping keeps the beginning of a text, as much of it as may be kept.
pub proof fn clipping_keeps_the_beginning(text: Seq<char>, count: nat)
    ensures
        clipped(text, count).len() == (if text.len() < count {
            text.len()
        } else {
            count
        }),
        text.take(clipped(text, count).len() as int) == clipped(text, count),
{
    assert(text.take(clipped(text, count).len() as int) =~= clipped(text, count));
}

/// Lowering leaves every character in its place, and changes the capitals from A
/// to Z alone, each into the small letter as far behind it as the small a is
/// behind the capital.
pub proof fn lowering_changes_capitals_alone(text: Seq<char>, at: int)
    requires
        0 <= at < text.len(),
    ensures
        lowered(text).len() == text.len(),
        'A' <= text[at] <= 'Z' ==> lowered(text)[at] as int - text[at] as int == 'a' as int
            - 'A' as int,
        !('A' <= text[at] <= 'Z') ==> lowered(text)[at] == text[at],
{
}

/// Joining puts a separator between every two texts, none before the first and
/// none behind the last.
pub proof fn joining_puts_separators_between(
    parts: Seq<Seq<char>>,
    separator: Seq<char>,
    last: Seq<char>,
)
    ensures
        joined(Seq::empty(), separator) == Seq::<char>::empty(),
        joined(seq![last], separator) == last,
        parts.len() > 0 ==> joined(parts.push(last), separator) == joined(parts, separator)
            + separator + last,
{
    assert(parts.push(last).drop_last() =~= parts);
}

/// Joining behind a first text.
proof fn lemma_joined_front(first: Seq<char>, rest: Seq<Seq<char>>, separator: Seq<char>)
    requires
        rest.len() > 0,
    ensures
        joined(seq![first] + rest, separator) == first + separator + joined(rest, separator),
    decreases rest.len(),
{
    let all = seq![first] + rest;
    if rest.len() == 1 {
        assert(all.drop_last() =~= seq![first]);
        assert(joined(all.drop_last(), separator) == first);
        assert(joined(rest, separator) == rest[0]);
        assert(all.last() == rest[0]);
    } else {
        lemma_joined_front(first, rest.drop_last(), separator);
        assert(all.drop_last() =~= seq![first] + rest.drop_last());
        assert(joined(all, separator) =~= first + separator + joined(rest, separator));
    }
}

/// A text is parted exactly where it holds the character, at its first occurrence:
/// the front holds none, and the two sides with the character between them are the
/// text.
pub proof fn parting_is_at_the_first_occurrence(text: Seq<char>, separator: char)
    ensures
        parted(text, separator) is Some <==> text.contains(separator),
        parted(text, separator) matches Some((front, back)) ==> text == front + seq![separator]
            + back && !front.contains(separator),
{
    let class = Class::Is(separator);
    lemma_until(text, class);
    let front = until(text, class);
    let reach = front.len() as int;
    if reach < text.len() {
        assert(text[reach] == separator);
        assert(text =~= front + seq![separator] + text.skip(reach + 1));
        if front.contains(separator) {
            let k = choose|k: int| 0 <= k < front.len() && front[k] == separator;
            assert(text[k] == front[k]);
            assert(class.covers(text[k]));
        }
    } else if text.contains(separator) {
        let k = choose|k: int| 0 <= k < text.len() && text[k] == separator;
        assert(class.covers(text[k]));
    }
}

/// Splitting loses nothing: the pieces joined by the character are the text again,
/// and no piece holds the character.
pub proof fn splitting_loses_nothing(text: Seq<char>, separator: char)
    ensures
        pieces(text, separator).len() > 0,
        joined(pieces(text, separator), seq![separator]) == text,
        forall|i: int|
            0 <= i < pieces(text, separator).len() ==> !(#[trigger] pieces(
                text,
                separator,
            )[i]).contains(separator),
    decreases text.len(),
{
    parting_is_at_the_first_occurrence(text, separator);
    let all = pieces(text, separator);
    match parted(text, separator) {
        Some((front, back)) => {
            splitting_loses_nothing(back, separator);
            let rest = pieces(back, separator);
            lemma_joined_front(front, rest, seq![separator]);
            assert forall|i: int| 0 <= i < all.len() implies !(#[trigger] all[i]).contains(
                separator,
            ) by {
                if i > 0 {
                    assert(all[i] == rest[i - 1]);
                }
            }
        },
        None => {
            assert(all =~= seq![text]);
        },
    }
}

/// The lines of a text are what stands before each line feed, one after another,
/// without a carriage return before it; what follows the last line feed is a line
/// where there is any.
pub proof fn lines_end_at_line_feeds(front: Seq<char>, back: Seq<char>)
    requires
        !front.contains('\n'),
    ensures
        text_lines(Seq::empty()) == Seq::<Seq<char>>::empty(),
        front.len() > 0 ==> text_lines(front) == seq![front],
        text_lines(front + seq!['\n'] + back) == seq![
            if front.len() > 0 && front.last() == '\r' {
                front.take(front.len() - 1)
            } else {
                front
            },
        ] + text_lines(back),
{
    parting_is_at_the_first_occurrence(front, '\n');
    let whole = front + seq!['\n'] + back;
    let class = Class::Is('\n');
    assert forall|i: int| 0 <= i < front.len() implies !class.covers(#[trigger] whole[i]) by {
        assert(whole[i] == front[i]);
        assert(front.contains(front[i]));
    }
    assert(whole[front.len() as int] == '\n');
    lemma_until_at(whole, class, front.len() as int);
    assert(whole.take(front.len() as int) =~= front);
    assert(whole.skip(front.len() as int + 1) =~= back);
    if front.len() > 0 && front.last() == '\r' {
        assert(front.drop_last() =~= front.take(front.len() - 1));
    }
}

/// The first word of a text is the first run of characters that are not white
/// space: white space alone stands before it, and white space or the end of the
/// text behind it.
pub proof fn the_first_word_is_the_first_run(text: Seq<char>) -> (ends: (int, int))
    ensures
        0 <= ends.0 <= ends.1 <= text.len(),
        first_word(text) == text.subrange(ends.0, ends.1),
        after_first_word(text) == text.skip(ends.1),
        forall|i: int| 0 <= i < ends.0 ==> is_white(#[trigger] text[i]),
        forall|i: int| ends.0 <= i < ends.1 ==> !is_white(#[trigger] text[i]),
        ends.1 < text.len() ==> is_white(text[ends.1]),
        ends.0 == ends.1 ==> ends.1 == text.len(),
{
    let from = trimming_the_start_takes_a_run_of_the_class(text, Class::White);
    let rest = text.skip(from);
    lemma_until(rest, Class::White);
    let length = first_word(text).len() as int;
    assert forall|i: int| 0 <= i < from implies is_white(#[trigger] text[i]) by {
        assert(Class::White.covers(text[i]));
    }
    assert forall|i: int| from <= i < from + length implies !is_white(#[trigger] text[i]) by {
        assert(!Class::White.covers(rest[i - from]));
    }
    assert(rest.take(length) =~= text.subrange(from, from + length));
    assert(rest.skip(length) =~= text.skip(from + length));
    if from < text.len() {
        assert(!Class::White.covers(text[from]));
        assert(rest[0] == text[from]);
    }
    if from + length < text.len() {
        assert(rest[length] == text[from + length]);
    }
    (from, from + length)
}

/// What is left once a prefix is taken away is what follows the prefix: put behind
/// it, it is the text again; and only a text that begins so loses it.
pub proof fn a_prefix_taken_away_can_be_put_back(
    text: Seq<char>,
    prefix: Seq<char>,
    rest: Seq<char>,
)
    ensures
        without_prefix(prefix + rest, prefix) == Some(rest),
        without_prefix(text, prefix) matches Some(left) ==> text == prefix + left,
        begins(text, prefix) <==> without_prefix(text, prefix) is Some,
        finishes(rest + prefix, prefix),
{
    let whole = prefix + rest;
    assert(whole.take(prefix.len() as int) =~= prefix);
    assert(whole.skip(prefix.len() as int) =~= rest);
    let other = rest + prefix;
    assert(other.skip(other.len() - prefix.len()) =~= prefix);
    if let Some(left) = without_prefix(text, prefix) {
        assert(text =~= prefix + left);
    }
}

/// Copies of a suffix are taken from the end alone, and all of them.
pub proof fn copies_of_a_suffix_are_all_taken_away(text: Seq<char>, suffix: Seq<char>)
    requires
        suffix.len() > 0,
    ensures
        trimmed_end_text(text + suffix, suffix) == trimmed_end_text(text, suffix),
        !finishes(trimmed_end_text(text, suffix), suffix),
        !finishes(text, suffix) ==> trimmed_end_text(text, suffix) == text,
    decreases text.len(),
{
    let whole = text + suffix;
    assert(whole.skip(whole.len() - suffix.len()) =~= suffix);
    assert(whole.take(whole.len() - suffix.len()) =~= text);
    if finishes(text, suffix) {
        copies_of_a_suffix_are_all_taken_away(text.take(text.len() - suffix.len()), suffix);
    }
}

/// The number that decimal digits spell.
pub open spec fn spelled(digits: Seq<char>) -> int
    decreases digits.len(),
{
    if digits.len() == 0 {
        0
    } else {
        10 * spelled(digits.drop_last()) + (digits.last() as int - '0' as int)
    }
}

/// A number is written in the digits that spell it, without a needless zero.
pub proof fn a_number_is_written_as_it_is_read(number: nat)
    ensures
        spelled(decimal(number)) == number,
        decimal(number).len() > 1 ==> decimal(number)[0] != '0',
        forall|i: int|
            0 <= i < decimal(number).len() ==> '0' <= (#[trigger] decimal(number)[i]) <= '9',
    decreases number,
{
    lemma_decimal(number);
    assert forall|i: int| 0 <= i < decimal(number).len() implies '0' <= (#[trigger] decimal(
        number,
    )[i]) <= '9' by {
        assert(is_digit(decimal(number)[i]));
    }
    if number >= 10 {
        a_number_is_written_as_it_is_read(number / 10);
        let front = decimal(number / 10);
        assert(decimal(number).drop_last() =~= front);
        assert(decimal(number)[0] == front[0]);
        if front.len() == 1 {
            reveal_with_fuel(spelled, 2);
            assert(front.drop_last() =~= Seq::empty());
        }
    } else {
        reveal_with_fuel(spelled, 2);
        assert(decimal(number).drop_last() =~= Seq::empty());
    }
}

/// The number that a small hexadecimal digit stands for.
pub open spec fn hexadecimal_value(digit: char) -> int {
    if '0' <= digit <= '9' {
        digit as int - '0' as int
    } else {
        digit as int - 'a' as int + 10
    }
}

/// Bytes are written as two digits each, the higher one first, small letters among
/// them, and the two digits give the byte back.
pub proof fn bytes_are_written_as_they_are_read(bytes: Seq<u8>, at: int)
    requires
        0 <= at < bytes.len(),
    ensures
        hexadecimal(bytes).len() == 2 * bytes.len(),
        16 * hexadecimal_value(hexadecimal(bytes)[2 * at]) + hexadecimal_value(
            hexadecimal(bytes)[2 * at + 1],
        ) == bytes[at],
        ({
            let digit = hexadecimal(bytes)[2 * at];
            '0' <= digit <= '9' || 'a' <= digit <= 'f'
        }),
        ({
            let digit = hexadecimal(bytes)[2 * at + 1];
            '0' <= digit <= '9' || 'a' <= digit <= 'f'
        }),
{
    assert((2 * at) / 2 == at && (2 * at) % 2 == 0);
    assert((2 * at + 1) / 2 == at && (2 * at + 1) % 2 == 1);
}

/// Replacing changes the first occurrence alone, and nothing where there is none.
pub proof fn replacing_changes_the_first_occurrence_alone(
    text: Seq<char>,
    from: Seq<char>,
    to: Seq<char>,
    at: int,
)
    ensures
        occurs_at(text, from, at) && (forall|i: int| 0 <= i < at ==> !occurs_at(text, from, i))
            ==> replaced_first(text, from, to) == text.take(at) + to + text.skip(
            at + from.len(),
        ),
        !holds_text(text, from) ==> replaced_first(text, from, to) == text,
{
    lemma_found_from(text, from, 0);
    if let Some(first) = found_from(text, from, 0) {
        assert(occurs_at(text, from, first));
        if occurs_at(text, from, at) && (forall|i: int|
            0 <= i < at ==> !occurs_at(text, from, i)) {
            if first < at {
                assert(!occurs_at(text, from, first));
            } else if at < first {
                assert(!occurs_at(text, from, at));
            }
        }
    } else if occurs_at(text, from, at) {
        assert(!occurs_at(text, from, at));
    }
}

/// A pattern stands once in a text exactly where it stands somewhere and every
/// other place it stands at overlaps the first.
pub proof fn standing_once_is_standing_at_one_place(text: Seq<char>, pattern: Seq<char>)
    requires
        pattern.len() > 0,
    ensures
        times(text, pattern) == 1 <==> exists|at: int|
            #[trigger] occurs_at(text, pattern, at) && forall|other: int|
                #[trigger] occurs_at(text, pattern, other) ==> at <= other < at + pattern.len(),
        times(text, pattern) == 0 <==> !holds_text(text, pattern),
{
    reveal_with_fuel(occurrences, 2);
    lemma_found_from(text, pattern, 0);
    match found_from(text, pattern, 0) {
        Some(first) => {
            assert(occurs_at(text, pattern, first));
            let next = first + pattern.len();
            lemma_found_from(text, pattern, next as int);
            match found_from(text, pattern, next as int) {
                Some(second) => {
                    assert(occurs_at(text, pattern, second));
                    assert(times(text, pattern) != 1);
                    if exists|at: int|
                        #[trigger] occurs_at(text, pattern, at) && forall|other: int|
                            #[trigger] occurs_at(text, pattern, other) ==> at <= other < at
                                + pattern.len() {
                        let at = choose|at: int|
                            #[trigger] occurs_at(text, pattern, at) && forall|other: int|
                                #[trigger] occurs_at(text, pattern, other) ==> at <= other < at
                                    + pattern.len();
                        assert(at <= first && second < at + pattern.len());
                    }
                },
                None => {
                    assert forall|other: int| #[trigger]
                        occurs_at(text, pattern, other) implies first <= other < first
                        + pattern.len() by {
                        if other < first {
                            assert(!occurs_at(text, pattern, other));
                        }
                        if other >= next {
                            assert(!occurs_at(text, pattern, other));
                        }
                    }
                },
            }
        },
        None => {
            assert forall|at: int| !occurs_at(text, pattern, at) by {
                if at >= 0 {
                }
            }
        },
    }
}

/// Of two texts the one comes first that has the lower character where they first
/// differ, and a beginning comes before all that continues it.
pub proof fn the_first_difference_decides(
    common: Seq<char>,
    left: Seq<char>,
    right: Seq<char>,
)
    requires
        right.len() > 0,
        left.len() > 0 ==> left[0] < right[0],
    ensures
        earlier(common + left, common + right),
    decreases common.len(),
{
    if common.len() > 0 {
        the_first_difference_decides(common.drop_first(), left, right);
        assert((common + left).drop_first() =~= common.drop_first() + left);
        assert((common + right).drop_first() =~= common.drop_first() + right);
    } else {
        assert(common + left =~= left);
        assert(common + right =~= right);
    }
}

/// What is picked out of a list is what stands in it and is wanted.
pub proof fn lemma_picked<T>(list: Seq<T>, wanted: spec_fn(T) -> bool, entry: T)
    ensures
        list.filter(wanted).contains(entry) <==> list.contains(entry) && wanted(entry),
        list.filter(wanted).len() <= list.len(),
    decreases list.len(),
{
    reveal(Seq::filter);
    if list.len() > 0 {
        let rest = list.drop_last();
        let picked = rest.filter(wanted);
        lemma_picked(rest, wanted, entry);
        if list.contains(entry) {
            let k = choose|k: int| 0 <= k < list.len() && list[k] == entry;
            if k < rest.len() {
                assert(rest[k] == entry);
            }
        }
        if rest.contains(entry) {
            let k = choose|k: int| 0 <= k < rest.len() && rest[k] == entry;
            assert(list[k] == entry);
        }
        assert(list[list.len() - 1] == list.last());
        if wanted(list.last()) {
            let all = picked.push(list.last());
            assert(list.filter(wanted) == all);
            assert(all[picked.len() as int] == list.last());
            if picked.contains(entry) {
                let k = choose|k: int| 0 <= k < picked.len() && picked[k] == entry;
                assert(all[k] == entry);
            }
            if all.contains(entry) {
                let k = choose|k: int| 0 <= k < all.len() && all[k] == entry;
                if k < picked.len() {
                    assert(picked[k] == entry);
                }
            }
        }
    }
}

/// A text holds whatever stands between two others in it.
pub proof fn lemma_holds_between(before: Seq<char>, pattern: Seq<char>, after: Seq<char>)
    ensures
        holds_text(before + pattern + after, pattern),
{
    let whole = before + pattern + after;
    let at = before.len() as int;
    assert(whole.subrange(at, at + pattern.len()) =~= pattern);
    assert(occurs_at(whole, pattern, at));
}

/// A word at the beginning of a text, with white space before it, is its first
/// word, and what follows it is what follows.
pub proof fn a_word_that_stands_first_is_the_first_word(
    gap: Seq<char>,
    word: Seq<char>,
    rest: Seq<char>,
)
    requires
        forall|i: int| 0 <= i < gap.len() ==> is_white(#[trigger] gap[i]),
        word.len() > 0,
        forall|i: int| 0 <= i < word.len() ==> !is_white(#[trigger] word[i]),
        rest.len() > 0 ==> is_white(rest[0]),
    ensures
        first_word(gap + word + rest) == word,
        after_first_word(gap + word + rest) == rest,
        trimmed_start(gap + word + rest, Class::White) == word + rest,
{
    let whole = gap + word + rest;
    let from = trimming_the_start_takes_a_run_of_the_class(whole, Class::White);
    assert(whole[gap.len() as int] == word[0]);
    if from < gap.len() {
        assert(whole[from] == gap[from]);
        assert(is_white(gap[from]));
    } else if from > gap.len() {
        assert(Class::White.covers(whole[gap.len() as int]));
    }
    assert(whole.skip(from) =~= word + rest);
    let back = word + rest;
    assert forall|i: int| 0 <= i < word.len() implies !Class::White.covers(
        #[trigger] back[i],
    ) by {
        assert(back[i] == word[i]);
    }
    if rest.len() > 0 {
        assert(back[word.len() as int] == rest[0]);
    }
    lemma_until_at(back, Class::White, word.len() as int);
    assert(back.take(word.len() as int) =~= word);
    assert(back.skip(word.len() as int) =~= rest);
}

/// A class of one character covers that one alone, a class of two covers both and no
/// other, and white space covers white space; the ten digits lie between zero and
/// nine.
pub proof fn a_class_covers_its_own_characters(one: char, other: char, character: char)
    ensures
        Class::Is(one).covers(character) <==> character == one,
        Class::Either(one, other).covers(one),
        Class::Either(one, other).covers(other),
        character != one && character != other ==> !Class::Either(one, other).covers(character),
        Class::White.covers(character) <==> is_white(character),
        is_digit(character) <==> '0' <= character <= '9',
{
}

/// A list of texts is seen one for one and in order, and a text where there is one.
pub proof fn texts_are_seen_as_they_are(list: Seq<String>, text: String, at: int)
    ensures
        texts(list).len() == list.len(),
        0 <= at < list.len() ==> texts(list)[at] == list[at]@,
        seen(Some(text)) == Some(text@),
        seen(None) is None,
{
}

} // verus!
