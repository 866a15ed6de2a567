//! Text pieces that endpoints are put together from.
use vstd::prelude::*;
use vstd::string::*;

verus! {

/// `path`, followed by `?` and the query where there is one.
pub open spec fn with_query(path: Seq<char>, query: Option<Seq<char>>) -> Seq<char> {
    match query {
        Some(query) => path + "?"@ + query,
        None => path,
    }
}

/// The characters of a text that may be absent.
pub open spec fn optional_text(text: Option<&str>) -> Option<Seq<char>> {
    match text {
        Some(text) => Some(text@),
        None => None,
    }
}

/// The decimal digit that stands for `digit`.
pub open spec fn digit_char(digit: nat) -> char {
    ('0' as u8 + digit) as u8 as char
}

/// The decimal notation of `value`, without leading zeros.
pub open spec fn decimal(value: nat) -> Seq<char>
    decreases value,
{
    if value < 10 {
        seq![digit_char(value)]
    } else {
        decimal(value / 10).push(digit_char(value % 10))
    }
}

/// The number that a row of decimal digits stands for.
pub open spec fn number_of(digits: Seq<char>) -> nat
    decreases digits.len(),
{
    if digits.len() == 0 {
        0
    } else {
        (number_of(digits.drop_last()) * 10 + (digits.last() as u8 - '0' as u8)) as nat
    }
}

/// Decimal digits, at least one, without a zero in front of others.
pub open spec fn is_number(digits: Seq<char>) -> bool {
    &&& digits.len() > 0
    &&& forall|i: int| 0 <= i < digits.len() ==> '0' <= #[trigger] digits[i] <= '9'
    &&& digits.len() > 1 ==> digits[0] != '0'
}

/// The first place at or after `from` whose character is wanted; the end where there is none.
pub open spec fn first_where(text: Seq<char>, from: int, wanted: spec_fn(char) -> bool) -> int
    decreases text.len() - from,
{
    if from >= text.len() || wanted(text[from]) {
        from
    } else {
        first_where(text, from + 1, wanted)
    }
}

/// The place behind the last character before `to` that is wanted; the start where there is none.
pub open spec fn after_last(text: Seq<char>, to: int, wanted: spec_fn(char) -> bool) -> int
    decreases to,
{
    if to <= 0 || wanted(text[to - 1]) {
        to
    } else {
        after_last(text, to - 1, wanted)
    }
}

pub open spec fn lower_case(character: char) -> char {
    if 'A' <= character <= 'Z' {
        (character as u8 + 32) as u8 as char
    } else {
        character
    }
}

/// A text with its ASCII letters in lower case.
pub open spec fn lower_text(text: Seq<char>) -> Seq<char> {
    text.map_values(|c: char| lower_case(c))
}

pub(crate) proof fn lemma_first_where(
    text: Seq<char>,
    from: int,
    place: int,
    wanted: spec_fn(char) -> bool,
)
    requires
        0 <= from <= place <= text.len(),
        place < text.len() ==> wanted(text[place]),
        forall|i: int| from <= i < place ==> !wanted(#[trigger] text[i]),
    ensures
        first_where(text, from, wanted) == place,
    decreases place - from,
{
    if from < place {
        lemma_first_where(text, from + 1, place, wanted);
    }
}

pub(crate) proof fn lemma_first_where_bounds(
    text: Seq<char>,
    from: int,
    wanted: spec_fn(char) -> bool,
)
    requires
        0 <= from <= text.len(),
    ensures
        from <= first_where(text, from, wanted) <= text.len(),
        first_where(text, from, wanted) < text.len() ==> wanted(
            text[first_where(text, from, wanted)],
        ),
        forall|i: int| from <= i < first_where(text, from, wanted) ==> !wanted(#[trigger] text[i]),
    decreases text.len() - from,
{
    if from < text.len() && !wanted(text[from]) {
        lemma_first_where_bounds(text, from + 1, wanted);
    }
}

pub(crate) proof fn lemma_after_last(
    text: Seq<char>,
    to: int,
    place: int,
    wanted: spec_fn(char) -> bool,
)
    requires
        0 <= place <= to <= text.len(),
        place > 0 ==> wanted(text[place - 1]),
        forall|i: int| place <= i < to ==> !wanted(#[trigger] text[i]),
    ensures
        after_last(text, to, wanted) == place,
    decreases to,
{
    if place < to {
        lemma_after_last(text, to - 1, place, wanted);
    }
}

/// `String::push` puts the given character at the end of the string.
pub assume_specification[ String::push ](text: &mut String, character: char)
    ensures
        final(text)@ == old(text)@.push(character),
;

/// Puts two pieces of text in a row.
pub(crate) fn concat(first: &str, second: &str) -> (text: String)
    ensures
        text@ == first@ + second@,
{
    let mut text = first.to_owned();
    text.append(second);
    text
}

/// Puts three pieces of text in a row.
pub(crate) fn enclose(first: &str, second: &str, third: &str) -> (text: String)
    ensures
        text@ == first@ + second@ + third@,
{
    let mut text = concat(first, second);
    text.append(third);
    text
}

/// Adds a query to a path.
pub(crate) fn join_query(path: String, query: Option<&str>) -> (endpoint: String)
    ensures
        endpoint@ == with_query(path@, optional_text(query)),
{
    match query {
        Some(query) => enclose(path.as_str(), "?", query),
        None => path,
    }
}

/// Writes `value` in decimal notation.
pub(crate) fn decimal_text(value: u64) -> (text: String)
    ensures
        text@ == decimal(value as nat),
    decreases value,
{
    let last: u8 = (value % 10) as u8;
    let digit: char = ('0' as u8 + last) as char;
    let mut text = if value < 10 {
        String::new()
    } else {
        decimal_text(value / 10)
    };
    text.push(digit);
    text
}

/// The characters of a text, one by one.
pub(crate) fn characters(text: &str) -> (list: Vec<char>)
    ensures
        list@ == text@,
{
    let mut list: Vec<char> = Vec::new();
    for character in walk: text.chars()
        invariant
            walk.seq() == text@,
            list@ == text@.take(walk.index()),
    {
        list.push(character);
    }
    assert(text@.take(text@.len() as int) =~= text@);
    list
}

/// A list of characters as a text.
pub(crate) fn joined(list: &Vec<char>) -> (text: String)
    ensures
        text@ == list@,
{
    let mut text = String::new();
    let mut at: usize = 0;
    while at < list.len()
        invariant
            at <= list.len(),
            text@ == list@.take(at as int),
        decreases list.len() - at,
    {
        text.push(list[at]);
        assert(list@.take(at + 1) =~= list@.take(at as int).push(list@[at as int]));
        at = at + 1;
    }
    assert(list@.take(list@.len() as int) =~= list@);
    text
}

/// The characters from `from` to `to`.
pub(crate) fn part(list: &Vec<char>, from: usize, to: usize) -> (piece: Vec<char>)
    requires
        from <= to <= list.len(),
    ensures
        piece@ == list@.subrange(from as int, to as int),
{
    let mut piece: Vec<char> = Vec::new();
    let mut at: usize = from;
    while at < to
        invariant
            from <= at <= to <= list.len(),
            piece@ == list@.subrange(from as int, at as int),
        decreases to - at,
    {
        piece.push(list[at]);
        at = at + 1;
    }
    piece
}

/// Finds the first place at or after `from` whose character is wanted.
pub(crate) fn find(
    text: &Vec<char>,
    from: usize,
    is_wanted: impl Fn(char) -> bool,
    Ghost(wanted): Ghost<spec_fn(char) -> bool>,
) -> (place: usize)
    requires
        from <= text.len(),
        forall|c: char| is_wanted.requires((c,)),
        forall|c: char, found: bool| is_wanted.ensures((c,), found) ==> found == wanted(c),
    ensures
        from <= place <= text.len(),
        place == first_where(text@, from as int, wanted),
{
    let mut place: usize = from;
    while place < text.len() && !is_wanted(text[place])
        invariant
            from <= place <= text.len(),
            forall|c: char| is_wanted.requires((c,)),
            forall|c: char, found: bool| is_wanted.ensures((c,), found) ==> found == wanted(c),
            first_where(text@, place as int, wanted) == first_where(text@, from as int, wanted),
        ensures
            from <= place <= text.len(),
            place == first_where(text@, from as int, wanted),
        decreases text.len() - place,
    {
        place = place + 1;
    }
    place
}

/// Finds the place behind the last character that is wanted.
pub(crate) fn find_last(
    text: &Vec<char>,
    is_wanted: impl Fn(char) -> bool,
    Ghost(wanted): Ghost<spec_fn(char) -> bool>,
) -> (place: usize)
    requires
        forall|c: char| is_wanted.requires((c,)),
        forall|c: char, found: bool| is_wanted.ensures((c,), found) ==> found == wanted(c),
    ensures
        place <= text.len(),
        place == after_last(text@, text.len() as int, wanted),
{
    let mut place: usize = text.len();
    while place > 0 && !is_wanted(text[place - 1])
        invariant
            place <= text.len(),
            forall|c: char| is_wanted.requires((c,)),
            forall|c: char, found: bool| is_wanted.ensures((c,), found) ==> found == wanted(c),
            after_last(text@, place as int, wanted) == after_last(
                text@,
                text.len() as int,
                wanted,
            ),
        ensures
            place <= text.len(),
            place == after_last(text@, text.len() as int, wanted),
        decreases place,
    {
        place = place - 1;
    }
    place
}

pub(crate) fn to_lower_case(character: char) -> (lower: char)
    ensures
        lower == lower_case(character),
{
    if 'A' <= character && character <= 'Z' {
        (character as u8 + 32) as char
    } else {
        character
    }
}

/// Writes the ASCII letters of a text in lower case.
pub(crate) fn to_lower_text(text: &Vec<char>) -> (lowered: Vec<char>)
    ensures
        lowered@ == lower_text(text@),
{
    let mut lowered: Vec<char> = Vec::new();
    let mut at: usize = 0;
    while at < text.len()
        invariant
            at <= text.len(),
            lowered@ == lower_text(text@.take(at as int)),
        decreases text.len() - at,
    {
        lowered.push(to_lower_case(text[at]));
        at = at + 1;
    }
    assert(text@.take(text@.len() as int) =~= text@);
    lowered
}

/// Whether the characters are those of `word`.
pub(crate) fn reads(text: &Vec<char>, word: &str) -> (same: bool)
    ensures
        same == (text@ == word@),
{
    let letters = characters(word);
    if letters.len() != text.len() {
        return false;
    }
    let mut at: usize = 0;
    while at < letters.len()
        invariant
            letters@ == word@,
            letters.len() == text.len(),
            at <= letters.len(),
            forall|i: int| 0 <= i < at ==> text[i] == letters[i],
        decreases letters.len() - at,
    {
        if text[at] != letters[at] {
            return false;
        }
        at = at + 1;
    }
    assert(text@ =~= word@);
    true
}

} // verus!
