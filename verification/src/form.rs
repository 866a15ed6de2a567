//! The `application/x-www-form-urlencoded` notation, in which the Docker API takes its parameters.
use vstd::prelude::*;
use vstd::utf8::*;

verus! {

/// The bytes that stand for themselves in the notation.
pub open spec fn stands_for_itself(byte: u8) -> bool {
    ||| '0' as u8 <= byte <= '9' as u8
    ||| 'A' as u8 <= byte <= 'Z' as u8
    ||| 'a' as u8 <= byte <= 'z' as u8
    ||| byte == '*' as u8
    ||| byte == '-' as u8
    ||| byte == '.' as u8
    ||| byte == '_' as u8
}

/// The hexadecimal digit, in upper case, that stands for `digit`.
pub open spec fn hex_char(digit: u8) -> char {
    if digit < 10 {
        ('0' as u8 + digit) as u8 as char
    } else {
        ('A' as u8 + (digit - 10)) as u8 as char
    }
}

/// What is written for one byte: the byte itself, `+` for a space, `%` and two hexadecimal digits
/// for every other byte.
pub open spec fn escaped_byte(byte: u8) -> Seq<char> {
    if byte == ' ' as u8 {
        seq!['+']
    } else if stands_for_itself(byte) {
        seq![byte as char]
    } else {
        seq!['%', hex_char(byte / 16), hex_char(byte % 16)]
    }
}

/// What is written for a row of bytes.
pub open spec fn escaped_bytes(bytes: Seq<u8>) -> Seq<char>
    decreases bytes.len(),
{
    if bytes.len() == 0 {
        seq![]
    } else {
        escaped_byte(bytes[0]) + escaped_bytes(bytes.drop_first())
    }
}

/// What is written for a text: its UTF-8 bytes, one after the other.
pub open spec fn escaped(text: Seq<char>) -> Seq<char> {
    escaped_bytes(encode_utf8(text))
}

/// A parameter: its name, `=` and its value.
pub open spec fn parameter(name: Seq<char>, value: Seq<char>) -> Seq<char> {
    escaped(name) + "="@ + escaped(value)
}

/// A list of parameters, with `&` between them.
pub open spec fn form(pairs: Seq<(Seq<char>, Seq<char>)>) -> Seq<char>
    decreases pairs.len(),
{
    if pairs.len() == 0 {
        seq![]
    } else if pairs.len() == 1 {
        parameter(pairs[0].0, pairs[0].1)
    } else {
        form(pairs.drop_last()) + "&"@ + parameter(pairs.last().0, pairs.last().1)
    }
}

/// The characters of a list of parameters.
pub open spec fn pairs_text(pairs: Seq<(&str, &str)>) -> Seq<(Seq<char>, Seq<char>)> {
    pairs.map_values(|pair: (&str, &str)| (pair.0@, pair.1@))
}

/// Calls `url::form_urlencoded::serialize`, which writes the parameters in their order, each name
/// and value as its UTF-8 bytes: ASCII letters, digits and `*-._` as they are, a space as `+`, and
/// every other byte as `%` and two upper-case hexadecimal digits; `=` stands between a name and
/// its value, `&` between two parameters.
#[verifier::external_body]
pub(crate) fn serialize(pairs: &Vec<(&str, &str)>) -> (query: String)
    ensures
        query@ == form(pairs_text(pairs@)),
{
    url::form_urlencoded::serialize(pairs)
}

/// Writes a list of one parameter.
pub(crate) fn serialize_one(name: &str, value: &str) -> (query: String)
    ensures
        query@ == parameter(name@, value@),
{
    let mut pairs: Vec<(&str, &str)> = Vec::new();
    pairs.push((name, value));
    serialize(&pairs)
}

/// The characters that can stand in an escaped name or value: letters, digits and `*-._+%`. None
/// of them ends a value, a parameter, or the query.
pub open spec fn is_form_char(character: char) -> bool {
    ||| '0' <= character <= '9'
    ||| 'A' <= character <= 'Z'
    ||| 'a' <= character <= 'z'
    ||| character == '*'
    ||| character == '-'
    ||| character == '.'
    ||| character == '_'
    ||| character == '+'
    ||| character == '%'
}

proof fn lemma_escaped_bytes_chars(bytes: Seq<u8>)
    ensures
        forall|i: int|
            0 <= i < escaped_bytes(bytes).len() ==> is_form_char(
                #[trigger] escaped_bytes(bytes)[i],
            ),
    decreases bytes.len(),
{
    if bytes.len() > 0 {
        lemma_escaped_bytes_chars(bytes.drop_first());
        let head = escaped_byte(bytes[0]);
        let tail = escaped_bytes(bytes.drop_first());
        assert forall|i: int| 0 <= i < (head + tail).len() implies is_form_char(
            #[trigger] (head + tail)[i],
        ) by {
            if i < head.len() {
                assert((head + tail)[i] == head[i]);
            } else {
                assert((head + tail)[i] == tail[i - head.len()]);
            }
        }
    }
}

/// A parameter stays within its place: whatever text a name or a value is, what is written for it
/// holds no `&`, `=`, `?`, `#`, `/` or space, so it can neither start another parameter nor leave
/// the query.
pub proof fn law_escaped_text_stays_in_place(text: Seq<char>)
    ensures
        forall|i: int| 0 <= i < escaped(text).len() ==> is_form_char(#[trigger] escaped(text)[i]),
        !escaped(text).contains('&'),
        !escaped(text).contains('='),
        !escaped(text).contains('?'),
        !escaped(text).contains('#'),
        !escaped(text).contains('/'),
        !escaped(text).contains(' '),
{
    lemma_escaped_bytes_chars(encode_utf8(text));
}

proof fn lemma_escaped_byte_prefix(left: u8, right: u8, left_rest: Seq<char>, right_rest: Seq<char>)
    requires
        escaped_byte(left) + left_rest == escaped_byte(right) + right_rest,
    ensures
        left == right,
        left_rest == right_rest,
{
    let whole_left = escaped_byte(left) + left_rest;
    let whole_right = escaped_byte(right) + right_rest;
    assert(whole_left[0] == whole_right[0]);
    assert(whole_left[0] == escaped_byte(left)[0]);
    assert(whole_right[0] == escaped_byte(right)[0]);
    if escaped_byte(left)[0] == '%' {
        assert(whole_left[1] == hex_char(left / 16) && whole_left[2] == hex_char(left % 16));
        assert(whole_right[1] == hex_char(right / 16) && whole_right[2] == hex_char(right % 16));
        assert(left / 16 == right / 16 && left % 16 == right % 16);
    }
    assert(left == right);
    let width = escaped_byte(left).len() as int;
    assert(left_rest =~= whole_left.skip(width));
    assert(right_rest =~= whole_right.skip(width));
}

proof fn lemma_escaped_bytes_injective(left: Seq<u8>, right: Seq<u8>)
    requires
        escaped_bytes(left) == escaped_bytes(right),
    ensures
        left == right,
    decreases left.len(),
{
    if left.len() == 0 || right.len() == 0 {
        if left.len() > 0 {
            assert(escaped_bytes(left).len() >= escaped_byte(left[0]).len());
        }
        if right.len() > 0 {
            assert(escaped_bytes(right).len() >= escaped_byte(right[0]).len());
        }
        assert(left =~= right);
    } else {
        lemma_escaped_byte_prefix(
            left[0],
            right[0],
            escaped_bytes(left.drop_first()),
            escaped_bytes(right.drop_first()),
        );
        lemma_escaped_bytes_injective(left.drop_first(), right.drop_first());
        assert(left =~= seq![left[0]] + left.drop_first());
        assert(right =~= seq![right[0]] + right.drop_first());
    }
}

/// Nothing of a text is lost when it is escaped: two texts that are written alike are the same.
pub proof fn law_escaping_is_injective(left: Seq<char>, right: Seq<char>)
    requires
        escaped(left) == escaped(right),
    ensures
        left == right,
{
    lemma_escaped_bytes_injective(encode_utf8(left), encode_utf8(right));
    encode_utf8_decode_utf8(left);
    encode_utf8_decode_utf8(right);
}

/// A text splits in one way only at the last of a mark.
pub(crate) proof fn lemma_split_at_last(
    left_head: Seq<char>,
    left_tail: Seq<char>,
    right_head: Seq<char>,
    right_tail: Seq<char>,
    mark: char,
)
    requires
        left_head + seq![mark] + left_tail == right_head + seq![mark] + right_tail,
        !left_tail.contains(mark),
        !right_tail.contains(mark),
    ensures
        left_head == right_head,
        left_tail == right_tail,
{
    let left = left_head + seq![mark] + left_tail;
    let right = right_head + seq![mark] + right_tail;
    assert(left.len() == left_head.len() + 1 + left_tail.len());
    assert(right.len() == right_head.len() + 1 + right_tail.len());
    assert(left[left_head.len() as int] == mark);
    assert(right[right_head.len() as int] == mark);
    if left_head.len() < right_head.len() {
        let at = right_head.len() - left_head.len() - 1;
        assert(left[right_head.len() as int] == left_tail[at]);
        assert(left_tail.contains(mark));
    }
    if right_head.len() < left_head.len() {
        let at = left_head.len() - right_head.len() - 1;
        assert(right[left_head.len() as int] == right_tail[at]);
        assert(right_tail.contains(mark));
    }
    let split = left_head.len() as int;
    assert(left_head =~= left.take(split));
    assert(right_head =~= right.take(split));
    assert(left_tail =~= left.skip(split + 1));
    assert(right_tail =~= right.skip(split + 1));
}

proof fn lemma_parameter_chars(name: Seq<char>, value: Seq<char>)
    ensures
        parameter(name, value).len() > 0,
        !parameter(name, value).contains('&'),
{
    reveal_strlit("=");
    law_escaped_text_stays_in_place(name);
    law_escaped_text_stays_in_place(value);
    let text = parameter(name, value);
    assert forall|i: int| 0 <= i < text.len() implies #[trigger] text[i] != '&' by {
        if i < escaped(name).len() {
            assert(text[i] == escaped(name)[i]);
        } else if i > escaped(name).len() {
            assert(text[i] == escaped(value)[i - escaped(name).len() - 1]);
        }
    }
}

/// A parameter tells its name and its value apart from any other.
pub proof fn law_parameter_is_injective(
    left_name: Seq<char>,
    left_value: Seq<char>,
    right_name: Seq<char>,
    right_value: Seq<char>,
)
    requires
        parameter(left_name, left_value) == parameter(right_name, right_value),
    ensures
        left_name == right_name,
        left_value == right_value,
{
    reveal_strlit("=");
    assert("="@ =~= seq!['=']);
    law_escaped_text_stays_in_place(left_value);
    law_escaped_text_stays_in_place(right_value);
    lemma_split_at_last(
        escaped(left_name),
        escaped(left_value),
        escaped(right_name),
        escaped(right_value),
        '=',
    );
    law_escaping_is_injective(left_name, right_name);
    law_escaping_is_injective(left_value, right_value);
}

/// A list of parameters can be read back: two lists that are written alike hold the same
/// parameters in the same order.
pub proof fn law_form_is_injective(
    left: Seq<(Seq<char>, Seq<char>)>,
    right: Seq<(Seq<char>, Seq<char>)>,
)
    requires
        form(left) == form(right),
    ensures
        left == right,
    decreases left.len(),
{
    reveal_strlit("&");
    assert("&"@ =~= seq!['&']);
    if left.len() > 0 {
        lemma_parameter_chars(left.last().0, left.last().1);
    }
    if right.len() > 0 {
        lemma_parameter_chars(right.last().0, right.last().1);
    }
    if left.len() == 0 || right.len() == 0 {
        assert(left.len() == right.len());
        assert(left =~= right);
    } else if left.len() == 1 || right.len() == 1 {
        if left.len() > 1 {
            assert(form(left)[form(left.drop_last()).len() as int] == '&');
        }
        if right.len() > 1 {
            assert(form(right)[form(right.drop_last()).len() as int] == '&');
        }
        assert(left.len() == 1 && right.len() == 1);
        law_parameter_is_injective(left[0].0, left[0].1, right[0].0, right[0].1);
        assert(left =~= right);
    } else {
        lemma_split_at_last(
            form(left.drop_last()),
            parameter(left.last().0, left.last().1),
            form(right.drop_last()),
            parameter(right.last().0, right.last().1),
            '&',
        );
        law_form_is_injective(left.drop_last(), right.drop_last());
        law_parameter_is_injective(
            left.last().0,
            left.last().1,
            right.last().0,
            right.last().1,
        );
        assert(left =~= left.drop_last().push(left.last()));
        assert(right =~= right.drop_last().push(right.last()));
    }
}

} // verus!
