//! The host names that the URL parser can read.
//!
//! The `url` crate maps every character of a host name by a table, brings the outcome into a normal
//! form, splits it at the dots, decodes the labels that start with `xn--` and encodes those that
//! are not ASCII. It panics where nothing is left of the name, it does not return where it looks up
//! one of the last two characters of Unicode, and it counts in 32 bits.
use vstd::prelude::*;
use vstd::utf8::char_is_scalar;

use crate::text::{characters, find, first_where, joined, lemma_first_where_bounds, lower_case};
use crate::text::{lower_text, part, to_lower_text};

verus! {

/// The largest number that the parser counts with.
pub const MAX_COUNT: u32 = 0xFFFF_FFFF;

/// The characters that the parser's search for their row in the table does not find.
pub open spec fn is_lost(character: char) -> bool {
    character >= '\u{10FFFE}'
}

/// The dot, and the characters that the table maps to one. It maps no other character to a text
/// that holds a dot.
pub open spec fn is_separator(character: char) -> bool {
    ||| character == '.'
    ||| character == '\u{3002}'
    ||| character == '\u{FF0E}'
    ||| character == '\u{FF61}'
}

pub open spec fn is_ascii(text: Seq<char>) -> bool {
    forall|i: int| 0 <= i < text.len() ==> #[trigger] text[i] <= '\x7F'
}

/// No character is one that the search does not find.
pub open spec fn is_found(text: Seq<char>) -> bool {
    forall|i: int| 0 <= i < text.len() ==> !is_lost(#[trigger] text[i])
}

/// What the table gives for a character when a host is parsed, if it gives something else
/// otherwise; the character itself if it does not.
pub open spec fn deviation(character: char) -> Seq<char> {
    if character == '\u{DF}' {
        seq!['s', 's']
    } else if character == '\u{3C2}' {
        seq!['\u{3C3}']
    } else if character == '\u{200C}' || character == '\u{200D}' {
        seq![]
    } else {
        seq![character]
    }
}

/// A text with `deviation` taken of every character.
pub open spec fn deviated(text: Seq<char>) -> Seq<char>
    decreases text.len(),
{
    if text.len() == 0 {
        text
    } else {
        deviated(text.drop_last()) + deviation(text.last())
    }
}

/// The label that a piece between two separators turns into: mapped by the table, and in normal
/// form. ASCII text is only brought into lower case. Other text is given to
/// `url::idna::domain_to_unicode` behind a hyphen, so that it is not taken for an encoded label.
pub open spec fn normal_label(piece: Seq<char>) -> Seq<char> {
    if is_ascii(piece) {
        lower_text(piece)
    } else {
        unicode_domain(seq!['-'] + deviated(piece)).skip(1)
    }
}

/// Whether a label in normal form is decoded: it starts with `xn--`.
pub open spec fn is_encoded(label: Seq<char>) -> bool {
    &&& label.len() >= 4
    &&& label[0] == 'x'
    &&& label[1] == 'n'
    &&& label[2] == '-'
    &&& label[3] == '-'
}

/// Whether the encoder can take a label. For a label that is not ASCII it adds up, for each of its
/// code points at most, the distance to the next one times the number of characters.
pub open spec fn is_encodable(label: Seq<char>) -> bool {
    is_ascii(label) || forall|i: int|
        0 <= i < label.len() ==> (#[trigger] label[i] as u32 + 1) * (label.len() + 1) <= MAX_COUNT
}

/// Whether the parser comes to an end with a label in normal form.
pub open spec fn is_readable_label(label: Seq<char>) -> bool {
    if is_encoded(label) {
        let code = label.skip(4);
        &&& code.len() < MAX_COUNT
        &&& punycode_decoded(code) is Some ==> is_found(punycode_decoded(code)->0)
            && is_encodable(punycode_decoded(code)->0)
    } else {
        is_encodable(label)
    }
}

/// Whether the parser comes to an end with a piece between two separators.
pub open spec fn is_readable_piece(piece: Seq<char>) -> bool {
    is_found(piece) && is_readable_label(normal_label(piece))
}

/// Whether something is left of a piece: its label is neither empty nor just `xn--`.
pub open spec fn leaves_text(piece: Seq<char>) -> bool {
    let label = normal_label(piece);
    label.len() > 0 && !(is_encoded(label) && label.len() == 4)
}

/// The pieces between the separators of a name, from the place `from` on.
pub open spec fn pieces(name: Seq<char>, from: int) -> Seq<Seq<char>>
    decreases name.len() - from,
{
    let to = first_where(name, from, |c: char| is_separator(c));
    if from <= to < name.len() {
        seq![name.subrange(from, to)] + pieces(name, to + 1)
    } else {
        seq![name.subrange(from, name.len() as int)]
    }
}

/// Whether the parser can read a host name: every piece is readable, and some piece leaves text.
pub open spec fn is_readable_name(name: Seq<char>) -> bool {
    let all = pieces(name, 0);
    &&& forall|i: int| 0 <= i < all.len() ==> is_readable_piece(#[trigger] all[i])
    &&& exists|i: int| 0 <= i < all.len() && leaves_text(#[trigger] all[i])
}

/// A host with its percent-encoded bytes decoded.
pub open spec fn decoded_host(host: Seq<char>) -> Seq<char> {
    if host.contains('%') {
        percent_decoded(host)
    } else {
        host
    }
}

/// Whether the parser can read a host: it refuses an empty one, takes one that starts with `[` for
/// an IPv6 address, and every other one for a name.
pub open spec fn is_readable_host(host: Seq<char>) -> bool {
    host.len() > 0 && host[0] != '[' ==> is_readable_name(decoded_host(host))
}

/// What `url::percent_encoding::lossy_utf8_percent_decode` makes of the UTF-8 bytes of a text.
pub uninterp spec fn percent_decoded(text: Seq<char>) -> Seq<char>;

/// Calls `url::percent_encoding::lossy_utf8_percent_decode` on the UTF-8 bytes of `text`, as the
/// URL parser does with a host. The outcome is a function of the text alone.
#[verifier::external_body]
fn percent_decode(text: &str) -> (decoded: String)
    ensures
        decoded@ == percent_decoded(text@),
{
    url::percent_encoding::lossy_utf8_percent_decode(text.as_bytes())
}

/// What `url::punycode::decode` makes of a text, `None` where it refuses it.
pub uninterp spec fn punycode_decoded(text: Seq<char>) -> Option<Seq<char>>;

/// Calls `url::punycode::decode`, as the URL parser does with an encoded label. The outcome is a
/// function of the text alone. The decoder has room for one character less than [`MAX_COUNT`].
#[verifier::external_body]
fn punycode_decode(text: &str) -> (decoded: Option<Vec<char>>)
    requires
        text@.len() < MAX_COUNT,
    ensures
        decoded is Some <==> punycode_decoded(text@) is Some,
        decoded is Some ==> decoded->0@ == punycode_decoded(text@)->0,
{
    url::punycode::decode(text)
}

/// The text that `url::idna::domain_to_unicode` makes of a name.
pub uninterp spec fn unicode_domain(name: Seq<char>) -> Seq<char>;

/// Calls `url::idna::domain_to_unicode` and keeps the text. The outcome is a function of the name
/// alone. A name that is one label, with a hyphen first, is mapped and brought into normal form,
/// and still starts with the hyphen.
#[verifier::external_body]
fn to_unicode_domain(name: &str) -> (text: String)
    requires
        is_found(name@),
        name@.len() > 0 && name@[0] == '-',
        forall|i: int| 0 <= i < name@.len() ==> !is_separator(#[trigger] name@[i]),
    ensures
        text@ == unicode_domain(name@),
        text@.len() > 0 && text@[0] == '-',
{
    url::idna::domain_to_unicode(name).0
}

fn separates(c: char) -> (found: bool)
    ensures
        found == is_separator(c),
{
    c == '.' || c == '\u{3002}' || c == '\u{FF0E}' || c == '\u{FF61}'
}

fn all_ascii(text: &Vec<char>) -> (ascii: bool)
    ensures
        ascii == is_ascii(text@),
{
    let mut at: usize = 0;
    while at < text.len()
        invariant
            at <= text.len(),
            forall|i: int| 0 <= i < at ==> #[trigger] text@[i] <= '\x7F',
        decreases text.len() - at,
    {
        if text[at] > '\x7F' {
            return false;
        }
        at = at + 1;
    }
    true
}

fn all_found(text: &Vec<char>) -> (found: bool)
    ensures
        found == is_found(text@),
{
    let mut at: usize = 0;
    while at < text.len()
        invariant
            at <= text.len(),
            forall|i: int| 0 <= i < at ==> !is_lost(#[trigger] text@[i]),
        decreases text.len() - at,
    {
        if text[at] >= '\u{10FFFE}' {
            assert(is_lost(text@[at as int]));
            return false;
        }
        at = at + 1;
    }
    true
}

/// Puts a hyphen before a text with `deviation` taken of every character.
fn deviate(text: &Vec<char>) -> (name: Vec<char>)
    requires
        is_found(text@),
        forall|i: int| 0 <= i < text@.len() ==> !is_separator(#[trigger] text@[i]),
    ensures
        name@ == seq!['-'] + deviated(text@),
        is_found(name@),
        forall|i: int| 0 <= i < name@.len() ==> !is_separator(#[trigger] name@[i]),
{
    let mut name: Vec<char> = Vec::new();
    name.push('-');
    let mut at: usize = 0;
    assert(name@ =~= seq!['-'] + deviated(text@.take(0)));
    while at < text.len()
        invariant
            at <= text.len(),
            is_found(text@),
            forall|i: int| 0 <= i < text@.len() ==> !is_separator(#[trigger] text@[i]),
            name@ == seq!['-'] + deviated(text@.take(at as int)),
            is_found(name@),
            forall|i: int| 0 <= i < name@.len() ==> !is_separator(#[trigger] name@[i]),
        decreases text.len() - at,
    {
        let ghost before = name@;
        let character: char = text[at];
        assert(text@.take(at + 1).drop_last() =~= text@.take(at as int));
        if character == '\u{DF}' {
            name.push('s');
            name.push('s');
        } else if character == '\u{3C2}' {
            name.push('\u{3C3}');
        } else if !(character == '\u{200C}' || character == '\u{200D}') {
            name.push(character);
        }
        assert(name@ =~= before + deviation(character));
        assert(name@ =~= seq!['-'] + deviated(text@.take(at + 1)));
        at = at + 1;
    }
    assert(text@.take(text@.len() as int) =~= text@);
    name
}

/// The label that a piece between two separators turns into.
fn normalize(piece: &Vec<char>) -> (label: Vec<char>)
    requires
        is_found(piece@),
        forall|i: int| 0 <= i < piece@.len() ==> !is_separator(#[trigger] piece@[i]),
    ensures
        label@ == normal_label(piece@),
{
    if all_ascii(piece) {
        to_lower_text(piece)
    } else {
        let name = joined(&deviate(piece));
        let text = characters(to_unicode_domain(name.as_str()).as_str());
        part(&text, 1, text.len())
    }
}

fn starts_encoded(label: &Vec<char>) -> (encoded: bool)
    ensures
        encoded == is_encoded(label@),
{
    label.len() >= 4 && label[0] == 'x' && label[1] == 'n' && label[2] == '-' && label[3] == '-'
}

/// Tests whether the encoder can take a label.
fn can_encode(label: &Vec<char>) -> (encodable: bool)
    ensures
        encodable == is_encodable(label@),
{
    if all_ascii(label) {
        return true;
    }
    let room: u64 = label.len() as u64;
    if room >= MAX_COUNT as u64 {
        proof {
            let first = label@[0] as u32;
            assert((first + 1) * (room + 1) > MAX_COUNT) by (nonlinear_arith)
                requires
                    room >= MAX_COUNT,
            ;
        }
        return false;
    }
    let mut at: usize = 0;
    while at < label.len()
        invariant
            at <= label.len(),
            room == label.len(),
            room < MAX_COUNT,
            !is_ascii(label@),
            forall|i: int|
                0 <= i < at ==> (#[trigger] label@[i] as u32 + 1) * (label@.len() + 1) <= MAX_COUNT,
        decreases label.len() - at,
    {
        let code: u64 = label[at] as u32 as u64;
        proof {
            char_is_scalar(label@[at as int]);
        }
        assert((code + 1) * (room + 1) <= 0x110000 * 0x1_0000_0000) by (nonlinear_arith)
            requires
                code <= 0x10FFFF,
                room < MAX_COUNT,
        ;
        if (code + 1) * (room + 1) > MAX_COUNT as u64 {
            assert((label@[at as int] as u32 + 1) * (label@.len() + 1) > MAX_COUNT);
            return false;
        }
        at = at + 1;
    }
    true
}

/// Tests whether the parser comes to an end with a label.
fn can_read_label(label: &Vec<char>) -> (readable: bool)
    ensures
        readable == is_readable_label(label@),
{
    if !starts_encoded(label) {
        return can_encode(label);
    }
    let code = part(label, 4, label.len());
    assert(code@ =~= label@.skip(4));
    if code.len() as u64 >= MAX_COUNT as u64 {
        return false;
    }
    match punycode_decode(joined(&code).as_str()) {
        Some(text) => all_found(&text) && can_encode(&text),
        None => true,
    }
}

/// Tests whether the parser can read a host name.
fn can_read_name(name: &Vec<char>) -> (readable: bool)
    ensures
        readable == is_readable_name(name@),
{
    let ghost all = pieces(name@, 0);
    let ghost mut done: Seq<Seq<char>> = seq![];
    let mut from: usize = 0;
    let mut shown = false;
    assert(done + pieces(name@, 0) =~= all);
    loop
        invariant
            from <= name.len(),
            all == pieces(name@, 0),
            all == done + pieces(name@, from as int),
            forall|i: int| 0 <= i < done.len() ==> is_readable_piece(#[trigger] done[i]),
            shown == exists|i: int| 0 <= i < done.len() && leaves_text(#[trigger] done[i]),
        decreases name.len() - from,
    {
        let to = find(name, from, separates, Ghost(|c: char| is_separator(c)));
        let piece = part(name, from, to);
        let ghost rest = pieces(name@, from as int);
        assert(rest[0] == piece@);
        assert(all[done.len() as int] == piece@);
        if !all_found(&piece) {
            return false;
        }
        proof {
            lemma_first_where_bounds(name@, from as int, |c: char| is_separator(c));
        }
        let label = normalize(&piece);
        if !can_read_label(&label) {
            return false;
        }
        let here = label.len() > 0 && !(starts_encoded(&label) && label.len() == 4);
        let ghost before = done;
        proof {
            done = done.push(piece@);
            assert forall|i: int| 0 <= i < done.len() implies is_readable_piece(
                #[trigger] done[i],
            ) by {
                if i < before.len() {
                    assert(done[i] == before[i]);
                }
            }
            assert((exists|i: int| 0 <= i < done.len() && leaves_text(#[trigger] done[i])) == (shown
                || here)) by {
                if shown {
                    let i = choose|i: int|
                        0 <= i < before.len() && leaves_text(#[trigger] before[i]);
                    assert(done[i] == before[i]);
                }
                if here {
                    assert(leaves_text(done[before.len() as int]));
                }
                if exists|i: int| 0 <= i < done.len() && leaves_text(#[trigger] done[i]) {
                    let i = choose|i: int| 0 <= i < done.len() && leaves_text(#[trigger] done[i]);
                    if i < before.len() {
                        assert(leaves_text(before[i]));
                    }
                }
            }
        }
        shown = shown || here;
        if to == name.len() {
            assert(all =~= done);
            return shown;
        }
        assert(all =~= done + pieces(name@, to + 1));
        from = to + 1;
    }
}

fn has_percent(host: &Vec<char>) -> (found: bool)
    ensures
        found == host@.contains('%'),
{
    let mut at: usize = 0;
    while at < host.len()
        invariant
            at <= host.len(),
            forall|i: int| 0 <= i < at ==> host@[i] != '%',
        decreases host.len() - at,
    {
        if host[at] == '%' {
            assert(host@[at as int] == '%');
            return true;
        }
        at = at + 1;
    }
    false
}

/// Tests whether the parser can read a host.
pub(crate) fn can_read_host(host: &Vec<char>) -> (readable: bool)
    ensures
        readable == is_readable_host(host@),
{
    if host.len() == 0 || host[0] == '[' {
        true
    } else if has_percent(host) {
        can_read_name(&characters(percent_decode(joined(host).as_str()).as_str()))
    } else {
        can_read_name(host)
    }
}

/// The pieces of a name hold characters of the name, and one of them is not empty where the name
/// holds more than separators.
proof fn lemma_pieces(name: Seq<char>, from: int, kept: spec_fn(char) -> bool, solid: int)
    requires
        0 <= from <= name.len(),
        forall|i: int| 0 <= i < name.len() ==> kept(#[trigger] name[i]),
    ensures
        forall|i: int, j: int|
            0 <= i < pieces(name, from).len() && 0 <= j < pieces(name, from)[i].len() ==> kept(
                #[trigger] pieces(name, from)[i][j],
            ),
        from <= solid < name.len() && !is_separator(name[solid]) ==> exists|i: int|
            0 <= i < pieces(name, from).len() && (#[trigger] pieces(name, from)[i]).len() > 0,
    decreases name.len() - from,
{
    let to = first_where(name, from, |c: char| is_separator(c));
    let all = pieces(name, from);
    lemma_first_where_bounds(name, from, |c: char| is_separator(c));
    if to < name.len() {
        lemma_pieces(name, to + 1, kept, solid);
        let rest = pieces(name, to + 1);
        assert(all == seq![name.subrange(from, to)] + rest);
        assert forall|i: int, j: int| 0 <= i < all.len() && 0 <= j < all[i].len() implies kept(
            #[trigger] all[i][j],
        ) by {
            if i > 0 {
                assert(all[i] == rest[i - 1]);
                assert(kept(rest[i - 1][j]));
            } else {
                assert(all[0][j] == name[from + j]);
            }
        }
        if from <= solid < name.len() && !is_separator(name[solid]) {
            if solid < to {
                assert(all[0].len() > 0);
            } else {
                let i = choose|i: int| 0 <= i < rest.len() && (#[trigger] rest[i]).len() > 0;
                assert(all[i + 1] == rest[i]);
            }
        }
    } else {
        assert(all == seq![name.subrange(from, name.len() as int)]);
        assert(all[0] == name.subrange(from, name.len() as int));
    }
}

/// A host of ASCII characters other than `%` that does not start with `[` can be read if none of
/// its labels starts with `xn--` and it does not consist of dots.
pub proof fn law_plain_host_is_readable(host: Seq<char>)
    requires
        is_ascii(host),
        host.len() > 0 && host[0] != '[',
        !host.contains('%'),
        forall|i: int|
            0 <= i < pieces(host, 0).len() ==> !is_encoded(
                lower_text(#[trigger] pieces(host, 0)[i]),
            ),
        exists|i: int| 0 <= i < host.len() && #[trigger] host[i] != '.',
    ensures
        is_readable_host(host),
{
    let solid = choose|i: int| 0 <= i < host.len() && #[trigger] host[i] != '.';
    let all = pieces(host, 0);
    lemma_pieces(host, 0, |c: char| c <= '\x7F', solid);
    assert forall|i: int| 0 <= i < all.len() implies is_readable_piece(#[trigger] all[i]) by {
        assert(forall|j: int| 0 <= j < all[i].len() ==> #[trigger] all[i][j] <= '\x7F');
        assert(is_ascii(lower_text(all[i])));
    }
    let i = choose|i: int| 0 <= i < all.len() && (#[trigger] all[i]).len() > 0;
    assert(is_readable_piece(all[i]));
    assert(is_ascii(all[i])) by {
        assert(forall|j: int| 0 <= j < all[i].len() ==> #[trigger] all[i][j] <= '\x7F');
    }
    assert(leaves_text(all[i]));
}

/// A host of ASCII characters without `%`, `[` and hyphens can be read if it does not consist of
/// dots.
pub proof fn law_host_without_hyphens_is_readable(host: Seq<char>)
    requires
        is_ascii(host),
        forall|i: int|
            0 <= i < host.len() ==> #[trigger] host[i] != '-' && host[i] != '%' && host[i] != '[',
        exists|i: int| 0 <= i < host.len() && #[trigger] host[i] != '.',
    ensures
        is_readable_host(host),
{
    let all = pieces(host, 0);
    lemma_pieces(host, 0, |c: char| c != '-', 0);
    assert forall|i: int| 0 <= i < all.len() implies !is_encoded(
        lower_text(#[trigger] all[i]),
    ) by {
        if all[i].len() >= 4 {
            assert(all[i][2] != '-');
            assert(lower_text(all[i])[2] == lower_case(all[i][2]));
        }
    }
    law_plain_host_is_readable(host);
}

/// Only the last two characters of Unicode are lost, and only the dot and three others part the
/// labels of a name.
pub proof fn law_few_characters_are_special(character: char)
    ensures
        is_lost(character) <==> character == '\u{10FFFE}' || character == '\u{10FFFF}',
        is_separator(character) <==> character == '.' || character == '\u{3002}' || character
            == '\u{FF0E}' || character == '\u{FF61}',
{
    char_is_scalar(character);
    assert(character as u32 <= 0x10FFFF);
}

/// A label of no more than 3800 characters can be encoded, whatever they are.
pub proof fn law_labels_are_encodable(label: Seq<char>)
    requires
        label.len() <= 3800,
    ensures
        is_encodable(label),
{
    assert forall|i: int| 0 <= i < label.len() implies (#[trigger] label[i] as u32 + 1) * (
    label.len() + 1) <= MAX_COUNT by {
        char_is_scalar(label[i]);
        let code = label[i] as u32;
        let room = label.len();
        assert((code + 1) * (room + 1) <= 0x110000 * 3801) by (nonlinear_arith)
            requires
                code <= 0x10FFFF,
                room <= 3800,
        ;
    }
}

/// A text without the four characters that deviate is given on as it is.
pub proof fn law_other_characters_do_not_deviate(text: Seq<char>)
    requires
        !text.contains('\u{DF}'),
        !text.contains('\u{3C2}'),
        !text.contains('\u{200C}'),
        !text.contains('\u{200D}'),
    ensures
        deviated(text) == text,
    decreases text.len(),
{
    if text.len() > 0 {
        let before = text.drop_last();
        assert(forall|i: int| 0 <= i < before.len() ==> #[trigger] before[i] == text[i]);
        assert(text[text.len() - 1] == text.last());
        law_other_characters_do_not_deviate(before);
        assert(before + seq![text.last()] =~= text);
    } else {
        assert(deviated(text) =~= text);
    }
}

/// A host that does not start with `[` is judged by its name alone, and by its decoded name only if
/// it holds a `%`. An empty host and one that starts with `[` can be read in any case.
pub proof fn law_hosts_are_judged_by_their_names(host: Seq<char>)
    ensures
        host.len() == 0 || host[0] == '[' ==> is_readable_host(host),
        host.len() > 0 && host[0] != '[' && !host.contains('%') ==> (is_readable_host(host)
            <==> is_readable_name(host)),
        host.len() > 0 && host[0] != '[' && host.contains('%') ==> (is_readable_host(host)
            <==> is_readable_name(percent_decoded(host))),
{
}

} // verus!
