//! Replies in JSON, as far as the client reads into them itself.
use vstd::prelude::*;

use crate::text::characters;

verus! {

/// The value of a field: a string, or something else.
#[derive(Debug, PartialEq, Eq)]
pub enum Field {
    Text(String),
    Other,
}

/// One value of a reply: an object with its fields, or something else. Where a name occurs twice,
/// its last field counts.
#[derive(Debug, PartialEq, Eq)]
pub enum Item {
    Object(Vec<(String, Field)>),
    Other,
}

/// A whole reply: an array of values, or something else.
#[derive(Debug, PartialEq, Eq)]
pub enum Reply {
    Array(Vec<Item>),
    Other,
}

pub ghost enum FieldView {
    Text(Seq<char>),
    Other,
}

pub ghost enum ItemView {
    Object(Map<Seq<char>, FieldView>),
    Other,
}

pub ghost enum ReplyView {
    Array(Seq<ItemView>),
    Other,
}

impl View for Field {
    type V = FieldView;

    open spec fn view(&self) -> FieldView {
        match self {
            Field::Text(text) => FieldView::Text(text@),
            Field::Other => FieldView::Other,
        }
    }
}

/// The last field of that name.
pub open spec fn last_field(fields: Seq<(String, Field)>, name: Seq<char>) -> Option<FieldView>
    decreases fields.len(),
{
    if fields.len() == 0 {
        None
    } else if fields.last().0@ == name {
        Some(fields.last().1@)
    } else {
        last_field(fields.drop_last(), name)
    }
}

/// What the fields of an object say, by their names.
pub open spec fn field_map(fields: Seq<(String, Field)>) -> Map<Seq<char>, FieldView> {
    Map::new(
        |name: Seq<char>| last_field(fields, name) is Some,
        |name: Seq<char>| last_field(fields, name)->0,
    )
}

impl View for Item {
    type V = ItemView;

    open spec fn view(&self) -> ItemView {
        match self {
            Item::Object(fields) => ItemView::Object(field_map(fields@)),
            Item::Other => ItemView::Other,
        }
    }
}

impl View for Reply {
    type V = ReplyView;

    open spec fn view(&self) -> ReplyView {
        match self {
            Reply::Array(items) => ReplyView::Array(items@.map_values(|item: Item| item@)),
            Reply::Other => ReplyView::Other,
        }
    }
}

/// The most bytes that the names of the open fields have together, in UTF-8.
pub const MAX_NAMES: usize = 65535;

/// The most commas that an array has.
pub const MAX_COMMAS: u32 = 0xFFFF_FFFF;

/// An array or an object that is open.
#[derive(Clone, Copy)]
pub struct Open {
    pub array: bool,
    /// The length of its last name.
    pub name: usize,
    /// The number of commas in an array; 0 for an object.
    pub commas: u32,
}

/// Where a walk through a JSON text stands.
pub ghost struct ScanView {
    /// Within a string.
    pub quoted: bool,
    /// Within a string, after a backslash.
    pub escaped: bool,
    /// Within a string, the hexadecimal digits that are to come after `\u`.
    pub digits: u8,
    /// The number that those digits stand for so far.
    pub unit: u32,
    /// After a digit.
    pub numeric: bool,
    /// The exponent so far, within what can be one.
    pub exponent: Option<usize>,
    pub open: Seq<Open>,
    /// The length of the last string, counted up to one more than a name may have.
    pub length: usize,
}

/// The bytes of a character in UTF-8.
pub open spec fn utf8_width(character: char) -> usize {
    if character <= '\x7F' {
        1
    } else if character <= '\u{7FF}' {
        2
    } else if character <= '\u{FFFF}' {
        3
    } else {
        4
    }
}

/// The bytes in UTF-8 of what four hexadecimal digits stand for, where two surrogates share the
/// four bytes of their character.
pub open spec fn unit_width(unit: u32) -> usize {
    if unit <= 0x7F {
        1
    } else if unit <= 0x7FF || 0xD800 <= unit <= 0xDFFF {
        2
    } else {
        3
    }
}

/// The number that a hexadecimal digit stands for; 0 for another character.
pub open spec fn hex_value(digit: char) -> u32 {
    if '0' <= digit <= '9' {
        (digit as u8 - '0' as u8) as u32
    } else if 'a' <= digit <= 'f' {
        (digit as u8 - 'a' as u8 + 10) as u32
    } else if 'A' <= digit <= 'F' {
        (digit as u8 - 'A' as u8 + 10) as u32
    } else {
        0
    }
}

/// The sum of the lengths of the last names.
pub open spec fn total(open: Seq<Open>) -> nat
    decreases open.len(),
{
    if open.len() == 0 {
        0
    } else {
        total(open.drop_last()) + open.last().name as nat
    }
}

impl ScanView {
    pub open spec fn start() -> ScanView {
        ScanView {
            quoted: false,
            escaped: false,
            digits: 0,
            unit: 0,
            numeric: false,
            exponent: None,
            open: seq![],
            length: 0,
        }
    }

    /// Some more bytes of a string.
    pub open spec fn lengthened(self, bytes: usize) -> ScanView {
        ScanView {
            escaped: false,
            length: if self.length + bytes <= MAX_NAMES {
                (self.length + bytes) as usize
            } else {
                (MAX_NAMES + 1) as usize
            },
            ..self
        }
    }

    /// The next character of a string.
    pub open spec fn quoted_step(self, next: char) -> ScanView {
        if self.digits > 0 {
            let unit = (self.unit * 16 + hex_value(next)) as u32;
            let after = ScanView { digits: (self.digits - 1) as u8, unit, ..self };
            if self.digits == 1 {
                after.lengthened(unit_width(unit))
            } else {
                after
            }
        } else if self.escaped && next == 'u' {
            ScanView { escaped: false, digits: 4, unit: 0, ..self }
        } else if self.escaped {
            self.lengthened(1)
        } else if next == '\\' {
            ScanView { escaped: true, ..self }
        } else if next == '"' {
            ScanView { quoted: false, ..self }
        } else {
            self.lengthened(utf8_width(next))
        }
    }

    /// The same, with the innermost array or object changed.
    pub open spec fn with_innermost(self, innermost: Open) -> ScanView {
        ScanView { open: self.open.drop_last().push(innermost), ..self }
    }

    /// The next character; `None` where the text becomes one that is not read.
    pub open spec fn step(self, next: char) -> Option<ScanView> {
        let after = ScanView { numeric: false, exponent: None, ..self };
        if self.quoted {
            Some(self.quoted_step(next))
        } else if next == '"' {
            Some(ScanView { quoted: true, escaped: false, digits: 0, length: 0, ..after })
        } else if next == '[' || next == '{' {
            let inner = Open { array: next == '[', name: 0, commas: 0 };
            Some(ScanView { open: self.open.push(inner), ..after })
        } else if next == ']' || next == '}' {
            if self.open.len() > 0 {
                Some(ScanView { open: self.open.drop_last(), ..after })
            } else {
                Some(after)
            }
        } else if next == ',' && self.open.len() > 0 && self.open.last().array {
            let commas = self.open.last().commas + 1;
            if commas <= MAX_COMMAS {
                Some(after.with_innermost(Open { commas: commas as u32, ..self.open.last() }))
            } else {
                None
            }
        } else if next == ':' && self.open.len() > 0 {
            let named = after.with_innermost(Open { name: self.length, ..self.open.last() });
            if total(named.open) <= MAX_NAMES {
                Some(named)
            } else {
                None
            }
        } else if next == 'e' || next == 'E' {
            Some(
                ScanView {
                    exponent: if self.numeric {
                        Some(0)
                    } else {
                        None
                    },
                    ..after
                },
            )
        } else if next == '+' || next == '-' {
            Some(ScanView { exponent: self.exponent, ..after })
        } else if '0' <= next <= '9' {
            match self.exponent {
                Some(exponent) => {
                    let longer = exponent * 10 + hex_value(next);
                    if longer <= usize::MAX {
                        Some(ScanView { numeric: true, exponent: Some(longer as usize), ..after })
                    } else {
                        None
                    }
                },
                None => Some(ScanView { numeric: true, ..after }),
            }
        } else {
            Some(after)
        }
    }
}

/// Where a walk through a whole text ends; `None` where the text is one that is not read.
pub open spec fn scan(text: Seq<char>) -> Option<ScanView>
    decreases text.len(),
{
    if text.len() == 0 {
        Some(ScanView::start())
    } else {
        match scan(text.drop_last()) {
            Some(before) => before.step(text.last()),
            None => None,
        }
    }
}

/// Whether a text can be given to the JSON parser of `rustc_serialize`. The names of the fields
/// that are open at one time are together no longer than [`MAX_NAMES`], which is what the parser's
/// 16-bit offsets into them can tell apart. No exponent is larger than a `usize`, which the parser
/// adds it up in. No array has more commas than [`MAX_COMMAS`], which is where its 32-bit indices
/// end.
pub open spec fn is_readable(text: Seq<char>) -> bool {
    scan(text) is Some
}

/// A walk through a JSON text.
struct Scan {
    quoted: bool,
    escaped: bool,
    digits: u8,
    unit: u32,
    numeric: bool,
    exponent: Option<usize>,
    open: Vec<Open>,
    length: usize,
    /// The sum of the lengths of the open names.
    names: usize,
}

impl View for Scan {
    type V = ScanView;

    closed spec fn view(&self) -> ScanView {
        ScanView {
            quoted: self.quoted,
            escaped: self.escaped,
            digits: self.digits,
            unit: self.unit,
            numeric: self.numeric,
            exponent: self.exponent,
            open: self.open@,
            length: self.length,
        }
    }
}

proof fn lemma_total_of_pushed(open: Seq<Open>, inner: Open)
    ensures
        total(open.push(inner)) == total(open) + inner.name,
{
    assert(open.push(inner).drop_last() =~= open);
}

fn width(character: char) -> (bytes: usize)
    ensures
        bytes == utf8_width(character),
{
    if character <= '\x7F' {
        1
    } else if character <= '\u{7FF}' {
        2
    } else if character <= '\u{FFFF}' {
        3
    } else {
        4
    }
}

fn width_of_unit(unit: u32) -> (bytes: usize)
    ensures
        bytes == unit_width(unit),
{
    if unit <= 0x7F {
        1
    } else if unit <= 0x7FF || (0xD800 <= unit && unit <= 0xDFFF) {
        2
    } else {
        3
    }
}

fn read_hex(digit: char) -> (value: u32)
    ensures
        value == hex_value(digit),
        value < 16,
        '0' <= digit <= '9' ==> value < 10,
{
    if '0' <= digit && digit <= '9' {
        (digit as u8 - '0' as u8) as u32
    } else if 'a' <= digit && digit <= 'f' {
        (digit as u8 - 'a' as u8 + 10) as u32
    } else if 'A' <= digit && digit <= 'F' {
        (digit as u8 - 'A' as u8 + 10) as u32
    } else {
        0
    }
}

impl Scan {
    spec fn valid(self) -> bool {
        &&& self.names == total(self.open@)
        &&& self.names <= MAX_NAMES
        &&& self.length <= MAX_NAMES + 1
        &&& self.digits <= 4
        &&& self.digits == 4 ==> self.unit == 0
        &&& self.digits == 3 ==> self.unit < 0x10
        &&& self.digits == 2 ==> self.unit < 0x100
        &&& self.digits == 1 ==> self.unit < 0x1000
    }

    fn start() -> (walk: Scan)
        ensures
            walk.valid(),
            walk@ == ScanView::start(),
    {
        let walk = Scan {
            quoted: false,
            escaped: false,
            digits: 0,
            unit: 0,
            numeric: false,
            exponent: None,
            open: Vec::new(),
            length: 0,
            names: 0,
        };
        assert(walk@.open =~= ScanView::start().open);
        walk
    }

    fn lengthen(&mut self, bytes: usize)
        requires
            old(self).valid(),
            bytes <= 4,
        ensures
            final(self).valid(),
            final(self)@ == old(self)@.lengthened(bytes),
    {
        let length: usize = self.length + bytes;
        self.escaped = false;
        self.length = if length <= MAX_NAMES {
            length
        } else {
            MAX_NAMES + 1
        };
    }

    fn advance_quoted(&mut self, next: char)
        requires
            old(self).valid(),
        ensures
            final(self).valid(),
            final(self)@ == old(self)@.quoted_step(next),
    {
        if self.digits > 0 {
            self.unit = self.unit * 16 + read_hex(next);
            self.digits = self.digits - 1;
            if self.digits == 0 {
                let bytes: usize = width_of_unit(self.unit);
                self.lengthen(bytes);
            }
        } else if self.escaped && next == 'u' {
            self.escaped = false;
            self.digits = 4;
            self.unit = 0;
        } else if self.escaped {
            self.lengthen(1);
        } else if next == '\\' {
            self.escaped = true;
        } else if next == '"' {
            self.quoted = false;
        } else {
            self.lengthen(width(next));
        }
    }

    /// Takes the next character; `false` where the text becomes one that is not read.
    fn advance(&mut self, next: char) -> (read: bool)
        requires
            old(self).valid(),
        ensures
            read <==> old(self)@.step(next) is Some,
            read ==> final(self).valid() && final(self)@ == old(self)@.step(next)->0,
    {
        if self.quoted {
            self.advance_quoted(next);
            return true;
        }
        let numeric = self.numeric;
        let exponent = self.exponent;
        self.numeric = false;
        self.exponent = None;
        if next == '"' {
            self.quoted = true;
            self.escaped = false;
            self.digits = 0;
            self.length = 0;
        } else if next == '[' || next == '{' {
            let inner = Open { array: next == '[', name: 0, commas: 0 };
            proof {
                lemma_total_of_pushed(self.open@, inner);
            }
            self.open.push(inner);
        } else if next == ']' || next == '}' {
            match self.open.pop() {
                Some(inner) => {
                    self.names = self.names - inner.name;
                },
                None => {},
            }
        } else if next == ',' || next == ':' {
            return self.advance_in_innermost(next);
        } else if next == 'e' || next == 'E' {
            self.exponent = if numeric {
                Some(0)
            } else {
                None
            };
        } else if next == '+' || next == '-' {
            self.exponent = exponent;
        } else if '0' <= next && next <= '9' {
            self.numeric = true;
            if let Some(exponent) = exponent {
                let digit: usize = read_hex(next) as usize;
                if exponent > (usize::MAX - digit) / 10 {
                    return false;
                }
                self.exponent = Some(exponent * 10 + digit);
            }
        }
        true
    }

    /// Takes a comma or a colon outside strings.
    fn advance_in_innermost(&mut self, next: char) -> (read: bool)
        requires
            old(self).valid(),
            !old(self)@.quoted,
            !old(self)@.numeric,
            old(self)@.exponent is None,
            next == ',' || next == ':',
        ensures
            read <==> old(self)@.step(next) is Some,
            read ==> final(self).valid() && final(self)@ == old(self)@.step(next)->0,
    {
        let ghost before = self@;
        match self.open.pop() {
            None => {
                assert(self@.open =~= before.open);
                true
            },
            Some(inner) => {
                let ghost outer = self.open@;
                assert(outer =~= before.open.drop_last());
                if next == ':' {
                    let named = Open { name: self.length, ..inner };
                    proof {
                        lemma_total_of_pushed(outer, named);
                    }
                    self.open.push(named);
                    self.names = self.names - inner.name + self.length;
                    self.names <= MAX_NAMES
                } else if inner.array {
                    if inner.commas == MAX_COMMAS {
                        return false;
                    }
                    let longer = Open { commas: inner.commas + 1, ..inner };
                    proof {
                        lemma_total_of_pushed(outer, longer);
                    }
                    self.open.push(longer);
                    true
                } else {
                    self.open.push(inner);
                    assert(self@.open =~= before.open);
                    true
                }
            },
        }
    }
}

impl Reply {
    /// Whether a text can be given to the JSON parser.
    pub fn can_parse(text: &str) -> (fits: bool)
        ensures
            fits == is_readable(text@),
    {
        let list = characters(text);
        let mut walk = Scan::start();
        let mut at: usize = 0;
        assert(list@.take(0) =~= Seq::<char>::empty());
        while at < list.len()
            invariant
                list@ == text@,
                at <= list.len(),
                walk.valid(),
                scan(list@.take(at as int)) == Some(walk@),
            decreases list.len() - at,
        {
            let ghost longer = list@.take(at + 1);
            assert(longer.drop_last() =~= list@.take(at as int));
            if !walk.advance(list[at]) {
                proof {
                    lemma_scan_stops(list@, at + 1);
                }
                return false;
            }
            at = at + 1;
        }
        assert(list@.take(at as int) =~= text@);
        true
    }
}

/// A text that starts with one that is not read is not read either.
proof fn lemma_scan_stops(text: Seq<char>, end: int)
    requires
        0 <= end <= text.len(),
        scan(text.take(end)) is None,
    ensures
        scan(text) is None,
    decreases text.len(),
{
    if end == text.len() {
        assert(text.take(end) =~= text);
    } else {
        assert(text.drop_last().take(end) =~= text.take(end));
        lemma_scan_stops(text.drop_last(), end);
    }
}

impl Item {
    /// The field of that name.
    pub(crate) fn field<'a>(fields: &'a Vec<(String, Field)>, name: &str) -> (field: Option<
        &'a Field,
    >)
        ensures
            match field {
                Some(field) => last_field(fields@, name@) == Some(field@),
                None => last_field(fields@, name@) is None,
            },
    {
        let wanted = name.to_owned();
        let mut end: usize = fields.len();
        assert(fields@.take(end as int) =~= fields@);
        while end > 0
            invariant
                wanted@ == name@,
                end <= fields.len(),
                last_field(fields@.take(end as int), name@) == last_field(fields@, name@),
            decreases end,
        {
            assert(fields@.take(end as int).drop_last() =~= fields@.take(end - 1));
            if fields[end - 1].0 == wanted {
                return Some(&fields[end - 1].1);
            }
            end = end - 1;
        }
        None
    }
}

/// A text is refused at a character for one of three reasons, each a limit of the parser: one comma
/// too many in an array, the end of a name that makes the open names too long together, or a digit
/// that makes an exponent too large.
pub proof fn law_texts_are_refused_at_limits_only(before: ScanView, next: char)
    requires
        before.step(next) is None,
    ensures
        !before.quoted,
        next == ',' || next == ':' || '0' <= next <= '9',
        next == ',' ==> before.open.len() > 0 && before.open.last().array
            && before.open.last().commas == 0xFFFF_FFFFu32,
        next == ':' ==> before.open.len() > 0 && 65535 < total(before.open)
            - before.open.last().name + before.length,
        '0' <= next <= '9' ==> before.exponent is Some && usize::MAX < before.exponent->0 * 10 + 9,
{
    if next == ':' && before.open.len() > 0 {
        lemma_total_of_pushed(
            before.open.drop_last(),
            Open { name: before.length, ..before.open.last() },
        );
    }
    if '0' <= next <= '9' {
        assert(hex_value(next) <= 9);
    }
}

/// Within a string nothing is refused, whatever it holds.
pub proof fn law_strings_are_read(before: ScanView, next: char)
    requires
        before.quoted,
    ensures
        before.step(next) is Some,
        before.step(next)->0.open == before.open,
        before.step(next)->0.exponent == before.exponent,
        before.step(next)->0.quoted || next == '"',
{
}

/// A text without commas, colons and the letter of exponents can be given to the parser, however
/// long it is and however deep it nests.
pub proof fn law_texts_without_limits_are_read(text: Seq<char>)
    requires
        !text.contains(','),
        !text.contains(':'),
        !text.contains('e'),
        !text.contains('E'),
    ensures
        is_readable(text),
        scan(text)->0.exponent is None,
    decreases text.len(),
{
    if text.len() > 0 {
        let before = text.drop_last();
        assert(forall|i: int| 0 <= i < before.len() ==> #[trigger] before[i] == text[i]);
        assert(text[text.len() - 1] == text.last());
        law_texts_without_limits_are_read(before);
    }
}

/// A text that can be given to the parser still can with blanks behind it.
pub proof fn law_blanks_behind_are_read(text: Seq<char>, blank: char)
    requires
        is_readable(text),
        blank == ' ' || blank == '\n' || blank == '\t' || blank == '\r',
    ensures
        is_readable(text.push(blank)),
{
    assert(text.push(blank).drop_last() =~= text);
}

} // verus!
