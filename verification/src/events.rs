//! What the JSON parser meets in a reply, one by one, and the reply that this makes.
use vstd::prelude::*;

use rustc_serialize::json::StackElement::Key;
use rustc_serialize::json::{JsonEvent, Parser, ParserError};

use crate::json::{field_map, is_readable, Field, FieldView, Item, ItemView, Reply, ReplyView};
use crate::rep::Error;

verus! {

/// The errors of the JSON parser.
#[verifier::external_type_specification]
#[verifier::external_body]
pub struct ExParserError(ParserError);

/// What the parser meets: the start or the end of an array or an object, a string, another value,
/// or an error.
#[derive(Debug, PartialEq)]
pub enum Event {
    ArrayStart,
    ObjectStart,
    End,
    Text(String),
    Other,
    Error(ParserError),
}

/// What the parser meets, and the name of the field that it is in, where the innermost value that
/// is open is an object.
#[derive(Debug, PartialEq)]
pub struct Step {
    pub event: Event,
    pub key: Option<String>,
}

pub ghost enum EventView {
    ArrayStart,
    ObjectStart,
    End,
    Text(Seq<char>),
    Other,
    Error(ParserError),
}

pub ghost struct StepView {
    pub event: EventView,
    pub key: Option<Seq<char>>,
}

impl View for Event {
    type V = EventView;

    open spec fn view(&self) -> EventView {
        match self {
            Event::ArrayStart => EventView::ArrayStart,
            Event::ObjectStart => EventView::ObjectStart,
            Event::End => EventView::End,
            Event::Text(text) => EventView::Text(text@),
            Event::Other => EventView::Other,
            Event::Error(error) => EventView::Error(*error),
        }
    }
}

impl View for Step {
    type V = StepView;

    open spec fn view(&self) -> StepView {
        StepView {
            event: self.event@,
            key: match self.key {
                Some(key) => Some(key@),
                None => None,
            },
        }
    }
}

/// The views of all steps.
pub open spec fn step_views(steps: Seq<Step>) -> Seq<StepView> {
    steps.map_values(|step: Step| step@)
}

/// How far a reply has been read.
pub ghost struct ReadView {
    /// The number of arrays and objects that are open.
    pub depth: nat,
    /// A value has been met.
    pub started: bool,
    /// The reply is an array.
    pub array: bool,
    /// The values of that array that are complete.
    pub items: Seq<ItemView>,
    /// The fields so far of the object in that array that is open.
    pub fields: Option<Map<Seq<char>, FieldView>>,
}

impl ReadView {
    pub open spec fn start() -> ReadView {
        ReadView { depth: 0, started: false, array: false, items: seq![], fields: None }
    }

    /// A field of the object in the array. A later field takes the place of an earlier one of its
    /// name.
    pub open spec fn with_field(self, key: Option<Seq<char>>, field: FieldView) -> ReadView {
        match (self.fields, key) {
            (Some(fields), Some(key)) if self.depth == 2 => ReadView {
                fields: Some(fields.insert(key, field)),
                ..self
            },
            _ => self,
        }
    }

    /// The start of an array or an object.
    pub open spec fn opened(self, object: bool, key: Option<Seq<char>>) -> ReadView {
        if self.depth == 0 {
            ReadView { depth: 1, started: true, array: !object, ..self }
        } else if self.depth == 1 && self.array && object {
            ReadView { depth: 2, fields: Some(Map::empty()), ..self }
        } else {
            ReadView { depth: self.depth + 1, ..self.with_field(key, FieldView::Other) }
        }
    }

    /// The end of an array or an object.
    pub open spec fn closed(self) -> ReadView {
        if self.depth == 0 {
            self
        } else if self.depth == 2 && self.array {
            let item = match self.fields {
                Some(fields) => ItemView::Object(fields),
                None => ItemView::Other,
            };
            ReadView { depth: 1, items: self.items.push(item), fields: None, ..self }
        } else {
            ReadView { depth: (self.depth - 1) as nat, ..self }
        }
    }

    /// A value that is neither an array nor an object.
    pub open spec fn with_value(self, key: Option<Seq<char>>, field: FieldView) -> ReadView {
        if self.depth == 0 {
            ReadView { started: true, ..self }
        } else if self.depth == 1 && self.array {
            ReadView { items: self.items.push(ItemView::Other), ..self }
        } else {
            self.with_field(key, field)
        }
    }

    pub open spec fn step(self, step: StepView) -> ReadView {
        match step.event {
            EventView::ArrayStart => self.opened(false, step.key),
            EventView::ObjectStart => self.opened(true, step.key),
            EventView::End => self.closed(),
            EventView::Text(text) => self.with_value(step.key, FieldView::Text(text)),
            EventView::Other => self.with_value(step.key, FieldView::Other),
            EventView::Error(_) => self,
        }
    }
}

/// How far a reply has been read after all steps.
pub open spec fn read(steps: Seq<StepView>) -> ReadView
    decreases steps.len(),
{
    if steps.len() == 0 {
        ReadView::start()
    } else {
        read(steps.drop_last()).step(steps.last())
    }
}

/// The first error that is met.
pub open spec fn first_error(steps: Seq<StepView>) -> Option<ParserError>
    decreases steps.len(),
{
    if steps.len() == 0 {
        None
    } else {
        match (first_error(steps.drop_last()), steps.last().event) {
            (Some(error), _) => Some(error),
            (None, EventView::Error(error)) => Some(error),
            (None, _) => None,
        }
    }
}

/// The reply that the steps make: none where there is an error, and none where something stays
/// open.
pub open spec fn reply_of(steps: Seq<StepView>) -> Result<ReplyView, Error> {
    let end = read(steps);
    match first_error(steps) {
        Some(error) => Err(Error::Json(error)),
        None => if !end.started || end.depth > 0 {
            Err(Error::Unfinished)
        } else if end.array {
            Ok(ReplyView::Array(end.items))
        } else {
            Ok(ReplyView::Other)
        },
    }
}

/// What `rustc_serialize::json::Parser` meets in a text.
pub uninterp spec fn parsed_steps(text: Seq<char>) -> Seq<StepView>;

/// Runs `rustc_serialize::json::Parser` over the characters of a text and keeps what it meets, the
/// values other than strings without what they hold, each with the name on top of its stack. The
/// outcome is a function of the text alone; which texts are JSON and what they stand for is left to
/// that function.
#[verifier::external_body]
pub(crate) fn parse_steps(text: &str) -> (steps: Vec<Step>)
    requires
        is_readable(text@),
    ensures
        step_views(steps@) == parsed_steps(text@),
{
    let mut parser = Parser::new(text.chars());
    let mut steps = Vec::new();
    while let Some(event) = parser.next() {
        let event = match event {
            JsonEvent::ArrayStart => Event::ArrayStart,
            JsonEvent::ObjectStart => Event::ObjectStart,
            JsonEvent::ArrayEnd | JsonEvent::ObjectEnd => Event::End,
            JsonEvent::StringValue(text) => Event::Text(text),
            JsonEvent::Error(error) => Event::Error(error),
            _ => Event::Other,
        };
        let key = if let Some(Key(key)) = parser.stack().top() { Some(key.into()) } else { None };
        steps.push(Step { event, key });
    }
    steps
}

/// A reply that is being read.
struct Reader {
    depth: usize,
    started: bool,
    array: bool,
    items: Vec<Item>,
    fields: Option<Vec<(String, Field)>>,
}

impl View for Reader {
    type V = ReadView;

    closed spec fn view(&self) -> ReadView {
        ReadView {
            depth: self.depth as nat,
            started: self.started,
            array: self.array,
            items: self.items@.map_values(|item: Item| item@),
            fields: match self.fields {
                Some(fields) => Some(field_map(fields@)),
                None => None,
            },
        }
    }
}

proof fn lemma_field_map_of_pushed(fields: Seq<(String, Field)>, name: String, field: Field)
    ensures
        field_map(fields.push((name, field))) == field_map(fields).insert(name@, field@),
{
    let longer = fields.push((name, field));
    assert(longer.drop_last() =~= fields);
    assert(field_map(longer) =~= field_map(fields).insert(name@, field@));
}

proof fn lemma_first_error_stays(steps: Seq<StepView>, end: int)
    requires
        0 <= end <= steps.len(),
        first_error(steps.take(end)) is Some,
    ensures
        first_error(steps) == first_error(steps.take(end)),
    decreases steps.len(),
{
    if end == steps.len() {
        assert(steps.take(end) =~= steps);
    } else {
        assert(steps.drop_last().take(end) =~= steps.take(end));
        lemma_first_error_stays(steps.drop_last(), end);
    }
}

impl Reader {
    fn start() -> (reader: Reader)
        ensures
            reader@ == ReadView::start(),
    {
        let reader = Reader {
            depth: 0,
            started: false,
            array: false,
            items: Vec::new(),
            fields: None,
        };
        assert(reader@.items =~= ReadView::start().items);
        reader
    }

    fn add_field(&mut self, key: Option<String>, field: Field)
        ensures
            final(self)@ == old(self)@.with_field(
                match key {
                    Some(key) => Some(key@),
                    None => None,
                },
                field@,
            ),
    {
        if self.depth != 2 {
            return ;
        }
        match (self.fields.take(), key) {
            (Some(fields), Some(key)) => {
                let mut fields = fields;
                proof {
                    lemma_field_map_of_pushed(fields@, key, field);
                }
                fields.push((key, field));
                self.fields = Some(fields);
            },
            (fields, _) => {
                self.fields = fields;
            },
        }
    }

    fn open(&mut self, object: bool, key: Option<String>)
        requires
            old(self)@.depth < usize::MAX,
        ensures
            final(self)@ == old(self)@.opened(
                object,
                match key {
                    Some(key) => Some(key@),
                    None => None,
                },
            ),
    {
        if self.depth == 0 {
            self.depth = 1;
            self.started = true;
            self.array = !object;
        } else if self.depth == 1 && self.array && object {
            let fields: Vec<(String, Field)> = Vec::new();
            assert(field_map(fields@) =~= Map::<Seq<char>, FieldView>::empty());
            self.depth = 2;
            self.fields = Some(fields);
        } else {
            self.add_field(key, Field::Other);
            self.depth = self.depth + 1;
        }
    }

    fn add_item(&mut self, item: Item)
        ensures
            final(self)@ == (ReadView { items: old(self)@.items.push(item@), ..old(self)@ }),
    {
        let ghost before = self@;
        self.items.push(item);
        assert(self@.items =~= before.items.push(item@));
    }

    fn close(&mut self)
        ensures
            final(self)@ == old(self)@.closed(),
    {
        if self.depth == 0 {
        } else if self.depth == 2 && self.array {
            self.depth = 1;
            let item = match self.fields.take() {
                Some(fields) => Item::Object(fields),
                None => Item::Other,
            };
            self.add_item(item);
        } else {
            self.depth = self.depth - 1;
        }
    }

    fn add_value(&mut self, key: Option<String>, field: Field)
        ensures
            final(self)@ == old(self)@.with_value(
                match key {
                    Some(key) => Some(key@),
                    None => None,
                },
                field@,
            ),
    {
        if self.depth == 0 {
            self.started = true;
        } else if self.depth == 1 && self.array {
            self.add_item(Item::Other);
        } else {
            self.add_field(key, field);
        }
    }

    /// Takes the next step; gives the error that it is.
    fn advance(&mut self, step: Step) -> (error: Option<ParserError>)
        requires
            old(self)@.depth < usize::MAX,
        ensures
            final(self)@ == old(self)@.step(step@),
            match error {
                Some(error) => step@.event == EventView::Error(error),
                None => !(step@.event is Error),
            },
    {
        match step.event {
            Event::ArrayStart => self.open(false, step.key),
            Event::ObjectStart => self.open(true, step.key),
            Event::End => self.close(),
            Event::Text(text) => self.add_value(step.key, Field::Text(text)),
            Event::Other => self.add_value(step.key, Field::Other),
            Event::Error(error) => {
                return Some(error);
            },
        }
        None
    }
}

impl Reply {
    /// Puts a reply together from what the parser meets in it.
    pub fn from_steps(steps: Vec<Step>) -> (reply: Result<Reply, Error>)
        ensures
            match reply {
                Ok(reply) => reply_of(step_views(steps@)) == Ok::<ReplyView, Error>(reply@),
                Err(error) => reply_of(step_views(steps@)) == Err::<ReplyView, Error>(error),
            },
    {
        let ghost views = step_views(steps@);
        let mut reader = Reader::start();
        assert(views.take(0) =~= seq![]);
        assert(steps@.len() == steps.len());
        for step in walk: steps.into_iter()
            invariant
                walk.seq() == steps@,
                views == step_views(steps@),
                steps@.len() <= usize::MAX,
                reader@ == read(views.take(walk.index())),
                reader@.depth <= walk.index(),
                first_error(views.take(walk.index())) is None,
        {
            let ghost at = walk.index();
            let ghost longer = views.take(at + 1);
            assert(longer.drop_last() =~= views.take(at));
            assert(longer.last() == step@);
            if let Some(error) = reader.advance(step) {
                proof {
                    lemma_first_error_stays(views, at + 1);
                }
                return Err(Error::Json(error));
            }
        }
        assert(views.take(views.len() as int) =~= views);
        if !reader.started || reader.depth > 0 {
            Err(Error::Unfinished)
        } else if reader.array {
            Ok(Reply::Array(reader.items))
        } else {
            Ok(Reply::Other)
        }
    }
}

/// The first error that is met is what comes of a reply, whatever else is met.
pub proof fn law_first_error_is_reported(
    before: Seq<StepView>,
    error: ParserError,
    key: Option<Seq<char>>,
    after: Seq<StepView>,
)
    requires
        forall|i: int| 0 <= i < before.len() ==> !((#[trigger] before[i]).event is Error),
    ensures
        reply_of(before + seq![StepView { event: EventView::Error(error), key }] + after) == Err::<
            ReplyView,
            Error,
        >(Error::Json(error)),
{
    let until = before + seq![StepView { event: EventView::Error(error), key }];
    let steps = until + after;
    lemma_without_errors(before);
    assert(until.drop_last() =~= before);
    assert(steps.take(until.len() as int) =~= until);
    lemma_first_error_stays(steps, until.len() as int);
}

proof fn lemma_without_errors(steps: Seq<StepView>)
    requires
        forall|i: int| 0 <= i < steps.len() ==> !((#[trigger] steps[i]).event is Error),
    ensures
        first_error(steps) is None,
    decreases steps.len(),
{
    if steps.len() > 0 {
        assert(!(steps[steps.len() - 1].event is Error));
        assert forall|i: int| 0 <= i < steps.drop_last().len() implies !((
        #[trigger] steps.drop_last()[i]).event is Error) by {
            assert(steps.drop_last()[i] == steps[i]);
        }
        lemma_without_errors(steps.drop_last());
    }
}

/// Steps are seen as they are: nothing of them is left out, and their order is kept.
pub proof fn law_steps_are_seen_whole(
    steps: Seq<Step>,
    text: String,
    key: String,
    error: ParserError,
)
    ensures
        step_views(steps).len() == steps.len(),
        forall|i: int| 0 <= i < steps.len() ==> #[trigger] step_views(steps)[i] == steps[i]@,
        (Step { event: Event::Text(text), key: Some(key) })@ == (StepView {
            event: EventView::Text(text@),
            key: Some(key@),
        }),
        (Step { event: Event::Other, key: None })@ == (StepView {
            event: EventView::Other,
            key: None,
        }),
        Event::ArrayStart@ == EventView::ArrayStart,
        Event::ObjectStart@ == EventView::ObjectStart,
        Event::End@ == EventView::End,
        Event::Error(error)@ == EventView::Error(error),
{
}

/// An array of one object with one field that is a string makes a reply that says so: the name and
/// the text are there whole.
pub proof fn law_one_field_is_read(name: Seq<char>, text: Seq<char>)
    ensures
        reply_of(
            seq![
                StepView { event: EventView::ArrayStart, key: None },
                StepView { event: EventView::ObjectStart, key: None },
                StepView { event: EventView::Text(text), key: Some(name) },
                StepView { event: EventView::End, key: None },
                StepView { event: EventView::End, key: None },
            ],
        ) == Ok::<ReplyView, Error>(
            ReplyView::Array(
                seq![
                    ItemView::Object(
                        Map::<Seq<char>, FieldView>::empty().insert(name, FieldView::Text(text)),
                    ),
                ],
            ),
        ),
{
    let steps = seq![
        StepView { event: EventView::ArrayStart, key: None },
        StepView { event: EventView::ObjectStart, key: None },
        StepView { event: EventView::Text(text), key: Some(name) },
        StepView { event: EventView::End, key: None },
        StepView { event: EventView::End, key: None },
    ];
    lemma_without_errors(steps);
    assert(steps.take(0) =~= seq![]);
    lemma_read_one_more(steps, 0);
    lemma_read_one_more(steps, 1);
    lemma_read_one_more(steps, 2);
    lemma_read_one_more(steps, 3);
    lemma_read_one_more(steps, 4);
    assert(steps.take(5) =~= steps);
    let fields = Map::<Seq<char>, FieldView>::empty().insert(name, FieldView::Text(text));
    assert(read(steps).items =~= seq![ItemView::Object(fields)]);
}

proof fn lemma_read_one_more(steps: Seq<StepView>, at: int)
    requires
        0 <= at < steps.len(),
    ensures
        read(steps.take(at + 1)) == read(steps.take(at)).step(steps[at]),
{
    assert(steps.take(at + 1).drop_last() =~= steps.take(at));
}

} // verus!
