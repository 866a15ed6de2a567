//! JSON values as trees: what a parser meets in a value, and that the reply says what the value is.
use vstd::prelude::*;

use crate::events::{first_error, read, reply_of, EventView, ReadView, StepView};
use crate::json::{FieldView, ItemView, ReplyView};
use crate::laws::law_every_removed_layer_is_reported;
use crate::rep::{removal_of, status_of, statuses_of, Error, Fault, StatusView};

verus! {

/// A JSON value: a string, an array, an object with its fields in their order, or something else.
pub ghost enum Tree {
    Text(Seq<char>),
    Array(Seq<Tree>),
    Object(Seq<(Seq<char>, Tree)>),
    Other,
}

impl Tree {
    /// The number of values directly in this one.
    pub open spec fn count(self) -> nat {
        match self {
            Tree::Array(values) => values.len(),
            Tree::Object(fields) => fields.len(),
            _ => 0,
        }
    }

    /// What a parser meets in the value, in a field of the name `key` or in no field.
    pub open spec fn steps(self, key: Option<Seq<char>>) -> Seq<StepView>
        decreases self, self.count() + 1,
    {
        match self {
            Tree::Text(text) => seq![StepView { event: EventView::Text(text), key }],
            Tree::Other => seq![StepView { event: EventView::Other, key }],
            Tree::Array(_) => seq![StepView { event: EventView::ArrayStart, key }]
                + self.inner_steps(self.count()) + seq![StepView { event: EventView::End, key }],
            Tree::Object(_) => seq![StepView { event: EventView::ObjectStart, key }]
                + self.inner_steps(self.count()) + seq![StepView { event: EventView::End, key }],
        }
    }

    /// What a parser meets in the first values in this one.
    pub open spec fn inner_steps(self, count: nat) -> Seq<StepView>
        decreases self, count,
    {
        if count == 0 {
            seq![]
        } else {
            let before = self.inner_steps((count - 1) as nat);
            match self {
                Tree::Array(values) if count <= values.len() => before + values[count - 1].steps(
                    None,
                ),
                Tree::Object(fields) if count <= fields.len() => before + fields[count
                    - 1].1.steps(Some(fields[count - 1].0)),
                _ => before,
            }
        }
    }

    /// What the value says as a field.
    pub open spec fn field(self) -> FieldView {
        match self {
            Tree::Text(text) => FieldView::Text(text),
            _ => FieldView::Other,
        }
    }

    /// What the value says as one of the values of a reply.
    pub open spec fn item(self) -> ItemView {
        match self {
            Tree::Object(fields) => ItemView::Object(fields_of(fields)),
            _ => ItemView::Other,
        }
    }

    /// What the value says as a whole reply.
    pub open spec fn reply(self) -> ReplyView {
        match self {
            Tree::Array(values) => ReplyView::Array(values.map_values(|value: Tree| value.item())),
            _ => ReplyView::Other,
        }
    }
}

/// What the fields of an object say; of two fields of one name, the later one counts.
pub open spec fn fields_of(fields: Seq<(Seq<char>, Tree)>) -> Map<Seq<char>, FieldView>
    decreases fields.len(),
{
    if fields.len() == 0 {
        Map::empty()
    } else {
        fields_of(fields.drop_last()).insert(fields.last().0, fields.last().1.field())
    }
}

/// How far a reply has been read if more steps follow.
spec fn read_on(from: ReadView, steps: Seq<StepView>) -> ReadView
    decreases steps.len(),
{
    if steps.len() == 0 {
        from
    } else {
        read_on(from, steps.drop_last()).step(steps.last())
    }
}

proof fn lemma_read_on_from_start(steps: Seq<StepView>)
    ensures
        read(steps) == read_on(ReadView::start(), steps),
    decreases steps.len(),
{
    if steps.len() > 0 {
        lemma_read_on_from_start(steps.drop_last());
    }
}

proof fn lemma_read_on_in_two(from: ReadView, first: Seq<StepView>, second: Seq<StepView>)
    ensures
        read_on(from, first + second) == read_on(read_on(from, first), second),
    decreases second.len(),
{
    if second.len() == 0 {
        assert(first + second =~= first);
    } else {
        assert((first + second).drop_last() =~= first + second.drop_last());
        lemma_read_on_in_two(from, first, second.drop_last());
    }
}

proof fn lemma_read_on_by_one(from: ReadView, step: StepView)
    ensures
        read_on(from, seq![step]) == from.step(step),
{
    assert(seq![step].drop_last() =~= seq![]);
    assert(read_on(from, seq![step].drop_last()) == from);
}

/// A value that is enclosed by a start and an end is read by its start, its inside and its end.
proof fn lemma_read_on_enclosed(
    from: ReadView,
    start: StepView,
    inside: Seq<StepView>,
    end: StepView,
)
    ensures
        read_on(from, seq![start] + inside + seq![end]) == read_on(
            from.step(start),
            inside,
        ).step(end),
{
    lemma_read_on_in_two(from, seq![start] + inside, seq![end]);
    lemma_read_on_in_two(from, seq![start], inside);
    lemma_read_on_by_one(from, start);
    lemma_read_on_by_one(read_on(from.step(start), inside), end);
}

/// The reading stands in a value that says nothing beyond being there.
spec fn is_aside(at: ReadView) -> bool {
    ||| at.depth >= 3
    ||| at.depth == 2 && at.fields is None
    ||| at.depth == 1 && !at.array && at.fields is None
}

/// A value within a value that says nothing leaves the reading as it is.
proof fn lemma_aside(at: ReadView, value: Tree, key: Option<Seq<char>>)
    requires
        is_aside(at),
    ensures
        read_on(at, value.steps(key)) == at,
    decreases value, value.count() + 1,
{
    match value {
        Tree::Text(text) => {
            lemma_read_on_by_one(at, StepView { event: EventView::Text(text), key });
        },
        Tree::Other => {
            lemma_read_on_by_one(at, StepView { event: EventView::Other, key });
        },
        _ => {
            let start = value.steps(key)[0];
            let end = StepView { event: EventView::End, key };
            let inside = value.inner_steps(value.count());
            assert(value.steps(key) =~= seq![start] + inside + seq![end]);
            lemma_read_on_enclosed(at, start, inside, end);
            lemma_inside_aside(at.step(start), value, value.count());
        },
    }
}

proof fn lemma_inside_aside(at: ReadView, value: Tree, count: nat)
    requires
        is_aside(at),
        count <= value.count(),
    ensures
        read_on(at, value.inner_steps(count)) == at,
    decreases value, count,
{
    if count > 0 {
        let before = value.inner_steps((count - 1) as nat);
        lemma_inside_aside(at, value, (count - 1) as nat);
        match value {
            Tree::Array(values) => {
                lemma_read_on_in_two(at, before, values[count - 1].steps(None));
                lemma_aside(at, values[count - 1], None);
            },
            Tree::Object(fields) => {
                let (name, field) = fields[count - 1];
                lemma_read_on_in_two(at, before, field.steps(Some(name)));
                lemma_aside(at, field, Some(name));
            },
            _ => {},
        }
    }
}

/// The first fields of an object in the array are taken up.
proof fn lemma_fields(at: ReadView, fields: Seq<(Seq<char>, Tree)>, count: nat)
    requires
        at.depth == 2,
        at.fields == Some(Map::<Seq<char>, FieldView>::empty()),
        count <= fields.len(),
    ensures
        read_on(at, Tree::Object(fields).inner_steps(count)) == (ReadView {
            fields: Some(fields_of(fields.take(count as int))),
            ..at
        }),
    decreases count,
{
    let object = Tree::Object(fields);
    if count > 0 {
        let (name, field) = fields[count - 1];
        let before = object.inner_steps((count - 1) as nat);
        let so_far = ReadView { fields: Some(fields_of(fields.take(count - 1))), ..at };
        lemma_fields(at, fields, (count - 1) as nat);
        lemma_read_on_in_two(at, before, field.steps(Some(name)));
        assert(fields.take(count as int).drop_last() =~= fields.take(count - 1));
        match field {
            Tree::Text(text) => {
                lemma_read_on_by_one(
                    so_far,
                    StepView { event: EventView::Text(text), key: Some(name) },
                );
            },
            Tree::Other => {
                lemma_read_on_by_one(so_far, StepView { event: EventView::Other, key: Some(name) });
            },
            _ => {
                let start = field.steps(Some(name))[0];
                let end = StepView { event: EventView::End, key: Some(name) };
                let inside = field.inner_steps(field.count());
                assert(field.steps(Some(name)) =~= seq![start] + inside + seq![end]);
                lemma_read_on_enclosed(so_far, start, inside, end);
                lemma_inside_aside(so_far.step(start), field, field.count());
            },
        }
    } else {
        assert(fields.take(0) =~= seq![]);
    }
}

/// The first values of the array are taken up.
proof fn lemma_items(at: ReadView, values: Seq<Tree>, count: nat)
    requires
        at.depth == 1,
        at.array,
        at.fields is None,
        at.items.len() == 0,
        count <= values.len(),
    ensures
        read_on(at, Tree::Array(values).inner_steps(count)) == (ReadView {
            items: values.take(count as int).map_values(|value: Tree| value.item()),
            ..at
        }),
    decreases count,
{
    let array = Tree::Array(values);
    let items = values.take(count as int).map_values(|value: Tree| value.item());
    if count > 0 {
        let value = values[count - 1];
        let before = array.inner_steps((count - 1) as nat);
        let so_far = ReadView {
            items: values.take(count - 1).map_values(|value: Tree| value.item()),
            ..at
        };
        lemma_items(at, values, (count - 1) as nat);
        lemma_read_on_in_two(at, before, value.steps(None));
        assert(items =~= so_far.items.push(value.item()));
        match value {
            Tree::Text(text) => {
                lemma_read_on_by_one(so_far, StepView { event: EventView::Text(text), key: None });
            },
            Tree::Other => {
                lemma_read_on_by_one(so_far, StepView { event: EventView::Other, key: None });
            },
            _ => {
                let start = value.steps(None)[0];
                let end = StepView { event: EventView::End, key: None };
                let inside = value.inner_steps(value.count());
                assert(value.steps(None) =~= seq![start] + inside + seq![end]);
                lemma_read_on_enclosed(so_far, start, inside, end);
                if let Tree::Object(fields) = value {
                    lemma_fields(so_far.step(start), fields, fields.len());
                    assert(fields.take(fields.len() as int) =~= fields);
                } else {
                    lemma_inside_aside(so_far.step(start), value, value.count());
                }
            },
        }
    } else {
        assert(items =~= at.items);
    }
}

spec fn is_free_of_errors(steps: Seq<StepView>) -> bool {
    forall|i: int| 0 <= i < steps.len() ==> !((#[trigger] steps[i]).event is Error)
}

proof fn lemma_no_first_error(steps: Seq<StepView>)
    requires
        is_free_of_errors(steps),
    ensures
        first_error(steps) is None,
    decreases steps.len(),
{
    if steps.len() > 0 {
        assert(!(steps[steps.len() - 1].event is Error));
        lemma_no_first_error(steps.drop_last());
    }
}

proof fn lemma_steps_are_free_of_errors(value: Tree, key: Option<Seq<char>>)
    ensures
        is_free_of_errors(value.steps(key)),
    decreases value, value.count() + 1,
{
    lemma_inner_steps_are_free_of_errors(value, value.count());
}

proof fn lemma_inner_steps_are_free_of_errors(value: Tree, count: nat)
    requires
        count <= value.count(),
    ensures
        is_free_of_errors(value.inner_steps(count)),
    decreases value, count,
{
    if count > 0 {
        lemma_inner_steps_are_free_of_errors(value, (count - 1) as nat);
        match value {
            Tree::Array(values) => {
                lemma_steps_are_free_of_errors(values[count - 1], None);
            },
            Tree::Object(fields) => {
                lemma_steps_are_free_of_errors(fields[count - 1].1, Some(fields[count - 1].0));
            },
            _ => {},
        }
    }
}

/// What a parser meets in a JSON value, however deep it is, makes the reply that the value says.
pub proof fn law_reply_says_what_the_value_is(value: Tree)
    ensures
        reply_of(value.steps(None)) == Ok::<ReplyView, Error>(value.reply()),
{
    let steps = value.steps(None);
    let start = ReadView::start();
    lemma_steps_are_free_of_errors(value, None);
    lemma_no_first_error(steps);
    lemma_read_on_from_start(steps);
    match value {
        Tree::Text(text) => {
            lemma_read_on_by_one(start, StepView { event: EventView::Text(text), key: None });
        },
        Tree::Other => {
            lemma_read_on_by_one(start, StepView { event: EventView::Other, key: None });
        },
        _ => {
            let first = steps[0];
            let end = StepView { event: EventView::End, key: None };
            let inside = value.inner_steps(value.count());
            assert(steps =~= seq![first] + inside + seq![end]);
            lemma_read_on_enclosed(start, first, inside, end);
            if let Tree::Array(values) = value {
                lemma_items(start.step(first), values, values.len());
                assert(values.take(values.len() as int) =~= values);
            } else {
                lemma_inside_aside(start.step(first), value, value.count());
            }
        },
    }
}

/// A value says what it holds: a string its whole text, an object its fields, an array its values
/// in their order.
pub proof fn law_values_say_what_they_hold(
    text: Seq<char>,
    values: Seq<Tree>,
    fields: Seq<(Seq<char>, Tree)>,
    name: Seq<char>,
    value: Tree,
)
    ensures
        Tree::Text(text).field() == FieldView::Text(text),
        Tree::Array(values).field() is Other && Tree::Object(fields).field() is Other,
        Tree::Other.field() is Other,
        Tree::Array(values).reply() matches ReplyView::Array(items) && items.len() == values.len()
            && forall|i: int| 0 <= i < values.len() ==> #[trigger] items[i] == values[i].item(),
        Tree::Object(seq![]).item() == ItemView::Object(Map::empty()),
        match (Tree::Object(fields).item(), Tree::Object(fields.push((name, value))).item()) {
            (ItemView::Object(before), ItemView::Object(after)) => after == before.insert(
                name,
                value.field(),
            ),
            _ => false,
        },
        Tree::Text(text).item() is Other && Tree::Array(values).item() is Other,
        Tree::Text(text).reply() is Other && Tree::Object(fields).reply() is Other,
{
    assert(fields.push((name, value)).drop_last() =~= fields);
}

/// The parser meets a value in order: its start, all that is in it, and its end.
pub proof fn law_values_are_met_in_order(
    text: Seq<char>,
    values: Seq<Tree>,
    value: Tree,
    key: Option<Seq<char>>,
)
    ensures
        Tree::Text(text).steps(key) == seq![StepView { event: EventView::Text(text), key }],
        Tree::Array(seq![]).steps(key) == seq![
            StepView { event: EventView::ArrayStart, key },
            StepView { event: EventView::End, key },
        ],
        Tree::Array(values.push(value)).steps(key) == Tree::Array(values).steps(key).drop_last()
            + value.steps(None) + seq![StepView { event: EventView::End, key }],
{
    let none = Tree::Array(seq![]);
    assert(none.inner_steps(0) =~= seq![]);
    assert(none.steps(key) =~= seq![
        StepView { event: EventView::ArrayStart, key },
        StepView { event: EventView::End, key },
    ]);
    let longer = values.push(value);
    lemma_same_inner_steps(values, longer, values.len());
    let start = seq![StepView { event: EventView::ArrayStart, key }];
    let end = seq![StepView { event: EventView::End, key }];
    let inside = Tree::Array(values).inner_steps(values.len());
    assert(Tree::Array(values).steps(key).drop_last() =~= start + inside);
    assert(longer[longer.len() - 1] == value);
    assert(Tree::Array(longer).inner_steps(longer.len()) == inside + value.steps(None));
    assert(start + (inside + value.steps(None)) + end =~= start + inside + value.steps(None) + end);
}

proof fn lemma_same_inner_steps(left: Seq<Tree>, right: Seq<Tree>, count: nat)
    requires
        count <= left.len() <= right.len(),
        forall|i: int| 0 <= i < left.len() ==> #[trigger] left[i] == right[i],
    ensures
        Tree::Array(left).inner_steps(count) == Tree::Array(right).inner_steps(count),
    decreases count,
{
    if count > 0 {
        lemma_same_inner_steps(left, right, (count - 1) as nat);
        assert(left[count - 1] == right[count - 1]);
    }
}

/// The removal of an image is reported layer by layer: an array of objects that each name one
/// deleted layer, whatever the names are, gives these names, each whole and in its place.
pub proof fn law_deleted_layers_are_reported_in_order(names: Seq<Seq<char>>)
    ensures
        ({
            let layers = names.map_values(
                |name: Seq<char>| Tree::Object(seq![("Deleted"@, Tree::Text(name))]),
            );
            let reply = reply_of(Tree::Array(layers).steps(None));
            reply is Ok && removal_of(reply->Ok_0) == Ok::<Seq<StatusView>, Fault>(
                names.map_values(|name: Seq<char>| StatusView::Deleted(name)),
            )
        }),
{
    let layers = names.map_values(
        |name: Seq<char>| Tree::Object(seq![("Deleted"@, Tree::Text(name))]),
    );
    law_reply_says_what_the_value_is(Tree::Array(layers));
    let items = layers.map_values(|value: Tree| value.item());
    let statuses = names.map_values(|name: Seq<char>| StatusView::Deleted(name));
    reveal_strlit("Untagged");
    reveal_strlit("Deleted");
    assert("Untagged"@[0] != "Deleted"@[0]);
    assert forall|i: int| 0 <= i < items.len() implies status_of(#[trigger] items[i]) == Ok::<
        StatusView,
        Fault,
    >(statuses[i]) by {
        let fields = seq![("Deleted"@, Tree::Text(names[i]))];
        assert(layers[i] == Tree::Object(fields));
        assert(fields.drop_last() =~= seq![]);
        assert(fields_of(fields.drop_last()) == Map::<Seq<char>, FieldView>::empty());
    }
    law_every_removed_layer_is_reported(items);
    assert(statuses_of(items) is Ok);
    let reported = statuses_of(items)->Ok_0;
    assert forall|i: int| 0 <= i < statuses.len() implies #[trigger] reported[i] == statuses[i] by {
        assert(status_of(items[i]) == Ok::<StatusView, Fault>(statuses[i]));
    }
    assert(reported =~= statuses);
}

/// An array or an object whose end is not met makes no reply.
pub proof fn law_values_without_an_end_are_unfinished(value: Tree)
    requires
        value is Array || value is Object,
    ensures
        reply_of(value.steps(None).drop_last()) == Err::<ReplyView, Error>(Error::Unfinished),
        reply_of(seq![]) == Err::<ReplyView, Error>(Error::Unfinished),
{
    let steps = value.steps(None);
    let short = steps.drop_last();
    let start = ReadView::start();
    let first = steps[0];
    let inside = value.inner_steps(value.count());
    lemma_steps_are_free_of_errors(value, None);
    assert forall|i: int| 0 <= i < short.len() implies !((#[trigger] short[i]).event is Error) by {
        assert(short[i] == steps[i]);
    }
    lemma_no_first_error(short);
    lemma_read_on_from_start(short);
    assert(short =~= seq![first] + inside);
    lemma_read_on_in_two(start, seq![first], inside);
    lemma_read_on_by_one(start, first);
    if let Tree::Array(values) = value {
        lemma_items(start.step(first), values, values.len());
    } else {
        lemma_inside_aside(start.step(first), value, value.count());
    }
}

} // verus!
