//! What a daemon's replies say.
use vstd::prelude::*;

use rustc_serialize::json::ParserError;

use crate::json::{Field, FieldView, Item, ItemView, Reply, ReplyView};

verus! {

/// The ways in which a reply can differ from what the Docker API promises.
#[derive(Clone, Copy, Debug, PartialEq, Eq, Structural)]
pub enum Fault {
    /// The reply to the removal of an image is not an array.
    NotArray,
    /// A value is not an object.
    NotObject,
    /// A field `Untagged` is not a string.
    UntaggedNotString,
    /// A field `Deleted` is not a string.
    DeletedNotString,
    /// There is neither a field `Untagged` nor a field `Deleted`.
    NoStatus,
    /// A field `stream` is not a string.
    StreamNotString,
    /// A field `error` is not a string.
    ErrorNotString,
    /// There is neither a field `stream` nor a field `error`.
    NoBuildOutput,
    /// There is neither a status nor a field `error`.
    NoPullOutput,
}

impl Fault {
    pub open spec fn text(self) -> Seq<char> {
        match self {
            Fault::NotArray => "internal error: entered unreachable code"@,
            Fault::NotObject => "expected json object"@,
            Fault::UntaggedNotString => "expected Untagged to be a string"@,
            Fault::DeletedNotString => "expected Deleted to be a string"@,
            Fault::NoStatus => "expected Untagged or Deleted"@,
            Fault::StreamNotString => "expected stream to be a string"@,
            Fault::ErrorNotString => "expected error to be a string"@,
            Fault::NoBuildOutput => "expected build output stream or error"@,
            Fault::NoPullOutput => "expected pull status or error"@,
        }
    }

    /// Says what was expected.
    pub fn message(&self) -> (message: &'static str)
        ensures
            message@ == self.text(),
    {
        match self {
            Fault::NotArray => "internal error: entered unreachable code",
            Fault::NotObject => "expected json object",
            Fault::UntaggedNotString => "expected Untagged to be a string",
            Fault::DeletedNotString => "expected Deleted to be a string",
            Fault::NoStatus => "expected Untagged or Deleted",
            Fault::StreamNotString => "expected stream to be a string",
            Fault::ErrorNotString => "expected error to be a string",
            Fault::NoBuildOutput => "expected build output stream or error",
            Fault::NoPullOutput => "expected pull status or error",
        }
    }
}

/// What can go wrong when a reply is read.
#[derive(Debug, PartialEq)]
pub enum Error {
    /// The reply is not JSON.
    Json(ParserError),
    /// The reply is JSON, but not of the promised form.
    Unexpected(Fault),
    /// The JSON parser cannot be given the reply.
    Unsupported,
    /// The JSON parser leaves an array or an object of the reply open.
    Unfinished,
}

/// What became of a layer of an image that was removed.
#[derive(Debug, PartialEq, Eq)]
pub enum Status {
    Untagged(String),
    Deleted(String),
}

/// A piece of the output of the build of an image.
#[derive(Debug, PartialEq, Eq)]
pub enum BuildOutput {
    Stream(String),
    Error(String),
}

/// How far a transfer has come.
#[derive(Clone, Copy, Debug, PartialEq, Eq)]
pub struct ProgressDetail {
    pub current: u64,
    pub total: u64,
}

/// A piece of the output of a pull, as the daemon sends it.
#[allow(non_snake_case)]
#[derive(Debug, PartialEq, Eq)]
pub struct PullInfo {
    pub id: Option<String>,
    pub status: String,
    pub progress: Option<String>,
    pub progressDetail: Option<ProgressDetail>,
}

/// A piece of the output of a pull.
#[derive(Debug, PartialEq, Eq)]
pub enum PullOutput {
    Status {
        id: Option<String>,
        status: String,
        progress: Option<String>,
        progress_detail: Option<ProgressDetail>,
    },
    Error(String),
}

pub ghost enum StatusView {
    Untagged(Seq<char>),
    Deleted(Seq<char>),
}

pub ghost enum BuildOutputView {
    Stream(Seq<char>),
    Error(Seq<char>),
}

impl View for Status {
    type V = StatusView;

    open spec fn view(&self) -> StatusView {
        match self {
            Status::Untagged(name) => StatusView::Untagged(name@),
            Status::Deleted(name) => StatusView::Deleted(name@),
        }
    }
}

impl View for BuildOutput {
    type V = BuildOutputView;

    open spec fn view(&self) -> BuildOutputView {
        match self {
            BuildOutput::Stream(text) => BuildOutputView::Stream(text@),
            BuildOutput::Error(text) => BuildOutputView::Error(text@),
        }
    }
}

/// The text of the field of that name, if there is one; the fault where it is not a string.
pub open spec fn text_of(
    fields: Map<Seq<char>, FieldView>,
    name: Seq<char>,
    fault: Fault,
) -> Result<Option<Seq<char>>, Fault> {
    if !fields.contains_key(name) {
        Ok(None)
    } else {
        match fields[name] {
            FieldView::Text(text) => Ok(Some(text)),
            FieldView::Other => Err(fault),
        }
    }
}

/// What a value in the reply to the removal of an image says: the name that was untagged, or else
/// the one that was deleted.
pub open spec fn status_of(item: ItemView) -> Result<StatusView, Fault> {
    match item {
        ItemView::Other => Err(Fault::NotObject),
        ItemView::Object(fields) => {
            let untagged = text_of(fields, "Untagged"@, Fault::UntaggedNotString);
            let deleted = text_of(fields, "Deleted"@, Fault::DeletedNotString);
            match (untagged, deleted) {
                (Err(fault), _) => Err(fault),
                (Ok(_), Err(fault)) => Err(fault),
                (Ok(Some(name)), Ok(_)) => Ok(StatusView::Untagged(name)),
                (Ok(None), Ok(Some(name))) => Ok(StatusView::Deleted(name)),
                (Ok(None), Ok(None)) => Err(Fault::NoStatus),
            }
        },
    }
}

/// What the values in the reply to the removal of an image say, in their order; the first fault
/// where there is one.
pub open spec fn statuses_of(items: Seq<ItemView>) -> Result<Seq<StatusView>, Fault>
    decreases items.len(),
{
    if items.len() == 0 {
        Ok(seq![])
    } else {
        match (statuses_of(items.drop_last()), status_of(items.last())) {
            (Err(fault), _) => Err(fault),
            (Ok(_), Err(fault)) => Err(fault),
            (Ok(before), Ok(status)) => Ok(before.push(status)),
        }
    }
}

/// What the whole reply to the removal of an image says.
pub open spec fn removal_of(reply: ReplyView) -> Result<Seq<StatusView>, Fault> {
    match reply {
        ReplyView::Array(items) => statuses_of(items),
        ReplyView::Other => Err(Fault::NotArray),
    }
}

/// What a value in the output of a build says: a piece of the log, or else an error.
pub open spec fn build_output_of(item: ItemView) -> Result<BuildOutputView, Fault> {
    match item {
        ItemView::Other => Err(Fault::NotObject),
        ItemView::Object(fields) => {
            let stream = text_of(fields, "stream"@, Fault::StreamNotString);
            let error = text_of(fields, "error"@, Fault::ErrorNotString);
            match (stream, error) {
                (Err(fault), _) => Err(fault),
                (Ok(_), Err(fault)) => Err(fault),
                (Ok(Some(text)), Ok(_)) => Ok(BuildOutputView::Stream(text)),
                (Ok(None), Ok(Some(text))) => Ok(BuildOutputView::Error(text)),
                (Ok(None), Ok(None)) => Err(Fault::NoBuildOutput),
            }
        },
    }
}

/// Whether a value in the output of a pull is of the promised form, and the error that it names.
pub open spec fn pull_error_of(item: ItemView) -> Result<Option<Seq<char>>, Fault> {
    match item {
        ItemView::Other => Err(Fault::NotObject),
        ItemView::Object(fields) => text_of(fields, "error"@, Fault::ErrorNotString),
    }
}

/// Reads the text of a field.
fn read_text(fields: &Vec<(String, Field)>, name: &str, fault: Fault) -> (text: Result<
    Option<String>,
    Fault,
>)
    ensures
        match text {
            Ok(Some(text)) => text_of(Item::Object(*fields)@->Object_0, name@, fault) == Ok::<
                Option<Seq<char>>,
                Fault,
            >(Some(text@)),
            Ok(None) => text_of(Item::Object(*fields)@->Object_0, name@, fault) == Ok::<
                Option<Seq<char>>,
                Fault,
            >(None),
            Err(found) => text_of(Item::Object(*fields)@->Object_0, name@, fault) == Err::<
                Option<Seq<char>>,
                Fault,
            >(found),
        },
{
    match Item::field(fields, name) {
        Some(Field::Text(text)) => Ok(Some(text.clone())),
        Some(Field::Other) => Err(fault),
        None => Ok(None),
    }
}

impl Status {
    /// Reads one value in the reply to the removal of an image.
    pub fn from_item(item: &Item) -> (status: Result<Status, Fault>)
        ensures
            match status {
                Ok(status) => status_of(item@) == Ok::<StatusView, Fault>(status@),
                Err(fault) => status_of(item@) == Err::<StatusView, Fault>(fault),
            },
    {
        match item {
            Item::Other => Err(Fault::NotObject),
            Item::Object(fields) => {
                let untagged = match read_text(fields, "Untagged", Fault::UntaggedNotString) {
                    Ok(text) => text,
                    Err(fault) => return Err(fault),
                };
                let deleted = match read_text(fields, "Deleted", Fault::DeletedNotString) {
                    Ok(text) => text,
                    Err(fault) => return Err(fault),
                };
                match (untagged, deleted) {
                    (Some(name), _) => Ok(Status::Untagged(name)),
                    (None, Some(name)) => Ok(Status::Deleted(name)),
                    (None, None) => Err(Fault::NoStatus),
                }
            },
        }
    }

    /// Reads the whole reply to the removal of an image.
    pub fn from_reply(reply: &Reply) -> (statuses: Result<Vec<Status>, Fault>)
        ensures
            match statuses {
                Ok(statuses) => removal_of(reply@) == Ok::<Seq<StatusView>, Fault>(
                    statuses@.map_values(|status: Status| status@),
                ),
                Err(fault) => removal_of(reply@) == Err::<Seq<StatusView>, Fault>(fault),
            },
    {
        let items = match reply {
            Reply::Array(items) => items,
            Reply::Other => return Err(Fault::NotArray),
        };
        let ghost views = items@.map_values(|item: Item| item@);
        let mut statuses: Vec<Status> = Vec::new();
        let mut at: usize = 0;
        assert(statuses@.map_values(|status: Status| status@) =~= seq![]);
        while at < items.len()
            invariant
                at <= items.len(),
                views == items@.map_values(|item: Item| item@),
                reply@ == ReplyView::Array(views),
                statuses_of(views.take(at as int)) == Ok::<Seq<StatusView>, Fault>(
                    statuses@.map_values(|status: Status| status@),
                ),
            decreases items.len() - at,
        {
            let ghost longer = views.take(at + 1);
            assert(longer.drop_last() =~= views.take(at as int));
            match Status::from_item(&items[at]) {
                Ok(status) => {
                    let ghost before = statuses@;
                    statuses.push(status);
                    assert(statuses@.map_values(|status: Status| status@) =~= before.map_values(
                        |status: Status| status@,
                    ).push(status@));
                },
                Err(fault) => {
                    proof {
                        lemma_first_fault(views, at + 1, fault);
                    }
                    return Err(fault);
                },
            }
            at = at + 1;
        }
        assert(views.take(at as int) =~= views);
        Ok(statuses)
    }
}

/// A fault in the first values is the fault of all of them.
proof fn lemma_first_fault(items: Seq<ItemView>, end: int, fault: Fault)
    requires
        0 <= end <= items.len(),
        statuses_of(items.take(end)) == Err::<Seq<StatusView>, Fault>(fault),
    ensures
        statuses_of(items) == Err::<Seq<StatusView>, Fault>(fault),
    decreases items.len(),
{
    if end == items.len() {
        assert(items.take(end) =~= items);
    } else {
        assert(items.drop_last().take(end) =~= items.take(end));
        lemma_first_fault(items.drop_last(), end, fault);
    }
}

impl BuildOutput {
    /// Reads one value in the output of a build.
    pub fn from_item(item: &Item) -> (output: Result<BuildOutput, Fault>)
        ensures
            match output {
                Ok(output) => build_output_of(item@) == Ok::<BuildOutputView, Fault>(output@),
                Err(fault) => build_output_of(item@) == Err::<BuildOutputView, Fault>(fault),
            },
    {
        match item {
            Item::Other => Err(Fault::NotObject),
            Item::Object(fields) => {
                let stream = match read_text(fields, "stream", Fault::StreamNotString) {
                    Ok(text) => text,
                    Err(fault) => return Err(fault),
                };
                let error = match read_text(fields, "error", Fault::ErrorNotString) {
                    Ok(text) => text,
                    Err(fault) => return Err(fault),
                };
                match (stream, error) {
                    (Some(text), _) => Ok(BuildOutput::Stream(text)),
                    (None, Some(text)) => Ok(BuildOutput::Error(text)),
                    (None, None) => Err(Fault::NoBuildOutput),
                }
            },
        }
    }
}

impl PullOutput {
    /// Reads one value in the output of a pull. `info` is the value as a status, `None` where it
    /// cannot be taken for one.
    pub fn from_item(info: Option<PullInfo>, item: &Item) -> (output: Result<PullOutput, Fault>)
        ensures
            match pull_error_of(item@) {
                Err(fault) => output == Err::<PullOutput, Fault>(fault),
                Ok(error) => match (info, error) {
                    (Some(info), _) => output == Ok::<PullOutput, Fault>(
                        PullOutput::Status {
                            id: info.id,
                            status: info.status,
                            progress: info.progress,
                            progress_detail: info.progressDetail,
                        },
                    ),
                    (None, Some(error)) => output matches Ok(PullOutput::Error(text)) && text@
                        == error,
                    (None, None) => output == Err::<PullOutput, Fault>(Fault::NoPullOutput),
                },
            },
    {
        let error = match item {
            Item::Other => return Err(Fault::NotObject),
            Item::Object(fields) => match read_text(fields, "error", Fault::ErrorNotString) {
                Ok(text) => text,
                Err(fault) => return Err(fault),
            },
        };
        match (info, error) {
            (Some(info), _) => Ok(
                PullOutput::Status {
                    id: info.id,
                    status: info.status,
                    progress: info.progress,
                    progress_detail: info.progressDetail,
                },
            ),
            (None, Some(text)) => Ok(PullOutput::Error(text)),
            (None, None) => Err(Fault::NoPullOutput),
        }
    }
}

} // verus!
