//! What holds across the operations.
use vstd::prelude::*;
use vstd::utf8::*;

use crate::container::{optional_parameter, optional_seconds, ContainerView, ContainersView};
use crate::form::{escaped, escaped_byte, escaped_bytes, form, is_form_char};
use crate::form::{law_form_is_injective, law_parameter_is_injective, parameter};
use crate::image::{name_parameters, ImageView, ImagesView};
use crate::json::{last_field, Field, FieldView, Item, ItemView, Reply, ReplyView};
use crate::rep::{build_output_of, pull_error_of, removal_of, status_of, statuses_of, BuildOutput};
use crate::rep::{BuildOutputView, Fault, Status, StatusView};
use crate::text::{decimal, digit_char, is_number, number_of, with_query};
use crate::transport::{Method, RequestView};

verus! {

/// `remove` without options is `delete`.
pub proof fn law_remove_without_options_is_delete(container: ContainerView)
    ensures
        container.remove(None) == container.delete(),
{
}

/// Every operation on a container goes to the daemon that the container is with.
pub proof fn law_container_requests_go_to_its_daemon(
    container: ContainerView,
    text: Option<Seq<char>>,
    name: Seq<char>,
    wait: Option<u64>,
)
    ensures
        container.inspect().transport == container.docker,
        container.top(text).transport == container.docker,
        container.logs(text).transport == container.docker,
        container.changes().transport == container.docker,
        container.export().transport == container.docker,
        container.stats().transport == container.docker,
        container.start().transport == container.docker,
        container.stop(wait).transport == container.docker,
        container.restart(wait).transport == container.docker,
        container.kill(text).transport == container.docker,
        container.rename(name).transport == container.docker,
        container.pause().transport == container.docker,
        container.unpause().transport == container.docker,
        container.wait().transport == container.docker,
        container.delete().transport == container.docker,
        container.remove(text).transport == container.docker,
{
}

/// Every operation on images goes to the daemon that the images are with.
pub proof fn law_image_requests_go_to_their_daemon(
    images: ImagesView,
    text: Option<Seq<char>>,
    name: Seq<char>,
    names: Seq<Seq<char>>,
    tarball: Seq<u8>,
)
    ensures
        images.build(text, tarball).transport == images.docker,
        images.list(text).transport == images.docker,
        images.search(name).transport == images.docker,
        images.pull(text).transport == images.docker,
        images.export(names).transport == images.docker,
        images.get(name).inspect().transport == images.docker,
        images.get(name).history().transport == images.docker,
        images.get(name).delete().transport == images.docker,
        images.get(name).export().transport == images.docker,
{
}

/// Only what a build or a new container is made from is sent along with a request.
pub proof fn law_only_build_and_create_carry_a_body(
    images: ImagesView,
    containers: ContainersView,
    name: Seq<char>,
    names: Seq<Seq<char>>,
    text: Option<Seq<char>>,
    wait: Option<u64>,
    content: Seq<u8>,
)
    ensures
        images.build(text, content).body matches Some(body) && body.content == content,
        containers.create(content).body matches Some(body) && body.content == content,
        images.list(text).body is None,
        images.search(name).body is None,
        images.pull(text).body is None,
        images.export(names).body is None,
        images.get(name).inspect().body is None,
        images.get(name).history().body is None,
        images.get(name).delete().body is None,
        images.get(name).export().body is None,
        containers.list(text).body is None,
        containers.get(name).inspect().body is None,
        containers.get(name).top(text).body is None,
        containers.get(name).logs(text).body is None,
        containers.get(name).changes().body is None,
        containers.get(name).export().body is None,
        containers.get(name).stats().body is None,
        containers.get(name).start().body is None,
        containers.get(name).stop(wait).body is None,
        containers.get(name).restart(wait).body is None,
        containers.get(name).kill(text).body is None,
        containers.get(name).rename(name).body is None,
        containers.get(name).pause().body is None,
        containers.get(name).unpause().body is None,
        containers.get(name).wait().body is None,
        containers.get(name).delete().body is None,
        containers.get(name).remove(text).body is None,
{
}

proof fn lemma_same_ends(
    head: Seq<char>,
    left: Seq<char>,
    right: Seq<char>,
    tail: Seq<char>,
)
    requires
        head + left + tail == head + right + tail,
    ensures
        left == right,
{
    let whole_left = head + left + tail;
    let whole_right = head + right + tail;
    assert(whole_left.len() == head.len() + left.len() + tail.len());
    assert(whole_right.len() == head.len() + right.len() + tail.len());
    assert(left =~= whole_left.subrange(head.len() as int, (head.len() + left.len()) as int));
    assert(right =~= whole_right.subrange(head.len() as int, (head.len() + right.len()) as int));
}

proof fn lemma_same_query(left: Seq<char>, right: Seq<char>, query: Option<Seq<char>>)
    requires
        with_query(left, query) == with_query(right, query),
    ensures
        left == right,
{
    match query {
        Some(query) => {
            let tail = "?"@ + query;
            assert(Seq::<char>::empty() + left + tail =~= left + "?"@ + query);
            assert(Seq::<char>::empty() + right + tail =~= right + "?"@ + query);
            lemma_same_ends(Seq::<char>::empty(), left, right, tail);
        },
        None => {},
    }
}

proof fn lemma_same_path(left: ContainerView, right: ContainerView, operation: Seq<char>)
    requires
        left.path(operation) == right.path(operation),
    ensures
        left.id == right.id,
{
    lemma_same_ends("/containers/"@, left.id, right.id, operation);
}

/// A request names its container: where the same operation on two containers gives the same
/// request, it is one container at one daemon.
pub proof fn law_request_names_its_container(
    left: ContainerView,
    right: ContainerView,
    text: Option<Seq<char>>,
    name: Seq<char>,
    wait: Option<u64>,
)
    ensures
        left.inspect() == right.inspect() ==> left == right,
        left.top(text) == right.top(text) ==> left == right,
        left.logs(text) == right.logs(text) ==> left == right,
        left.changes() == right.changes() ==> left == right,
        left.export() == right.export() ==> left == right,
        left.stats() == right.stats() ==> left == right,
        left.start() == right.start() ==> left == right,
        left.stop(wait) == right.stop(wait) ==> left == right,
        left.restart(wait) == right.restart(wait) ==> left == right,
        left.kill(text) == right.kill(text) ==> left == right,
        left.rename(name) == right.rename(name) ==> left == right,
        left.pause() == right.pause() ==> left == right,
        left.unpause() == right.unpause() ==> left == right,
        left.wait() == right.wait() ==> left == right,
        left.delete() == right.delete() ==> left == right,
        left.remove(text) == right.remove(text) ==> left == right,
{
    let seconds = optional_parameter("t"@, optional_seconds(wait));
    if left.inspect() == right.inspect() {
        lemma_same_path(left, right, "/json"@);
    }
    if left.top(text) == right.top(text) {
        lemma_same_query(
            left.path("/top"@),
            right.path("/top"@),
            optional_parameter("ps_args"@, text),
        );
        lemma_same_path(left, right, "/top"@);
    }
    if left.logs(text) == right.logs(text) {
        lemma_same_query(left.path("/logs"@), right.path("/logs"@), text);
        lemma_same_path(left, right, "/logs"@);
    }
    if left.changes() == right.changes() {
        lemma_same_path(left, right, "/changes"@);
    }
    if left.export() == right.export() {
        lemma_same_path(left, right, "/export"@);
    }
    if left.stats() == right.stats() {
        lemma_same_path(left, right, "/stats"@);
    }
    if left.start() == right.start() {
        lemma_same_path(left, right, "/start"@);
    }
    if left.stop(wait) == right.stop(wait) {
        lemma_same_query(left.path("/stop"@), right.path("/stop"@), seconds);
        lemma_same_path(left, right, "/stop"@);
    }
    if left.restart(wait) == right.restart(wait) {
        lemma_same_query(left.path("/restart"@), right.path("/restart"@), seconds);
        lemma_same_path(left, right, "/restart"@);
    }
    if left.kill(text) == right.kill(text) {
        lemma_same_query(
            left.path("/kill"@),
            right.path("/kill"@),
            optional_parameter("signal"@, text),
        );
        lemma_same_path(left, right, "/kill"@);
    }
    if left.rename(name) == right.rename(name) {
        let tail = parameter("name"@, name);
        assert(Seq::<char>::empty() + left.path("/rename?"@) + tail =~= left.path("/rename?"@)
            + tail);
        assert(Seq::<char>::empty() + right.path("/rename?"@) + tail =~= right.path("/rename?"@)
            + tail);
        lemma_same_ends(
            Seq::<char>::empty(),
            left.path("/rename?"@),
            right.path("/rename?"@),
            tail,
        );
        lemma_same_path(left, right, "/rename?"@);
    }
    if left.pause() == right.pause() {
        lemma_same_path(left, right, "/pause"@);
    }
    if left.unpause() == right.unpause() {
        lemma_same_path(left, right, "/unpause"@);
    }
    if left.wait() == right.wait() {
        lemma_same_path(left, right, "/wait"@);
    }
    if left.remove(text) == right.remove(text) || left.delete() == right.delete() {
        if left.remove(text) == right.remove(text) {
            lemma_same_query("/containers/"@ + left.id, "/containers/"@ + right.id, text);
        }
        assert("/containers/"@ + left.id =~= "/containers/"@ + left.id + Seq::<char>::empty());
        assert("/containers/"@ + right.id =~= "/containers/"@ + right.id + Seq::<char>::empty());
        lemma_same_ends("/containers/"@, left.id, right.id, Seq::<char>::empty());
    }
}

/// A request names its image: where the same operation on two images gives the same request, it
/// is one image at one daemon.
pub proof fn law_request_names_its_image(left: ImageView, right: ImageView)
    ensures
        left.inspect() == right.inspect() ==> left == right,
        left.history() == right.history() ==> left == right,
        left.delete() == right.delete() ==> left == right,
        left.export() == right.export() ==> left == right,
{
    if left.inspect() == right.inspect() {
        lemma_same_ends("/images/"@, left.name, right.name, "/json"@);
    }
    if left.history() == right.history() {
        lemma_same_ends("/images/"@, left.name, right.name, "/history"@);
    }
    if left.delete() == right.delete() {
        assert("/images/"@ + left.name =~= "/images/"@ + left.name + Seq::<char>::empty());
        assert("/images/"@ + right.name =~= "/images/"@ + right.name + Seq::<char>::empty());
        lemma_same_ends("/images/"@, left.name, right.name, Seq::<char>::empty());
    }
    if left.export() == right.export() {
        lemma_same_ends("/images/"@, left.name, right.name, "/get"@);
    }
}

/// A query can be told from its absence and from every other query of the same path.
pub proof fn law_query_can_be_read_back(
    path: Seq<char>,
    left: Option<Seq<char>>,
    right: Option<Seq<char>>,
)
    requires
        with_query(path, left) == with_query(path, right),
    ensures
        left == right,
{
    reveal_strlit("?");
    match (left, right) {
        (Some(left), Some(right)) => {
            let empty = Seq::<char>::empty();
            assert(path + "?"@ + left =~= path + "?"@ + left + empty);
            assert(path + "?"@ + right =~= path + "?"@ + right + empty);
            lemma_same_ends(path + "?"@, left, right, empty);
        },
        (Some(left), None) => {
            assert((path + "?"@ + left).len() > path.len());
        },
        (None, Some(right)) => {
            assert((path + "?"@ + right).len() > path.len());
        },
        (None, None) => {},
    }
}

/// The path of a request ends at the first `?`: where two paths hold none, they and their queries
/// can be told apart by what is made of them.
pub proof fn law_path_ends_at_the_first_question_mark(
    left_path: Seq<char>,
    left: Option<Seq<char>>,
    right_path: Seq<char>,
    right: Option<Seq<char>>,
)
    requires
        !left_path.contains('?'),
        !right_path.contains('?'),
        with_query(left_path, left) == with_query(right_path, right),
    ensures
        left_path == right_path,
        left == right,
{
    reveal_strlit("?");
    let left_whole = with_query(left_path, left);
    let right_whole = with_query(right_path, right);
    assert(left_path =~= left_whole.take(left_path.len() as int));
    assert(right_path =~= right_whole.take(right_path.len() as int));
    if left_path.len() < right_path.len() {
        assert(left is Some);
        assert(left_whole[left_path.len() as int] == '?');
        assert(right_path[left_path.len() as int] == '?');
    }
    if right_path.len() < left_path.len() {
        assert(right is Some);
        assert(right_whole[right_path.len() as int] == '?');
        assert(left_path[right_path.len() as int] == '?');
    }
    law_query_can_be_read_back(left_path, left, right);
}

proof fn lemma_same_parameter(
    name: Seq<char>,
    left: Option<Seq<char>>,
    right: Option<Seq<char>>,
)
    requires
        optional_parameter(name, left) == optional_parameter(name, right),
    ensures
        left == right,
{
    match (left, right) {
        (Some(left), Some(right)) => {
            law_parameter_is_injective(name, left, name, right);
        },
        _ => {},
    }
}

/// Decimal notation tells every two numbers apart.
pub proof fn law_decimal_is_injective(left: nat, right: nat)
    requires
        decimal(left) == decimal(right),
    ensures
        left == right,
    decreases left,
{
    assert(decimal(left).last() == digit_char(left % 10));
    assert(decimal(right).last() == digit_char(right % 10));
    assert(left % 10 == right % 10);
    lemma_decimal_is_not_empty(left / 10);
    lemma_decimal_is_not_empty(right / 10);
    if left >= 10 && right >= 10 {
        assert(decimal(left).drop_last() =~= decimal(left / 10));
        assert(decimal(right).drop_last() =~= decimal(right / 10));
        law_decimal_is_injective(left / 10, right / 10);
    }
}

proof fn lemma_decimal_is_not_empty(value: nat)
    ensures
        decimal(value).len() > 0,
{
}

/// What an operation is given can be read back from its request: two requests of the same
/// operation on the same container that are alike were given the same.
pub proof fn law_container_arguments_can_be_read_back(
    container: ContainerView,
    left_text: Option<Seq<char>>,
    right_text: Option<Seq<char>>,
    left_wait: Option<u64>,
    right_wait: Option<u64>,
    left_name: Seq<char>,
    right_name: Seq<char>,
)
    ensures
        container.top(left_text) == container.top(right_text) ==> left_text == right_text,
        container.logs(left_text) == container.logs(right_text) ==> left_text == right_text,
        container.kill(left_text) == container.kill(right_text) ==> left_text == right_text,
        container.remove(left_text) == container.remove(right_text) ==> left_text == right_text,
        container.stop(left_wait) == container.stop(right_wait) ==> left_wait == right_wait,
        container.restart(left_wait) == container.restart(right_wait) ==> left_wait == right_wait,
        container.rename(left_name) == container.rename(right_name) ==> left_name == right_name,
{
    if container.top(left_text) == container.top(right_text) {
        law_query_can_be_read_back(
            container.path("/top"@),
            optional_parameter("ps_args"@, left_text),
            optional_parameter("ps_args"@, right_text),
        );
        lemma_same_parameter("ps_args"@, left_text, right_text);
    }
    if container.logs(left_text) == container.logs(right_text) {
        law_query_can_be_read_back(container.path("/logs"@), left_text, right_text);
    }
    if container.kill(left_text) == container.kill(right_text) {
        law_query_can_be_read_back(
            container.path("/kill"@),
            optional_parameter("signal"@, left_text),
            optional_parameter("signal"@, right_text),
        );
        lemma_same_parameter("signal"@, left_text, right_text);
    }
    if container.remove(left_text) == container.remove(right_text) {
        law_query_can_be_read_back("/containers/"@ + container.id, left_text, right_text);
    }
    if container.stop(left_wait) == container.stop(right_wait) {
        lemma_same_seconds(container.path("/stop"@), left_wait, right_wait);
    }
    if container.restart(left_wait) == container.restart(right_wait) {
        lemma_same_seconds(container.path("/restart"@), left_wait, right_wait);
    }
    if container.rename(left_name) == container.rename(right_name) {
        let head = container.path("/rename?"@);
        let left = parameter("name"@, left_name);
        let right = parameter("name"@, right_name);
        assert(head + left =~= head + left + Seq::<char>::empty());
        assert(head + right =~= head + right + Seq::<char>::empty());
        lemma_same_ends(head, left, right, Seq::<char>::empty());
        law_parameter_is_injective("name"@, left_name, "name"@, right_name);
    }
}

proof fn lemma_same_seconds(path: Seq<char>, left: Option<u64>, right: Option<u64>)
    requires
        with_query(path, optional_parameter("t"@, optional_seconds(left))) == with_query(
            path,
            optional_parameter("t"@, optional_seconds(right)),
        ),
    ensures
        left == right,
{
    law_query_can_be_read_back(
        path,
        optional_parameter("t"@, optional_seconds(left)),
        optional_parameter("t"@, optional_seconds(right)),
    );
    lemma_same_parameter("t"@, optional_seconds(left), optional_seconds(right));
    match (left, right) {
        (Some(left), Some(right)) => {
            law_decimal_is_injective(left as nat, right as nat);
        },
        _ => {},
    }
}

/// The term of a search can be read back from its request, whatever characters it holds.
pub proof fn law_search_term_can_be_read_back(images: ImagesView, left: Seq<char>, right: Seq<char>)
    requires
        images.search(left) == images.search(right),
    ensures
        left == right,
{
    let head = "/images/search?"@;
    let left_query = parameter("term"@, left);
    let right_query = parameter("term"@, right);
    assert(head + left_query =~= head + left_query + Seq::<char>::empty());
    assert(head + right_query =~= head + right_query + Seq::<char>::empty());
    lemma_same_ends(head, left_query, right_query, Seq::<char>::empty());
    law_parameter_is_injective("term"@, left, "term"@, right);
}

/// The names of the images to export can be read back from the request, each of them and in their
/// order.
pub proof fn law_exported_names_can_be_read_back(
    images: ImagesView,
    left: Seq<Seq<char>>,
    right: Seq<Seq<char>>,
)
    requires
        images.export(left) == images.export(right),
    ensures
        left == right,
{
    let head = "/images/get?"@;
    let left_query = form(name_parameters(left));
    let right_query = form(name_parameters(right));
    assert(head + left_query =~= head + left_query + Seq::<char>::empty());
    assert(head + right_query =~= head + right_query + Seq::<char>::empty());
    lemma_same_ends(head, left_query, right_query, Seq::<char>::empty());
    law_form_is_injective(name_parameters(left), name_parameters(right));
    assert(left.len() == name_parameters(left).len());
    assert(right.len() == name_parameters(right).len());
    assert forall|i: int| 0 <= i < left.len() implies left[i] == right[i] by {
        assert(name_parameters(left)[i].1 == left[i]);
        assert(name_parameters(right)[i].1 == right[i]);
    }
    assert(left =~= right);
}

/// Letters, digits and `*-._`.
pub open spec fn is_plain_text(text: Seq<char>) -> bool {
    forall|i: int|
        0 <= i < text.len() ==> is_form_char(#[trigger] text[i]) && text[i] != '+' && text[i]
            != '%'
}

/// A text of letters, digits and `*-._` is not changed by being escaped.
pub proof fn law_plain_text_is_not_escaped(text: Seq<char>)
    requires
        is_plain_text(text),
    ensures
        escaped(text) == text,
{
    assert(is_ascii_chars(text));
    is_ascii_chars_encode_utf8(text);
    let bytes = encode_utf8(text);
    assert(forall|i: int| 0 <= i < text.len() ==> #[trigger] bytes[i] == text[i] as u8);
    lemma_plain_bytes(bytes, text);
}

proof fn lemma_plain_bytes(bytes: Seq<u8>, text: Seq<char>)
    requires
        bytes.len() == text.len(),
        is_plain_text(text),
        forall|i: int| 0 <= i < text.len() ==> #[trigger] bytes[i] == text[i] as u8,
    ensures
        escaped_bytes(bytes) == text,
    decreases bytes.len(),
{
    if bytes.len() > 0 {
        assert(forall|i: int|
            0 <= i < text.drop_first().len() ==> #[trigger] text.drop_first()[i] == text[i + 1]);
        assert(forall|i: int|
            0 <= i < bytes.drop_first().len() ==> #[trigger] bytes.drop_first()[i] == bytes[i + 1]);
        lemma_plain_bytes(bytes.drop_first(), text.drop_first());
        assert(bytes[0] == text[0] as u8);
        assert(is_form_char(text[0]));
        assert(escaped_byte(bytes[0]) =~= seq![text[0]]);
        assert(text =~= seq![text[0]] + text.drop_first());
    } else {
        assert(text =~= seq![]);
    }
}

pub(crate) proof fn lemma_decimal_digits(value: nat)
    ensures
        forall|i: int|
            0 <= i < decimal(value).len() ==> '0' <= #[trigger] decimal(value)[i] <= '9',
    decreases value,
{
    assert('0' <= digit_char(value % 10) <= '9');
    if value >= 10 {
        lemma_decimal_digits(value / 10);
        assert forall|i: int| 0 <= i < decimal(value).len() implies '0' <= #[trigger] decimal(
            value,
        )[i] <= '9' by {
            if i < decimal(value / 10).len() {
                assert(decimal(value)[i] == decimal(value / 10)[i]);
            }
        }
    }
}

/// The decimal notation of a number is a row of digits that stands for the number.
pub proof fn law_decimal_is_written_in_digits(value: nat)
    ensures
        is_number(decimal(value)),
        number_of(decimal(value)) == value,
    decreases value,
{
    lemma_decimal_digits(value);
    let digits = decimal(value);
    assert(digits.last() == digit_char(value % 10));
    assert(digits.last() as u8 - '0' as u8 == value % 10);
    if value < 10 {
        assert(digits.drop_last() =~= seq![]);
        assert(number_of(digits.drop_last()) == 0);
    } else {
        law_decimal_is_written_in_digits(value / 10);
        assert(digits.drop_last() =~= decimal(value / 10));
        assert(digits[0] == decimal(value / 10)[0]);
        if decimal(value / 10).len() == 1 && digits[0] == '0' {
            assert(decimal(value / 10).drop_last() =~= seq![]);
            assert(number_of(decimal(value / 10).drop_last()) == 0);
            assert(number_of(decimal(value / 10)) == 0);
        }
    }
}

/// The seconds to wait are written as `t=` and their decimal notation.
pub proof fn law_seconds_are_written_in_decimal(seconds: nat)
    ensures
        parameter("t"@, decimal(seconds)) == "t="@ + decimal(seconds),
{
    reveal_strlit("t");
    reveal_strlit("=");
    reveal_strlit("t=");
    lemma_decimal_digits(seconds);
    law_plain_text_is_not_escaped("t"@);
    law_plain_text_is_not_escaped(decimal(seconds));
    assert(parameter("t"@, decimal(seconds)) =~= "t="@ + decimal(seconds));
}

/// The reply to the removal of an image is read in full: where nothing is wrong with it, each
/// value gives one status, in the order of the values; otherwise some value is at fault and none
/// before it is.
pub proof fn law_every_removed_layer_is_reported(items: Seq<ItemView>)
    ensures
        match statuses_of(items) {
            Ok(statuses) => statuses.len() == items.len() && forall|i: int|
                0 <= i < items.len() ==> status_of(#[trigger] items[i]) == Ok::<StatusView, Fault>(
                    statuses[i],
                ),
            Err(fault) => exists|i: int|
                0 <= i < items.len() && status_of(#[trigger] items[i]) == Err::<StatusView, Fault>(
                    fault,
                ) && forall|j: int| 0 <= j < i ==> status_of(#[trigger] items[j]) is Ok,
        },
    decreases items.len(),
{
    if items.len() > 0 {
        let before = items.drop_last();
        law_every_removed_layer_is_reported(before);
        assert(forall|i: int| 0 <= i < before.len() ==> #[trigger] before[i] == items[i]);
        match statuses_of(before) {
            Ok(statuses) => {
                assert(forall|i: int|
                    0 <= i < before.len() ==> status_of(#[trigger] items[i]) == status_of(
                        before[i],
                    ));
                match status_of(items.last()) {
                    Ok(status) => {
                        assert(statuses_of(items) == Ok::<Seq<StatusView>, Fault>(
                            statuses.push(status),
                        ));
                    },
                    Err(fault) => {
                        assert(items[items.len() - 1] == items.last());
                    },
                }
            },
            Err(fault) => {
                let i = choose|i: int|
                    0 <= i < before.len() && status_of(#[trigger] before[i]) == Err::<
                        StatusView,
                        Fault,
                    >(fault) && forall|j: int| 0 <= j < i ==> status_of(#[trigger] before[j]) is Ok;
                assert(items[i] == before[i]);
                assert(forall|j: int| 0 <= j < i ==> #[trigger] items[j] == before[j]);
            },
        }
    }
}

/// A value that names both an untagged and a deleted layer reports the untagged one.
pub proof fn law_untagged_goes_first(
    fields: Map<Seq<char>, FieldView>,
    untagged: Seq<char>,
    deleted: Seq<char>,
)
    requires
        fields.contains_key("Untagged"@),
        fields["Untagged"@] == FieldView::Text(untagged),
        fields.contains_key("Deleted"@) ==> fields["Deleted"@] == FieldView::Text(deleted),
    ensures
        status_of(ItemView::Object(fields)) == Ok::<StatusView, Fault>(
            StatusView::Untagged(untagged),
        ),
{
}

/// A value that holds both a piece of the log and an error of a build gives the piece of the log.
pub proof fn law_build_log_goes_first(
    fields: Map<Seq<char>, FieldView>,
    stream: Seq<char>,
    error: Seq<char>,
)
    requires
        fields.contains_key("stream"@),
        fields["stream"@] == FieldView::Text(stream),
        fields.contains_key("error"@) ==> fields["error"@] == FieldView::Text(error),
    ensures
        build_output_of(ItemView::Object(fields)) == Ok::<BuildOutputView, Fault>(
            BuildOutputView::Stream(stream),
        ),
{
}

/// A value that names a deleted layer and no untagged one reports the deleted one, by its whole
/// name.
pub proof fn law_deleted_layer_is_reported(fields: Map<Seq<char>, FieldView>, deleted: Seq<char>)
    requires
        !fields.contains_key("Untagged"@),
        fields.contains_key("Deleted"@),
        fields["Deleted"@] == FieldView::Text(deleted),
    ensures
        status_of(ItemView::Object(fields)) == Ok::<StatusView, Fault>(
            StatusView::Deleted(deleted),
        ),
{
}

/// Two layers of different names are never reported alike, whether they were untagged or deleted.
pub proof fn law_layers_are_told_apart(
    left: Map<Seq<char>, FieldView>,
    right: Map<Seq<char>, FieldView>,
)
    requires
        status_of(ItemView::Object(left)) is Ok,
        status_of(ItemView::Object(left)) == status_of(ItemView::Object(right)),
    ensures
        left.contains_key("Untagged"@) <==> right.contains_key("Untagged"@),
        left.contains_key("Untagged"@) ==> left["Untagged"@] == right["Untagged"@],
        !left.contains_key("Untagged"@) ==> left.contains_key("Deleted"@) && right.contains_key(
            "Deleted"@,
        ) && left["Deleted"@] == right["Deleted"@],
{
}

/// A value in the reply to the removal of an image is at fault in these cases, and in no others: it
/// is no object, one of its two fields is there and no string, or neither is there.
pub proof fn law_faults_of_a_removal(fields: Map<Seq<char>, FieldView>)
    ensures
        ({
            let status = status_of(ItemView::Object(fields));
            let untagged = fields.contains_key("Untagged"@);
            let deleted = fields.contains_key("Deleted"@);
            let bad_untagged = untagged && !(fields["Untagged"@] is Text);
            let bad_deleted = deleted && !(fields["Deleted"@] is Text);
            &&& bad_untagged ==> status == Err::<StatusView, Fault>(Fault::UntaggedNotString)
            &&& !bad_untagged && bad_deleted ==> status == Err::<StatusView, Fault>(
                Fault::DeletedNotString,
            )
            &&& !untagged && !deleted ==> status == Err::<StatusView, Fault>(Fault::NoStatus)
            &&& !bad_untagged && !bad_deleted && (untagged || deleted) ==> status is Ok
        }),
        status_of(ItemView::Other) == Err::<StatusView, Fault>(Fault::NotObject),
        removal_of(ReplyView::Other) == Err::<Seq<StatusView>, Fault>(Fault::NotArray),
{
}

/// What a removal reports depends on its two fields alone.
pub proof fn law_other_fields_do_not_matter(
    fields: Map<Seq<char>, FieldView>,
    name: Seq<char>,
    field: FieldView,
)
    ensures
        name != "Untagged"@ && name != "Deleted"@ ==> status_of(
            ItemView::Object(fields.insert(name, field)),
        ) == status_of(ItemView::Object(fields)),
        name != "stream"@ && name != "error"@ ==> build_output_of(
            ItemView::Object(fields.insert(name, field)),
        ) == build_output_of(ItemView::Object(fields)),
        name != "error"@ ==> pull_error_of(ItemView::Object(fields.insert(name, field)))
            == pull_error_of(ItemView::Object(fields)),
{
}

/// The whole reply is read value by value: nothing is reported for an empty array, and one more
/// value adds its own status at the end and changes nothing before it.
pub proof fn law_removal_is_read_value_by_value(items: Seq<ItemView>, item: ItemView)
    ensures
        removal_of(ReplyView::Array(seq![])) == Ok::<Seq<StatusView>, Fault>(seq![]),
        match (removal_of(ReplyView::Array(items)), status_of(item)) {
            (Ok(statuses), Ok(status)) => removal_of(ReplyView::Array(items.push(item))) == Ok::<
                Seq<StatusView>,
                Fault,
            >(statuses.push(status)),
            (Ok(_), Err(fault)) => removal_of(ReplyView::Array(items.push(item))) == Err::<
                Seq<StatusView>,
                Fault,
            >(fault),
            (Err(fault), _) => removal_of(ReplyView::Array(items.push(item))) == Err::<
                Seq<StatusView>,
                Fault,
            >(fault),
        },
{
    assert(items.push(item).drop_last() =~= items);
}

/// A value that holds an error of a build and no piece of the log gives the whole error.
pub proof fn law_build_error_is_reported(fields: Map<Seq<char>, FieldView>, error: Seq<char>)
    requires
        !fields.contains_key("stream"@),
        fields.contains_key("error"@),
        fields["error"@] == FieldView::Text(error),
    ensures
        build_output_of(ItemView::Object(fields)) == Ok::<BuildOutputView, Fault>(
            BuildOutputView::Error(error),
        ),
{
}

/// A value in the output of a build is at fault in these cases, and in no others: it is no object,
/// one of its two fields is there and no string, or neither is there.
pub proof fn law_faults_of_a_build(fields: Map<Seq<char>, FieldView>)
    ensures
        ({
            let output = build_output_of(ItemView::Object(fields));
            let stream = fields.contains_key("stream"@);
            let error = fields.contains_key("error"@);
            let bad_stream = stream && !(fields["stream"@] is Text);
            let bad_error = error && !(fields["error"@] is Text);
            &&& bad_stream ==> output == Err::<BuildOutputView, Fault>(Fault::StreamNotString)
            &&& !bad_stream && bad_error ==> output == Err::<BuildOutputView, Fault>(
                Fault::ErrorNotString,
            )
            &&& !stream && !error ==> output == Err::<BuildOutputView, Fault>(Fault::NoBuildOutput)
            &&& !bad_stream && !bad_error && (stream || error) ==> output is Ok
        }),
        build_output_of(ItemView::Other) == Err::<BuildOutputView, Fault>(Fault::NotObject),
{
}

/// The error that a value in the output of a pull names is its whole field `error`; the value is at
/// fault if it is no object or the field is no string.
pub proof fn law_pull_error_is_reported(fields: Map<Seq<char>, FieldView>, error: Seq<char>)
    ensures
        !fields.contains_key("error"@) ==> pull_error_of(ItemView::Object(fields)) == Ok::<
            Option<Seq<char>>,
            Fault,
        >(None),
        fields.contains_key("error"@) && fields["error"@] == FieldView::Text(error)
            ==> pull_error_of(ItemView::Object(fields)) == Ok::<Option<Seq<char>>, Fault>(
            Some(error),
        ),
        fields.contains_key("error"@) && fields["error"@] is Other ==> pull_error_of(
            ItemView::Object(fields),
        ) == Err::<Option<Seq<char>>, Fault>(Fault::ErrorNotString),
        pull_error_of(ItemView::Other) == Err::<Option<Seq<char>>, Fault>(Fault::NotObject),
{
}

/// What is reported is seen as it is: nothing of it is left out.
pub proof fn law_reports_are_seen_whole(text: String)
    ensures
        Status::Untagged(text)@ == StatusView::Untagged(text@),
        Status::Deleted(text)@ == StatusView::Deleted(text@),
        BuildOutput::Stream(text)@ == BuildOutputView::Stream(text@),
        BuildOutput::Error(text)@ == BuildOutputView::Error(text@),
{
}

/// Of the fields of an object that have a name, the last one counts, with its whole text.
pub proof fn law_last_field_counts(fields: Vec<(String, Field)>, at: int)
    requires
        0 <= at < fields@.len(),
        forall|i: int| at < i < fields@.len() ==> (#[trigger] fields@[i]).0@ != fields@[at].0@,
    ensures
        Item::Object(fields)@ matches ItemView::Object(map) && map.contains_key(fields@[at].0@)
            && match fields@[at].1 {
            Field::Text(text) => map[fields@[at].0@] == FieldView::Text(text@),
            Field::Other => map[fields@[at].0@] == FieldView::Other,
        },
{
    lemma_last_field(fields@, at, fields@.len() as int);
    assert(fields@.take(fields@.len() as int) =~= fields@);
}

proof fn lemma_last_field(fields: Seq<(String, Field)>, at: int, end: int)
    requires
        0 <= at < end <= fields.len(),
        forall|i: int| at < i < end ==> (#[trigger] fields[i]).0@ != fields[at].0@,
    ensures
        last_field(fields.take(end), fields[at].0@) == Some(fields[at].1@),
    decreases end,
{
    assert(fields.take(end).drop_last() =~= fields.take(end - 1));
    assert(fields.take(end).last() == fields[end - 1]);
    if at < end - 1 {
        lemma_last_field(fields, at, end - 1);
    }
}

/// A name that no field has is not there.
pub proof fn law_missing_field_is_missing(fields: Vec<(String, Field)>, name: Seq<char>)
    requires
        forall|i: int| 0 <= i < fields@.len() ==> (#[trigger] fields@[i]).0@ != name,
    ensures
        Item::Object(fields)@ matches ItemView::Object(map) && !map.contains_key(name),
{
    lemma_no_field(fields@, name);
}

proof fn lemma_no_field(fields: Seq<(String, Field)>, name: Seq<char>)
    requires
        forall|i: int| 0 <= i < fields.len() ==> (#[trigger] fields[i]).0@ != name,
    ensures
        last_field(fields, name) is None,
    decreases fields.len(),
{
    if fields.len() > 0 {
        assert(fields[fields.len() - 1].0@ != name);
        assert forall|i: int| 0 <= i < fields.drop_last().len() implies (
        #[trigger] fields.drop_last()[i]).0@ != name by {
            assert(fields.drop_last()[i] == fields[i]);
        }
        lemma_no_field(fields.drop_last(), name);
    }
}

/// A reply is seen as it is: an array with all of its values in their order, or something else.
pub proof fn law_replies_are_seen_whole(items: Vec<Item>)
    ensures
        Reply::Array(items)@ matches ReplyView::Array(views) && views.len() == items@.len()
            && forall|i: int| 0 <= i < items@.len() ==> #[trigger] views[i] == items@[i]@,
        Reply::Other@ is Other,
        Item::Other@ is Other,
{
}

/// The requests of all operations on a container.
pub open spec fn container_requests(
    container: ContainerView,
    psargs: Option<Seq<char>>,
    log_options: Option<Seq<char>>,
    stop_wait: Option<u64>,
    restart_wait: Option<u64>,
    signal: Option<Seq<char>>,
    name: Seq<char>,
    remove_options: Option<Seq<char>>,
) -> Seq<RequestView> {
    seq![
        container.inspect(),
        container.top(psargs),
        container.changes(),
        container.logs(log_options),
        container.export(),
        container.stats(),
        container.start(),
        container.stop(stop_wait),
        container.restart(restart_wait),
        container.kill(signal),
        container.rename(name),
        container.pause(),
        container.unpause(),
        container.wait(),
        container.remove(remove_options),
    ]
}

/// The place of a request among all requests for a container, told from the method and the first
/// letters of the operation, which start at `at`.
spec fn operation_number(request: RequestView, at: int) -> int {
    let first = request.endpoint[at];
    let third = request.endpoint[at + 2];
    if request.method == Method::Delete {
        14
    } else if request.method == Method::Get && !request.streamed {
        if first == 'j' {
            0
        } else if first == 't' {
            1
        } else {
            2
        }
    } else if request.method == Method::Get {
        if first == 'l' {
            3
        } else if first == 'e' {
            4
        } else {
            5
        }
    } else if first == 's' {
        if third == 'a' {
            6
        } else {
            7
        }
    } else if first == 'r' {
        if third == 's' {
            8
        } else {
            10
        }
    } else if first == 'k' {
        9
    } else if first == 'p' {
        11
    } else if first == 'u' {
        12
    } else {
        13
    }
}

proof fn lemma_operation_letters(
    container: ContainerView,
    operation: Seq<char>,
    query: Option<Seq<char>>,
    rest: Seq<char>,
)
    requires
        operation.len() > 3,
    ensures
        ({
            let at: int = 1int + ("/containers/"@ + container.id).len();
            let endpoint = with_query(container.path(operation), query);
            let longer = container.path(operation) + rest;
            &&& endpoint[at] == operation[1]
            &&& endpoint[at + 2] == operation[3]
            &&& longer[at] == operation[1]
            &&& longer[at + 2] == operation[3]
        }),
{
    let at: int = 1int + ("/containers/"@ + container.id).len();
    let path = container.path(operation);
    assert(path[at] == operation[1]);
    assert(path[at + 2] == operation[3]);
    match query {
        Some(query) => {
            let endpoint = path + "?"@ + query;
            assert(endpoint[at] == path[at]);
            assert(endpoint[at + 2] == path[at + 2]);
        },
        None => {},
    }
}

/// Every operation on a container has a request of its own: whatever the operations are given, no
/// two of them give the same request for the same container.
pub proof fn law_operations_have_requests_of_their_own(
    container: ContainerView,
    psargs: Option<Seq<char>>,
    log_options: Option<Seq<char>>,
    stop_wait: Option<u64>,
    restart_wait: Option<u64>,
    signal: Option<Seq<char>>,
    name: Seq<char>,
    remove_options: Option<Seq<char>>,
)
    ensures
        container_requests(
            container,
            psargs,
            log_options,
            stop_wait,
            restart_wait,
            signal,
            name,
            remove_options,
        ).no_duplicates(),
{
    reveal_strlit("/json");
    reveal_strlit("/top");
    reveal_strlit("/changes");
    reveal_strlit("/logs");
    reveal_strlit("/export");
    reveal_strlit("/stats");
    reveal_strlit("/start");
    reveal_strlit("/stop");
    reveal_strlit("/restart");
    reveal_strlit("/kill");
    reveal_strlit("/rename?");
    reveal_strlit("/pause");
    reveal_strlit("/unpause");
    reveal_strlit("/wait");
    let none: Option<Seq<char>> = None;
    let empty = Seq::<char>::empty();
    lemma_operation_letters(container, "/json"@, none, empty);
    lemma_operation_letters(container, "/top"@, optional_parameter("ps_args"@, psargs), empty);
    lemma_operation_letters(container, "/changes"@, none, empty);
    lemma_operation_letters(container, "/logs"@, log_options, empty);
    lemma_operation_letters(container, "/export"@, none, empty);
    lemma_operation_letters(container, "/stats"@, none, empty);
    lemma_operation_letters(container, "/start"@, none, empty);
    lemma_operation_letters(
        container,
        "/stop"@,
        optional_parameter("t"@, optional_seconds(stop_wait)),
        empty,
    );
    lemma_operation_letters(
        container,
        "/restart"@,
        optional_parameter("t"@, optional_seconds(restart_wait)),
        empty,
    );
    lemma_operation_letters(container, "/kill"@, optional_parameter("signal"@, signal), empty);
    lemma_operation_letters(container, "/rename?"@, none, parameter("name"@, name));
    lemma_operation_letters(container, "/pause"@, none, empty);
    lemma_operation_letters(container, "/unpause"@, none, empty);
    lemma_operation_letters(container, "/wait"@, none, empty);
    let requests = container_requests(
        container,
        psargs,
        log_options,
        stop_wait,
        restart_wait,
        signal,
        name,
        remove_options,
    );
    let at: int = 1int + ("/containers/"@ + container.id).len();
    assert forall|i: int| 0 <= i < requests.len() implies operation_number(
        #[trigger] requests[i],
        at,
    ) == i by {
        assert(requests.len() == 15);
    }
}

} // verus!
