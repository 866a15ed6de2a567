//! What every operation asks of its daemon, in full: the method, the path with the query, the body,
//! and how the reply is read.
use vstd::prelude::*;

use crate::container::{ContainerView, ContainersView};
use crate::form::{escaped, parameter};
use crate::image::{name_parameters, texts, ImageView, ImagesView};
use crate::laws::{law_decimal_is_written_in_digits, law_plain_text_is_not_escaped};
use crate::laws::law_seconds_are_written_in_decimal;
use crate::text::{decimal, optional_text, with_query};
use crate::transport::{Body, BodyView, ContentType, Method, Request, RequestView, TlsFiles};
use crate::transport::{Transport, TransportView};

verus! {

/// A request says what it is: it goes to its daemon, with the endpoint and the body that it is
/// given. Only what is posted has a body.
pub proof fn law_requests_hold_what_they_are_given(
    daemon: TransportView,
    endpoint: Seq<char>,
    body: Option<BodyView>,
)
    ensures
        daemon.get(endpoint) == (RequestView {
            transport: daemon,
            method: Method::Get,
            endpoint,
            body: None,
            streamed: false,
        }),
        daemon.stream_get(endpoint) == (RequestView {
            transport: daemon,
            method: Method::Get,
            endpoint,
            body: None,
            streamed: true,
        }),
        daemon.post(endpoint, body) == (RequestView {
            transport: daemon,
            method: Method::Post,
            endpoint,
            body,
            streamed: false,
        }),
        daemon.stream_post(endpoint, body) == (RequestView {
            transport: daemon,
            method: Method::Post,
            endpoint,
            body,
            streamed: true,
        }),
        daemon.delete(endpoint) == (RequestView {
            transport: daemon,
            method: Method::Delete,
            endpoint,
            body: None,
            streamed: false,
        }),
{
}

/// A query stands whole behind its path and a `?`; without a query the path stands alone.
pub proof fn law_query_follows_its_path(path: Seq<char>, query: Seq<char>)
    ensures
        with_query(path, None) == path,
        with_query(path, Some(query)).len() == path.len() + 1 + query.len(),
        with_query(path, Some(query)).take(path.len() as int) == path,
        with_query(path, Some(query))[path.len() as int] == '?',
        with_query(path, Some(query)).skip(1int + path.len()) == query,
{
    reveal_strlit("?");
    let whole = with_query(path, Some(query));
    assert(whole.take(path.len() as int) =~= path);
    assert(whole.skip(1int + path.len()) =~= query);
}

/// A text that may be absent is kept as it is, an empty one too.
pub proof fn law_optional_text_is_kept(text: &str)
    ensures
        optional_text(Some(text)) == Some(text@),
        optional_text(None) is None,
{
}

/// Each text of a list is kept, in its place.
pub proof fn law_texts_are_kept(list: Seq<&str>)
    ensures
        texts(list).len() == list.len(),
        forall|i: int| 0 <= i < list.len() ==> #[trigger] texts(list)[i] == list[i]@,
{
}

/// The container that is got by a name is the one of that name, whole, at the same daemon.
pub proof fn law_container_is_got_by_its_name(containers: ContainersView, name: Seq<char>)
    ensures
        containers.get(name).id == name,
        containers.get(name).docker == containers.docker,
{
}

/// Two names never lead to the same container, nor to the same request for one.
pub proof fn law_names_lead_to_containers_of_their_own(
    containers: ContainersView,
    left: Seq<char>,
    right: Seq<char>,
)
    requires
        left != right,
    ensures
        containers.get(left) != containers.get(right),
        containers.get(left).inspect() != containers.get(right).inspect(),
        containers.get(left).start() != containers.get(right).start(),
        containers.get(left).delete() != containers.get(right).delete(),
{
    crate::laws::law_request_names_its_container(
        containers.get(left),
        containers.get(right),
        None,
        left,
        None,
    );
}

/// The image that is got by a name is the one of that name, whole, at the same daemon.
pub proof fn law_image_is_got_by_its_name(images: ImagesView, name: Seq<char>)
    ensures
        images.get(name).name == name,
        images.get(name).docker == images.docker,
{
}

/// Two names never lead to the same image, nor to the same request for one.
pub proof fn law_names_lead_to_images_of_their_own(
    images: ImagesView,
    left: Seq<char>,
    right: Seq<char>,
)
    requires
        left != right,
    ensures
        images.get(left) != images.get(right),
        images.get(left).inspect() != images.get(right).inspect(),
        images.get(left).history() != images.get(right).history(),
        images.get(left).delete() != images.get(right).delete(),
        images.get(left).export() != images.get(right).export(),
{
    crate::laws::law_request_names_its_image(images.get(left), images.get(right));
}

/// A container is read by `GET` below its name, which stands whole in the path.
pub proof fn law_container_is_read(container: ContainerView)
    ensures
        container.inspect() == (RequestView {
            transport: container.docker,
            method: Method::Get,
            endpoint: "/containers/"@ + container.id + "/json"@,
            body: None,
            streamed: false,
        }),
        container.changes() == (RequestView {
            transport: container.docker,
            method: Method::Get,
            endpoint: "/containers/"@ + container.id + "/changes"@,
            body: None,
            streamed: false,
        }),
        container.export() == (RequestView {
            transport: container.docker,
            method: Method::Get,
            endpoint: "/containers/"@ + container.id + "/export"@,
            body: None,
            streamed: true,
        }),
        container.stats() == (RequestView {
            transport: container.docker,
            method: Method::Get,
            endpoint: "/containers/"@ + container.id + "/stats"@,
            body: None,
            streamed: true,
        }),
        container.logs(None) == (RequestView {
            transport: container.docker,
            method: Method::Get,
            endpoint: "/containers/"@ + container.id + "/logs"@,
            body: None,
            streamed: true,
        }),
        container.top(None) == (RequestView {
            transport: container.docker,
            method: Method::Get,
            endpoint: "/containers/"@ + container.id + "/top"@,
            body: None,
            streamed: false,
        }),
{
}

/// A container is changed by `POST` below its name, which stands whole in the path.
pub proof fn law_container_is_changed(container: ContainerView)
    ensures
        container.start() == (RequestView {
            transport: container.docker,
            method: Method::Post,
            endpoint: "/containers/"@ + container.id + "/start"@,
            body: None,
            streamed: false,
        }),
        container.stop(None) == (RequestView {
            transport: container.docker,
            method: Method::Post,
            endpoint: "/containers/"@ + container.id + "/stop"@,
            body: None,
            streamed: false,
        }),
        container.restart(None) == (RequestView {
            transport: container.docker,
            method: Method::Post,
            endpoint: "/containers/"@ + container.id + "/restart"@,
            body: None,
            streamed: false,
        }),
        container.kill(None) == (RequestView {
            transport: container.docker,
            method: Method::Post,
            endpoint: "/containers/"@ + container.id + "/kill"@,
            body: None,
            streamed: false,
        }),
        container.pause() == (RequestView {
            transport: container.docker,
            method: Method::Post,
            endpoint: "/containers/"@ + container.id + "/pause"@,
            body: None,
            streamed: false,
        }),
        container.unpause() == (RequestView {
            transport: container.docker,
            method: Method::Post,
            endpoint: "/containers/"@ + container.id + "/unpause"@,
            body: None,
            streamed: false,
        }),
        container.wait() == (RequestView {
            transport: container.docker,
            method: Method::Post,
            endpoint: "/containers/"@ + container.id + "/wait"@,
            body: None,
            streamed: false,
        }),
{
}

/// A container is removed by `DELETE` of its name, which stands whole in the path.
pub proof fn law_container_is_removed(container: ContainerView)
    ensures
        container.delete() == (RequestView {
            transport: container.docker,
            method: Method::Delete,
            endpoint: "/containers/"@ + container.id,
            body: None,
            streamed: false,
        }),
        container.remove(None) == (RequestView {
            transport: container.docker,
            method: Method::Delete,
            endpoint: "/containers/"@ + container.id,
            body: None,
            streamed: false,
        }),
{
}

/// A wait is added to the request without one as `?t=` and the seconds; nothing else changes.
pub proof fn law_wait_is_added(container: ContainerView, seconds: u64)
    ensures
        container.stop(Some(seconds)) == (RequestView {
            endpoint: container.stop(None).endpoint + "?t="@ + decimal(seconds as nat),
            ..container.stop(None)
        }),
        container.restart(Some(seconds)) == (RequestView {
            endpoint: container.restart(None).endpoint + "?t="@ + decimal(seconds as nat),
            ..container.restart(None)
        }),
{
    reveal_strlit("?");
    reveal_strlit("t=");
    reveal_strlit("?t=");
    law_seconds_are_written_in_decimal(seconds as nat);
    let stop = container.stop(None).endpoint;
    let restart = container.restart(None).endpoint;
    let digits = decimal(seconds as nat);
    assert(stop + "?"@ + ("t="@ + digits) =~= stop + "?t="@ + digits);
    assert(restart + "?"@ + ("t="@ + digits) =~= restart + "?t="@ + digits);
}

proof fn lemma_parameter_of_plain_name(name: Seq<char>, value: Seq<char>)
    requires
        crate::laws::is_plain_text(name),
    ensures
        parameter(name, value) == name + "="@ + escaped(value),
{
    law_plain_text_is_not_escaped(name);
}

/// A text is added to a request as a parameter, escaped as a whole; nothing else changes.
pub proof fn law_parameters_are_added(container: ContainerView, text: Seq<char>)
    ensures
        container.top(Some(text)) == (RequestView {
            endpoint: container.top(None).endpoint + "?ps_args="@ + escaped(text),
            ..container.top(None)
        }),
        container.kill(Some(text)) == (RequestView {
            endpoint: container.kill(None).endpoint + "?signal="@ + escaped(text),
            ..container.kill(None)
        }),
        container.rename(text) == (RequestView {
            transport: container.docker,
            method: Method::Post,
            endpoint: "/containers/"@ + container.id + "/rename?name="@ + escaped(text),
            body: None,
            streamed: false,
        }),
{
    reveal_strlit("?");
    reveal_strlit("=");
    reveal_strlit("ps_args");
    reveal_strlit("?ps_args=");
    reveal_strlit("signal");
    reveal_strlit("?signal=");
    reveal_strlit("name");
    reveal_strlit("/rename?");
    reveal_strlit("/rename?name=");
    lemma_parameter_of_plain_name("ps_args"@, text);
    lemma_parameter_of_plain_name("signal"@, text);
    lemma_parameter_of_plain_name("name"@, text);
    let top = container.top(None).endpoint;
    let kill = container.kill(None).endpoint;
    let path = "/containers/"@ + container.id;
    assert(top + "?"@ + ("ps_args"@ + "="@ + escaped(text)) =~= top + "?ps_args="@ + escaped(text));
    assert(kill + "?"@ + ("signal"@ + "="@ + escaped(text)) =~= kill + "?signal="@ + escaped(text));
    assert(path + "/rename?"@ + ("name"@ + "="@ + escaped(text)) =~= path + "/rename?name="@
        + escaped(text));
}

/// Options are added to a request as they are, behind a `?`; nothing else changes.
pub proof fn law_options_are_added(
    container: ContainerView,
    containers: ContainersView,
    images: ImagesView,
    options: Seq<char>,
    tarball: Seq<u8>,
)
    ensures
        container.logs(Some(options)) == (RequestView {
            endpoint: container.logs(None).endpoint + "?"@ + options,
            ..container.logs(None)
        }),
        container.remove(Some(options)) == (RequestView {
            endpoint: container.remove(None).endpoint + "?"@ + options,
            ..container.remove(None)
        }),
        containers.list(Some(options)) == (RequestView {
            endpoint: containers.list(None).endpoint + "?"@ + options,
            ..containers.list(None)
        }),
        images.list(Some(options)) == (RequestView {
            endpoint: images.list(None).endpoint + "?"@ + options,
            ..images.list(None)
        }),
        images.pull(Some(options)) == (RequestView {
            endpoint: images.pull(None).endpoint + "?"@ + options,
            ..images.pull(None)
        }),
        images.build(Some(options), tarball) == (RequestView {
            endpoint: images.build(None, tarball).endpoint + "?"@ + options,
            ..images.build(None, tarball)
        }),
{
}

/// Containers are listed by `GET`, and made by `POST` of their description in JSON, which is sent
/// as it is.
pub proof fn law_containers_are_listed_and_made(containers: ContainersView, options: Seq<u8>)
    ensures
        containers.list(None) == (RequestView {
            transport: containers.docker,
            method: Method::Get,
            endpoint: "/containers/json"@,
            body: None,
            streamed: false,
        }),
        containers.create(options) == (RequestView {
            transport: containers.docker,
            method: Method::Post,
            endpoint: "/containers/create"@,
            body: Some(BodyView { content: options, content_type: ContentType::Json }),
            streamed: false,
        }),
{
}

/// Images are listed by `GET`; they are pulled by `POST`, and built by `POST` of a tarball, which
/// is sent as it is.
pub proof fn law_images_are_listed_pulled_and_built(images: ImagesView, tarball: Seq<u8>)
    ensures
        images.list(None) == (RequestView {
            transport: images.docker,
            method: Method::Get,
            endpoint: "/images/json"@,
            body: None,
            streamed: false,
        }),
        images.pull(None) == (RequestView {
            transport: images.docker,
            method: Method::Post,
            endpoint: "/images/create"@,
            body: None,
            streamed: true,
        }),
        images.build(None, tarball) == (RequestView {
            transport: images.docker,
            method: Method::Post,
            endpoint: "/build"@,
            body: Some(BodyView { content: tarball, content_type: ContentType::Tar }),
            streamed: true,
        }),
{
}

/// Images are searched for by a term, which is escaped as a whole.
pub proof fn law_images_are_searched_for(images: ImagesView, term: Seq<char>)
    ensures
        images.search(term) == (RequestView {
            transport: images.docker,
            method: Method::Get,
            endpoint: "/images/search?term="@ + escaped(term),
            body: None,
            streamed: false,
        }),
{
    reveal_strlit("=");
    reveal_strlit("term");
    reveal_strlit("/images/search?");
    reveal_strlit("/images/search?term=");
    lemma_parameter_of_plain_name("term"@, term);
    assert("/images/search?"@ + ("term"@ + "="@ + escaped(term)) =~= "/images/search?term="@
        + escaped(term));
}

/// An image is read by `GET` below its name and removed by `DELETE` of its name, which stands whole
/// in the path.
pub proof fn law_image_is_read_and_removed(image: ImageView)
    ensures
        image.inspect() == (RequestView {
            transport: image.docker,
            method: Method::Get,
            endpoint: "/images/"@ + image.name + "/json"@,
            body: None,
            streamed: false,
        }),
        image.history() == (RequestView {
            transport: image.docker,
            method: Method::Get,
            endpoint: "/images/"@ + image.name + "/history"@,
            body: None,
            streamed: false,
        }),
        image.export() == (RequestView {
            transport: image.docker,
            method: Method::Get,
            endpoint: "/images/"@ + image.name + "/get"@,
            body: None,
            streamed: true,
        }),
        image.delete() == (RequestView {
            transport: image.docker,
            method: Method::Delete,
            endpoint: "/images/"@ + image.name,
            body: None,
            streamed: false,
        }),
{
}

/// Images are exported by their names, one parameter for each: the request for no image has none,
/// and one more name adds one more parameter at the end and changes nothing else.
pub proof fn law_images_are_exported(images: ImagesView, names: Seq<Seq<char>>, name: Seq<char>)
    ensures
        images.export(seq![]) == (RequestView {
            transport: images.docker,
            method: Method::Get,
            endpoint: "/images/get?"@,
            body: None,
            streamed: true,
        }),
        images.export(seq![name]) == (RequestView {
            endpoint: "/images/get?names="@ + escaped(name),
            ..images.export(seq![])
        }),
        names.len() > 0 ==> images.export(names.push(name)) == (RequestView {
            endpoint: images.export(names).endpoint + "&names="@ + escaped(name),
            ..images.export(names)
        }),
{
    reveal_strlit("=");
    reveal_strlit("&");
    reveal_strlit("names");
    reveal_strlit("&names=");
    reveal_strlit("/images/get?");
    reveal_strlit("/images/get?names=");
    lemma_parameter_of_plain_name("names"@, name);
    let head = "/images/get?"@;
    let none = Seq::<Seq<char>>::empty();
    assert(name_parameters(none) =~= seq![]);
    assert(head + seq![] =~= head);
    assert(name_parameters(seq![name]) =~= seq![("names"@, name)]);
    assert(head + ("names"@ + "="@ + escaped(name)) =~= "/images/get?names="@ + escaped(name));
    if names.len() > 0 {
        let longer = name_parameters(names.push(name));
        assert(longer =~= name_parameters(names).push(("names"@, name)));
        assert(longer.drop_last() =~= name_parameters(names));
        let before = crate::form::form(name_parameters(names));
        assert(head + (before + "&"@ + ("names"@ + "="@ + escaped(name))) =~= head + before
            + "&names="@ + escaped(name));
    }
}

/// The seconds of a wait can be read off its request: they are digits, and the digits stand for
/// them.
pub proof fn law_wait_can_be_read_off(container: ContainerView, seconds: u64)
    ensures
        ({
            let start: int = 3int + container.stop(None).endpoint.len();
            let digits = container.stop(Some(seconds)).endpoint.skip(start);
            crate::text::number_of(digits) == seconds && crate::text::is_number(digits)
        }),
        ({
            let start: int = 3int + container.restart(None).endpoint.len();
            let digits = container.restart(Some(seconds)).endpoint.skip(start);
            crate::text::number_of(digits) == seconds && crate::text::is_number(digits)
        }),
{
    reveal_strlit("?t=");
    law_wait_is_added(container, seconds);
    law_decimal_is_written_in_digits(seconds as nat);
    let stop = container.stop(Some(seconds)).endpoint;
    let restart = container.restart(Some(seconds)).endpoint;
    let digits = decimal(seconds as nat);
    assert(stop.skip(3int + container.stop(None).endpoint.len()) =~= digits);
    assert(restart.skip(3int + container.restart(None).endpoint.len()) =~= digits);
}

/// A request is seen as it is: nothing of it is left out.
pub proof fn law_requests_are_seen_whole(request: Request<'_>, body: Body)
    ensures
        request@.transport == request.transport@,
        request@.method == request.method,
        request@.endpoint == request.endpoint@,
        request@.streamed == request.streamed,
        request@.body is Some <==> request.body is Some,
        request.body is Some ==> request@.body->0 == request.body->0@,
        body@.content == body.content@,
        body@.content_type == body.content_type,
{
}

/// A way to a daemon is seen as it is: nothing of it is left out.
pub proof fn law_transports_are_seen_whole(path: String, host: String, files: TlsFiles)
    ensures
        (Transport::Unix { path })@ == (TransportView::Unix { path: path@ }),
        (Transport::Tcp { host, tls: None })@ == (TransportView::Tcp { host: host@, tls: None }),
        (Transport::Tcp { host, tls: Some(files) })@ == (TransportView::Tcp {
            host: host@,
            tls: Some(files@),
        }),
        files@.cert == files.cert@,
        files@.key == files.key@,
        files@.ca is Some <==> files.ca is Some,
        files.ca is Some ==> files@.ca->0 == files.ca->0@,
{
}

} // verus!
