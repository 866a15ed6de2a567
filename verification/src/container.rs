//! Docker containers.
use vstd::prelude::*;
use vstd::string::*;

use crate::docker::Docker;
use crate::form::{parameter, serialize_one};
use crate::text::{concat, decimal, decimal_text, enclose, join_query, optional_text, with_query};
use crate::transport::{Body, BodyView, ContentType, Request, RequestView, TransportView};

verus! {

/// Interface for accessing and manipulating a docker container
pub struct Container<'a, 'b> {
    docker: &'a Docker,
    id: &'b str,
}

/// Interface for docker containers
pub struct Containers<'a> {
    docker: &'a Docker,
}

pub ghost struct ContainerView {
    /// The daemon that the container is with.
    pub docker: TransportView,
    pub id: Seq<char>,
}

pub ghost struct ContainersView {
    /// The daemon that the containers are with.
    pub docker: TransportView,
}

impl<'a, 'b> View for Container<'a, 'b> {
    type V = ContainerView;

    closed spec fn view(&self) -> ContainerView {
        ContainerView { docker: self.docker@, id: self.id@ }
    }
}

impl<'a> View for Containers<'a> {
    type V = ContainersView;

    closed spec fn view(&self) -> ContainersView {
        ContainersView { docker: self.docker@ }
    }
}

/// A parameter that may be absent.
pub open spec fn optional_parameter(
    name: Seq<char>,
    value: Option<Seq<char>>,
) -> Option<Seq<char>> {
    match value {
        Some(value) => Some(parameter(name, value)),
        None => None,
    }
}

/// A number of seconds that may be absent.
pub open spec fn optional_seconds(seconds: Option<u64>) -> Option<Seq<char>> {
    match seconds {
        Some(seconds) => Some(decimal(seconds as nat)),
        None => None,
    }
}

impl ContainerView {
    /// The path of an operation on the container.
    pub open spec fn path(self, operation: Seq<char>) -> Seq<char> {
        "/containers/"@ + self.id + operation
    }

    pub open spec fn inspect(self) -> RequestView {
        self.docker.get(self.path("/json"@))
    }

    pub open spec fn top(self, psargs: Option<Seq<char>>) -> RequestView {
        self.docker.get(with_query(self.path("/top"@), optional_parameter("ps_args"@, psargs)))
    }

    pub open spec fn logs(self, query: Option<Seq<char>>) -> RequestView {
        self.docker.stream_get(with_query(self.path("/logs"@), query))
    }

    pub open spec fn changes(self) -> RequestView {
        self.docker.get(self.path("/changes"@))
    }

    pub open spec fn export(self) -> RequestView {
        self.docker.stream_get(self.path("/export"@))
    }

    pub open spec fn stats(self) -> RequestView {
        self.docker.stream_get(self.path("/stats"@))
    }

    pub open spec fn start(self) -> RequestView {
        self.docker.post(self.path("/start"@), None)
    }

    pub open spec fn stop(self, wait: Option<u64>) -> RequestView {
        self.docker.post(
            with_query(self.path("/stop"@), optional_parameter("t"@, optional_seconds(wait))),
            None,
        )
    }

    pub open spec fn restart(self, wait: Option<u64>) -> RequestView {
        self.docker.post(
            with_query(self.path("/restart"@), optional_parameter("t"@, optional_seconds(wait))),
            None,
        )
    }

    pub open spec fn kill(self, signal: Option<Seq<char>>) -> RequestView {
        self.docker.post(
            with_query(self.path("/kill"@), optional_parameter("signal"@, signal)),
            None,
        )
    }

    pub open spec fn rename(self, name: Seq<char>) -> RequestView {
        self.docker.post(self.path("/rename?"@) + parameter("name"@, name), None)
    }

    pub open spec fn pause(self) -> RequestView {
        self.docker.post(self.path("/pause"@), None)
    }

    pub open spec fn unpause(self) -> RequestView {
        self.docker.post(self.path("/unpause"@), None)
    }

    pub open spec fn wait(self) -> RequestView {
        self.docker.post(self.path("/wait"@), None)
    }

    pub open spec fn delete(self) -> RequestView {
        self.docker.delete("/containers/"@ + self.id)
    }

    pub open spec fn remove(self, query: Option<Seq<char>>) -> RequestView {
        self.docker.delete(with_query("/containers/"@ + self.id, query))
    }
}

impl ContainersView {
    pub open spec fn list(self, query: Option<Seq<char>>) -> RequestView {
        self.docker.get(with_query("/containers/json"@, query))
    }

    pub open spec fn get(self, name: Seq<char>) -> ContainerView {
        ContainerView { docker: self.docker, id: name }
    }

    pub open spec fn create(self, options: Seq<u8>) -> RequestView {
        self.docker.post(
            "/containers/create"@,
            Some(BodyView { content: options, content_type: ContentType::Json }),
        )
    }
}

/// Adds a parameter to a path where it is given.
fn join_parameter(path: String, name: &str, value: Option<&str>) -> (endpoint: String)
    ensures
        endpoint@ == with_query(path@, optional_parameter(name@, optional_text(value))),
{
    match value {
        Some(value) => {
            let encoded = serialize_one(name, value);
            join_query(path, Some(encoded.as_str()))
        },
        None => path,
    }
}

/// Adds a number of seconds to a path where it is given.
fn join_seconds(path: String, seconds: Option<u64>) -> (endpoint: String)
    ensures
        endpoint@ == with_query(path@, optional_parameter("t"@, optional_seconds(seconds))),
{
    match seconds {
        Some(seconds) => {
            let text = decimal_text(seconds);
            join_parameter(path, "t", Some(text.as_str()))
        },
        None => path,
    }
}

impl<'a, 'b> Container<'a, 'b> {
    /// Exports an interface exposing operations against a container instance
    pub fn new(docker: &'a Docker, id: &'b str) -> (container: Container<'a, 'b>)
        ensures
            container@ == (ContainerView { docker: docker@, id: id@ }),
    {
        Container { docker, id }
    }

    /// a getter for the container id
    pub fn id(&self) -> (id: &str)
        ensures
            id@ == self@.id,
    {
        self.id
    }

    /// The path of an operation on the container.
    fn path(&self, operation: &str) -> (path: String)
        ensures
            path@ == self@.path(operation@),
    {
        enclose("/containers/", self.id, operation)
    }

    /// Inspects the current docker container instance's details
    pub fn inspect(&self) -> (request: Request<'a>)
        ensures
            request@ == self@.inspect(),
    {
        self.docker.get(self.path("/json"))
    }

    /// Returns a `top` view of information about the container process
    pub fn top(&self, psargs: Option<&str>) -> (request: Request<'a>)
        ensures
            request@ == self@.top(optional_text(psargs)),
    {
        self.docker.get(join_parameter(self.path("/top"), "ps_args", psargs))
    }

    /// Returns a stream of logs emitted but the container instance. `query` holds the options.
    pub fn logs(&self, query: Option<&str>) -> (request: Request<'a>)
        ensures
            request@ == self@.logs(optional_text(query)),
    {
        self.docker.stream_get(join_query(self.path("/logs"), query))
    }

    /// Returns a set of changes made to the container instance
    pub fn changes(&self) -> (request: Request<'a>)
        ensures
            request@ == self@.changes(),
    {
        self.docker.get(self.path("/changes"))
    }

    /// Exports the current docker container into a tarball
    pub fn export(&self) -> (request: Request<'a>)
        ensures
            request@ == self@.export(),
    {
        self.docker.stream_get(self.path("/export"))
    }

    /// Returns a stream of stats specific to this container instance
    pub fn stats(&self) -> (request: Request<'a>)
        ensures
            request@ == self@.stats(),
    {
        self.docker.stream_get(self.path("/stats"))
    }

    /// Start the container instance
    pub fn start(&self) -> (request: Request<'a>)
        ensures
            request@ == self@.start(),
    {
        self.docker.post(self.path("/start"), None)
    }

    /// Stop the container instance, which has `wait` seconds to stop by itself
    pub fn stop(&self, wait: Option<u64>) -> (request: Request<'a>)
        ensures
            request@ == self@.stop(wait),
    {
        self.docker.post(join_seconds(self.path("/stop"), wait), None)
    }

    /// Restart the container instance, which has `wait` seconds to stop by itself
    pub fn restart(&self, wait: Option<u64>) -> (request: Request<'a>)
        ensures
            request@ == self@.restart(wait),
    {
        self.docker.post(join_seconds(self.path("/restart"), wait), None)
    }

    /// Kill the container instance
    pub fn kill(&self, signal: Option<&str>) -> (request: Request<'a>)
        ensures
            request@ == self@.kill(optional_text(signal)),
    {
        self.docker.post(join_parameter(self.path("/kill"), "signal", signal), None)
    }

    /// Rename the container instance
    pub fn rename(&self, name: &str) -> (request: Request<'a>)
        ensures
            request@ == self@.rename(name@),
    {
        let query = serialize_one("name", name);
        self.docker.post(concat(self.path("/rename?").as_str(), query.as_str()), None)
    }

    /// Pause the container instance
    pub fn pause(&self) -> (request: Request<'a>)
        ensures
            request@ == self@.pause(),
    {
        self.docker.post(self.path("/pause"), None)
    }

    /// Unpause the container instance
    pub fn unpause(&self) -> (request: Request<'a>)
        ensures
            request@ == self@.unpause(),
    {
        self.docker.post(self.path("/unpause"), None)
    }

    /// Wait until the container stops
    pub fn wait(&self) -> (request: Request<'a>)
        ensures
            request@ == self@.wait(),
    {
        self.docker.post(self.path("/wait"), None)
    }

    /// Delete the container instance
    /// use remove instead to use the force/v options
    pub fn delete(&self) -> (request: Request<'a>)
        ensures
            request@ == self@.delete(),
    {
        self.docker.delete(concat("/containers/", self.id))
    }

    /// Delete the container instance. `query` holds the options.
    pub fn remove(&self, query: Option<&str>) -> (request: Request<'a>)
        ensures
            request@ == self@.remove(optional_text(query)),
    {
        self.docker.delete(join_query(concat("/containers/", self.id), query))
    }
}

impl<'a> Containers<'a> {
    /// Exports an interface for interacting with docker containers
    pub fn new(docker: &'a Docker) -> (containers: Containers<'a>)
        ensures
            containers@ == (ContainersView { docker: docker@ }),
    {
        Containers { docker }
    }

    /// Lists the container instances on the docker host. `query` holds the options.
    pub fn list(&self, query: Option<&str>) -> (request: Request<'a>)
        ensures
            request@ == self@.list(optional_text(query)),
    {
        self.docker.get(join_query("/containers/json".to_owned(), query))
    }

    /// Returns a reference to a set of operations available to a specific container instance
    pub fn get<'b>(&self, name: &'b str) -> (container: Container<'a, 'b>)
        ensures
            container@ == self@.get(name@),
            container@.id == name@,
            container@.docker == self@.docker,
    {
        Container::new(self.docker, name)
    }

    /// Creates a new container instance. `options` describes it, in JSON.
    pub fn create(&self, options: &str) -> (request: Request<'a>)
        ensures
            request@ == self@.create(options.spec_bytes()),
    {
        let body = Body { content: options.as_bytes_vec(), content_type: ContentType::Json };
        self.docker.post("/containers/create".to_owned(), Some(body))
    }
}

} // verus!
