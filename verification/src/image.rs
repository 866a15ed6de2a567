//! Docker images.
use vstd::prelude::*;

use crate::docker::Docker;
use crate::form::{form, pairs_text, parameter, serialize, serialize_one};
use crate::events::{parse_steps, parsed_steps, reply_of};
use crate::json::{is_readable, Reply};
use crate::rep::{removal_of, Error, Status};
use crate::text::{concat, enclose, join_query, optional_text, with_query};
use crate::transport::{Body, BodyView, ContentType, Request, RequestView, TransportView};

verus! {

/// Interface for accessing and manipulating a named docker image
pub struct Image<'a, 'b> {
    docker: &'a Docker,
    name: &'b str,
}

/// Interface for docker images
pub struct Images<'a> {
    docker: &'a Docker,
}

pub ghost struct ImageView {
    /// The daemon that the image is with.
    pub docker: TransportView,
    pub name: Seq<char>,
}

pub ghost struct ImagesView {
    /// The daemon that the images are with.
    pub docker: TransportView,
}

impl<'a, 'b> View for Image<'a, 'b> {
    type V = ImageView;

    closed spec fn view(&self) -> ImageView {
        ImageView { docker: self.docker@, name: self.name@ }
    }
}

impl<'a> View for Images<'a> {
    type V = ImagesView;

    closed spec fn view(&self) -> ImagesView {
        ImagesView { docker: self.docker@ }
    }
}

impl ImageView {
    pub open spec fn inspect(self) -> RequestView {
        self.docker.get("/images/"@ + self.name + "/json"@)
    }

    pub open spec fn history(self) -> RequestView {
        self.docker.get("/images/"@ + self.name + "/history"@)
    }

    pub open spec fn delete(self) -> RequestView {
        self.docker.delete("/images/"@ + self.name)
    }

    pub open spec fn export(self) -> RequestView {
        self.docker.stream_get("/images/"@ + self.name + "/get"@)
    }
}

/// The parameters that say which images to export.
pub open spec fn name_parameters(names: Seq<Seq<char>>) -> Seq<(Seq<char>, Seq<char>)> {
    names.map_values(|name: Seq<char>| ("names"@, name))
}

/// The characters of a list of texts.
pub open spec fn texts(list: Seq<&str>) -> Seq<Seq<char>> {
    list.map_values(|text: &str| text@)
}

impl ImagesView {
    pub open spec fn build(self, query: Option<Seq<char>>, tarball: Seq<u8>) -> RequestView {
        self.docker.stream_post(
            with_query("/build"@, query),
            Some(BodyView { content: tarball, content_type: ContentType::Tar }),
        )
    }

    pub open spec fn list(self, query: Option<Seq<char>>) -> RequestView {
        self.docker.get(with_query("/images/json"@, query))
    }

    pub open spec fn get(self, name: Seq<char>) -> ImageView {
        ImageView { docker: self.docker, name }
    }

    pub open spec fn search(self, term: Seq<char>) -> RequestView {
        self.docker.get("/images/search?"@ + parameter("term"@, term))
    }

    pub open spec fn pull(self, query: Option<Seq<char>>) -> RequestView {
        self.docker.stream_post(with_query("/images/create"@, query), None)
    }

    pub open spec fn export(self, names: Seq<Seq<char>>) -> RequestView {
        self.docker.stream_get("/images/get?"@ + form(name_parameters(names)))
    }
}

impl<'a, 'b> Image<'a, 'b> {
    /// Exports an interface for operations that may be performed against a named image
    pub fn new(docker: &'a Docker, name: &'b str) -> (image: Image<'a, 'b>)
        ensures
            image@ == (ImageView { docker: docker@, name: name@ }),
    {
        Image { docker, name }
    }

    /// Inspects a named image's details
    pub fn inspect(&self) -> (request: Request<'a>)
        ensures
            request@ == self@.inspect(),
    {
        self.docker.get(enclose("/images/", self.name, "/json"))
    }

    /// Lists the history of the images set of changes
    pub fn history(&self) -> (request: Request<'a>)
        ensures
            request@ == self@.history(),
    {
        self.docker.get(enclose("/images/", self.name, "/history"))
    }

    /// Delete's an image. [`Image::deleted`] reads the reply.
    pub fn delete(&self) -> (request: Request<'a>)
        ensures
            request@ == self@.delete(),
    {
        self.docker.delete(concat("/images/", self.name))
    }

    /// Reads the reply to [`Image::delete`]: what became of each layer of the image.
    pub fn deleted(reply: &str) -> (statuses: Result<Vec<Status>, Error>)
        ensures
            !is_readable(reply@) ==> statuses == Err::<Vec<Status>, Error>(Error::Unsupported),
            is_readable(reply@) ==> match reply_of(parsed_steps(reply@)) {
                Err(error) => statuses == Err::<Vec<Status>, Error>(error),
                Ok(value) => match removal_of(value) {
                    Err(fault) => statuses == Err::<Vec<Status>, Error>(Error::Unexpected(fault)),
                    Ok(expected) => statuses is Ok && statuses->Ok_0@.map_values(
                        |status: Status| status@,
                    ) == expected,
                },
            },
    {
        if !Reply::can_parse(reply) {
            return Err(Error::Unsupported);
        }
        match Reply::from_steps(parse_steps(reply)) {
            Err(error) => Err(error),
            Ok(value) => match Status::from_reply(&value) {
                Err(fault) => Err(Error::Unexpected(fault)),
                Ok(statuses) => Ok(statuses),
            },
        }
    }

    /// Export this image to a tarball
    pub fn export(&self) -> (request: Request<'a>)
        ensures
            request@ == self@.export(),
    {
        self.docker.stream_get(enclose("/images/", self.name, "/get"))
    }
}

impl<'a> Images<'a> {
    /// Exports an interface for interacting with docker images
    pub fn new(docker: &'a Docker) -> (images: Images<'a>)
        ensures
            images@ == (ImagesView { docker: docker@ }),
    {
        Images { docker }
    }

    /// Builds a new image build by reading a Dockerfile in a target directory. `query` holds the
    /// options, and `tarball` the files of the directory. `BuildOutput::from_item` reads each
    /// value of the reply.
    pub fn build(&self, query: Option<&str>, tarball: Vec<u8>) -> (request: Request<'a>)
        ensures
            request@ == self@.build(optional_text(query), tarball@),
    {
        let body = Body { content: tarball, content_type: ContentType::Tar };
        self.docker.stream_post(join_query("/build".to_owned(), query), Some(body))
    }

    /// Lists the docker images on the current docker host. `query` holds the options.
    pub fn list(&self, query: Option<&str>) -> (request: Request<'a>)
        ensures
            request@ == self@.list(optional_text(query)),
    {
        self.docker.get(join_query("/images/json".to_owned(), query))
    }

    /// Returns a reference to a set of operations available for a named image
    pub fn get<'b>(&self, name: &'b str) -> (image: Image<'a, 'b>)
        ensures
            image@ == self@.get(name@),
            image@.name == name@,
            image@.docker == self@.docker,
    {
        Image::new(self.docker, name)
    }

    /// Search for docker images by term
    pub fn search(&self, term: &str) -> (request: Request<'a>)
        ensures
            request@ == self@.search(term@),
    {
        let query = serialize_one("term", term);
        self.docker.get(concat("/images/search?", query.as_str()))
    }

    /// Pull and create a new docker images from an existing image. `query` holds the options.
    /// `PullOutput::from_item` reads each value of the reply.
    pub fn pull(&self, query: Option<&str>) -> (request: Request<'a>)
        ensures
            request@ == self@.pull(optional_text(query)),
    {
        self.docker.stream_post(join_query("/images/create".to_owned(), query), None)
    }

    /// exports a collection of named images,
    /// either by name, name:tag, or image id, into a tarball
    pub fn export(&self, names: Vec<&str>) -> (request: Request<'a>)
        ensures
            request@ == self@.export(texts(names@)),
    {
        let mut params: Vec<(&str, &str)> = Vec::new();
        let mut at: usize = 0;
        while at < names.len()
            invariant
                at <= names.len(),
                pairs_text(params@) == name_parameters(texts(names@.take(at as int))),
            decreases names.len() - at,
        {
            let ghost before = params@;
            params.push(("names", names[at]));
            assert(pairs_text(params@) =~= pairs_text(before).push(("names"@, names[at as int]@)));
            assert(name_parameters(texts(names@.take(at + 1))) =~= name_parameters(
                texts(names@.take(at as int)),
            ).push(("names"@, names[at as int]@)));
            at = at + 1;
        }
        assert(names@.take(at as int) =~= names@);
        let query = serialize(&params);
        self.docker.stream_get(concat("/images/get?", query.as_str()))
    }
}

} // verus!
