//! Shiplift is a multi-transport utility for maneuvering [docker](https://www.docker.com/)
//! containers.
//!
//! The library says what to ask of a Docker daemon and what its replies mean; it does no input or
//! output of its own. A [`Docker`] knows the way to its daemon. Each operation on it, on its
//! images and on its containers gives the [`Request`] to send, and the types in [`rep`] read the
//! replies that are not plain records.
//!
//! ```ignore
//! let docker = shiplift::Docker::new(None, None, false).expect("invalid url");
//! let request = docker.images().list(None);
//! assert_eq!(request.endpoint, "/images/json");
//! ```
pub mod address;
pub mod api;
pub mod container;
pub mod docker;
pub mod events;
pub mod form;
pub mod hostname;
pub mod image;
pub mod json;
pub mod laws;
pub mod rep;
pub mod text;
pub mod transport;
pub mod tree;

pub use address::{Host, SchemeData, Url};
pub use container::{Container, Containers};
pub use docker::{AddressError, Docker};
pub use image::{Image, Images};
pub use rep::Error;
pub use transport::{Body, ContentType, Method, Request, TlsFiles, Transport};
