//! The daemon's error type, its text and the HTTP status it is answered with.

use vstd::prelude::*;
use vstd::std_specs::convert::FromSpecImpl;
use toml::de::Error as TomlDeError;
use crate::text::concat;

verus! {

/// `std::io::Error`, carried through opaquely.
#[verifier::external_type_specification]
#[verifier::external_body]
pub struct ExIoError(std::io::Error);

/// `toml::de::Error`, carried through opaquely.
#[verifier::external_type_specification]
#[verifier::external_body]
pub struct ExTomlError(TomlDeError);

/// Everything that can go wrong in the daemon.
#[derive(Debug)]
pub enum Error {
    NotFound(String),
    SpawnFailed(String),
    Io(std::io::Error),
    Config(String),
    Bridge(String),
}

/// The text `e` renders to through its `Display` impl is `t`.
pub open spec fn renders_as<T: std::fmt::Display>(e: &T, t: String) -> bool {
    vstd::string::to_string_from_display_ensures::<T>(e, t)
}

/// `e` is a bridge error whose text is `m`.
pub open spec fn is_bridge_error(e: Error, m: Seq<char>) -> bool {
    e matches Error::Bridge(x) && x@ == m
}

impl Error {
    /// The human-readable text of the error, as its `Display` impl writes it.
    pub fn message(&self) -> (r: String)
        ensures
            match self {
                Error::NotFound(id) => r@ == "shell not found: "@ + id@,
                Error::SpawnFailed(msg) => r@ == "spawn failed: "@ + msg@,
                Error::Io(e) => exists|t: String| renders_as(e, t) && r@ == "io: "@ + t@,
                Error::Config(msg) => r@ == "config: "@ + msg@,
                Error::Bridge(msg) => r@ == "bridge: "@ + msg@,
            },
    {
        match self {
            Error::NotFound(id) => {
                concat("shell not found: ", id.as_str())
            },
            Error::SpawnFailed(msg) => {
                concat("spawn failed: ", msg.as_str())
            },
            Error::Io(e) => {
                let t = e.to_string();
                assert(renders_as(e, t));
                concat("io: ", t.as_str())
            },
            Error::Config(msg) => {
                concat("config: ", msg.as_str())
            },
            Error::Bridge(msg) => {
                concat("bridge: ", msg.as_str())
            },
        }
    }

    /// The HTTP status an API response carrying this error has:
    /// 404 for a missing shell, 500 for everything else.
    pub fn status_code(&self) -> (r: u16)
        ensures
            r == (if self is NotFound { 404u16 } else { 500u16 }),
    {
        match self {
            Error::NotFound(_) => 404,
            _ => 500,
        }
    }
}

impl From<std::io::Error> for Error {
    fn from(e: std::io::Error) -> (r: Self) {
        Error::Io(e)
    }
}

impl FromSpecImpl<std::io::Error> for Error {
    open spec fn obeys_from_spec() -> bool {
        true
    }

    open spec fn from_spec(v: std::io::Error) -> Error {
        Error::Io(v)
    }
}

impl From<TomlDeError> for Error {
    /// A configuration error, carrying the text toml renders for `e`.
    fn from(e: TomlDeError) -> (r: Self)
        ensures
            exists|t: String| renders_as(&e, t) && r == Error::Config(t),
    {
        let t = e.to_string();
        assert(renders_as(&e, t));
        Error::Config(t)
    }
}

impl FromSpecImpl<TomlDeError> for Error {
    /// toml's rendering of an error is not a function that Verus can see, so
    /// `from` is held to its own `ensures` and to no `from_spec`.
    open spec fn obeys_from_spec() -> bool {
        false
    }

    open spec fn from_spec(v: TomlDeError) -> Error {
        Error::Config(choose|t: String| renders_as(&v, t))
    }
}

} // verus!
