//! The parameters of a run, as a request names them.

use crate::number::{parse_unsigned, unsigned_of};
use crate::section::Limits;
use vstd::prelude::*;

verus! {

/// Name of the parameter that names the collection.
pub const COLLECTION_NAME: &'static str = "collection_name";

/// Name of the parameter that gives the length of the vectors.
pub const VECTOR_SIZE: &'static str = "vector_size";

/// Name of the parameter whose presence asks for an empty collection.
pub const RESET: &'static str = "reset";

/// How often the embedding service is asked again for one section.
pub const EMBED_RETRY_TIMES: u8 = 3;

/// Why a request cannot be run.
#[derive(Clone, Copy, Debug, PartialEq, Eq, Structural)]
pub enum ConfigError {
    /// No collection is named.
    MissingCollectionName,
    /// No vector length is given.
    MissingVectorSize,
    /// The vector length is no unsigned integer of 64 bits.
    MalformedVectorSize,
}

/// The parameters of a run as values of mathematics.
pub struct RunConfigView {
    pub collection_name: Seq<char>,
    pub vector_size: u64,
    pub reset: bool,
    pub limits: Limits,
}

/// The parameters of a run.
#[derive(Clone, Debug, PartialEq, Eq)]
pub struct RunConfig {
    /// The collection that the points go to.
    pub collection_name: String,
    /// The length of the vectors of the collection.
    pub vector_size: u64,
    /// Whether the collection is emptied first.
    pub reset: bool,
    /// The thresholds of the sectionizer.
    pub limits: Limits,
}

impl View for RunConfig {
    type V = RunConfigView;

    open spec fn view(&self) -> RunConfigView {
        RunConfigView {
            collection_name: self.collection_name@,
            vector_size: self.vector_size,
            reset: self.reset,
            limits: self.limits,
        }
    }
}

/// What the parameters of a request amount to. The collection's name is
/// looked at first, then the presence of the vector length, then its
/// value; the thresholds are the standard ones.
pub open spec fn config_of(
    collection_name: Option<Seq<char>>,
    vector_size: Option<Seq<char>>,
    reset: bool,
) -> Result<RunConfigView, ConfigError> {
    match collection_name {
        None => Err(ConfigError::MissingCollectionName),
        Some(name) => match vector_size {
            None => Err(ConfigError::MissingVectorSize),
            Some(size) => match unsigned_of(size) {
                None => Err(ConfigError::MalformedVectorSize),
                Some(n) => Ok(
                    RunConfigView {
                        collection_name: name,
                        vector_size: n,
                        reset,
                        limits: Limits {
                            soft_limit: crate::section::CHAR_SOFT_LIMIT,
                            soft_minimum: crate::section::CHAR_SOFT_MINIMUM,
                        },
                    },
                ),
            },
        },
    }
}

/// The view of what `from_query` returns.
pub open spec fn config_view(config: Result<RunConfig, ConfigError>) -> Result<
    RunConfigView,
    ConfigError,
> {
    match config {
        Ok(c) => Ok(c@),
        Err(e) => Err(e),
    }
}

/// The view of an optional string slice.
pub open spec fn text_view(text: Option<&str>) -> Option<Seq<char>> {
    match text {
        Some(t) => Some(t@),
        None => None,
    }
}

impl RunConfig {
    /// Reads the parameters of a request: the value of `collection_name`
    /// and that of `vector_size`, each if present, and whether `reset` is
    /// present.
    pub fn from_query(collection_name: Option<&str>, vector_size: Option<&str>, reset: bool) -> (config:
        Result<RunConfig, ConfigError>)
        ensures
            config_view(config) == config_of(
                text_view(collection_name),
                text_view(vector_size),
                reset,
            ),
    {
        let name = match collection_name {
            Some(name) => name,
            None => {
                return Err(ConfigError::MissingCollectionName);
            },
        };
        let size = match vector_size {
            Some(size) => size,
            None => {
                return Err(ConfigError::MissingVectorSize);
            },
        };
        match parse_unsigned(size) {
            Some(n) => Ok(
                RunConfig {
                    collection_name: name.to_owned(),
                    vector_size: n,
                    reset,
                    limits: Limits::default(),
                },
            ),
            None => Err(ConfigError::MalformedVectorSize),
        }
    }
}

} // verus!
