//! Streams from an OpenDAL operator: the parameters and the metadata the
//! stream reports; the reader lives with the I/O.
use vstd::prelude::*;

use crate::storage::ContentLength;

verus! {

/// Operators of `opendal`.
#[verifier::external_type_specification]
#[verifier::external_body]
pub struct ExOperator(opendal::Operator);

/// The chunk size a stream reads with unless set.
pub const DEFAULT_CHUNK_SIZE: usize = 4096;

/// Parameters for an OpenDAL stream: the operator, the object path, and the
/// size of the chunks read.
#[derive(Debug)]
pub struct OpenDalStreamParams {
    operator: opendal::Operator,
    path: String,
    chunk_size: usize,
}

impl OpenDalStreamParams {
    /// The operator.
    pub closed spec fn spec_operator(&self) -> opendal::Operator {
        self.operator
    }

    /// The object path.
    pub closed spec fn spec_path(&self) -> Seq<char> {
        self.path@
    }

    /// The chunk size.
    pub closed spec fn spec_chunk_size(&self) -> usize {
        self.chunk_size
    }

    /// Parameters for the object at `path`, read in chunks of 4096 bytes.
    pub fn new(operator: opendal::Operator, path: String) -> (r: Self)
        ensures
            r.spec_operator() == operator,
            r.spec_path() == path@,
            r.spec_chunk_size() == DEFAULT_CHUNK_SIZE,
    {
        OpenDalStreamParams { operator, path, chunk_size: DEFAULT_CHUNK_SIZE }
    }

    /// Sets the chunk size (non-zero).
    pub fn chunk_size(self, chunk_size: usize) -> (r: Self)
        requires
            chunk_size > 0,
        ensures
            r.spec_operator() == self.spec_operator(),
            r.spec_path() == self.spec_path(),
            r.spec_chunk_size() == chunk_size,
    {
        OpenDalStreamParams { chunk_size, ..self }
    }

    /// The operator, the path and the chunk size.
    pub fn into_parts(self) -> (r: (opendal::Operator, String, usize))
        ensures
            r.0 == self.spec_operator(),
            r.1@ == self.spec_path(),
            r.2 == self.spec_chunk_size(),
    {
        (self.operator, self.path, self.chunk_size)
    }
}

/// What an OpenDAL stream reports: its length, when the metadata holds one,
/// its content type, and its chunk size.
#[derive(Debug)]
pub struct OpenDalStream {
    content_length: Option<u64>,
    content_type: Option<String>,
    capacity: usize,
}

impl OpenDalStream {
    /// The content length.
    pub closed spec fn spec_content_length(&self) -> Option<u64> {
        self.content_length
    }

    /// The content type.
    pub closed spec fn spec_content_type(&self) -> Option<Seq<char>> {
        match self.content_type {
            Some(t) => Some(t@),
            None => None,
        }
    }

    /// The chunk size.
    pub closed spec fn spec_capacity(&self) -> usize {
        self.capacity
    }

    /// The metadata of a stream read from an object.
    pub fn new(content_length: Option<u64>, content_type: Option<String>, capacity: usize) -> (r: Self)
        ensures
            r.spec_content_length() == content_length,
            r.spec_content_type() == match content_type {
                Some(t) => Some(t@),
                None => None::<Seq<char>>,
            },
            r.spec_capacity() == capacity,
    {
        OpenDalStream { content_length, content_type, capacity }
    }

    /// The content type of the stream, if it is known.
    pub fn content_type(&self) -> (r: Option<&str>)
        ensures
            match r {
                Some(t) => self.spec_content_type() == Some(t@),
                None => self.spec_content_type() is None,
            },
    {
        match &self.content_type {
            Some(t) => Some(t.as_str()),
            None => None,
        }
    }

    /// The content length of the stream, if it is known.
    pub fn content_length(&self) -> (r: Option<u64>)
        ensures
            r == self.spec_content_length(),
    {
        self.content_length
    }

    /// The chunk size.
    pub fn capacity(&self) -> (r: usize)
        ensures
            r == self.spec_capacity(),
    {
        self.capacity
    }
}

/// What an OpenDAL stream reports, with its length as a [`ContentLength`]: a
/// positive length from the metadata is static; zero means unknown.
#[derive(Debug)]
pub struct OpendalStream {
    content_length: ContentLength,
    content_type: Option<String>,
    capacity: usize,
}

impl OpendalStream {
    /// The content length.
    pub closed spec fn spec_content_length(&self) -> ContentLength {
        self.content_length
    }

    /// The content type.
    pub closed spec fn spec_content_type(&self) -> Option<Seq<char>> {
        match self.content_type {
            Some(t) => Some(t@),
            None => None,
        }
    }

    /// The chunk size.
    pub closed spec fn spec_capacity(&self) -> usize {
        self.capacity
    }

    /// The metadata of a stream whose object reports `content_length` bytes.
    pub fn new(content_length: u64, content_type: Option<String>, capacity: usize) -> (r: Self)
        ensures
            r.spec_content_length() == if content_length > 0 {
                ContentLength::Static(content_length)
            } else {
                ContentLength::Unknown
            },
            r.spec_content_type() == match content_type {
                Some(t) => Some(t@),
                None => None::<Seq<char>>,
            },
            r.spec_capacity() == capacity,
    {
        let content_length = if content_length > 0 {
            ContentLength::Static(content_length)
        } else {
            ContentLength::Unknown
        };
        OpendalStream { content_length, content_type, capacity }
    }

    /// The content type of the stream, if it is known.
    pub fn content_type(&self) -> (r: Option<&str>)
        ensures
            match r {
                Some(t) => self.spec_content_type() == Some(t@),
                None => self.spec_content_type() is None,
            },
    {
        match &self.content_type {
            Some(t) => Some(t.as_str()),
            None => None,
        }
    }

    /// The content length of the stream.
    pub fn content_length(&self) -> (r: ContentLength)
        ensures
            r == self.spec_content_length(),
    {
        self.content_length
    }

    /// The chunk size.
    pub fn capacity(&self) -> (r: usize)
        ensures
            r == self.spec_capacity(),
    {
        self.capacity
    }
}

} // verus!
