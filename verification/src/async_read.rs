//! Parameters of a stream read from any asynchronous reader.
use vstd::prelude::*;

verus! {

/// Parameters for a stream read from `stream`: a generic reader has no way to
/// know its length, so the content length is unknown unless set.
#[derive(Debug)]
pub struct AsyncReadStreamParams<T> {
    stream: T,
    content_length: Option<u64>,
}

impl<T> AsyncReadStreamParams<T> {
    /// The reader.
    pub closed spec fn spec_stream(&self) -> T {
        self.stream
    }

    /// The content length, if set.
    pub closed spec fn spec_content_length(&self) -> Option<u64> {
        self.content_length
    }

    /// Parameters for `stream` with no known length.
    pub fn new(stream: T) -> (r: Self)
        ensures
            r.spec_stream() == stream,
            r.spec_content_length() is None,
    {
        AsyncReadStreamParams { stream, content_length: None }
    }

    /// Sets the content length of the stream.
    pub fn content_length(self, content_length: Option<u64>) -> (r: Self)
        ensures
            r.spec_stream() == self.spec_stream(),
            r.spec_content_length() == content_length,
    {
        AsyncReadStreamParams { content_length, ..self }
    }

    /// The reader and the content length.
    pub fn into_parts(self) -> (r: (T, Option<u64>))
        ensures
            r.0 == self.spec_stream(),
            r.1 == self.spec_content_length(),
    {
        (self.stream, self.content_length)
    }
}

} // verus!
