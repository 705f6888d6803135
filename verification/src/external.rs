//! The stand-in for the remote service, and the handle of a stored query stream.

use core::fmt::Debug;
use core::marker::PhantomData;
use vstd::prelude::*;
use vstd::string::*;

verus! {

/// The answer of the stand-in service to `query`: the query between single
/// quotes, after the words `response for`.
pub open spec fn response_text(query: Seq<char>) -> Seq<char> {
    "response for '"@ + query + "'"@
}

/// Answers `query_param` as the stand-in service does.
pub fn api_call(query_param: &str) -> (response: String)
    ensures
        response@ == response_text(query_param@),
{
    let mut response = String::from_str("response for '");
    response.append(query_param);
    response.append("'");
    response
}

/// A handle of a stream of `T` kept in persistent storage.
pub struct Stream<T: Send + 'static + Debug> {
    _pd: PhantomData<T>,
}

impl<T: Send + 'static + Debug> Stream<T> {
    /// The handle of a stream of which nothing has been read.
    pub closed spec fn unread() -> Self {
        Stream { _pd: PhantomData }
    }

    /// A handle that has read nothing yet.
    pub fn new() -> (stream: Self)
        ensures
            stream == Self::unread(),
    {
        Stream { _pd: PhantomData }
    }
}

} // verus!
