//! The request methods this codec knows.

use vstd::prelude::*;

use crate::request::{RequestError, RequestErrorView};
use crate::text::{is_whitespace, spells, to_chars};

verus! {

/// An HTTP request method. The set is closed: a token outside it is an error
/// of the parser, never a variant.
#[derive(Debug, Clone, Copy, PartialEq, Eq, Hash, Structural)]
pub enum Method {
    Get,
    Head,
    Post,
    Put,
    Delete,
    Connect,
    Options,
    Trace,
    Patch,
}

impl Method {
    /// The token that names this method on the wire.
    pub open spec fn token(self) -> Seq<char> {
        match self {
            Method::Get => "GET"@,
            Method::Head => "HEAD"@,
            Method::Post => "POST"@,
            Method::Put => "PUT"@,
            Method::Delete => "DELETE"@,
            Method::Connect => "CONNECT"@,
            Method::Options => "OPTIONS"@,
            Method::Trace => "TRACE"@,
            Method::Patch => "PATCH"@,
        }
    }

    /// The method that `token` names, letter for letter and in upper case.
    pub open spec fn from_token(token: Seq<char>) -> Option<Method> {
        if token == "GET"@ {
            Some(Method::Get)
        } else if token == "HEAD"@ {
            Some(Method::Head)
        } else if token == "POST"@ {
            Some(Method::Post)
        } else if token == "PUT"@ {
            Some(Method::Put)
        } else if token == "DELETE"@ {
            Some(Method::Delete)
        } else if token == "CONNECT"@ {
            Some(Method::Connect)
        } else if token == "OPTIONS"@ {
            Some(Method::Options)
        } else if token == "TRACE"@ {
            Some(Method::Trace)
        } else if token == "PATCH"@ {
            Some(Method::Patch)
        } else {
            None
        }
    }

    /// The token that names this method on the wire.
    pub fn as_str(&self) -> (token: &'static str)
        ensures
            token@ == self.token(),
    {
        match self {
            Method::Get => "GET",
            Method::Head => "HEAD",
            Method::Post => "POST",
            Method::Put => "PUT",
            Method::Delete => "DELETE",
            Method::Connect => "CONNECT",
            Method::Options => "OPTIONS",
            Method::Trace => "TRACE",
            Method::Patch => "PATCH",
        }
    }

    /// The method that the characters `token` name, if any.
    pub fn from_chars(token: &[char]) -> (method: Option<Method>)
        ensures
            method == Method::from_token(token@),
    {
        if spells(token, "GET") {
            Some(Method::Get)
        } else if spells(token, "HEAD") {
            Some(Method::Head)
        } else if spells(token, "POST") {
            Some(Method::Post)
        } else if spells(token, "PUT") {
            Some(Method::Put)
        } else if spells(token, "DELETE") {
            Some(Method::Delete)
        } else if spells(token, "CONNECT") {
            Some(Method::Connect)
        } else if spells(token, "OPTIONS") {
            Some(Method::Options)
        } else if spells(token, "TRACE") {
            Some(Method::Trace)
        } else if spells(token, "PATCH") {
            Some(Method::Patch)
        } else {
            None
        }
    }
}

/// Every method is named by its own token and by no other.
pub proof fn lemma_token_round_trip(method: Method)
    ensures
        Method::from_token(method.token()) == Some(method),
{
    reveal_strlit("GET");
    reveal_strlit("HEAD");
    reveal_strlit("POST");
    reveal_strlit("PUT");
    reveal_strlit("DELETE");
    reveal_strlit("CONNECT");
    reveal_strlit("OPTIONS");
    reveal_strlit("TRACE");
    reveal_strlit("PATCH");
    assert("GET"@.len() == 3 && "GET"@[0] == 'G');
    assert("HEAD"@.len() == 4 && "HEAD"@[0] == 'H');
    assert("POST"@.len() == 4 && "POST"@[0] == 'P');
    assert("PUT"@.len() == 3 && "PUT"@[0] == 'P');
    assert("DELETE"@.len() == 6);
    assert("CONNECT"@.len() == 7 && "CONNECT"@[0] == 'C');
    assert("OPTIONS"@.len() == 7 && "OPTIONS"@[0] == 'O');
    assert("TRACE"@.len() == 5 && "TRACE"@[0] == 'T');
    assert("PATCH"@.len() == 5 && "PATCH"@[0] == 'P');
}

/// The token of a method is not empty and holds no whitespace.
pub proof fn lemma_token_is_word(method: Method)
    ensures
        method.token().len() > 0,
        forall|j: int| 0 <= j < method.token().len() ==> !is_whitespace(#[trigger] method.token()[j]),
{
    reveal_strlit("GET");
    reveal_strlit("HEAD");
    reveal_strlit("POST");
    reveal_strlit("PUT");
    reveal_strlit("DELETE");
    reveal_strlit("CONNECT");
    reveal_strlit("OPTIONS");
    reveal_strlit("TRACE");
    reveal_strlit("PATCH");
}

impl<'a> vstd::std_specs::convert::TryFromSpecImpl<&'a str> for Method {
    open spec fn obeys_try_from_spec() -> bool {
        false
    }

    open spec fn try_from_spec(token: &'a str) -> Result<Method, RequestError> {
        arbitrary()
    }
}

impl<'a> TryFrom<&'a str> for Method {
    type Error = RequestError;

    /// The method that `token` names; `InvalidRequestMethod` with the token
    /// where it names none.
    fn try_from(token: &'a str) -> (r: Result<Method, RequestError>)
        ensures
            match r {
                Ok(method) => Method::from_token(token@) == Some(method),
                Err(error) => Method::from_token(token@) is None && error@
                    == RequestErrorView::InvalidRequestMethod(token@),
            },
    {
        let chars = to_chars(token);
        match Method::from_chars(chars.as_slice()) {
            Some(method) => Ok(method),
            None => Err(RequestError::InvalidRequestMethod(token.to_owned())),
        }
    }
}

} // verus!
