//! The query string of a request target.

use vstd::prelude::*;
use vstd::slice::slice_subrange;

use crate::request::{RequestError, RequestErrorView};
use crate::package::{clone_pairs, push_pair, same_pairs};
use crate::text::{cut, find, position, split_once, to_chars, to_string};

verus! {

/// The pairs that the `&`-separated pieces of `s` spell, appended to `done`.
/// Each piece is cut at its first `=`; `None` when a piece holds no `=`.
pub open spec fn parse_pairs(s: Seq<char>, done: Seq<(Seq<char>, Seq<char>)>) -> Option<
    Seq<(Seq<char>, Seq<char>)>,
>
    decreases s.len(),
{
    let p = position(s, '&') as int;
    match split_once(s.take(p), '=') {
        None => None,
        Some(pair) => if p < s.len() {
            parse_pairs(s.skip(p + 1), done.push(pair))
        } else {
            Some(done.push(pair))
        },
    }
}

/// What a query string parses to: no pair for the empty string, else one
/// pair for each piece, in order; `QueryError` with the whole string when a
/// piece holds no `=`.
pub open spec fn parse_query(s: Seq<char>) -> Result<
    Seq<(Seq<char>, Seq<char>)>,
    RequestErrorView,
> {
    if s.len() == 0 {
        Ok(Seq::empty())
    } else {
        match parse_pairs(s, Seq::empty()) {
            Some(pairs) => Ok(pairs),
            None => Err(RequestErrorView::QueryError(s)),
        }
    }
}

/// The key/value pairs of a query string, in the order in which they were
/// written. A key may occur more than once. Nothing is percent-decoded.
#[derive(Debug, Eq)]
pub struct Query {
    pairs: Vec<(String, String)>,
}

impl View for Query {
    type V = Seq<(Seq<char>, Seq<char>)>;

    closed spec fn view(&self) -> Seq<(Seq<char>, Seq<char>)> {
        self.pairs.deep_view()
    }
}

impl PartialEq for Query {
    fn eq(&self, other: &Query) -> (r: bool) {
        same_pairs(&self.pairs, &other.pairs)
    }
}

impl vstd::std_specs::cmp::PartialEqSpecImpl for Query {
    open spec fn obeys_eq_spec() -> bool {
        true
    }

    /// Two queries are equal when they hold the same pairs in the same order.
    open spec fn eq_spec(&self, other: &Query) -> bool {
        self@ == other@
    }
}

impl Clone for Query {
    fn clone(&self) -> (copy: Query)
        ensures
            copy@ == self@,
    {
        Query { pairs: clone_pairs(&self.pairs) }
    }
}

impl Query {
    /// Number of pairs.
    pub fn len(&self) -> (n: usize)
        ensures
            n == self@.len(),
    {
        self.pairs.len()
    }

    /// The `i`-th pair: its key and its value.
    pub fn pair(&self, i: usize) -> (pair: (&String, &String))
        requires
            i < self@.len(),
        ensures
            pair.0@ == self@[i as int].0,
            pair.1@ == self@[i as int].1,
    {
        let pair = &self.pairs[i];
        (&pair.0, &pair.1)
    }

    /// Parses the characters of a query string.
    pub fn from_chars(text: &[char]) -> (r: Result<Query, RequestError>)
        ensures
            match r {
                Ok(query) => parse_query(text@) == Ok::<_, RequestErrorView>(query@),
                Err(error) => parse_query(text@) == Err::<Seq<(Seq<char>, Seq<char>)>, _>(error@),
            },
    {
        let mut pairs: Vec<(String, String)> = Vec::new();
        assert(pairs.deep_view() =~= Seq::empty());
        if text.len() == 0 {
            return Ok(Query { pairs });
        }
        let mut rest: &[char] = text;
        loop
            invariant
                parse_pairs(text@, Seq::empty()) == parse_pairs(rest@, pairs.deep_view()),
                text@.len() > 0,
            decreases rest@.len(),
        {
            let p = find(rest, '&');
            match cut(slice_subrange(rest, 0, p), '=') {
                None => {
                    return Err(RequestError::QueryError(to_string(text)));
                },
                Some((key, value)) => {
                    push_pair(&mut pairs, to_string(key), to_string(value));
                },
            }
            if p == rest.len() {
                return Ok(Query { pairs });
            }
            rest = slice_subrange(rest, p + 1, rest.len());
        }
    }
}

impl<'a> vstd::std_specs::convert::TryFromSpecImpl<&'a str> for Query {
    open spec fn obeys_try_from_spec() -> bool {
        false
    }

    open spec fn try_from_spec(text: &'a str) -> Result<Query, RequestError> {
        arbitrary()
    }
}

impl<'a> TryFrom<&'a str> for Query {
    type Error = RequestError;

    /// Parses a query string.
    fn try_from(text: &'a str) -> (r: Result<Query, RequestError>)
        ensures
            match r {
                Ok(query) => parse_query(text@) == Ok::<_, RequestErrorView>(query@),
                Err(error) => parse_query(text@) == Err::<Seq<(Seq<char>, Seq<char>)>, _>(error@),
            },
    {
        let chars = to_chars(text);
        Query::from_chars(chars.as_slice())
    }
}

} // verus!
