//! The cookies of a request, and the text of a `Set-Cookie` header.

use vstd::prelude::*;
use vstd::slice::slice_subrange;

use crate::package::{clone_pairs, lemma_key_index, lookup, push_pair};
use crate::request::{RequestError, RequestErrorView};
use crate::text::{cut, find, position, split_once, to_chars, to_string, trim, trimmed};

verus! {

/// The cookies that the `;`-separated segments of `s` spell, appended to
/// `done`. Each segment is trimmed, then cut at its first `=`; a segment
/// without `=` is refused as `CookieError` with the trimmed segment.
pub open spec fn parse_segments(s: Seq<char>, done: Seq<(Seq<char>, Seq<char>)>) -> Result<
    Seq<(Seq<char>, Seq<char>)>,
    RequestErrorView,
>
    decreases s.len(),
{
    let p = position(s, ';') as int;
    let segment = trim(s.take(p));
    match split_once(segment, '=') {
        None => Err(RequestErrorView::CookieError(segment)),
        Some(pair) => if p < s.len() {
            parse_segments(s.skip(p + 1), done.push(pair))
        } else {
            Ok(done.push(pair))
        },
    }
}

/// What the value of a `Cookie` header parses to.
pub open spec fn parse_cookies(s: Seq<char>) -> Result<
    Seq<(Seq<char>, Seq<char>)>,
    RequestErrorView,
> {
    parse_segments(s, Seq::empty())
}

/// The attributes of a `Set-Cookie` value: each one behind `"; "`.
pub open spec fn attributes_text(attributes: Seq<Seq<char>>) -> Seq<char>
    decreases attributes.len(),
{
    if attributes.len() == 0 {
        Seq::empty()
    } else {
        attributes_text(attributes.drop_last()) + "; "@ + attributes.last()
    }
}

/// The value of a `Set-Cookie` header: `name=value`, then the attributes.
pub open spec fn set_cookie_text(
    name: Seq<char>,
    value: Seq<char>,
    attributes: Seq<Seq<char>>,
) -> Seq<char> {
    name + "="@ + value + attributes_text(attributes)
}

/// The cookies that a request carried, as name/value pairs. The list is
/// filled from a `Cookie` header only; it is empty until one was seen.
/// Two lists are equal when they hold the same pairs, each as often as in
/// the other, in whatever order.
#[derive(Debug, Eq)]
pub struct CookieList {
    pairs: Vec<(String, String)>,
}

impl View for CookieList {
    type V = Seq<(Seq<char>, Seq<char>)>;

    /// The cookies in the order of the header.
    closed spec fn view(&self) -> Seq<(Seq<char>, Seq<char>)> {
        self.pairs.deep_view()
    }
}

impl PartialEq for CookieList {
    fn eq(&self, other: &CookieList) -> (r: bool) {
        let same = self.covered_by(other) && other.covered_by(self);
        proof {
            let a = self@.to_multiset();
            let b = other@.to_multiset();
            self@.to_multiset_ensures();
            other@.to_multiset_ensures();
            if same {
                assert forall|pair: (Seq<char>, Seq<char>)| a.count(pair) == b.count(pair) by {
                    if self@.contains(pair) {
                        let i = choose|i: int| 0 <= i < self@.len() && self@[i] == pair;
                        assert(a.count(self@[i]) == b.count(self@[i]));
                    } else if other@.contains(pair) {
                        let i = choose|i: int| 0 <= i < other@.len() && other@[i] == pair;
                        assert(b.count(other@[i]) == a.count(other@[i]));
                    }
                }
                assert(a =~= b);
            }
        }
        same
    }
}

impl vstd::std_specs::cmp::PartialEqSpecImpl for CookieList {
    open spec fn obeys_eq_spec() -> bool {
        true
    }

    open spec fn eq_spec(&self, other: &CookieList) -> bool {
        self@.to_multiset() == other@.to_multiset()
    }
}

impl Clone for CookieList {
    fn clone(&self) -> (copy: CookieList)
        ensures
            copy@ == self@,
    {
        CookieList { pairs: clone_pairs(&self.pairs) }
    }
}

impl CookieList {
    /// A list without cookies.
    pub fn new() -> (list: CookieList)
        ensures
            list@ == Seq::<(Seq<char>, Seq<char>)>::empty(),
    {
        let list = CookieList { pairs: Vec::new() };
        assert(list.pairs.deep_view() =~= Seq::empty());
        list
    }

    /// Number of cookies.
    pub fn len(&self) -> (n: usize)
        ensures
            n == self@.len(),
    {
        self.pairs.len()
    }

    /// Whether the list holds a cookie `name` with the value `value`.
    pub fn contains(&self, name: &str, value: &str) -> (found: bool)
        ensures
            found == self@.contains((name@, value@)),
    {
        let wanted_name = name.to_owned();
        let wanted_value = value.to_owned();
        let mut i: usize = 0;
        while i < self.pairs.len()
            invariant
                i <= self.pairs.len(),
                wanted_name@ == name@,
                wanted_value@ == value@,
                forall|j: int| 0 <= j < i ==> self@[j] != (name@, value@),
            decreases self.pairs.len() - i,
        {
            let pair = &self.pairs[i];
            if pair.0.eq(&wanted_name) && pair.1.eq(&wanted_value) {
                assert(self@[i as int] == (name@, value@));
                return true;
            }
            i += 1;
        }
        false
    }

    /// How often the list holds the cookie `name` with the value `value`.
    fn count_of(&self, name: &String, value: &String) -> (n: usize)
        ensures
            n == self@.to_multiset().count((name@, value@)),
    {
        let mut n: usize = 0;
        let mut i: usize = 0;
        proof {
            assert(self@.take(0) =~= Seq::empty());
            Seq::<(Seq<char>, Seq<char>)>::empty().to_multiset_ensures();
        }
        while i < self.pairs.len()
            invariant
                i <= self.pairs.len(),
                n <= i,
                n == self@.take(i as int).to_multiset().count((name@, value@)),
            decreases self.pairs.len() - i,
        {
            let pair = &self.pairs[i];
            proof {
                self@.take(i as int).to_multiset_ensures();
                assert(self@.take(i + 1) =~= self@.take(i as int).push(self@[i as int]));
                assert(self@[i as int] == (pair.0@, pair.1@));
            }
            if pair.0.eq(name) && pair.1.eq(value) {
                n += 1;
            }
            i += 1;
        }
        assert(self@.take(i as int) =~= self@);
        n
    }

    /// Whether each cookie of this list occurs in `other` as often as here.
    fn covered_by(&self, other: &CookieList) -> (r: bool)
        ensures
            r == forall|i: int|
                0 <= i < self@.len() ==> self@.to_multiset().count(#[trigger] self@[i])
                    == other@.to_multiset().count(self@[i]),
    {
        let mut i: usize = 0;
        while i < self.pairs.len()
            invariant
                i <= self.pairs.len(),
                forall|j: int|
                    0 <= j < i ==> self@.to_multiset().count(#[trigger] self@[j])
                        == other@.to_multiset().count(self@[j]),
            decreases self.pairs.len() - i,
        {
            let pair = &self.pairs[i];
            assert(self@[i as int] == (pair.0@, pair.1@));
            if self.count_of(&pair.0, &pair.1) != other.count_of(&pair.0, &pair.1) {
                return false;
            }
            i += 1;
        }
        true
    }

    /// The value of the cookie named `name`, if any; where several cookies
    /// have that name, of the one that stood first in the header.
    pub fn get(&self, name: &str) -> (value: Option<&String>)
        ensures
            match value {
                Some(v) => lookup(self@, name@) == Some(v@),
                None => lookup(self@, name@) is None,
            },
    {
        let name = name.to_owned();
        let mut i: usize = 0;
        while i < self.pairs.len() && !self.pairs[i].0.eq(&name)
            invariant
                i <= self.pairs.len(),
                forall|j: int| 0 <= j < i ==> self@[j].0 != name@,
            decreases self.pairs.len() - i,
        {
            i += 1;
        }
        proof {
            lemma_key_index(self@, name@, i as int);
        }
        if i < self.pairs.len() {
            Some(&self.pairs[i].1)
        } else {
            None
        }
    }

    /// Parses the characters of the value of a `Cookie` header.
    pub fn from_chars(text: &[char]) -> (r: Result<CookieList, RequestError>)
        ensures
            match r {
                Ok(list) => parse_cookies(text@) == Ok::<_, RequestErrorView>(list@),
                Err(error) => parse_cookies(text@) == Err::<Seq<(Seq<char>, Seq<char>)>, _>(
                    error@,
                ),
            },
    {
        let mut pairs: Vec<(String, String)> = Vec::new();
        assert(pairs.deep_view() =~= Seq::empty());
        let mut rest: &[char] = text;
        loop
            invariant
                parse_cookies(text@) == parse_segments(rest@, pairs.deep_view()),
            decreases rest@.len(),
        {
            let p = find(rest, ';');
            let segment = trimmed(slice_subrange(rest, 0, p));
            match cut(segment, '=') {
                None => {
                    return Err(RequestError::CookieError(to_string(segment)));
                },
                Some((name, value)) => {
                    push_pair(&mut pairs, to_string(name), to_string(value));
                },
            }
            if p == rest.len() {
                return Ok(CookieList { pairs });
            }
            rest = slice_subrange(rest, p + 1, rest.len());
        }
    }

    /// The value of a `Set-Cookie` header for the cookie `name`: `name=value`,
    /// then each attribute behind `"; "`. Without an expiry among the
    /// attributes this is a session cookie.
    pub fn render_set_cookie(name: &str, value: &str, attributes: &[&str]) -> (text: String)
        ensures
            text@ == set_cookie_text(name@, value@, attributes.deep_view()),
    {
        let mut text = name.to_owned();
        text.append("=");
        text.append(value);
        let mut i: usize = 0;
        while i < attributes.len()
            invariant
                i <= attributes.len(),
                text@ == set_cookie_text(name@, value@, attributes.deep_view().take(i as int)),
            decreases attributes.len() - i,
        {
            text.append("; ");
            text.append(attributes[i]);
            proof {
                let now = attributes.deep_view().take(i + 1);
                assert(now.drop_last() =~= attributes.deep_view().take(i as int));
                assert(now.last() == attributes[i as int]@);
            }
            i += 1;
        }
        assert(attributes.deep_view().take(i as int) =~= attributes.deep_view());
        text
    }
}

impl<'a> vstd::std_specs::convert::TryFromSpecImpl<&'a str> for CookieList {
    open spec fn obeys_try_from_spec() -> bool {
        false
    }

    open spec fn try_from_spec(text: &'a str) -> Result<CookieList, RequestError> {
        arbitrary()
    }
}

impl<'a> TryFrom<&'a str> for CookieList {
    type Error = RequestError;

    /// Parses the value of a `Cookie` header.
    fn try_from(text: &'a str) -> (r: Result<CookieList, RequestError>)
        ensures
            match r {
                Ok(list) => parse_cookies(text@) == Ok::<_, RequestErrorView>(list@),
                Err(error) => parse_cookies(text@) == Err::<Seq<(Seq<char>, Seq<char>)>, _>(
                    error@,
                ),
            },
    {
        let chars = to_chars(text);
        CookieList::from_chars(chars.as_slice())
    }
}

} // verus!
