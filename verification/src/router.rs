//! The route of a request: the pair of method and path by which a request is
//! dispatched.

use vstd::prelude::*;

use crate::request::Method;

verus! {

/// A method and a path. Two routes are equal when both parts are.
#[derive(Debug, Eq, Hash)]
pub struct Route {
    pub method: Method,
    pub path: String,
}

/// A [`Route`] with its path as a sequence of characters.
pub struct RouteView {
    pub method: Method,
    pub path: Seq<char>,
}

impl View for Route {
    type V = RouteView;

    open spec fn view(&self) -> RouteView {
        RouteView { method: self.method, path: self.path@ }
    }
}

impl Clone for Route {
    fn clone(&self) -> (copy: Route)
        ensures
            copy@ == self@,
    {
        Route { method: self.method, path: self.path.clone() }
    }
}

impl PartialEq for Route {
    fn eq(&self, other: &Route) -> (r: bool) {
        self.method == other.method && self.path.eq(&other.path)
    }
}

impl vstd::std_specs::cmp::PartialEqSpecImpl for Route {
    open spec fn obeys_eq_spec() -> bool {
        true
    }

    /// Two routes are equal when method and path are.
    open spec fn eq_spec(&self, other: &Route) -> bool {
        self@ == other@
    }
}

impl Route {
    /// The route of `method` and `path`.
    pub fn new(method: Method, path: &str) -> (route: Route)
        ensures
            route@ == (RouteView { method, path: path@ }),
    {
        Route { method, path: path.to_owned() }
    }
}

} // verus!
