//! What requests and responses share: an ordered header map with unique
//! names, and the accessors for headers and body.

use vstd::prelude::*;

verus! {

/// Index of the first entry of `entries` whose name is `key`; the length of
/// `entries` when there is none.
pub open spec fn key_index(entries: Seq<(Seq<char>, Seq<char>)>, key: Seq<char>) -> nat
    decreases entries.len(),
{
    if entries.len() == 0 || entries[0].0 == key {
        0
    } else {
        1 + key_index(entries.drop_first(), key)
    }
}

/// The value stored under `key`, if any.
pub open spec fn lookup(entries: Seq<(Seq<char>, Seq<char>)>, key: Seq<char>) -> Option<
    Seq<char>,
> {
    let i = key_index(entries, key) as int;
    if i < entries.len() {
        Some(entries[i].1)
    } else {
        None
    }
}

/// `entries` after `value` was stored under `key`: an entry of that name
/// keeps its place and takes the new value, a new name goes to the end.
pub open spec fn insert(
    entries: Seq<(Seq<char>, Seq<char>)>,
    key: Seq<char>,
    value: Seq<char>,
) -> Seq<(Seq<char>, Seq<char>)> {
    let i = key_index(entries, key) as int;
    if i < entries.len() {
        entries.update(i, (key, value))
    } else {
        entries.push((key, value))
    }
}

/// No name occurs twice in `entries`.
pub open spec fn unique_keys(entries: Seq<(Seq<char>, Seq<char>)>) -> bool {
    forall|i: int, j: int| 0 <= i < j < entries.len() ==> entries[i].0 != entries[j].0
}

/// The mapping from name to value that `entries` stands for.
pub open spec fn as_map(entries: Seq<(Seq<char>, Seq<char>)>) -> Map<Seq<char>, Seq<char>> {
    Map::new(
        |key: Seq<char>| lookup(entries, key) is Some,
        |key: Seq<char>| lookup(entries, key)->Some_0,
    )
}

/// `key_index(entries, key)` is the one index `n` such that no entry before
/// `n` is named `key` and `n` is the end or an entry of that name.
pub proof fn lemma_key_index(entries: Seq<(Seq<char>, Seq<char>)>, key: Seq<char>, n: int)
    requires
        0 <= n <= entries.len(),
        forall|j: int| 0 <= j < n ==> entries[j].0 != key,
        n == entries.len() || entries[n].0 == key,
    ensures
        key_index(entries, key) == n,
    decreases entries.len(),
{
    if n > 0 {
        lemma_key_index(entries.drop_first(), key, n - 1);
    }
}

/// `key_index` never exceeds the length, no earlier entry is named `key`, and
/// the entry at that index, if there is one, is.
pub proof fn lemma_key_index_bounds(entries: Seq<(Seq<char>, Seq<char>)>, key: Seq<char>)
    ensures
        key_index(entries, key) <= entries.len(),
        forall|j: int| 0 <= j < key_index(entries, key) ==> entries[j].0 != key,
        key_index(entries, key) < entries.len() ==> entries[key_index(entries, key) as int].0
            == key,
    decreases entries.len(),
{
    if !(entries.len() == 0 || entries[0].0 == key) {
        let rest = entries.drop_first();
        lemma_key_index_bounds(rest, key);
        assert forall|j: int| 0 <= j < key_index(entries, key) implies entries[j].0 != key by {
            if j > 0 {
                assert(entries[j] == rest[j - 1]);
            }
        }
    }
}

/// After `insert`, `key` maps to `value` and every other name maps to what it
/// mapped to before: the last write wins.
pub proof fn lemma_insert_lookup(
    entries: Seq<(Seq<char>, Seq<char>)>,
    key: Seq<char>,
    value: Seq<char>,
    other: Seq<char>,
)
    ensures
        lookup(insert(entries, key, value), key) == Some(value),
        other != key ==> lookup(insert(entries, key, value), other) == lookup(entries, other),
{
    let after = insert(entries, key, value);
    let i = key_index(entries, key) as int;
    lemma_key_index_bounds(entries, key);
    lemma_key_index(after, key, i);
    if other != key {
        let j = key_index(entries, other) as int;
        lemma_key_index_bounds(entries, other);
        if j < entries.len() {
            lemma_key_index(after, other, j);
        } else {
            lemma_key_index(after, other, after.len() as int);
        }
    }
}

/// As a mapping, `insert` is the insertion of one pair.
pub proof fn lemma_insert_as_map(
    entries: Seq<(Seq<char>, Seq<char>)>,
    key: Seq<char>,
    value: Seq<char>,
)
    ensures
        as_map(insert(entries, key, value)) == as_map(entries).insert(key, value),
{
    let after = insert(entries, key, value);
    assert forall|k: Seq<char>| #[trigger] lookup(after, k) == (if k == key {
        Some(value)
    } else {
        lookup(entries, k)
    }) by {
        lemma_insert_lookup(entries, key, value, k);
    }
    assert(as_map(after) =~= as_map(entries).insert(key, value));
}

/// `insert` keeps names unique.
pub proof fn lemma_insert_unique(
    entries: Seq<(Seq<char>, Seq<char>)>,
    key: Seq<char>,
    value: Seq<char>,
)
    requires
        unique_keys(entries),
    ensures
        unique_keys(insert(entries, key, value)),
{
    lemma_key_index_bounds(entries, key);
}

/// Appends the pair `(name, value)` to `pairs`.
pub(crate) fn push_pair(pairs: &mut Vec<(String, String)>, name: String, value: String)
    ensures
        final(pairs).deep_view() == old(pairs).deep_view().push((name@, value@)),
{
    pairs.push((name, value));
    assert(pairs.deep_view() =~= old(pairs).deep_view().push((name@, value@)));
}

/// A copy of `pairs`, string for string.
pub(crate) fn clone_pairs(pairs: &Vec<(String, String)>) -> (copy: Vec<(String, String)>)
    ensures
        copy.deep_view() == pairs.deep_view(),
{
    let mut copy: Vec<(String, String)> = Vec::new();
    let mut i: usize = 0;
    while i < pairs.len()
        invariant
            i <= pairs.len(),
            copy.deep_view() == pairs.deep_view().take(i as int),
        decreases pairs.len() - i,
    {
        let pair = &pairs[i];
        push_pair(&mut copy, pair.0.clone(), pair.1.clone());
        assert(pairs.deep_view()[i as int] == (pair.0@, pair.1@));
        assert(copy.deep_view() =~= pairs.deep_view().take(i + 1));
        i += 1;
    }
    assert(copy.deep_view() =~= pairs.deep_view());
    copy
}

/// Whether `a` and `b` hold the same pairs in the same order.
pub(crate) fn same_pairs(a: &Vec<(String, String)>, b: &Vec<(String, String)>) -> (same: bool)
    ensures
        same == (a.deep_view() == b.deep_view()),
{
    if a.len() != b.len() {
        assert(a.deep_view().len() != b.deep_view().len());
        return false;
    }
    let mut i: usize = 0;
    while i < a.len()
        invariant
            i <= a.len(),
            a.len() == b.len(),
            forall|j: int| 0 <= j < i ==> a.deep_view()[j] == b.deep_view()[j],
        decreases a.len() - i,
    {
        let left = &a[i];
        let right = &b[i];
        assert(a.deep_view()[i as int] == (left.0@, left.1@));
        assert(b.deep_view()[i as int] == (right.0@, right.1@));
        if !(left.0.eq(&right.0) && left.1.eq(&right.1)) {
            return false;
        }
        i += 1;
    }
    assert(a.deep_view() =~= b.deep_view());
    true
}

/// An ordered map from header name to header value. Names are kept as they
/// were given, letter for letter, and no name occurs twice.
#[derive(Debug, Eq)]
pub struct HeaderMap {
    entries: Vec<(String, String)>,
}

impl View for HeaderMap {
    type V = Seq<(Seq<char>, Seq<char>)>;

    /// The entries, oldest name first.
    closed spec fn view(&self) -> Seq<(Seq<char>, Seq<char>)> {
        self.entries.deep_view()
    }
}

impl PartialEq for HeaderMap {
    fn eq(&self, other: &HeaderMap) -> (r: bool) {
        same_pairs(&self.entries, &other.entries)
    }
}

impl vstd::std_specs::cmp::PartialEqSpecImpl for HeaderMap {
    open spec fn obeys_eq_spec() -> bool {
        true
    }

    /// Two maps are equal when they hold the same entries in the same order.
    open spec fn eq_spec(&self, other: &HeaderMap) -> bool {
        self@ == other@
    }
}

impl Clone for HeaderMap {
    fn clone(&self) -> (copy: HeaderMap)
        ensures
            copy@ == self@,
    {
        let entries = clone_pairs(&self.entries);
        proof {
            use_type_invariant(self);
        }
        HeaderMap { entries }
    }
}

impl HeaderMap {
    #[verifier::type_invariant]
    pub(crate) open spec fn names_are_unique(&self) -> bool {
        unique_keys(self@)
    }

    /// A map without entries.
    pub fn new() -> (map: HeaderMap)
        ensures
            map@ == Seq::<(Seq<char>, Seq<char>)>::empty(),
    {
        let map = HeaderMap { entries: Vec::new() };
        assert(map.entries.deep_view() =~= Seq::empty());
        map
    }

    /// Number of entries.
    pub fn len(&self) -> (n: usize)
        ensures
            n == self@.len(),
    {
        self.entries.len()
    }

    /// The `i`-th entry: its name and its value.
    pub fn entry(&self, i: usize) -> (e: (&String, &String))
        requires
            i < self@.len(),
        ensures
            e.0@ == self@[i as int].0,
            e.1@ == self@[i as int].1,
    {
        let e = &self.entries[i];
        (&e.0, &e.1)
    }

    fn index_of(&self, key: &String) -> (i: usize)
        ensures
            i == key_index(self@, key@),
            i <= self@.len(),
    {
        let mut i: usize = 0;
        while i < self.entries.len() && !self.entries[i].0.eq(key)
            invariant
                i <= self.entries.len(),
                forall|j: int| 0 <= j < i ==> self@[j].0 != key@,
            decreases self.entries.len() - i,
        {
            i += 1;
        }
        proof {
            lemma_key_index(self@, key@, i as int);
        }
        i
    }

    /// The value stored under `key`, if any.
    pub fn get(&self, key: &str) -> (value: Option<&String>)
        ensures
            match value {
                Some(v) => lookup(self@, key@) == Some(v@),
                None => lookup(self@, key@) is None,
            },
    {
        let name = key.to_owned();
        let i = self.index_of(&name);
        if i < self.entries.len() {
            Some(&self.entries[i].1)
        } else {
            None
        }
    }

    /// Stores `value` under `key`. An entry of that name keeps its place and
    /// takes the new value; a new name goes to the end.
    pub fn insert(&mut self, key: &str, value: &str)
        ensures
            final(self)@ == insert(old(self)@, key@, value@),
            unique_keys(final(self)@),
    {
        self.put(key.to_owned(), value.to_owned());
    }

    /// Stores `value` under `key`, as `insert` does, taking both by value.
    pub fn put(&mut self, key: String, value: String)
        ensures
            final(self)@ == insert(old(self)@, key@, value@),
            unique_keys(final(self)@),
    {
        let i = self.index_of(&key);
        proof {
            use_type_invariant(&*self);
            lemma_insert_unique(self@, key@, value@);
        }
        let mut taken = HeaderMap::new();
        core::mem::swap(self, &mut taken);
        let mut entries = taken.entries;
        if i < entries.len() {
            entries[i] = (key, value);
        } else {
            entries.push((key, value));
        }
        assert(entries.deep_view() =~= insert(old(self)@, key@, value@));
        *self = HeaderMap { entries };
    }
}

/// What a request and a response have in common: headers and a body.
pub trait Package {
    /// The headers, oldest name first.
    spec fn header_entries(&self) -> Seq<(Seq<char>, Seq<char>)>;

    /// The body, if one is set.
    spec fn body_bytes(&self) -> Option<Seq<u8>>;

    /// The headers. No name occurs twice among them.
    fn get_header_list(&self) -> (headers: &HeaderMap)
        ensures
            headers@ == self.header_entries(),
            unique_keys(headers@),
    ;

    /// The value of the header named `key`, letter for letter, if any.
    fn get_header(&self, key: &str) -> (value: Option<&String>)
        ensures
            match value {
                Some(v) => lookup(self.header_entries(), key@) == Some(v@),
                None => lookup(self.header_entries(), key@) is None,
            },
    ;

    /// Sets the header `key` to `value`. A header of that name keeps its
    /// place and takes the new value; a new name goes to the end.
    fn add_header(&mut self, key: &str, value: &str)
        ensures
            final(self).header_entries() == insert(old(self).header_entries(), key@, value@),
            final(self).body_bytes() == old(self).body_bytes(),
    ;

    /// The body, if one is set.
    fn get_body(&self) -> (body: Option<&Vec<u8>>)
        ensures
            match body {
                Some(bytes) => self.body_bytes() == Some(bytes@),
                None => self.body_bytes() is None,
            },
    ;

    /// Sets the body to `body`.
    fn set_body(&mut self, body: Vec<u8>)
        ensures
            final(self).body_bytes() == Some(body@),
            final(self).header_entries() == old(self).header_entries(),
    ;
}

} // verus!
