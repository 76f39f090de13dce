//! Per-request data: the path parameters captured by routing, the peer
//! address, and the body cache that makes a body be read at most once.
use vstd::prelude::*;

verus! {

/// The value bound to `name`: the first entry with that name, if any.
pub open spec fn lookup(ps: Seq<(Seq<char>, Seq<char>)>, name: Seq<char>) -> Option<Seq<char>>
    decreases ps.len(),
{
    if ps.len() == 0 {
        None
    } else if ps[0].0 == name {
        Some(ps[0].1)
    } else {
        lookup(ps.drop_first(), name)
    }
}

/// Named path parameters, in the order in which the pattern binds them.
pub struct Params {
    entries: Vec<(String, String)>,
}

impl View for Params {
    type V = Seq<(Seq<char>, Seq<char>)>;

    closed spec fn view(&self) -> Seq<(Seq<char>, Seq<char>)> {
        self.entries@.map_values(|e: (String, String)| (e.0@, e.1@))
    }
}

impl Params {
    /// No parameters.
    pub fn new() -> (r: Params)
        ensures
            r@ == Seq::<(Seq<char>, Seq<char>)>::empty(),
    {
        let r = Params { entries: Vec::new() };
        assert(r@ =~= Seq::<(Seq<char>, Seq<char>)>::empty());
        r
    }

    /// Binds `name` to `value` after the existing bindings.
    pub fn insert(&mut self, name: String, value: String)
        ensures
            final(self)@ == old(self)@.push((name@, value@)),
    {
        let ghost before = self@;
        self.entries.push((name, value));
        assert(self@ =~= before.push((name@, value@)));
    }

    /// The number of bindings.
    pub fn len(&self) -> (r: usize)
        ensures
            r == self@.len(),
    {
        self.entries.len()
    }

    /// The value bound to `name`.
    pub fn find(&self, name: &str) -> (r: Option<String>)
        ensures
            r matches Some(v) ==> lookup(self@, name@) == Some(v@),
            r is None ==> lookup(self@, name@) is None,
    {
        let key = name.to_string();
        let n = self.entries.len();
        let mut i: usize = 0;
        assert(self@.subrange(0, n as int) =~= self@);
        while i < n
            invariant
                n == self.entries@.len(),
                i <= n,
                key@ == name@,
                lookup(self@, name@) == lookup(self@.subrange(i as int, n as int), name@),
            decreases n - i,
        {
            proof {
                assert(self@.subrange(i as int, n as int).drop_first() =~= self@.subrange(
                    i + 1,
                    n as int,
                ));
            }
            if self.entries[i].0 == key {
                return Some(self.entries[i].1.clone());
            }
            i = i + 1;
        }
        None
    }
}

/// The cache after a body read of `read` was offered to it: a body once
/// cached is kept, whatever a later read would have brought.
pub open spec fn cache_step(cached: Option<Seq<u8>>, read: Seq<u8>) -> Option<Seq<u8>> {
    match cached {
        Some(b) => Some(b),
        None => Some(read),
    }
}

/// What a handler sees of one request besides the shared state.
pub struct Context {
    params: Params,
    sock_addr: String,
    body_bytes: Option<Vec<u8>>,
}

impl Context {
    /// The path parameters of the request.
    pub closed spec fn params_view(&self) -> Seq<(Seq<char>, Seq<char>)> {
        self.params@
    }

    /// The peer address of the connection, as text.
    pub closed spec fn peer_view(&self) -> Seq<char> {
        self.sock_addr@
    }

    /// The path parameters of the request.
    pub fn params(&self) -> (r: &Params)
        ensures
            r@ == self.params_view(),
    {
        &self.params
    }

    /// The peer address of the connection, as text.
    pub fn sock_addr(&self) -> (r: &String)
        ensures
            r@ == self.peer_view(),
    {
        &self.sock_addr
    }

    /// The cached body, if it has been read.
    pub closed spec fn body_view(&self) -> Option<Seq<u8>> {
        match self.body_bytes {
            Some(b) => Some(b@),
            None => None,
        }
    }

    /// A fresh context, with nothing read of the body yet.
    pub fn new(params: Params, sock_addr: String) -> (r: Context)
        ensures
            r.params_view() == params@,
            r.peer_view() == sock_addr@,
            r.body_view() is None,
    {
        Context { params, sock_addr, body_bytes: None }
    }

    /// Whether the body still has to be read from the transport.
    pub fn needs_body(&self) -> (r: bool)
        ensures
            r == (self.body_view() is None),
    {
        self.body_bytes.is_none()
    }

    /// Offers the bytes of a body read; the first offer is kept, later ones
    /// are ignored. Returns the cached body.
    pub fn cache_body(&mut self, read: Vec<u8>) -> (r: Vec<u8>)
        ensures
            final(self).body_view() == cache_step(old(self).body_view(), read@),
            final(self).body_view() == Some(r@),
            final(self).params_view() == old(self).params_view(),
            final(self).peer_view() == old(self).peer_view(),
    {
        if self.body_bytes.is_none() {
            self.body_bytes = Some(read);
        }
        match &self.body_bytes {
            Some(b) => b.clone(),
            None => Vec::new(),
        }
    }

    /// The cached body, if it has been read.
    pub fn cached_body(&self) -> (r: Option<Vec<u8>>)
        ensures
            r matches Some(b) ==> self.body_view() == Some(b@),
            r is None ==> self.body_view() is None,
    {
        match &self.body_bytes {
            Some(b) => Some(b.clone()),
            None => None,
        }
    }
}

/// A body is read at most once per request: after the first offer the cache
/// is filled, and every later offer leaves it, and what it hands out, as
/// they were.
pub proof fn lemma_body_read_once(cached: Option<Seq<u8>>, first: Seq<u8>, later: Seq<u8>)
    ensures
        cache_step(cached, first) is Some,
        cache_step(cache_step(cached, first), later) == cache_step(cached, first),
{
}

} // verus!
