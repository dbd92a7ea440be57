//! Correlation of replies on a shared WebSocket connection, and the fetcher that
//! sends each request under a fresh correlation id.
use vstd::prelude::*;
use vstd::string::StringExecFns;
use crate::route_table::index_of;

verus! {

/// Why a backend call failed.
#[derive(Debug, PartialEq, Eq, Structural)]
pub enum FetchError {
    /// The service is not in the route table.
    ServiceNotFound,
    /// The connection closed before the reply came.
    ConnectionClosed,
    /// Every correlation id of this fetcher has been used.
    IdsExhausted,
    /// A reply is already awaited under this correlation id.
    DuplicateId,
}

/// The character of a decimal digit.
pub open spec fn digit_char(d: nat) -> char {
    if d == 0 { '0' }
    else if d == 1 { '1' }
    else if d == 2 { '2' }
    else if d == 3 { '3' }
    else if d == 4 { '4' }
    else if d == 5 { '5' }
    else if d == 6 { '6' }
    else if d == 7 { '7' }
    else if d == 8 { '8' }
    else { '9' }
}

/// The decimal notation of `n`, without leading zeros.
pub open spec fn decimal(n: nat) -> Seq<char>
    decreases n,
{
    if n < 10 {
        seq![digit_char(n)]
    } else {
        decimal(n / 10).push(digit_char(n % 10))
    }
}

/// The correlation id under which request number `n` is sent: `__req<n>`.
pub open spec fn request_key(n: nat) -> Seq<char> {
    "__req"@ + decimal(n)
}

/// The one-character string of a decimal digit.
fn digit_string(d: u64) -> (r: String)
    requires
        d < 10,
    ensures
        r@ == seq![digit_char(d as nat)],
{
    proof {
        reveal_strlit("0");
        reveal_strlit("1");
        reveal_strlit("2");
        reveal_strlit("3");
        reveal_strlit("4");
        reveal_strlit("5");
        reveal_strlit("6");
        reveal_strlit("7");
        reveal_strlit("8");
        reveal_strlit("9");
    }
    let r = if d == 0 {
        String::from_str("0")
    } else if d == 1 {
        String::from_str("1")
    } else if d == 2 {
        String::from_str("2")
    } else if d == 3 {
        String::from_str("3")
    } else if d == 4 {
        String::from_str("4")
    } else if d == 5 {
        String::from_str("5")
    } else if d == 6 {
        String::from_str("6")
    } else if d == 7 {
        String::from_str("7")
    } else if d == 8 {
        String::from_str("8")
    } else {
        String::from_str("9")
    };
    assert(r@ =~= seq![digit_char(d as nat)]);
    r
}

/// The decimal notation of `n`.
pub fn decimal_string(n: u64) -> (r: String)
    ensures
        r@ == decimal(n as nat),
    decreases n,
{
    if n < 10 {
        digit_string(n)
    } else {
        let high = decimal_string(n / 10);
        let low = digit_string(n % 10);
        let r = high.concat(low.as_str());
        assert(r@ =~= decimal(n as nat));
        r
    }
}

/// The correlation id of request number `n`.
pub fn format_request_key(n: u64) -> (r: String)
    ensures
        r@ == request_key(n as nat),
{
    let digits = decimal_string(n);
    String::from_str("__req").concat(digits.as_str())
}

proof fn lemma_decimal_nonempty(n: nat)
    ensures
        decimal(n).len() >= 1,
    decreases n,
{
    if n >= 10 {
        lemma_decimal_nonempty(n / 10);
    }
}

proof fn lemma_digit_char_injective(a: nat, b: nat)
    requires
        a < 10,
        b < 10,
        digit_char(a) == digit_char(b),
    ensures
        a == b,
{
}

/// Distinct numbers have distinct decimal notations.
pub proof fn lemma_decimal_injective(a: nat, b: nat)
    requires
        decimal(a) == decimal(b),
    ensures
        a == b,
    decreases a,
{
    if a < 10 && b < 10 {
        assert(decimal(a)[0] == digit_char(a));
        assert(decimal(b)[0] == digit_char(b));
        lemma_digit_char_injective(a, b);
    } else if a < 10 {
        lemma_decimal_nonempty(b / 10);
        assert(decimal(b).len() >= 2);
    } else if b < 10 {
        lemma_decimal_nonempty(a / 10);
        assert(decimal(a).len() >= 2);
    } else {
        assert(decimal(a).drop_last() =~= decimal(a / 10));
        assert(decimal(b).drop_last() =~= decimal(b / 10));
        lemma_decimal_injective(a / 10, b / 10);
        assert(decimal(a).last() == digit_char(a % 10));
        assert(decimal(b).last() == digit_char(b % 10));
        lemma_digit_char_injective(a % 10, b % 10);
    }
}

/// Distinct request numbers are sent under distinct correlation ids.
pub proof fn lemma_request_key_injective(a: nat, b: nat)
    requires
        request_key(a) == request_key(b),
    ensures
        a == b,
{
    let p = "__req"@;
    assert(request_key(a).subrange(p.len() as int, request_key(a).len() as int) =~= decimal(a));
    assert(request_key(b).subrange(p.len() as int, request_key(b).len() as int) =~= decimal(b));
    lemma_decimal_injective(a, b);
}

/// The table of replies awaited on one connection: each correlation id is paired
/// with the handle of the caller that waits for it.
#[derive(Debug)]
pub struct WebSocketController<H> {
    pending: Vec<(String, H)>,
}

impl<H> WebSocketController<H> {
    /// The correlation ids awaiting a reply, in the order they were sent.
    pub closed spec fn keys(&self) -> Seq<Seq<char>> {
        self.pending@.map_values(|e: (String, H)| e.0@)
    }

    /// The waiting handles, paired by position with `keys`.
    pub closed spec fn handles(&self) -> Seq<H> {
        self.pending@.map_values(|e: (String, H)| e.1)
    }

    /// Each correlation id is pending at most once.
    pub open spec fn wf(&self) -> bool {
        &&& self.handles().len() == self.keys().len()
        &&& forall|i: int, j: int|
            0 <= i < self.keys().len() && 0 <= j < self.keys().len() && i != j ==> self.keys()[i]
                != self.keys()[j]
    }

    /// A controller with nothing pending.
    pub fn new() -> (r: Self)
        ensures
            r.wf(),
            r.keys() == Seq::<Seq<char>>::empty(),
            r.handles() == Seq::<H>::empty(),
    {
        let r = WebSocketController { pending: Vec::new() };
        assert(r.keys() =~= Seq::<Seq<char>>::empty());
        assert(r.handles() =~= Seq::<H>::empty());
        r
    }

    /// How many replies are awaited.
    pub fn pending_count(&self) -> (r: usize)
        requires
            self.wf(),
        ensures
            r == self.keys().len(),
    {
        self.pending.len()
    }

    fn find(&self, key: &String) -> (r: Option<usize>)
        requires
            self.wf(),
        ensures
            match r {
                Some(i) => i < self.keys().len() && index_of(self.keys(), key@) == Some(i as int),
                None => index_of(self.keys(), key@) is None,
            },
    {
        let mut i: usize = 0;
        while i < self.pending.len()
            invariant
                i <= self.pending@.len(),
                self.keys().len() == self.pending@.len(),
                self.wf(),
                forall|j: int| 0 <= j < i ==> self.keys()[j] != key@,
            decreases self.pending@.len() - i,
        {
            if self.pending[i].0 == *key {
                proof {
                    let ks = self.keys();
                    assert(ks[i as int] == key@);
                    let c = choose|c: int| 0 <= c < ks.len() && ks[c] == key@;
                    assert(c == i);
                }
                return Some(i);
            }
            i = i + 1;
        }
        None
    }

    /// Registers `reply` as the caller waiting for the reply tagged `key`. An id
    /// that is already pending is refused and nothing changes.
    pub fn subscribe(&mut self, key: String, reply: H) -> (r: Result<(), FetchError>)
        requires
            old(self).wf(),
        ensures
            final(self).wf(),
            match index_of(old(self).keys(), key@) {
                None => {
                    &&& r is Ok
                    &&& final(self).keys() == old(self).keys().push(key@)
                    &&& final(self).handles() == old(self).handles().push(reply)
                },
                Some(_) => {
                    &&& r == Err::<(), FetchError>(FetchError::DuplicateId)
                    &&& *final(self) == *old(self)
                },
            },
    {
        match self.find(&key) {
            Some(_) => Err(FetchError::DuplicateId),
            None => {
                let ghost k = key@;
                self.pending.push((key, reply));
                assert(self.keys() =~= old(self).keys().push(k));
                assert(self.handles() =~= old(self).handles().push(reply));
                Ok(())
            },
        }
    }

    /// Hands the reply handle registered under `key` to the caller and forgets
    /// it: each handle is handed out at most once. An unknown id yields `None`.
    pub fn deliver(&mut self, key: &String) -> (r: Option<H>)
        requires
            old(self).wf(),
        ensures
            final(self).wf(),
            match index_of(old(self).keys(), key@) {
                Some(i) => {
                    &&& r == Some(old(self).handles()[i])
                    &&& final(self).keys() == old(self).keys().remove(i)
                    &&& final(self).handles() == old(self).handles().remove(i)
                },
                None => {
                    &&& r is None
                    &&& *final(self) == *old(self)
                },
            },
    {
        match self.find(key) {
            Some(i) => {
                let (_, h) = self.pending.remove(i);
                assert(self.keys() =~= old(self).keys().remove(i as int));
                assert(self.handles() =~= old(self).handles().remove(i as int));
                Some(h)
            },
            None => None,
        }
    }

    /// The connection closed: every pending handle is handed back, in the order
    /// the requests were sent, so that each waiting caller can be told; nothing
    /// stays pending.
    pub fn close(&mut self) -> (r: Vec<H>)
        requires
            old(self).wf(),
        ensures
            final(self).wf(),
            r@ == old(self).handles(),
            final(self).keys() == Seq::<Seq<char>>::empty(),
    {
        let mut out: Vec<H> = Vec::new();
        let mut pending: Vec<(String, H)> = Vec::new();
        std::mem::swap(&mut pending, &mut self.pending);
        let ghost old_handles = old(self).handles();
        assert(pending@.map_values(|e: (String, H)| e.1) == old_handles);
        while pending.len() > 0
            invariant
                out@ + pending@.map_values(|e: (String, H)| e.1) == old_handles,
            decreases pending@.len(),
        {
            let ghost before = pending@.map_values(|e: (String, H)| e.1);
            let e = pending.remove(0);
            assert(pending@.map_values(|e: (String, H)| e.1) =~= before.drop_first());
            out.push(e.1);
            assert(out@ + pending@.map_values(|e: (String, H)| e.1) =~= old_handles);
        }
        assert(out@ =~= old_handles);
        assert(self.keys() =~= Seq::<Seq<char>>::empty());
        out
    }
}

/// A pending id routes to its own entry, and to no other: delivering the
/// correlation id of the `i`-th pending request hands out exactly its handle.
pub proof fn lemma_pending_key_routes_to_its_caller<H>(c: WebSocketController<H>, i: int)
    requires
        c.wf(),
        0 <= i < c.keys().len(),
    ensures
        index_of(c.keys(), c.keys()[i]) == Some(i),
{
    let ks = c.keys();
    let j = choose|j: int| 0 <= j < ks.len() && ks[j] == ks[i];
    assert(j == i);
}

/// A fetcher that sends requests over one multiplexed WebSocket connection. It
/// numbers its requests from zero and sends request `n` under `__req<n>`, so no
/// two requests of one fetcher share a correlation id.
#[derive(Debug)]
pub struct WebSocketFetcher<H> {
    controller: WebSocketController<H>,
    id: u64,
}

impl<H> WebSocketFetcher<H> {
    /// The controller of the connection.
    pub closed spec fn controller(&self) -> WebSocketController<H> {
        self.controller
    }

    /// How many requests this fetcher has numbered.
    pub closed spec fn issued(&self) -> nat {
        self.id as nat
    }

    pub open spec fn wf(&self) -> bool {
        self.controller().wf()
    }

    pub fn new(controller: WebSocketController<H>) -> (r: Self)
        requires
            controller.wf(),
        ensures
            r.wf(),
            r.controller() == controller,
            r.issued() == 0,
    {
        WebSocketFetcher { controller, id: 0 }
    }

    /// Numbers the next request, registers the caller's reply handle under its
    /// correlation id `__req<n>`, and returns that id, under which the request is
    /// to be sent. Fails, changing nothing but the count, where the controller
    /// already awaits a reply under that id.
    pub fn begin_query(&mut self, reply: H) -> (r: Result<String, FetchError>)
        requires
            old(self).wf(),
        ensures
            final(self).wf(),
            old(self).issued() == u64::MAX ==> {
                &&& r == Err::<String, FetchError>(FetchError::IdsExhausted)
                &&& *final(self) == *old(self)
            },
            old(self).issued() < u64::MAX ==> {
                &&& final(self).issued() == old(self).issued() + 1
                &&& match index_of(old(self).controller().keys(), request_key(old(self).issued())) {
                    None => {
                        &&& r matches Ok(key) && key@ == request_key(old(self).issued())
                        &&& final(self).controller().keys() == old(self).controller().keys().push(
                            request_key(old(self).issued()),
                        )
                        &&& final(self).controller().handles() == old(
                            self,
                        ).controller().handles().push(reply)
                    },
                    Some(_) => {
                        &&& r == Err::<String, FetchError>(FetchError::DuplicateId)
                        &&& final(self).controller() == old(self).controller()
                    },
                }
            },
    {
        if self.id == u64::MAX {
            return Err(FetchError::IdsExhausted);
        }
        let key = format_request_key(self.id);
        self.id = self.id + 1;
        let sent = key.clone();
        match self.controller.subscribe(key, reply) {
            Ok(()) => Ok(sent),
            Err(e) => Err(e),
        }
    }

    /// A reply frame tagged `key` came in: the handle of the caller waiting for
    /// it, which is then no longer pending.
    pub fn on_reply(&mut self, key: &String) -> (r: Option<H>)
        requires
            old(self).wf(),
        ensures
            final(self).wf(),
            final(self).issued() == old(self).issued(),
            match index_of(old(self).controller().keys(), key@) {
                Some(i) => {
                    &&& r == Some(old(self).controller().handles()[i])
                    &&& final(self).controller().keys() == old(self).controller().keys().remove(i)
                    &&& final(self).controller().handles() == old(
                        self,
                    ).controller().handles().remove(i)
                },
                None => {
                    &&& r is None
                    &&& final(self).controller() == old(self).controller()
                },
            },
    {
        self.controller.deliver(key)
    }

    /// The connection closed: the handles of all callers still waiting.
    pub fn on_close(&mut self) -> (r: Vec<H>)
        requires
            old(self).wf(),
        ensures
            final(self).wf(),
            r@ == old(self).controller().handles(),
            final(self).controller().keys() == Seq::<Seq<char>>::empty(),
            final(self).issued() == old(self).issued(),
    {
        self.controller.close()
    }
}

/// Requests numbered differently by one fetcher are sent under different
/// correlation ids, whatever order their replies come back in.
pub proof fn lemma_distinct_requests_distinct_ids(a: nat, b: nat)
    requires
        a != b,
    ensures
        request_key(a) != request_key(b),
{
    if request_key(a) == request_key(b) {
        lemma_request_key_injective(a, b);
    }
}

/// What a waiting caller gets: the reply, or `ConnectionClosed` when its reply
/// channel was closed without one.
pub fn reply_outcome<T>(received: Option<T>) -> (r: Result<T, FetchError>)
    ensures
        match received {
            Some(v) => r == Ok::<T, FetchError>(v),
            None => r == Err::<T, FetchError>(FetchError::ConnectionClosed),
        },
{
    match received {
        Some(v) => Ok(v),
        None => Err(FetchError::ConnectionClosed),
    }
}

} // verus!
