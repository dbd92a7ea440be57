//! The registry of backend services: service name to the address and transport
//! by which the service is reached.
use vstd::prelude::*;

verus! {

/// How a backend service is reached.
#[derive(Clone, Copy, Debug, PartialEq, Eq, Structural)]
pub enum Transport {
    Http,
    WebSocket,
}

/// Where one service lives.
#[derive(Debug)]
pub struct ServiceRoute {
    pub addr: String,
    pub transport: Transport,
}

impl ServiceRoute {
    pub fn new(addr: String, transport: Transport) -> (r: Self)
        ensures
            r.addr@ == addr@,
            r.transport == transport,
    {
        ServiceRoute { addr, transport }
    }

    pub fn duplicate(&self) -> (r: Self)
        ensures
            r.addr@ == self.addr@,
            r.transport == self.transport,
    {
        ServiceRoute { addr: self.addr.clone(), transport: self.transport }
    }
}

/// Why a call could not be routed.
#[derive(Debug, PartialEq, Eq, Structural)]
pub enum RouteError {
    ServiceNotFound,
}

/// A mapping from service name to route, with each name present at most once.
/// Entries keep the order in which their names were first inserted.
#[derive(Debug)]
pub struct ServiceRouteTable {
    entries: Vec<(String, ServiceRoute)>,
}

/// What a route table holds, as plain sequences in table order.
pub struct TableModel {
    pub names: Seq<Seq<char>>,
    pub addrs: Seq<Seq<char>>,
    pub transports: Seq<Transport>,
}

impl View for ServiceRouteTable {
    type V = TableModel;

    open spec fn view(&self) -> TableModel {
        TableModel { names: self.names(), addrs: self.addrs(), transports: self.transports() }
    }
}

/// The position of `name` among `names`, if it is there.
pub open spec fn index_of(names: Seq<Seq<char>>, name: Seq<char>) -> Option<int> {
    if exists|i: int| 0 <= i < names.len() && names[i] == name {
        Some(choose|i: int| 0 <= i < names.len() && names[i] == name)
    } else {
        None
    }
}

impl ServiceRouteTable {
    /// The service names, in table order.
    pub closed spec fn names(&self) -> Seq<Seq<char>> {
        self.entries@.map_values(|e: (String, ServiceRoute)| e.0@)
    }

    /// The address of each service, in table order.
    pub closed spec fn addrs(&self) -> Seq<Seq<char>> {
        self.entries@.map_values(|e: (String, ServiceRoute)| e.1.addr@)
    }

    /// The transport of each service, in table order.
    pub closed spec fn transports(&self) -> Seq<Transport> {
        self.entries@.map_values(|e: (String, ServiceRoute)| e.1.transport)
    }

    /// Names are unique.
    pub open spec fn wf(&self) -> bool {
        &&& self.addrs().len() == self.names().len()
        &&& self.transports().len() == self.names().len()
        &&& forall|i: int, j: int|
            0 <= i < self.names().len() && 0 <= j < self.names().len() && i != j
                ==> self.names()[i] != self.names()[j]
    }

    pub fn new() -> (r: Self)
        ensures
            r.wf(),
            r.names() == Seq::<Seq<char>>::empty(),
    {
        let r = ServiceRouteTable { entries: Vec::new() };
        assert(r.names() =~= Seq::<Seq<char>>::empty());
        r
    }

    pub fn len(&self) -> (r: usize)
        ensures
            r == self.names().len(),
    {
        self.entries.len()
    }

    fn find(&self, name: &String) -> (r: Option<usize>)
        requires
            self.wf(),
        ensures
            match r {
                Some(i) => i < self.names().len() && self.names()[i as int] == name@,
                None => forall|j: int| 0 <= j < self.names().len() ==> self.names()[j] != name@,
            },
    {
        let mut i: usize = 0;
        while i < self.entries.len()
            invariant
                i <= self.entries@.len(),
                self.names().len() == self.entries@.len(),
                forall|j: int| 0 <= j < i ==> self.names()[j] != name@,
            decreases self.entries@.len() - i,
        {
            if self.entries[i].0 == *name {
                return Some(i);
            }
            i = i + 1;
        }
        None
    }

    /// Adds a route, or replaces the route of a service that is already present.
    pub fn insert(&mut self, name: String, route: ServiceRoute)
        requires
            old(self).wf(),
            old(self).names().len() < usize::MAX,
        ensures
            final(self).wf(),
            match index_of(old(self).names(), name@) {
                Some(i) => {
                    &&& final(self).names() == old(self).names()
                    &&& final(self).addrs() == old(self).addrs().update(i, route.addr@)
                    &&& final(self).transports() == old(self).transports().update(
                        i,
                        route.transport,
                    )
                },
                None => {
                    &&& final(self).names() == old(self).names().push(name@)
                    &&& final(self).addrs() == old(self).addrs().push(route.addr@)
                    &&& final(self).transports() == old(self).transports().push(route.transport)
                },
            },
    {
        let ghost name_v = name@;
        let ghost addr_v = route.addr@;
        let ghost tr = route.transport;
        match self.find(&name) {
            Some(i) => {
                assert(index_of(old(self).names(), name_v) is Some);
                assert(index_of(old(self).names(), name_v) == Some(i as int));
                self.entries.set(i, (name, route));
                assert(self.names() =~= old(self).names());
                assert(self.addrs() =~= old(self).addrs().update(i as int, addr_v));
                assert(self.transports() =~= old(self).transports().update(i as int, tr));
            },
            None => {
                assert(index_of(old(self).names(), name_v) is None);
                self.entries.push((name, route));
                assert(self.names() =~= old(self).names().push(name_v));
                assert(self.addrs() =~= old(self).addrs().push(addr_v));
                assert(self.transports() =~= old(self).transports().push(tr));
            },
        }
    }

    /// The route of `service`, or `ServiceNotFound` where the table has no such name.
    pub fn resolve(&self, service: &String) -> (r: Result<&ServiceRoute, RouteError>)
        requires
            self.wf(),
        ensures
            match index_of(self.names(), service@) {
                Some(i) => r matches Ok(route) && route.addr@ == self.addrs()[i]
                    && route.transport == self.transports()[i],
                None => r == Err::<&ServiceRoute, RouteError>(RouteError::ServiceNotFound),
            },
    {
        match self.find(service) {
            Some(i) => {
                assert(index_of(self.names(), service@) == Some(i as int));
                Ok(&self.entries[i].1)
            },
            None => Err(RouteError::ServiceNotFound),
        }
    }

    /// Whether `names` are this table's service names, in table order.
    pub fn has_names(&self, names: &Vec<String>) -> (r: bool)
        ensures
            r == (names@.map_values(|s: String| s@) == self.names()),
    {
        if names.len() != self.entries.len() {
            proof {
                assert(names@.map_values(|s: String| s@).len() != self.names().len());
            }
            return false;
        }
        let mut i: usize = 0;
        while i < names.len()
            invariant
                i <= names@.len(),
                names@.len() == self.entries@.len(),
                self.names().len() == self.entries@.len(),
                forall|j: int| 0 <= j < i ==> names@[j]@ == self.names()[j],
            decreases names@.len() - i,
        {
            if names[i] != self.entries[i].0 {
                proof {
                    assert(names@.map_values(|s: String| s@)[i as int] != self.names()[i as int]);
                }
                return false;
            }
            i = i + 1;
        }
        assert(names@.map_values(|s: String| s@) =~= self.names());
        true
    }

    /// The service names, in table order.
    pub fn keys(&self) -> (r: Vec<String>)
        ensures
            r@.map_values(|s: String| s@) == self.names(),
    {
        let mut out: Vec<String> = Vec::new();
        let mut i: usize = 0;
        while i < self.entries.len()
            invariant
                i <= self.entries@.len(),
                self.names().len() == self.entries@.len(),
                out@.len() == i,
                forall|j: int| 0 <= j < i ==> out@[j]@ == self.names()[j],
            decreases self.entries@.len() - i,
        {
            out.push(self.entries[i].0.clone());
            i = i + 1;
        }
        assert(out@.map_values(|s: String| s@) =~= self.names());
        out
    }

    pub fn duplicate(&self) -> (r: Self)
        ensures
            r.names() == self.names(),
            r.addrs() == self.addrs(),
            r.transports() == self.transports(),
            r@ == self@,
    {
        let mut out: Vec<(String, ServiceRoute)> = Vec::new();
        let mut i: usize = 0;
        while i < self.entries.len()
            invariant
                i <= self.entries@.len(),
                self.names().len() == self.entries@.len(),
                self.addrs().len() == self.entries@.len(),
                self.transports().len() == self.entries@.len(),
                out@.len() == i,
                forall|j: int| 0 <= j < i ==> out@[j].0@ == self.names()[j]
                    && out@[j].1.addr@ == self.addrs()[j]
                    && out@[j].1.transport == self.transports()[j],
            decreases self.entries@.len() - i,
        {
            let e = &self.entries[i];
            out.push((e.0.clone(), e.1.duplicate()));
            i = i + 1;
        }
        let r = ServiceRouteTable { entries: out };
        assert(r.names() =~= self.names());
        assert(r.addrs() =~= self.addrs());
        assert(r.transports() =~= self.transports());
        r
    }
}

} // verus!
