//! The HTTP fetcher: resolves a service through the route table and forwards the
//! caller's headers with the call.
use vstd::prelude::*;
use crate::route_table::{ServiceRoute, ServiceRouteTable, Transport, index_of};
use crate::websocket::FetchError;

verus! {

/// The header map of an incoming request, carried through unread.
#[verifier::external_type_specification]
#[verifier::external_body]
#[verifier::reject_recursive_types(T)]
pub struct ExHeaderMap<T>(http::HeaderMap<T>);

/// A header value, held inside a header map.
#[verifier::external_type_specification]
#[verifier::external_body]
pub struct ExHeaderValue(http::HeaderValue);

/// How one backend call is to be made.
#[derive(Debug)]
pub enum Dispatch<'a> {
    /// An HTTP exchange with this route, carrying these headers.
    Http { route: &'a ServiceRoute, headers: &'a http::HeaderMap },
    /// A request over the WebSocket connection of this route.
    WebSocket { route: &'a ServiceRoute },
}

/// A fetcher bound to one route table and to the headers of one incoming request.
pub struct HttpFetcher<'a> {
    router_table: &'a ServiceRouteTable,
    header_map: &'a http::HeaderMap,
}

impl<'a> HttpFetcher<'a> {
    pub closed spec fn table(&self) -> &'a ServiceRouteTable {
        self.router_table
    }

    pub closed spec fn headers(&self) -> &'a http::HeaderMap {
        self.header_map
    }

    pub fn new(router_table: &'a ServiceRouteTable, header_map: &'a http::HeaderMap) -> (r: Self)
        ensures
            r.table() == router_table,
            r.headers() == header_map,
    {
        HttpFetcher { router_table, header_map }
    }

    /// Resolves `service`: an HTTP service is called with the caller's headers,
    /// a WebSocket service over its connection; an unknown one is an error.
    pub fn dispatch(&self, service: &String) -> (r: Result<Dispatch<'a>, FetchError>)
        requires
            self.table().wf(),
        ensures
            match index_of(self.table().names(), service@) {
                None => r == Err::<Dispatch<'a>, FetchError>(FetchError::ServiceNotFound),
                Some(i) => match r {
                    Ok(Dispatch::Http { route, headers }) => {
                        &&& self.table().transports()[i] == Transport::Http
                        &&& route.addr@ == self.table().addrs()[i]
                        &&& headers == self.headers()
                    },
                    Ok(Dispatch::WebSocket { route }) => {
                        &&& self.table().transports()[i] == Transport::WebSocket
                        &&& route.addr@ == self.table().addrs()[i]
                    },
                    Err(_) => false,
                },
            },
    {
        match self.router_table.resolve(service) {
            Ok(route) => match route.transport {
                Transport::Http => Ok(Dispatch::Http { route, headers: self.header_map }),
                Transport::WebSocket => Ok(Dispatch::WebSocket { route }),
            },
            Err(_) => Err(FetchError::ServiceNotFound),
        }
    }
}

} // verus!
