use graphgate::composer::{sdl_query, LoopEvent, SharedRouteTable, UpdateError};
use graphgate::fetcher::{Dispatch, HttpFetcher};
use graphgate::handler::{next_action, not_ready_response, QueryAction, QueryEvent, ReplyBody};
use graphgate::route_table::{RouteError, ServiceRoute, ServiceRouteTable, Transport};
use graphgate::websocket::{decimal_string, format_request_key, reply_outcome, FetchError, WebSocketController, WebSocketFetcher};

fn table(entries: &[(&str, &str, Transport)]) -> ServiceRouteTable {
    let mut t = ServiceRouteTable::new();
    for (name, addr, transport) in entries {
        t.insert(name.to_string(), ServiceRoute::new(addr.to_string(), *transport));
    }
    t
}

fn names(ns: &[&str]) -> Vec<String> {
    ns.iter().map(|n| n.to_string()).collect()
}

fn ok(s: &str) -> Result<String, String> {
    Ok(s.to_string())
}

#[test]
fn route_table_insert_and_resolve() {
    let mut t = table(&[("a", "127.0.0.1:8001", Transport::Http)]);
    assert_eq!(t.len(), 1);
    let r = t.resolve(&"a".to_string()).unwrap();
    assert_eq!(r.addr, "127.0.0.1:8001");
    t.insert("a".to_string(), ServiceRoute::new("127.0.0.1:9001".to_string(), Transport::WebSocket));
    assert_eq!(t.len(), 1);
    let r = t.resolve(&"a".to_string()).unwrap();
    assert_eq!(r.addr, "127.0.0.1:9001");
    assert_eq!(r.transport, Transport::WebSocket);
    assert_eq!(t.resolve(&"zzz".to_string()).unwrap_err(), RouteError::ServiceNotFound);
}

#[test]
fn route_table_keys_keep_insertion_order() {
    let t = table(&[("b", "x", Transport::Http), ("a", "y", Transport::Http), ("b", "z", Transport::Http)]);
    assert_eq!(t.keys(), vec!["b".to_string(), "a".to_string()]);
    let d = t.duplicate();
    assert_eq!(d.keys(), t.keys());
    assert_eq!(d.resolve(&"b".to_string()).unwrap().addr, "z");
}

#[test]
fn sdl_query_text() {
    assert_eq!(sdl_query(), "{ _service { sdl }}");
}

#[test]
fn snapshot_absent_until_first_recomposition() {
    let mut shared = SharedRouteTable::default();
    assert!(shared.get_inner().is_none());
    assert!(shared.route_table().is_none());
    assert!(shared.services_to_poll().is_none());
    assert_eq!(shared.finish_update(&vec![], vec![ok("type Query { a: Int }")]), Ok(()));
    assert!(shared.get_inner().is_none());
    shared.apply_route_table(table(&[("a", "h1", Transport::Http)]));
    assert!(shared.get_inner().is_none());
    assert_eq!(shared.services_to_poll(), Some(vec!["a".to_string()]));
    assert_eq!(shared.finish_update(&names(&["a"]), vec![ok("type Query { a: Int }")]), Ok(()));
    let (schema, t) = shared.get_inner().unwrap();
    assert_eq!(schema.documents().len(), 1);
    assert_eq!(schema.documents()[0].service, "a");
    assert_eq!(schema.documents()[0].sdl, "type Query { a: Int }");
    assert_eq!(t.keys(), vec!["a".to_string()]);
}

#[test]
fn failed_refresh_keeps_previous_schema() {
    let mut shared = SharedRouteTable::new();
    shared.apply_route_table(table(&[("a", "h1", Transport::Http), ("b", "h2", Transport::Http)]));
    assert_eq!(shared.finish_update(&names(&["a", "b"]), vec![ok("type Query { a: Int }"), ok("type Query { b: String }")]), Ok(()));
    let r = shared.finish_update(&names(&["a", "b"]), vec![ok("type Query { a: Float }"), Err("unreachable".to_string())]);
    assert_eq!(r, Err(UpdateError::ServiceFailed { index: 1, message: "unreachable".to_string() }));
    let (schema, _) = shared.get_inner().unwrap();
    assert_eq!(schema.documents()[0].sdl, "type Query { a: Int }");
    assert_eq!(schema.documents()[1].sdl, "type Query { b: String }");
    let r = shared.finish_update(&names(&["a", "b"]), vec![ok("type Query { a: Float }")]);
    assert_eq!(r, Err(UpdateError::OutcomeCount));
    assert_eq!(shared.get_inner().unwrap().0.documents()[0].sdl, "type Query { a: Int }");
}

#[test]
fn route_change_clears_schema_until_recomposed() {
    let mut shared = SharedRouteTable::new();
    shared.apply_route_table(table(&[("a", "h1", Transport::Http)]));
    assert_eq!(shared.finish_update(&names(&["a"]), vec![ok("type Query { a: Int }")]), Ok(()));
    assert!(shared.get_inner().is_some());
    shared.apply_route_table(table(&[("b", "h2", Transport::Http)]));
    assert!(shared.get_inner().is_none());
    assert_eq!(shared.services_to_poll(), Some(vec!["b".to_string()]));
    assert_eq!(shared.finish_update(&names(&["b"]), vec![ok("type Query { b: String }")]), Ok(()));
    let (schema, t) = shared.get_inner().unwrap();
    assert_eq!(schema.documents()[0].service, "b");
    assert_eq!(t.keys(), vec!["b".to_string()]);
}

#[test]
fn websocket_ids_are_distinct_and_replies_routed() {
    let mut f: WebSocketFetcher<&str> = WebSocketFetcher::new(WebSocketController::new());
    let k0 = f.begin_query("first caller").unwrap();
    let k1 = f.begin_query("second caller").unwrap();
    assert_eq!(k0, "__req0");
    assert_eq!(k1, "__req1");
    assert_ne!(k0, k1);
    assert_eq!(f.on_reply(&k1), Some("second caller"));
    assert_eq!(f.on_reply(&k1), None);
    assert_eq!(f.on_reply(&"__req7".to_string()), None);
    assert_eq!(f.on_reply(&k0), Some("first caller"));
}

#[test]
fn websocket_close_fails_pending_callers() {
    let mut c: WebSocketController<u32> = WebSocketController::new();
    assert_eq!(c.subscribe("__req0".to_string(), 10), Ok(()));
    assert_eq!(c.subscribe("__req1".to_string(), 11), Ok(()));
    assert_eq!(c.subscribe("__req1".to_string(), 99), Err(FetchError::DuplicateId));
    assert_eq!(c.subscribe("__req2".to_string(), 12), Ok(()));
    assert_eq!(c.deliver(&"__req0".to_string()), Some(10));
    assert_eq!(c.pending_count(), 2);
    assert_eq!(c.close(), vec![11, 12]);
    assert_eq!(c.pending_count(), 0);
    assert_eq!(reply_outcome::<u32>(None), Err(FetchError::ConnectionClosed));
    assert_eq!(reply_outcome(Some(5u32)), Ok(5));
}

#[test]
fn websocket_fetcher_numbers_from_zero() {
    let mut c: WebSocketController<u32> = WebSocketController::new();
    assert_eq!(c.subscribe("__req0".to_string(), 7), Ok(()));
    let mut f = WebSocketFetcher::new(c);
    assert_eq!(f.begin_query(1), Err(FetchError::DuplicateId));
    assert_eq!(f.begin_query(2), Ok("__req1".to_string()));
    assert_eq!(f.on_reply(&"__req0".to_string()), Some(7));
    assert_eq!(f.on_close(), vec![2]);
    assert_eq!(f.begin_query(3), Ok("__req2".to_string()));
}

#[test]
fn request_keys_are_decimal() {
    assert_eq!(decimal_string(0), "0");
    assert_eq!(decimal_string(907), "907");
    assert_eq!(decimal_string(u64::MAX), "18446744073709551615");
    assert_eq!(format_request_key(42), "__req42");
}

#[test]
fn refresh_against_changed_table_is_refused() {
    let mut shared = SharedRouteTable::new();
    shared.apply_route_table(table(&[("a", "h1", Transport::Http)]));
    let polled = shared.services_to_poll().unwrap();
    shared.apply_route_table(table(&[("b", "h2", Transport::Http)]));
    assert_eq!(shared.finish_update(&polled, vec![ok("type Query { a: Int }")]), Err(UpdateError::TableChanged));
    assert!(shared.get_inner().is_none());
}

#[test]
fn syntax_error_is_bad_request() {
    match next_action(QueryEvent::Parsed(Err("unexpected token".to_string()))) {
        QueryAction::Respond(reply) => {
            assert_eq!(reply.status, 400);
            match reply.body {
                ReplyBody::Text(t) => assert_eq!(t, "unexpected token"),
                other => panic!("unexpected body {:?}", other),
            }
        }
        other => panic!("unexpected action {:?}", other),
    }
}

#[test]
fn not_ready_is_ok_with_one_error() {
    let r = not_ready_response();
    assert!(r.data.is_none());
    assert_eq!(r.errors.len(), 1);
    assert_eq!(r.errors[0].message, "Not ready.");
    match next_action(QueryEvent::SnapshotRead(false)) {
        QueryAction::Respond(reply) => {
            assert_eq!(reply.status, 200);
            match reply.body {
                ReplyBody::Graph(resp) => {
                    assert!(resp.data.is_none());
                    assert_eq!(resp.errors.len(), 1);
                    assert_eq!(resp.errors[0].message, "Not ready.");
                }
                other => panic!("unexpected body {:?}", other),
            }
        }
        other => panic!("unexpected action {:?}", other),
    }
}

#[test]
fn query_steps_in_order() {
    assert!(matches!(next_action(QueryEvent::Parsed(Ok(()))), QueryAction::ReadSnapshot));
    assert!(matches!(next_action(QueryEvent::SnapshotRead(true)), QueryAction::BuildPlan));
    assert!(matches!(next_action(QueryEvent::Planned(Ok(()))), QueryAction::Execute));
    match next_action(QueryEvent::Planned(Err("{\"data\":null,\"errors\":[]}".to_string()))) {
        QueryAction::Respond(reply) => {
            assert_eq!(reply.status, 200);
            assert!(matches!(reply.body, ReplyBody::Json(ref j) if j == "{\"data\":null,\"errors\":[]}"));
        }
        other => panic!("unexpected action {:?}", other),
    }
    match next_action(QueryEvent::Executed("{\"data\":{\"a\":1}}".to_string())) {
        QueryAction::Respond(reply) => {
            assert_eq!(reply.status, 200);
            assert!(matches!(reply.body, ReplyBody::Json(ref j) if j == "{\"data\":{\"a\":1}}"));
        }
        other => panic!("unexpected action {:?}", other),
    }
}

#[test]
fn http_fetcher_dispatch() {
    let t = table(&[("a", "h1", Transport::Http), ("s", "ws1", Transport::WebSocket)]);
    let headers = http::HeaderMap::new();
    let f = HttpFetcher::new(&t, &headers);
    match f.dispatch(&"a".to_string()) {
        Ok(Dispatch::Http { route, .. }) => assert_eq!(route.addr, "h1"),
        other => panic!("unexpected {:?}", other),
    }
    match f.dispatch(&"s".to_string()) {
        Ok(Dispatch::WebSocket { route }) => assert_eq!(route.addr, "ws1"),
        other => panic!("unexpected {:?}", other),
    }
    assert!(matches!(f.dispatch(&"x".to_string()), Err(FetchError::ServiceNotFound)));
}

#[test]
fn two_services_compose_and_route() {
    let mut shared = SharedRouteTable::new();
    shared.apply_route_table(table(&[("A", "a:1", Transport::Http), ("B", "b:1", Transport::Http)]));
    let services = shared.services_to_poll().unwrap();
    assert_eq!(services, vec!["A".to_string(), "B".to_string()]);
    assert_eq!(shared.finish_update(&services, vec![ok("type Query { a: Int }"), ok("type Query { b: String }")]), Ok(()));
    let (schema, t) = shared.get_inner().unwrap();
    let docs: Vec<(String, String)> = schema.documents().iter().map(|d| (d.service.clone(), d.sdl.clone())).collect();
    assert_eq!(docs, vec![
        ("A".to_string(), "type Query { a: Int }".to_string()),
        ("B".to_string(), "type Query { b: String }".to_string()),
    ]);
    let headers = http::HeaderMap::new();
    let f = HttpFetcher::new(t, &headers);
    assert!(matches!(f.dispatch(&"A".to_string()), Ok(Dispatch::Http { route, .. }) if route.addr == "a:1"));
    assert!(matches!(f.dispatch(&"B".to_string()), Ok(Dispatch::Http { route, .. }) if route.addr == "b:1"));
}

#[test]
fn loop_events_apply_commands_and_poll_on_tick() {
    let mut shared = SharedRouteTable::new();
    assert_eq!(shared.on_event(LoopEvent::Tick), None);
    let r = shared.on_event(LoopEvent::Command(table(&[("a", "h1", Transport::Http), ("b", "h2", Transport::Http)])));
    assert_eq!(r, None);
    assert!(shared.get_inner().is_none());
    assert_eq!(shared.on_event(LoopEvent::Tick), Some(vec!["a".to_string(), "b".to_string()]));
    assert!(shared.get_inner().is_none());
}
