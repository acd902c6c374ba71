use rpc_router::ProtocolId;
use rpc_router::ProtocolServiceNotFound;
use rpc_router::Or;
use rpc_router::Request;
use rpc_router::Response;
use rpc_router::RoutePredicate;
use rpc_router::Router;
use rpc_router::Routes;
use rpc_router::RpcServer;
use rpc_router::RpcServerError;

fn id(bytes: &[u8]) -> ProtocolId {
    ProtocolId::from_bytes(bytes.to_vec())
}

/// A handler that prefixes its greeting to the request payload.
#[derive(Clone)]
struct GreetingService {
    greeting: &'static str,
}

impl GreetingService {
    fn call(&self, req: Request) -> Response {
        let msg = req.into_message();
        let text = String::from_utf8_lossy(&msg).into_owned();
        Response::from_message(format!("{} {}", self.greeting, text).into_bytes())
    }
}

fn read_single_message(resp: Response) -> String {
    let mut body = resp.into_message();
    let chunk = body.next().unwrap();
    assert!(body.next().is_none());
    String::from_utf8(chunk).unwrap()
}

#[test]
fn find_route() {
    let server = RpcServer::new();
    let router = Router::new(server, id(b"hello"), GreetingService { greeting: "Hello" });
    let router = router.add_service(id(b"goodbye"), GreetingService { greeting: "Goodbye" });
    let names: Vec<&[u8]> = router.all_protocols().iter().map(|p| p.as_bytes().as_slice()).collect();
    assert_eq!(names, vec![&b"hello"[..], &b"goodbye"[..]]);

    let hello_svc = router.call(&id(b"hello")).unwrap();
    let req = Request::new(1, b"Kerbal".to_vec());
    let resp = hello_svc.call(req);
    assert_eq!(read_single_message(resp), "Hello Kerbal");

    let bye_svc = router.call(&id(b"goodbye")).unwrap();
    let req = Request::new(1, b"Xel'naga".to_vec());
    let resp = bye_svc.call(req);
    assert_eq!(read_single_message(resp), "Goodbye Xel'naga");

    let result = router.call(&id(b"/totally/real/protocol"));
    let err = match result {
        Ok(_) => panic!("Unexpected success for non-existent route"),
        Err(err) => err,
    };
    let RpcServerError::ProtocolServiceNotFound(proto) = err else {
        panic!("wrong error kind");
    };
    assert_eq!(String::from_utf8(proto.as_bytes().clone()).unwrap(), "/totally/real/protocol");
}

#[test]
fn resolves_each_registered_identifier() {
    let router = Router::new(RpcServer::new(), id(b"alpha"), 1u32)
        .add_service(id(b"beta"), 2u32)
        .add_service(id(b"gamma"), 3u32);
    assert_eq!(*router.call(&id(b"alpha")).unwrap(), 1);
    assert_eq!(*router.call(&id(b"beta")).unwrap(), 2);
    assert_eq!(*router.call(&id(b"gamma")).unwrap(), 3);
}

#[test]
fn unregistered_identifier_carries_itself_back() {
    let router = Router::new(RpcServer::new(), id(b"alpha"), 1u32).add_service(id(b"beta"), 2u32);
    for probe in [&b"alph"[..], b"alphaa", b"", b"/x/y"] {
        match router.call(&id(probe)) {
            Ok(_) => panic!("must not resolve"),
            Err(RpcServerError::ProtocolServiceNotFound(p)) => {
                assert_eq!(p.as_bytes().as_slice(), probe);
            },
            Err(_) => panic!("wrong error kind"),
        }
    }
}

#[test]
fn tie_break_latest_registration_wins() {
    // two routes under the same identifier: the later registration is used
    let router = Router::new(RpcServer::new(), id(b"same"), 1u32).add_service(id(b"same"), 2u32);
    assert_eq!(*router.call(&id(b"same")).unwrap(), 2);

    // overlapping predicates built directly from the combinator: the outer
    // (most recently composed) route is tested first
    let inner = Routes::Or(Or::new(
        RoutePredicate::Prefix(id(b"/tari")),
        10u32,
        Routes::NotFound(ProtocolServiceNotFound),
    ));
    let routes = Routes::Or(Or::new(RoutePredicate::Exact(id(b"/tari/base-node")), 20u32, inner));
    assert_eq!(*routes.resolve(&id(b"/tari/base-node")).unwrap(), 20);
    assert_eq!(*routes.resolve(&id(b"/tari/wallet")).unwrap(), 10);
}

#[test]
fn empty_router_rejects_everything() {
    let routes: Routes<u32> = Routes::NotFound(ProtocolServiceNotFound);
    for probe in [&b""[..], b"hello", b"/totally/real/protocol"] {
        match routes.resolve(&id(probe)) {
            Ok(_) => panic!("must not resolve"),
            Err(RpcServerError::ProtocolServiceNotFound(p)) => {
                assert_eq!(p.as_bytes().as_slice(), probe);
            },
            Err(_) => panic!("wrong error kind"),
        }
    }
}

#[test]
fn many_mixed_resolutions_are_consistent() {
    // one shared router, resolved far more than a hundred times with a mix
    // of registered and unregistered identifiers; every outcome must match
    // the single-resolution semantics, with no state carried between calls
    let router = Router::new(RpcServer::new(), id(b"alpha"), 1u32)
        .add_service(id(b"beta"), 2u32)
        .add_service(id(b"gamma"), 3u32);
    let cases: [(&[u8], Option<u32>); 6] = [
        (b"alpha", Some(1)),
        (b"beta", Some(2)),
        (b"gamma", Some(3)),
        (b"delta", None),
        (b"", None),
        (b"alpha2", None),
    ];
    for round in 0..25 {
        for (probe, expected) in cases.iter() {
            match (router.call(&id(probe)), expected) {
                (Ok(v), Some(w)) => assert_eq!(*v, *w, "round {}", round),
                (Err(RpcServerError::ProtocolServiceNotFound(p)), None) => {
                    assert_eq!(p.as_bytes().as_slice(), *probe);
                },
                _ => panic!("outcome changed between resolutions"),
            }
        }
    }
}

#[test]
fn predicate_kinds_match_as_documented() {
    assert!(RoutePredicate::Exact(id(b"a/b")).matches(&id(b"a/b")));
    assert!(!RoutePredicate::Exact(id(b"a/b")).matches(&id(b"a/b/c")));
    assert!(RoutePredicate::Prefix(id(b"a/")).matches(&id(b"a/b")));
    assert!(!RoutePredicate::Prefix(id(b"a/")).matches(&id(b"a")));
    assert!(RoutePredicate::Any.matches(&id(b"")));
    assert!(RoutePredicate::Any.matches(&id(b"zzz")));
}

#[test]
fn router_handle_and_boxing() {
    let router = Router::new(RpcServer::new(), id(b"alpha"), 7u32);
    let _handle = router.get_handle();
    let boxed = router.into_boxed();
    assert_eq!(*boxed.call(&id(b"alpha")).unwrap(), 7);
}
