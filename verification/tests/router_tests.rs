use tinyserve::router::{Action, Router};

#[test]
fn test_dispatch_matched_route() {
    let mut router = Router::new();
    router.add_route("GET", "/hello", Action::Custom { id: 7 });
    match router.request_handler("GET", "/hello") {
        Some(Action::Custom { id }) => assert_eq!(*id, 7),
        _ => panic!("the registered action must be invoked"),
    }
}

#[test]
fn test_dispatch_unmatched_route_falls_back() {
    let mut router = Router::new();
    router.add_route("GET", "/hello", Action::Custom { id: 7 });
    assert!(router.request_handler("POST", "/hello").is_none());
    assert!(router.request_handler("GET", "/other").is_none());
    assert!(router.request_handler("get", "/hello").is_none());
    assert!(router.request_handler("GET", "/hello/").is_none());
}

#[test]
fn test_duplicate_registration_overwrites() {
    let mut router = Router::new();
    router.add_route("GET", "/page", Action::Custom { id: 1 });
    router.add_route("GET", "/page", Action::Custom { id: 2 });
    match router.request_handler("GET", "/page") {
        Some(Action::Custom { id }) => assert_eq!(*id, 2),
        _ => panic!("the later registration must win"),
    }
}

#[test]
fn test_register_identical_route_twice_idempotent() {
    let mut once = Router::new();
    once.add_route("GET", "/page", Action::Custom { id: 3 });
    let mut twice = Router::new();
    twice.add_route("GET", "/page", Action::Custom { id: 3 });
    twice.add_route("GET", "/page", Action::Custom { id: 3 });
    for (method, path) in [("GET", "/page"), ("GET", "/other"), ("POST", "/page")] {
        match (once.request_handler(method, path), twice.request_handler(method, path)) {
            (Some(Action::Custom { id: a }), Some(Action::Custom { id: b })) => {
                assert_eq!(a, b)
            }
            (None, None) => {}
            _ => panic!("dispatch must be unchanged"),
        }
    }
}

#[test]
fn test_router_is_method_agnostic() {
    let mut router = Router::new();
    router.add_route("PUT", "/thing", Action::Custom { id: 4 });
    match router.request_handler("PUT", "/thing") {
        Some(Action::Custom { id }) => assert_eq!(*id, 4),
        _ => panic!("non-GET routes must be held too"),
    }
}
