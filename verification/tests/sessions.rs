use navar::base_service::{BaseService, Route, ServiceError, SessionPool};
use navar::dispatch::{Action, Dispatch, Outcome};
use navar::uri::UriParts;

type Work = Outcome<&'static str, u32, &'static str, &'static str, &'static str>;

fn service() -> BaseService<u8, u16, u32, u32> {
    BaseService::new(1, 2, 3)
}

fn uri(source: &str) -> UriParts {
    UriParts::parse(source).unwrap()
}

#[test]
fn dispatch_does_all_work_in_order() {
    let mut dispatch = Dispatch::connecting();
    assert!(matches!(
        dispatch.advance(Work::Connected("connection")),
        Action::Handshake("connection")
    ));
    assert!(matches!(
        dispatch.advance(Work::Established(7, "driver")),
        Action::Launch(7, "driver")
    ));
    assert!(matches!(dispatch.advance(Work::Responded("ok")), Action::Respond("ok")));
}

#[test]
fn dispatch_ends_with_the_first_failure() {
    let mut dispatch = Dispatch::connecting();
    assert!(matches!(dispatch.advance(Work::Failed("refused")), Action::Fail("refused")));
    let mut dispatch = Dispatch::connecting();
    dispatch.advance(Work::Connected("connection"));
    assert!(matches!(dispatch.advance(Work::Failed("alert")), Action::Fail("alert")));
    let mut dispatch = Dispatch::reusing();
    assert!(matches!(dispatch.advance(Work::Failed("reset")), Action::Fail("reset")));
}

#[test]
fn dispatch_through_a_session_only_sends() {
    let mut dispatch = Dispatch::reusing();
    assert!(matches!(dispatch.advance(Work::Responded("ok")), Action::Respond("ok")));
}

#[test]
fn service_keeps_its_plugins() {
    assert_eq!(service().plugins(), (&1, &2, &3));
}

#[test]
fn service_needs_an_authority() {
    let error = service().route(&uri("/path")).unwrap_err();
    assert_eq!(error, ServiceError::MissingAuthority);
    assert_eq!(error.message(), "URI missing authority");
}

#[test]
fn service_establishes_a_session_once() {
    let mut service = service();
    let target = uri("http://a.example:8080/x");
    match service.route(&target).unwrap() {
        Route::Establish(authority) => assert_eq!(authority, "a.example:8080"),
        other => panic!("unexpected: {other:?}"),
    }
    let mut dispatch = Dispatch::connecting();
    service.advance("a.example:8080", &mut dispatch, Work::Connected("connection"));
    assert!(matches!(service.route(&target).unwrap(), Route::Establish(_)));
    assert!(matches!(
        service.advance("a.example:8080", &mut dispatch, Work::Established(7, "driver")),
        Action::Launch(7, "driver")
    ));
    assert!(matches!(service.route(&target).unwrap(), Route::Reuse(7)));
    service.advance("a.example:8080", &mut dispatch, Work::Failed("reset"));
    assert!(matches!(
        service.route(&uri("https://a.example:8080/y")).unwrap(),
        Route::Reuse(7)
    ));
    assert!(matches!(service.route(&uri("http://a.example/")).unwrap(), Route::Establish(_)));
    assert!(matches!(service.route(&uri("http://b.example:8080/")).unwrap(), Route::Establish(_)));
}

#[test]
fn service_stores_nothing_when_the_handshake_fails() {
    let mut service = service();
    let mut dispatch = Dispatch::connecting();
    service.advance("a.example", &mut dispatch, Work::Connected("connection"));
    service.advance("a.example", &mut dispatch, Work::Failed("alert"));
    assert!(matches!(service.route(&uri("http://a.example/")).unwrap(), Route::Establish(_)));
}

#[test]
fn pooled_sessions_stay() {
    let mut service = service();
    service.store("a.example", 1);
    for number in 0..100 {
        service.store(&format!("{number}.example"), number);
    }
    assert!(matches!(service.route(&uri("http://a.example/")).unwrap(), Route::Reuse(1)));
    assert!(matches!(service.route(&uri("http://42.example/")).unwrap(), Route::Reuse(42)));
}

#[test]
fn one_session_is_established_per_authority() {
    let mut service = service();
    let mut established = 0;
    let requests = [
        ("http://a.example/1", 0),
        ("http://b.example/", 1),
        ("https://a.example/2", 0),
        ("http://a.example:80/", 2),
        ("http://b.example/x?y", 1),
    ];
    for (source, expected) in requests {
        let target = uri(source);
        let authority = match service.route(&target).unwrap() {
            Route::Reuse(_) => None,
            Route::Establish(authority) => Some(authority.to_owned()),
        };
        if let Some(authority) = authority {
            let mut dispatch = Dispatch::connecting();
            service.advance(&authority, &mut dispatch, Work::Connected("connection"));
            service.advance(&authority, &mut dispatch, Work::Established(established, "driver"));
            established += 1;
        }
        match service.route(&target).unwrap() {
            Route::Reuse(session) => assert_eq!(*session, expected),
            other => panic!("unexpected: {other:?}"),
        }
    }
    assert_eq!(established, 3);
}

#[test]
fn pool_drops_a_session_that_is_replaced() {
    let first = std::rc::Rc::new(());
    let mut pool = SessionPool::new();
    pool.insert("a", first.clone());
    pool.insert("a", std::rc::Rc::new(()));
    assert_eq!(std::rc::Rc::strong_count(&first), 1);
}

#[test]
fn pool_finds_the_latest_session() {
    let mut pool: SessionPool<&str> = SessionPool::new();
    assert_eq!(pool.get("a"), None);
    pool.insert("a", "first");
    pool.insert("b", "other");
    pool.insert("a", "second");
    assert_eq!(pool.get("a"), Some(&"second"));
    assert_eq!(pool.get("b"), Some(&"other"));
    assert_eq!(pool.get("A"), None);
}
