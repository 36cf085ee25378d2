use mentisdbd::auth::{handle_login, pin_auth, Access, LoginReply, LOGIN_PATH};
use mentisdbd::routes::{dashboard_routes, Handler, Method};

fn passes(pin: Option<&str>, authorization: Option<&[u8]>, cookie: Option<&[u8]>) -> bool {
    match pin_auth(&pin.map(|p| p.to_string()), authorization, cookie) {
        Access::Pass => true,
        Access::Redirect { location } => {
            assert_eq!(location, "/dashboard/login");
            false
        }
    }
}

#[test]
fn without_a_pin_every_request_passes() {
    assert!(passes(None, None, None));
    assert!(passes(None, Some(b"Bearer x"), Some(b"\xff")));
}

#[test]
fn bearer_header_opens_the_dashboard() {
    assert!(passes(Some("1234"), Some(b"Bearer 1234"), None));
    assert!(passes(Some(""), Some(b"Bearer "), None));
    assert!(!passes(Some("1234"), Some(b"Bearer 12345"), None));
    assert!(!passes(Some("1234"), Some(b"bearer 1234"), None));
    assert!(!passes(Some("1234"), Some(b"Bearer  1234"), None));
    assert!(!passes(Some("1234"), Some(b"1234"), None));
}

#[test]
fn neither_header_does_not_pass() {
    assert!(!passes(Some("1234"), None, None));
    assert!(!passes(Some(""), None, None));
}

#[test]
fn cookie_opens_the_dashboard() {
    assert!(passes(Some("1234"), None, Some(b"mentisdb_pin=1234")));
    assert!(passes(Some("1234"), None, Some(b"a=b; mentisdb_pin=1234 ;c=d")));
    assert!(passes(Some("1234"), None, Some(b"mentisdb_pin=9; mentisdb_pin=1234")));
    assert!(passes(Some("1234"), Some(b"Bearer 9"), Some(b"\tmentisdb_pin=1234")));
    assert!(!passes(Some("1234"), None, Some(b"mentisdb_pin=9")));
    assert!(!passes(Some("1234"), None, Some(b"mentisdb_pin =1234")));
    assert!(!passes(Some("1234"), None, Some(b"xmentisdb_pin=1234")));
    assert!(!passes(Some("1234"), None, Some(b"")));
}

#[test]
fn unreadable_headers_are_ignored() {
    assert!(!passes(Some("\u{e9}"), Some("Bearer \u{e9}".as_bytes()), None));
    assert!(!passes(Some("1"), Some(b"Bearer 1\x7f"), None));
    assert!(!passes(Some("1"), None, Some(b"mentisdb_pin=1;\xff")));
    assert!(!passes(Some("1"), None, Some(b"mentisdb_pin=1;\n")));
    assert!(passes(Some("1"), Some(b"\xff"), Some(b"mentisdb_pin=1;\t~")));
}

#[test]
fn login_with_the_pin_sets_the_cookie() {
    match handle_login(&Some("1234".to_string()), "1234") {
        LoginReply::Accepted { status, set_cookie, location } => {
            assert_eq!(status, 303);
            assert_eq!(set_cookie, "mentisdb_pin=1234; Path=/; HttpOnly; SameSite=Strict");
            assert_eq!(location, "/dashboard");
        }
        LoginReply::Rejected { .. } => panic!("rejected"),
    }
}

#[test]
fn login_with_another_pin_is_rejected() {
    match handle_login(&Some("1234".to_string()), "12345") {
        LoginReply::Accepted { .. } => panic!("accepted"),
        LoginReply::Rejected { location } => assert_eq!(location, "/dashboard/login?error=1"),
    }
}

#[test]
fn without_a_pin_any_login_is_accepted() {
    assert!(matches!(
        handle_login(&None, "anything"),
        LoginReply::Accepted { set_cookie, .. }
            if set_cookie == "mentisdb_pin=anything; Path=/; HttpOnly; SameSite=Strict"
    ));
}

#[test]
fn login_opens_the_dashboard() {
    for pin in ["1234", "", "a b", " x", "=", "\t\"q\""] {
        let required = Some(pin.to_string());
        let pair = match handle_login(&required, pin) {
            LoginReply::Accepted { set_cookie, .. } => {
                set_cookie.split(';').next().unwrap().to_string()
            }
            LoginReply::Rejected { .. } => panic!("rejected"),
        };
        for sent in [pair.clone(), format!("a=b; {pair}"), format!("a=b; {pair}; c=d")] {
            assert!(passes(Some(pin), None, Some(sent.as_bytes())), "{sent:?}");
        }
    }
}

#[test]
fn pins_that_a_cookie_cannot_carry() {
    assert!(!passes(Some("a;b"), None, Some(b"mentisdb_pin=a;b")));
    assert!(!passes(Some("a "), None, Some(b"mentisdb_pin=a ")));
    assert!(passes(Some("a;b"), Some(b"Bearer a;b"), None));
}

#[test]
fn only_the_login_is_open() {
    for route in dashboard_routes() {
        let login = route.handler == Handler::Login || route.handler == Handler::LoginPage;
        assert_eq!(!route.guarded, login);
        assert_eq!(login, route.path == LOGIN_PATH);
        assert!(route.path.starts_with("/dashboard"));
    }
}

#[test]
fn routes_are_distinct() {
    let routes = dashboard_routes();
    assert_eq!(routes.len(), 24);
    for i in 0..routes.len() {
        for j in 0..i {
            assert!(routes[i].method != routes[j].method || routes[i].path != routes[j].path);
        }
    }
}

#[test]
fn agent_route_is_read_and_patched() {
    let path = "/dashboard/api/agents/{chain_key}/{agent_id}";
    let found: Vec<(Method, Handler)> = dashboard_routes()
        .iter()
        .filter(|r| r.path == path)
        .map(|r| (r.method, r.handler))
        .collect();
    assert_eq!(
        found,
        vec![(Method::Get, Handler::GetAgent), (Method::Patch, Handler::PatchAgent)]
    );
}
