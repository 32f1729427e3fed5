use multithreaded_tcp_http::headers::{assemble_response, fetch_headers, headers_at};
use multithreaded_tcp_http::response::{
    build_http_response, fetch_empty_routes, fetch_get_routes, fetch_post_routes, finish_response,
    parameter, parse_request_parameters, process_request, rejected_response, response_data,
    view_for_route, begin_response, complete_response, HttpStep, PageView, ProcessError, RequestAction, RequestError,
};
use multithreaded_tcp_http::sniffer::{classify, classify_text, Classification};
use multithreaded_tcp_http::validator::{validate_http_request, validate_request_method, validate_route};

fn methods() -> Vec<String> {
    vec!["GET".to_string(), "POST".to_string(), "OPTIONS".to_string(), "HEAD".to_string()]
}

fn s(x: &str) -> String {
    x.to_string()
}

#[test]
fn validate_http_request_splits_first_line() {
    assert_eq!(
        validate_http_request("GET /users HTTP/1.1\r\nHost: x\r\n\r\n"),
        Ok(vec![s("GET"), s("/users"), s("HTTP/1.1")])
    );
    assert_eq!(validate_http_request("\r\n"), Ok(vec![s("")]));
    assert!(validate_http_request("GET / HTTP/1.1").is_err());
}

#[test]
fn validate_method_and_route() {
    assert!(validate_request_method("GET", &methods()).is_ok());
    assert!(validate_request_method("HEAD", &methods()).is_ok());
    assert_eq!(validate_request_method("DELETE", &methods()), Err(s("http-response: Invalid request method.")));
    assert!(validate_request_method("get", &methods()).is_err());
    let routes = fetch_get_routes();
    assert!(validate_route("/tokens", &routes).is_ok());
    assert_eq!(validate_route("/nope", &routes), Err(s("http-response: Invalid route path.")));
    assert!(validate_route("/", &fetch_empty_routes()).is_err());
}

#[test]
fn route_tables() {
    assert_eq!(fetch_get_routes(), vec!["/", "/users", "/tokens", "/tables"]);
    assert_eq!(fetch_post_routes(), vec!["/", "/users", "/tokens", "/tables"]);
    assert!(fetch_empty_routes().is_empty());
}

#[test]
fn known_routes_select_their_views_with_ok_status() {
    for (route, view, file) in [
        ("/", PageView::Home, "html/page.html"),
        ("/users", PageView::Users, "html/users.html"),
        ("/tokens", PageView::Tokens, "html/tokens.html"),
        ("/tables", PageView::NotFound, "html/notfound.html"),
    ] {
        for m in ["GET", "POST"] {
            let req = format!("{} {} HTTP/1.1\r\n\r\n", m, route);
            let p = build_http_response(&req, &methods(), "html/", "HTTP/1.1").unwrap();
            assert_eq!(p.method, m);
            assert_eq!(p.route, route);
            assert_eq!(p.view, view);
            assert_eq!(p.status_line, "HTTP/1.1 200 OK");
            assert_eq!(p.view_file, file);
            assert_eq!(p.routes, vec!["/", "/users", "/tokens", "/tables"]);
        }
    }
}

#[test]
fn unknown_route_gets_not_found_view_and_ok_status() {
    let p = build_http_response("GET /missing HTTP/1.1\r\n", &methods(), "html/", "HTTP/1.1").unwrap();
    assert_eq!(p.view, PageView::NotFound);
    assert_eq!(p.status_line, "HTTP/1.1 200 OK");
    assert_eq!(p.view_file, "html/notfound.html");
    let q = build_http_response("OPTIONS /users HTTP/1.1\r\n", &methods(), "", "HTTP/1.0").unwrap();
    assert_eq!(q.view, PageView::Users);
    assert!(q.routes.is_empty());
    assert_eq!(q.status_line, "HTTP/1.0 200 OK");
}

#[test]
fn unknown_method_is_rejected_whatever_the_path() {
    for path in ["/", "/users", "/missing", ""] {
        let req = format!("BREW {} HTTP/1.1\r\n", path);
        assert_eq!(build_http_response(&req, &methods(), "", "HTTP/1.1").err(), Some(RequestError::MethodNotAllowed));
    }
    assert_eq!(build_http_response("BREW\r\n", &methods(), "", "HTTP/1.1").err(), Some(RequestError::MethodNotAllowed));
}

#[test]
fn malformed_requests_are_rejected() {
    assert_eq!(build_http_response("GET / HTTP/1.1", &methods(), "", "HTTP/1.1").err(), Some(RequestError::NotHttp));
    assert_eq!(build_http_response("", &methods(), "", "HTTP/1.1").err(), Some(RequestError::NotHttp));
    assert_eq!(build_http_response("GET\r\n", &methods(), "", "HTTP/1.1").err(), Some(RequestError::MissingPath));
    assert_eq!(build_http_response("GET \t \r\n", &methods(), "", "HTTP/1.1").err(), Some(RequestError::MissingPath));
    assert_eq!(build_http_response("\r\n", &methods(), "", "HTTP/1.1").err(), Some(RequestError::MethodNotAllowed));
}

#[test]
fn view_of_route() {
    assert_eq!(view_for_route("/"), PageView::Home);
    assert_eq!(view_for_route("/users"), PageView::Users);
    assert_eq!(view_for_route("/tokens"), PageView::Tokens);
    assert_eq!(view_for_route("/users/"), PageView::NotFound);
}

#[test]
fn sniffer_classifies() {
    let m = methods();
    assert_eq!(classify(b"GET / HTTP/1.1\r\nHost: a\r\n\r\n", &m), Classification::Http);
    assert_eq!(classify(b"POST /users HTTP/1.1\r\n\r\nrole_id=1", &m), Classification::Http);
    assert_eq!(classify(b"hello there", &m), Classification::RawSession);
    assert_eq!(classify(b"hello there\r\n", &m), Classification::RawSession);
    assert_eq!(classify(b"DELETE / HTTP/1.1\r\n", &m), Classification::RawSession);
    assert_eq!(classify(b"GET\r\n", &m), Classification::RawSession);
    assert_eq!(classify(b"GET  /\r\n", &m), Classification::Http);
    assert_eq!(classify(b"GET\t/\r\n", &m), Classification::Http);
    assert_eq!(classify(b"  GET /\r\n", &m), Classification::Http);
    assert_eq!(classify(b"GET \r\n", &m), Classification::RawSession);
    assert_eq!(classify(b"\r\n", &m), Classification::RawSession);
    assert_eq!(classify(b"GET / HTTP/1.1", &m), Classification::RawSession);
    assert_eq!(classify_text("HEAD /x\r\n", &m), Classification::Http);
}

#[test]
fn parameters_of_post_body() {
    let p = parse_request_parameters("POST /users HTTP/1.1\r\nHost: a\r\n\r\nrole_id=1&username=bob&x=a=b").unwrap();
    assert_eq!(p, vec![(s("role_id"), s("1")), (s("username"), s("bob")), (s("x"), s("a=b"))]);
    assert_eq!(parse_request_parameters("k=v"), Some(vec![(s("k"), s("v"))]));
    assert_eq!(parse_request_parameters("POST / HTTP/1.1\r\n\r\n"), None);
    assert_eq!(parse_request_parameters("a=1&b"), None);
    let dup = parse_request_parameters("a=1&a=2").unwrap();
    assert_eq!(parameter(&dup, "a"), Some(&s("2")));
    assert_eq!(parameter(&dup, "b"), None);
}

#[test]
fn process_request_actions() {
    let routes = fetch_get_routes();
    let body = "POST /users HTTP/1.1\r\n\r\nrole_id=1";
    match process_request("POST", "/users", &routes, body) {
        Ok(RequestAction::CreateUsers(p)) => assert_eq!(p, vec![(s("role_id"), s("1"))]),
        other => panic!("{:?}", other),
    }
    assert!(matches!(process_request("POST", "/tokens", &routes, "x=y"), Ok(RequestAction::CreateTokens(_))));
    assert!(matches!(process_request("POST", "/tables", &routes, ""), Ok(RequestAction::CreateTables)));
    assert!(matches!(process_request("GET", "/users", &routes, ""), Ok(RequestAction::ListUsers)));
    assert!(matches!(process_request("GET", "/tokens", &routes, ""), Ok(RequestAction::ListTokens)));
    match process_request("GET", "/", &routes, "") {
        Ok(RequestAction::Reply(t)) => assert_eq!(t, "Default route - default response :3"),
        other => panic!("{:?}", other),
    }
    match process_request("POST", "/", &routes, "") {
        Ok(RequestAction::Reply(t)) => assert_eq!(t, "Default route - default response :3"),
        other => panic!("{:?}", other),
    }
    assert!(matches!(process_request("GET", "/tables", &routes, ""), Err(ProcessError::UnsupportedRoute)));
    match process_request("GET", "/missing", &routes, "") {
        Ok(RequestAction::Reply(t)) => assert_eq!(t, ""),
        other => panic!("{:?}", other),
    }
    assert!(matches!(process_request("POST", "/users", &routes, "novalue"), Err(ProcessError::MalformedParameters)));
    assert!(matches!(process_request("OPTIONS", "/", &routes, ""), Err(ProcessError::UnsupportedMethod)));
}

#[test]
fn response_data_policy() {
    let reply = RequestAction::Reply(s("hi"));
    assert_eq!(response_data(&reply, Err(s("ignored"))), Ok(s("hi")));
    let users = RequestAction::CreateUsers(vec![]);
    assert_eq!(response_data(&users, Ok(s(""))), Ok(s("")));
    assert_eq!(response_data(&users, Err(s("db down"))), Err(s("request: Error inserting users: db down")));
    let tokens = RequestAction::CreateTokens(vec![]);
    assert_eq!(response_data(&tokens, Err(s("e"))), Err(s("request: Error inserting tokens: e")));
    assert_eq!(response_data(&RequestAction::CreateTables, Ok(s(""))), Ok(s("Tables created successfuly!")));
    assert_eq!(response_data(&RequestAction::CreateTables, Err(s("e"))), Err(s("e")));
    assert_eq!(response_data(&RequestAction::ListUsers, Ok(s("rows"))), Ok(s("rows")));
    assert_eq!(response_data(&RequestAction::ListTokens, Err(s("e"))), Err(s("e")));
    assert_eq!(response_data(&RequestAction::ListUsers, Err(s("e"))), Err(s("e")));
}

#[test]
fn finish_and_reject() {
    assert_eq!(
        finish_response("HTTP/1.1 200 OK", "HTTP/1.1", &Ok(s("data")), &Ok(s("<p>"))),
        (s("HTTP/1.1 200 OK"), s("<p>data"))
    );
    let err = (s("HTTP/1.1 500 Internal Server Error"), s("500 Custom Server Error"));
    assert_eq!(finish_response("HTTP/1.1 200 OK", "HTTP/1.1", &Err(s("x")), &Ok(s("<p>"))), err);
    assert_eq!(finish_response("HTTP/1.1 200 OK", "HTTP/1.1", &Ok(s("")), &Err(s("no file"))), err);
    assert_eq!(rejected_response("HTTP/1.1"), (s("HTTP/1.1 400 Bad Request"), s("400 Bad Request")));
}

#[test]
fn header_set_and_wire_form() {
    let h = headers_at(42, "Tue, 1 Jul 2003 10:52:37 +0200");
    assert_eq!(h.len(), 10);
    assert_eq!(h[0], "content-type: text/html; charset=utf-8");
    assert_eq!(h[1], "content-length: 42");
    assert_eq!(h[2], "date: Tue, 1 Jul 2003 10:52:37 +0200");
    assert_eq!(h[7], "x-frame-options: deny");
    assert!(h[9].starts_with("content-security-policy: connect-src 'self';"));
    let now = fetch_headers(0);
    assert_eq!(now[1], "content-length: 0");
    assert!(now[2].starts_with("date: "));
    let r = assemble_response("HTTP/1.1 200 OK", &vec![s("a: 1"), s("b: 2")], "body");
    assert_eq!(r, "HTTP/1.1 200 OK\r\na: 1\r\nb: 2\r\n\r\nbody");
}

fn split_response(r: &str) -> (String, Vec<String>, String) {
    let (head, body) = r.split_once("\r\n\r\n").unwrap();
    let mut lines = head.split("\r\n").map(|l| l.to_string());
    let status = lines.next().unwrap();
    (status, lines.collect(), body.to_string())
}

#[test]
fn rejected_request_is_answered_at_once() {
    match begin_response("BREW /users HTTP/1.1\r\n", &methods(), "html/", "HTTP/1.1") {
        HttpStep::Answer(t) => {
            let (status, headers, body) = split_response(&t);
            assert_eq!(status, "HTTP/1.1 400 Bad Request");
            assert_eq!(headers.len(), 10);
            assert_eq!(headers[1], "content-length: 15");
            assert_eq!(body, "400 Bad Request");
        }
        _ => panic!("expected an answer"),
    }
}

#[test]
fn routed_request_is_completed_from_outcome_and_view() {
    let (plan, action) = match begin_response("GET /users HTTP/1.1\r\n\r\n", &methods(), "html/", "HTTP/1.1") {
        HttpStep::Route { plan, action } => (plan, action),
        _ => panic!("expected a route"),
    };
    assert_eq!(plan.view_file, "html/users.html");
    assert!(matches!(action, Ok(RequestAction::ListUsers)));
    let ok = complete_response(&plan, "HTTP/1.1", &action, Ok(s("\r\n1\r\n")), Ok(s("<h1>Users</h1>")));
    let (status, headers, body) = split_response(&ok);
    assert_eq!(status, "HTTP/1.1 200 OK");
    assert_eq!(body, "<h1>Users</h1>\r\n1\r\n");
    assert_eq!(headers[1], format!("content-length: {}", body.len()));
    let no_view = complete_response(&plan, "HTTP/1.1", &action, Ok(s("")), Err(s("missing")));
    let (status, _, body) = split_response(&no_view);
    assert_eq!(status, "HTTP/1.1 500 Internal Server Error");
    assert_eq!(body, "500 Custom Server Error");
    let bad = Err(ProcessError::UnsupportedMethod);
    let failed = complete_response(&plan, "HTTP/1.1", &bad, Ok(s("")), Ok(s("<p>")));
    assert!(failed.starts_with("HTTP/1.1 500 Internal Server Error\r\n"));
}

#[test]
fn request_line_is_read_by_words() {
    let p = build_http_response("GET\t /users  HTTP/1.1\r\n", &methods(), "html/", "HTTP/1.1").unwrap();
    assert_eq!(p.method, "GET");
    assert_eq!(p.route, "/users");
    assert_eq!(p.view, PageView::Users);
    let q = build_http_response("POST  /tokens\r\n\r\nuser_id=1", &methods(), "", "HTTP/1.1").unwrap();
    assert_eq!(q.route, "/tokens");
}

#[test]
fn failed_listing_gives_server_error() {
    let (plan, action) = match begin_response("GET /users HTTP/1.1\r\n\r\n", &methods(), "html/", "HTTP/1.1") {
        HttpStep::Route { plan, action } => (plan, action),
        _ => panic!("expected a route"),
    };
    let r = complete_response(&plan, "HTTP/1.1", &action, Err(s("db down")), Ok(s("<h1>Users</h1>")));
    let (status, _, body) = split_response(&r);
    assert_eq!(status, "HTTP/1.1 500 Internal Server Error");
    assert_eq!(body, "500 Custom Server Error");
    let (plan2, action2) = match begin_response("POST /tables HTTP/1.1\r\n\r\n", &methods(), "html/", "HTTP/1.1") {
        HttpStep::Route { plan, action } => (plan, action),
        _ => panic!("expected a route"),
    };
    let r2 = complete_response(&plan2, "HTTP/1.1", &action2, Err(s("no db")), Ok(s("<p>")));
    assert!(r2.starts_with("HTTP/1.1 500 Internal Server Error\r\n"));
}
