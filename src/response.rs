//! The HTTP responder's decisions: which view and status a request line gets,
//! which collaborator action it asks for, what the response carries once the
//! action and the view file are in, and the exact wire form of the response.
use vstd::prelude::*;
use vstd::string::*;
use vstd::utf8::encode_utf8;
use crate::headers::{assemble_response, fetch_headers, header_set, response_text};
use crate::text::{same_text, texts};
use crate::validator::{
    request_line, request_line_words, request_words, str_texts, validate_request_method,
};

verus! {

pub open spec fn root_route() -> Seq<char> {
    seq!['/']
}

pub open spec fn users_route() -> Seq<char> {
    seq!['/', 'u', 's', 'e', 'r', 's']
}

pub open spec fn tokens_route() -> Seq<char> {
    seq!['/', 't', 'o', 'k', 'e', 'n', 's']
}

pub open spec fn tables_route() -> Seq<char> {
    seq!['/', 't', 'a', 'b', 'l', 'e', 's']
}

/// The fixed route table, in order.
pub open spec fn route_table() -> Seq<Seq<char>> {
    seq![root_route(), users_route(), tokens_route(), tables_route()]
}

pub open spec fn get_method() -> Seq<char> {
    seq!['G', 'E', 'T']
}

pub open spec fn post_method() -> Seq<char> {
    seq!['P', 'O', 'S', 'T']
}

/// The page a request is answered with.
#[derive(PartialEq, Eq, Structural, Clone, Copy, Debug)]
pub enum PageView {
    Home,
    Users,
    Tokens,
    NotFound,
}

/// The view of a path: its own page for the three paths that have one, the
/// not-found page for any other.
pub open spec fn view_of(route: Seq<char>) -> PageView {
    if route == root_route() {
        PageView::Home
    } else if route == users_route() {
        PageView::Users
    } else if route == tokens_route() {
        PageView::Tokens
    } else {
        PageView::NotFound
    }
}

/// The file name of a view, under the configured base path.
pub open spec fn view_file_name(v: PageView) -> Seq<char> {
    match v {
        PageView::Home => "page.html"@,
        PageView::Users => "users.html"@,
        PageView::Tokens => "tokens.html"@,
        PageView::NotFound => "notfound.html"@,
    }
}

/// The routes served to a method: the table for an allowed GET or POST, none
/// otherwise.
pub open spec fn routes_for(method: Seq<char>, allowed: Seq<String>) -> Seq<Seq<char>> {
    if texts(allowed).contains(method) && (method == get_method() || method == post_method()) {
        route_table()
    } else {
        Seq::empty()
    }
}

fn route_list() -> (r: Vec<&'static str>)
    ensures
        str_texts(r@) == route_table(),
{
    proof {
        reveal_strlit("/");
        reveal_strlit("/users");
        reveal_strlit("/tokens");
        reveal_strlit("/tables");
    }
    let r = vec!["/", "/users", "/tokens", "/tables"];
    assert(r@[0]@ =~= root_route());
    assert(r@[1]@ =~= users_route());
    assert(r@[2]@ =~= tokens_route());
    assert(r@[3]@ =~= tables_route());
    assert(str_texts(r@) =~= route_table());
    r
}

/// The routes that GET serves.
pub fn fetch_get_routes() -> (r: Vec<&'static str>)
    ensures
        str_texts(r@) == route_table(),
{
    route_list()
}

/// The routes that POST serves.
pub fn fetch_post_routes() -> (r: Vec<&'static str>)
    ensures
        str_texts(r@) == route_table(),
{
    route_list()
}

/// The routes of a method that serves none.
pub fn fetch_empty_routes() -> (r: Vec<&'static str>)
    ensures
        r@.len() == 0,
{
    Vec::new()
}

fn is_get(method: &str) -> (r: bool)
    ensures
        r == (method@ == get_method()),
{
    proof { reveal_strlit("GET"); }
    assert("GET"@ =~= get_method());
    same_text(method, "GET")
}

fn is_post(method: &str) -> (r: bool)
    ensures
        r == (method@ == post_method()),
{
    proof { reveal_strlit("POST"); }
    assert("POST"@ =~= post_method());
    same_text(method, "POST")
}

fn routes_of_method(method: &str, allowed: &Vec<String>) -> (r: Vec<&'static str>)
    ensures
        str_texts(r@) == routes_for(method@, allowed@),
{
    match validate_request_method(method, allowed) {
        Ok(()) => {
            if is_get(method) {
                fetch_get_routes()
            } else if is_post(method) {
                fetch_post_routes()
            } else {
                let r = fetch_empty_routes();
                assert(str_texts(r@) =~= Seq::<Seq<char>>::empty());
                r
            }
        },
        Err(_) => {
            let r = fetch_empty_routes();
            assert(str_texts(r@) =~= Seq::<Seq<char>>::empty());
            r
        },
    }
}

/// The view of a path.
pub fn view_for_route(route: &str) -> (r: PageView)
    ensures
        r == view_of(route@),
{
    proof {
        reveal_strlit("/");
        reveal_strlit("/users");
        reveal_strlit("/tokens");
    }
    assert("/"@ =~= root_route());
    assert("/users"@ =~= users_route());
    assert("/tokens"@ =~= tokens_route());
    if same_text(route, "/") {
        PageView::Home
    } else if same_text(route, "/users") {
        PageView::Users
    } else if same_text(route, "/tokens") {
        PageView::Tokens
    } else {
        PageView::NotFound
    }
}

/// The file name of a view.
pub fn view_file(v: PageView) -> (r: &'static str)
    ensures
        r@ == view_file_name(v),
{
    match v {
        PageView::Home => "page.html",
        PageView::Users => "users.html",
        PageView::Tokens => "tokens.html",
        PageView::NotFound => "notfound.html",
    }
}

/// Why a request was turned away before any route was looked up.
#[derive(PartialEq, Eq, Structural, Clone, Copy, Debug)]
pub enum RequestError {
    /// No line terminator: not an HTTP request.
    NotHttp,
    /// The method is not in the allow-list.
    MethodNotAllowed,
    /// The request line names no path.
    MissingPath,
}

/// How an accepted request is answered: its method and path, the routes of the
/// method, the status line and the view.
pub struct RoutePlan {
    pub method: String,
    pub route: String,
    pub routes: Vec<&'static str>,
    pub status_line: String,
    pub view: PageView,
    pub view_file: String,
}

/// `protocol` followed by the success status.
pub open spec fn ok_status(protocol: Seq<char>) -> Seq<char> {
    protocol + " 200 OK"@
}

/// How a request is planned from the words of its request line: turned away
/// with `NotHttp` when it has no request line, with `MethodNotAllowed` when it
/// names no allowed method (whatever its path), with `MissingPath` when it
/// names no path; otherwise answered with the path's view under the success
/// status.
pub open spec fn plans(
    buffer: Seq<char>,
    allowed: Seq<String>,
    html_base_path: Seq<char>,
    http_protocol: Seq<char>,
    r: Result<RoutePlan, RequestError>,
) -> bool {
    let w = request_words(buffer);
    &&& (r == Err::<RoutePlan, RequestError>(RequestError::NotHttp) <==> request_line(buffer) is None)
    &&& (r == Err::<RoutePlan, RequestError>(RequestError::MethodNotAllowed) <==> request_line(
        buffer,
    ) is Some && (w.len() == 0 || !texts(allowed).contains(w[0])))
    &&& (r == Err::<RoutePlan, RequestError>(RequestError::MissingPath) <==> request_line(
        buffer,
    ) is Some && w.len() == 1 && texts(allowed).contains(w[0]))
    &&& (r matches Ok(p) ==> {
        &&& p.method@ == w[0]
        &&& p.route@ == w[1]
        &&& str_texts(p.routes@) == routes_for(w[0], allowed)
        &&& p.view == view_of(w[1])
        &&& p.status_line@ == ok_status(http_protocol)
        &&& p.view_file@ == html_base_path + view_file_name(p.view)
    })
}

/// Reads the request line of `buffer` and decides its view and status. A
/// request whose method is not allowed is turned away whatever its path.
pub fn build_http_response(
    buffer: &str,
    allowed: &Vec<String>,
    html_base_path: &str,
    http_protocol: &str,
) -> (r: Result<RoutePlan, RequestError>)
    ensures
        plans(buffer@, allowed@, html_base_path@, http_protocol@, r),
{
    let tokens = match request_line_words(buffer) {
        Some(t) => t,
        None => {
            return Err(RequestError::NotHttp);
        },
    };
    if tokens.len() == 0 {
        return Err(RequestError::MethodNotAllowed);
    }
    let method: &str = tokens[0].as_str();
    if validate_request_method(method, allowed).is_err() {
        return Err(RequestError::MethodNotAllowed);
    }
    if tokens.len() < 2 {
        return Err(RequestError::MissingPath);
    }
    let route: &str = tokens[1].as_str();
    let routes = routes_of_method(method, allowed);
    let view = view_for_route(route);
    let mut status_line = String::from_str(http_protocol);
    status_line.append(" 200 OK");
    let mut file = String::from_str(html_base_path);
    file.append(view_file(view));
    Ok(
        RoutePlan {
            method: tokens[0].clone(),
            route: tokens[1].clone(),
            routes,
            status_line,
            view,
            view_file: file,
        },
    )
}


/// Where the last line of `s` begins: just after its last line terminator, or
/// at its start where it has none.
pub open spec fn last_line_start(s: Seq<char>, upto: int) -> int
    decreases upto,
{
    if upto < 2 {
        0
    } else if s[upto - 2] == '\r' && s[upto - 1] == '\n' {
        upto
    } else {
        last_line_start(s, upto - 1)
    }
}

/// The last line of `s`, where a POST request carries its parameters.
pub open spec fn last_line(s: Seq<char>) -> Seq<char> {
    s.skip(last_line_start(s, s.len() as int))
}

/// A `key=value` pair, cut at its first `=`.
pub open spec fn pair_of(p: Seq<char>) -> Option<(Seq<char>, Seq<char>)> {
    match crate::codec::find_from(p, seq!['='], 0) {
        Some(i) => Some((p.take(i), p.skip(i + 1))),
        None => None,
    }
}

/// The pairs of `pieces`, or nothing where one of them holds no `=`.
pub open spec fn pairs_of(pieces: Seq<Seq<char>>) -> Option<Seq<(Seq<char>, Seq<char>)>>
    decreases pieces.len(),
{
    if pieces.len() == 0 {
        Some(Seq::empty())
    } else {
        match (pairs_of(pieces.drop_last()), pair_of(pieces.last())) {
            (Some(ps), Some(p)) => Some(ps.push(p)),
            _ => None,
        }
    }
}

/// The characters of each pair of strings.
pub open spec fn pair_texts(v: Seq<(String, String)>) -> Seq<(Seq<char>, Seq<char>)> {
    v.map_values(|p: (String, String)| (p.0@, p.1@))
}

/// The request parameters of the body of `buffer`: its last line, cut at every
/// `&` into `key=value` pairs, in order. Nothing where a pair holds no `=`.
pub open spec fn request_parameters(buffer: Seq<char>) -> Option<Seq<(Seq<char>, Seq<char>)>> {
    pairs_of(crate::text::split_of(last_line(buffer), '&'))
}

fn last_line_begin(chars: &Vec<char>) -> (r: usize)
    ensures
        r as int == last_line_start(chars@, chars@.len() as int),
        r <= chars@.len(),
{
    let mut upto: usize = chars.len();
    while upto >= 2
        invariant
            upto <= chars@.len(),
            last_line_start(chars@, upto as int) == last_line_start(chars@, chars@.len() as int),
        decreases upto,
    {
        if chars[upto - 2] == '\r' && chars[upto - 1] == '\n' {
            return upto;
        }
        upto = upto - 1;
    }
    0
}

fn split_pair(p: &str) -> (r: Option<(String, String)>)
    ensures
        r matches Some(kv) ==> pair_of(p@) == Some((kv.0@, kv.1@)),
        r is None ==> pair_of(p@) is None,
{
    let chars = crate::text::chars_of(p);
    let n = chars.len();
    let mut i: usize = 0;
    while i < n
        invariant
            n == chars@.len(),
            chars@ == p@,
            crate::codec::find_from(p@, seq!['='], 0) == crate::codec::find_from(
                p@,
                seq!['='],
                i as int,
            ),
        decreases n - i,
    {
        if chars[i] == '=' {
            assert(p@.subrange(i as int, i + 1) =~= seq!['=']);
            let k = crate::text::substring(p, 0, i);
            let v = crate::text::substring(p, i + 1, n);
            assert(k@ =~= p@.take(i as int));
            assert(v@ =~= p@.skip(i + 1));
            return Some((k, v));
        }
        assert(p@.subrange(i as int, i + 1)[0] == p@[i as int]);
        i = i + 1;
    }
    None
}

/// The parameters of a POST body, in order; a later pair for a key stands over
/// an earlier one (see `parameter`). Nothing where a pair holds no `=`.
pub fn parse_request_parameters(buffer: &str) -> (r: Option<Vec<(String, String)>>)
    ensures
        r matches Some(v) ==> request_parameters(buffer@) == Some(pair_texts(v@)),
        r is None ==> request_parameters(buffer@) is None,
{
    let chars = crate::text::chars_of(buffer);
    let start = last_line_begin(&chars);
    let line = crate::text::substring(buffer, start, chars.len());
    assert(line@ =~= last_line(buffer@));
    let pieces = crate::text::split_on(line.as_str(), '&');
    let mut pairs: Vec<(String, String)> = Vec::new();
    let mut i: usize = 0;
    while i < pieces.len()
        invariant
            i <= pieces@.len(),
            texts(pieces@) == crate::text::split_of(last_line(buffer@), '&'),
            pairs_of(texts(pieces@).take(i as int)) == Some(pair_texts(pairs@)),
        decreases pieces@.len() - i,
    {
        let ghost before = pairs@;
        assert(texts(pieces@).take(i + 1).drop_last() =~= texts(pieces@).take(i as int));
        assert(texts(pieces@).take(i + 1).last() == pieces@[i as int]@);
        match split_pair(pieces[i].as_str()) {
            Some(kv) => {
                pairs.push(kv);
                assert(pair_texts(pairs@) =~= pair_texts(before).push((kv.0@, kv.1@)));
            },
            None => {
                proof { lemma_pairs_none_extends(texts(pieces@), i as int + 1); }
                return None;
            },
        }
        i = i + 1;
    }
    assert(texts(pieces@).take(pieces@.len() as int) =~= texts(pieces@));
    Some(pairs)
}

proof fn lemma_pairs_none_extends(pieces: Seq<Seq<char>>, k: int)
    requires
        0 <= k <= pieces.len(),
        pairs_of(pieces.take(k)) is None,
    ensures
        pairs_of(pieces) is None,
    decreases pieces.len() - k,
{
    if k < pieces.len() {
        assert(pieces.take(k + 1).drop_last() =~= pieces.take(k));
        lemma_pairs_none_extends(pieces, k + 1);
    } else {
        assert(pieces.take(k) =~= pieces);
    }
}

/// The value of the last pair for `key`.
pub open spec fn parameter_spec(pairs: Seq<(Seq<char>, Seq<char>)>, key: Seq<char>) -> Option<
    Seq<char>,
>
    decreases pairs.len(),
{
    if pairs.len() == 0 {
        None
    } else if pairs.last().0 == key {
        Some(pairs.last().1)
    } else {
        parameter_spec(pairs.drop_last(), key)
    }
}

/// The value of the last pair for `key`.
pub fn parameter<'a>(pairs: &'a Vec<(String, String)>, key: &str) -> (r: Option<&'a String>)
    ensures
        r matches Some(v) ==> parameter_spec(pair_texts(pairs@), key@) == Some(v@),
        r is None ==> parameter_spec(pair_texts(pairs@), key@) is None,
{
    let mut i: usize = pairs.len();
    assert(pair_texts(pairs@).take(pairs@.len() as int) =~= pair_texts(pairs@));
    while i > 0
        invariant
            i <= pairs@.len(),
            parameter_spec(pair_texts(pairs@), key@) == parameter_spec(
                pair_texts(pairs@).take(i as int),
                key@,
            ),
        decreases i,
    {
        let ghost t = pair_texts(pairs@).take(i as int);
        assert(t.drop_last() =~= pair_texts(pairs@).take(i - 1));
        assert(t.last() == (pairs@[i - 1].0@, pairs@[i - 1].1@));
        if same_text(pairs[i - 1].0.as_str(), key) {
            return Some(&pairs[i - 1].1);
        }
        i = i - 1;
    }
    None
}


/// What a request asks of the collaborators.
#[derive(Debug)]
pub enum RequestAction {
    /// Answer with this text; nothing to ask.
    Reply(String),
    /// Insert a user made of these parameters.
    CreateUsers(Vec<(String, String)>),
    /// Insert a token made of these parameters.
    CreateTokens(Vec<(String, String)>),
    /// Create the tables.
    CreateTables,
    /// Answer with every user.
    ListUsers,
    /// Answer with every token.
    ListTokens,
}

/// Why a request asks for nothing that can be done.
#[derive(PartialEq, Eq, Structural, Clone, Copy, Debug)]
pub enum ProcessError {
    /// Only GET and POST do anything.
    UnsupportedMethod,
    /// A parameter of the body holds no `=`.
    MalformedParameters,
    /// The method has nothing to do on this route.
    UnsupportedRoute,
}

pub open spec fn default_reply() -> Seq<char> {
    "Default route - default response :3"@
}

/// `route` is the `k`-th of `routes`.
pub open spec fn route_is(routes: Seq<Seq<char>>, k: int, route: Seq<char>) -> bool {
    k < routes.len() && routes[k] == route
}

/// The action asked for by a method and a path (matched against the method's
/// routes: the site's page, users, tokens, tables), with the body's parameters
/// for an insert. A path outside the routes asks for nothing; GET has nothing
/// to do on the tables route.
pub open spec fn processes_to(
    method: Seq<char>,
    route: Seq<char>,
    routes: Seq<Seq<char>>,
    buffer: Seq<char>,
    r: Result<RequestAction, ProcessError>,
) -> bool {
    if method == post_method() {
        if route_is(routes, 1, route) {
            match request_parameters(buffer) {
                Some(ps) => r matches Ok(RequestAction::CreateUsers(v)) && pair_texts(v@) == ps,
                None => r == Err::<RequestAction, ProcessError>(ProcessError::MalformedParameters),
            }
        } else if route_is(routes, 2, route) {
            match request_parameters(buffer) {
                Some(ps) => r matches Ok(RequestAction::CreateTokens(v)) && pair_texts(v@) == ps,
                None => r == Err::<RequestAction, ProcessError>(ProcessError::MalformedParameters),
            }
        } else if route_is(routes, 0, route) {
            r matches Ok(RequestAction::Reply(t)) && t@ == default_reply()
        } else if route_is(routes, 3, route) {
            r matches Ok(RequestAction::CreateTables)
        } else {
            r matches Ok(RequestAction::Reply(t)) && t@.len() == 0
        }
    } else if method == get_method() {
        if route_is(routes, 1, route) {
            r matches Ok(RequestAction::ListUsers)
        } else if route_is(routes, 2, route) {
            r matches Ok(RequestAction::ListTokens)
        } else if route_is(routes, 0, route) {
            r matches Ok(RequestAction::Reply(t)) && t@ == default_reply()
        } else if route_is(routes, 3, route) {
            r == Err::<RequestAction, ProcessError>(ProcessError::UnsupportedRoute)
        } else {
            r matches Ok(RequestAction::Reply(t)) && t@.len() == 0
        }
    } else {
        r == Err::<RequestAction, ProcessError>(ProcessError::UnsupportedMethod)
    }
}

fn route_matches(routes: &Vec<&str>, k: usize, route: &str) -> (r: bool)
    ensures
        r == route_is(str_texts(routes@), k as int, route@),
{
    k < routes.len() && same_text(routes[k], route)
}

fn insert_parameters(buffer: &str) -> (r: Result<Vec<(String, String)>, ProcessError>)
    ensures
        r matches Ok(v) ==> request_parameters(buffer@) == Some(pair_texts(v@)),
        r is Err ==> request_parameters(buffer@) is None && r == Err::<
            Vec<(String, String)>,
            ProcessError,
        >(ProcessError::MalformedParameters),
{
    match parse_request_parameters(buffer) {
        Some(v) => Ok(v),
        None => Err(ProcessError::MalformedParameters),
    }
}

/// Decides what a routed request asks of the collaborators: POST inserts
/// users or tokens, or creates the tables; GET lists users or tokens; the
/// site's root answers with a fixed text.
pub fn process_request(request_method: &str, route: &str, routes: &Vec<&str>, buffer: &str) -> (r:
    Result<RequestAction, ProcessError>)
    ensures
        processes_to(request_method@, route@, str_texts(routes@), buffer@, r),
{
    proof { reveal_strlit("Default route - default response :3"); }
    if is_post(request_method) {
        if route_matches(routes, 1, route) {
            match insert_parameters(buffer) {
                Ok(v) => Ok(RequestAction::CreateUsers(v)),
                Err(e) => Err(e),
            }
        } else if route_matches(routes, 2, route) {
            match insert_parameters(buffer) {
                Ok(v) => Ok(RequestAction::CreateTokens(v)),
                Err(e) => Err(e),
            }
        } else if route_matches(routes, 0, route) {
            Ok(RequestAction::Reply(String::from_str("Default route - default response :3")))
        } else if route_matches(routes, 3, route) {
            Ok(RequestAction::CreateTables)
        } else {
            Ok(RequestAction::Reply(String::new()))
        }
    } else if is_get(request_method) {
        if route_matches(routes, 1, route) {
            Ok(RequestAction::ListUsers)
        } else if route_matches(routes, 2, route) {
            Ok(RequestAction::ListTokens)
        } else if route_matches(routes, 0, route) {
            Ok(RequestAction::Reply(String::from_str("Default route - default response :3")))
        } else if route_matches(routes, 3, route) {
            Err(ProcessError::UnsupportedRoute)
        } else {
            Ok(RequestAction::Reply(String::new()))
        }
    } else {
        Err(ProcessError::UnsupportedMethod)
    }
}

pub open spec fn tables_created() -> Seq<char> {
    "Tables created successfuly!"@
}

pub open spec fn users_insert_failed() -> Seq<char> {
    "request: Error inserting users: "@
}

pub open spec fn tokens_insert_failed() -> Seq<char> {
    "request: Error inserting tokens: "@
}

/// The data a response carries once the collaborator answered `outcome`: any
/// failure of the collaborator fails the request (a failed insert says which
/// kind it was).
pub open spec fn data_for(action: RequestAction, outcome: Result<Seq<char>, Seq<char>>) -> Result<
    Seq<char>,
    Seq<char>,
> {
    match action {
        RequestAction::Reply(t) => Ok(t@),
        RequestAction::CreateUsers(_) => match outcome {
            Ok(_) => Ok(Seq::empty()),
            Err(e) => Err(users_insert_failed() + e),
        },
        RequestAction::CreateTokens(_) => match outcome {
            Ok(_) => Ok(Seq::empty()),
            Err(e) => Err(tokens_insert_failed() + e),
        },
        RequestAction::CreateTables => match outcome {
            Ok(_) => Ok(tables_created()),
            Err(e) => Err(e),
        },
        RequestAction::ListUsers | RequestAction::ListTokens => match outcome {
            Ok(t) => Ok(t),
            Err(e) => Err(e),
        },
    }
}

/// The characters of a textual result.
pub open spec fn result_text(r: Result<String, String>) -> Result<Seq<char>, Seq<char>> {
    match r {
        Ok(t) => Ok(t@),
        Err(e) => Err(e@),
    }
}

/// The data of a response, from the action and what the collaborator answered
/// (ignored for a fixed reply).
pub fn response_data(action: &RequestAction, outcome: Result<String, String>) -> (r: Result<
    String,
    String,
>)
    ensures
        result_text(r) == data_for(*action, result_text(outcome)),
{
    proof {
        reveal_strlit("Tables created successfuly!");
    }
    match action {
        RequestAction::Reply(t) => Ok(t.clone()),
        RequestAction::CreateUsers(_) => match outcome {
            Ok(_) => Ok(String::new()),
            Err(e) => {
                let mut m = String::from_str("request: Error inserting users: ");
                m.append(e.as_str());
                Err(m)
            },
        },
        RequestAction::CreateTokens(_) => match outcome {
            Ok(_) => Ok(String::new()),
            Err(e) => {
                let mut m = String::from_str("request: Error inserting tokens: ");
                m.append(e.as_str());
                Err(m)
            },
        },
        RequestAction::CreateTables => match outcome {
            Ok(_) => Ok(String::from_str("Tables created successfuly!")),
            Err(e) => Err(e),
        },
        RequestAction::ListUsers | RequestAction::ListTokens => match outcome {
            Ok(t) => Ok(t),
            Err(e) => Err(e),
        },
    }
}

pub open spec fn server_error_status() -> Seq<char> {
    " 500 Internal Server Error"@
}

pub open spec fn server_error_body() -> Seq<char> {
    "500 Custom Server Error"@
}

pub open spec fn bad_request_status() -> Seq<char> {
    " 400 Bad Request"@
}

pub open spec fn bad_request_body() -> Seq<char> {
    "400 Bad Request"@
}

/// The status line and body of a routed request: the view's contents followed
/// by the data, under the planned status; a failed action or an unreadable
/// view gives the server-error status and body instead.
pub open spec fn finished(
    status_line: Seq<char>,
    http_protocol: Seq<char>,
    data: Result<Seq<char>, Seq<char>>,
    view_contents: Result<Seq<char>, Seq<char>>,
) -> (Seq<char>, Seq<char>) {
    match (data, view_contents) {
        (Ok(d), Ok(v)) => (status_line, v + d),
        _ => (http_protocol + server_error_status(), server_error_body()),
    }
}

/// The status line and body of a routed request (see `finished`).
pub fn finish_response(
    status_line: &str,
    http_protocol: &str,
    data: &Result<String, String>,
    view_contents: &Result<String, String>,
) -> (r: (String, String))
    ensures
        (r.0@, r.1@) == finished(
            status_line@,
            http_protocol@,
            result_text(*data),
            result_text(*view_contents),
        ),
{
    match (data, view_contents) {
        (Ok(d), Ok(v)) => {
            let mut body = v.clone();
            body.append(d.as_str());
            (String::from_str(status_line), body)
        },
        _ => {
            let mut status = String::from_str(http_protocol);
            status.append(" 500 Internal Server Error");
            (status, String::from_str("500 Custom Server Error"))
        },
    }
}

/// The status line and body for a request turned away before routing.
pub fn rejected_response(http_protocol: &str) -> (r: (String, String))
    ensures
        r.0@ == http_protocol@ + bad_request_status(),
        r.1@ == bad_request_body(),
{
    let mut status = String::from_str(http_protocol);
    status.append(" 400 Bad Request");
    (status, String::from_str("400 Bad Request"))
}


/// What answering a request takes after its request line is read.
pub enum HttpStep {
    /// Send this response now.
    Answer(String),
    /// Carry out `action` with the collaborators, read the view file of
    /// `plan`, then build the response with `complete_response`.
    Route { plan: RoutePlan, action: Result<RequestAction, ProcessError> },
}

/// The length in bytes of a text's UTF-8 form, as `str::len` gives it.
pub open spec fn byte_len(body: Seq<char>) -> nat {
    (encode_utf8(body).len() as usize) as nat
}

/// The wire form of a response with this status line and body, sent at some
/// time: the body's length in bytes goes in the headers.
pub open spec fn answer_text(status: Seq<char>, body: Seq<char>, r: Seq<char>) -> bool {
    exists|date: Seq<char>| r == response_text(status, header_set(byte_len(body), date), body)
}

/// Reads the request in `buffer`: a request turned away is answered at once
/// with the bad-request status and body; a routed one is handed back with the
/// action it asks for.
pub fn begin_response(
    buffer: &str,
    allowed: &Vec<String>,
    html_base_path: &str,
    http_protocol: &str,
) -> (r: HttpStep)
    ensures
        exists|p: Result<RoutePlan, RequestError>|
            plans(buffer@, allowed@, html_base_path@, http_protocol@, p) && match p {
                Err(_) => r matches HttpStep::Answer(t) && answer_text(
                    http_protocol@ + bad_request_status(),
                    bad_request_body(),
                    t@,
                ),
                Ok(plan) => r matches HttpStep::Route { plan: q, action } && q == plan
                    && processes_to(plan.method@, plan.route@, str_texts(plan.routes@), buffer@, action),
            },
{
    let planned = build_http_response(buffer, allowed, html_base_path, http_protocol);
    let ghost p = planned;
    match planned {
        Err(_) => {
            let (status, body) = rejected_response(http_protocol);
            let len = body.as_str().len();
            let headers = fetch_headers(len);
            let t = assemble_response(status.as_str(), &headers, body.as_str());
            proof {
                let date = choose|d: Seq<char>| texts(headers@) == header_set(len as nat, d);
                assert(t@ == response_text(status@, header_set(byte_len(body@), date), body@));
                assert(answer_text(status@, body@, t@));
            }
            HttpStep::Answer(t)
        },
        Ok(plan) => {
            let action = process_request(plan.method.as_str(), plan.route.as_str(), &plan.routes, buffer);
            let r = HttpStep::Route { plan, action };
            assert(plans(buffer@, allowed@, html_base_path@, http_protocol@, p));
            r
        },
    }
}

/// The data of a routed request: what the action gives once the collaborator
/// answered; a request that asked for nothing possible fails.
pub open spec fn routed_data(
    action: Result<RequestAction, ProcessError>,
    outcome: Result<Seq<char>, Seq<char>>,
) -> Result<Seq<char>, Seq<char>> {
    match action {
        Ok(a) => data_for(a, outcome),
        Err(_) => Err(Seq::empty()),
    }
}

/// Builds the response of a routed request from what the collaborator
/// answered and what the view file held.
pub fn complete_response(
    plan: &RoutePlan,
    http_protocol: &str,
    action: &Result<RequestAction, ProcessError>,
    outcome: Result<String, String>,
    view_contents: Result<String, String>,
) -> (r: String)
    ensures
        ({
            let (status, body) = finished(
                plan.status_line@,
                http_protocol@,
                routed_data(*action, result_text(outcome)),
                result_text(view_contents),
            );
            answer_text(status, body, r@)
        }),
{
    let data = match action {
        Ok(a) => response_data(a, outcome),
        Err(_) => Err(String::new()),
    };
    let (status, body) = finish_response(plan.status_line.as_str(), http_protocol, &data, &view_contents);
    let len = body.as_str().len();
    let headers = fetch_headers(len);
    let t = assemble_response(status.as_str(), &headers, body.as_str());
    proof {
        let date = choose|d: Seq<char>| texts(headers@) == header_set(len as nat, d);
        assert(t@ == response_text(status@, header_set(byte_len(body@), date), body@));
        assert(answer_text(status@, body@, t@));
    }
    t
}


/// A request line with an allowed method and a path is routed: the path picks
/// the view, under the success status; once the collaborator and the view file
/// answer, the response carries that status and the view followed by the data.
pub proof fn lemma_routed_success(
    buffer: Seq<char>,
    allowed: Seq<String>,
    html_base_path: Seq<char>,
    http_protocol: Seq<char>,
    r: Result<RoutePlan, RequestError>,
    action: Result<RequestAction, ProcessError>,
    outcome: Result<Seq<char>, Seq<char>>,
    view_contents: Seq<char>,
)
    requires
        plans(buffer, allowed, html_base_path, http_protocol, r),
        request_line(buffer) is Some,
        request_words(buffer).len() >= 2,
        texts(allowed).contains(request_words(buffer)[0]),
        routed_data(action, outcome) is Ok,
    ensures
        r is Ok,
        r->Ok_0.view == view_of(request_words(buffer)[1]),
        r->Ok_0.status_line@ == ok_status(http_protocol),
        finished(r->Ok_0.status_line@, http_protocol, routed_data(action, outcome), Ok(view_contents))
            == (ok_status(http_protocol), view_contents + routed_data(action, outcome)->Ok_0),
{
    match r {
        Ok(_) => {},
        Err(e) => {
            assert(e == RequestError::NotHttp || e == RequestError::MethodNotAllowed || e
                == RequestError::MissingPath);
        },
    }
}

} // verus!
