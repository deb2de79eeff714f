//! Which route a request takes, and what every route asks of it.
use vstd::prelude::*;

use crate::config::Config;
use crate::exchange::{
    error_tree, failure, failure_says_what_failed, failure_tree, plain_failure, Call, Reply,
};
use crate::json::{empty_object, field_after_with, object_after_with, Json, Tree};
use crate::probe::probe_call;
use crate::questions::{judgement_questions, judgement_tree};
use crate::text::{
    alike, before, first_position, same, same_ignoring_case, split_at_the_first_mark, trim, trimmed,
};
use crate::value::{json_text, render};

verus! {

/// The header in which the browser sends the caller's own key. Not in the body, which the page
/// shows on screen.
pub const KEY_HEADER: &'static str = "X-Jev-Key";

/// How many requests are served at a time. Each may wait on a slow service, and one at a time
/// would let it stall everyone.
pub const WORKERS: usize = 8;

/// The methods that a route tells apart.
#[derive(Debug, Clone, Copy, PartialEq, Eq, Structural)]
pub enum Method {
    Get,
    Post,
    Other,
}

/// Where a request goes.
#[derive(Debug, Clone, Copy, PartialEq, Eq, Structural)]
pub enum Route {
    Index,
    Health,
    Config,
    Questions,
    Probe,
    Vision,
    Import,
    Judge,
    Draft,
    NotFound,
}

/// The path of a URL: what stands before the first question mark.
pub open spec fn path_of(url: Seq<char>) -> Seq<char> {
    url.take(first_position(url, '?'))
}

/// The route of a method and a path.
pub open spec fn route_of(method: Method, path: Seq<char>) -> Route {
    match method {
        Method::Get => if path == "/"@ || path == "/index.html"@ {
            Route::Index
        } else if path == "/healthz"@ {
            Route::Health
        } else if path == "/api/config"@ {
            Route::Config
        } else if path == "/api/questions"@ {
            Route::Questions
        } else if path == "/api/probe"@ {
            Route::Probe
        } else {
            Route::NotFound
        },
        Method::Post => if path == "/api/vision"@ {
            Route::Vision
        } else if path == "/api/import"@ {
            Route::Import
        } else if path == "/api/judge"@ {
            Route::Judge
        } else if path == "/api/draft"@ {
            Route::Draft
        } else {
            Route::NotFound
        },
        Method::Other => Route::NotFound,
    }
}

/// The route that a request takes.
pub fn route(method: Method, url: &str) -> (res: Route)
    ensures
        res == route_of(method, path_of(url@)),
{
    let path = before(url, '?');
    match method {
        Method::Get => if same(path, "/") || same(path, "/index.html") {
            Route::Index
        } else if same(path, "/healthz") {
            Route::Health
        } else if same(path, "/api/config") {
            Route::Config
        } else if same(path, "/api/questions") {
            Route::Questions
        } else if same(path, "/api/probe") {
            Route::Probe
        } else {
            Route::NotFound
        },
        Method::Post => if same(path, "/api/vision") {
            Route::Vision
        } else if same(path, "/api/import") {
            Route::Import
        } else if same(path, "/api/judge") {
            Route::Judge
        } else if same(path, "/api/draft") {
            Route::Draft
        } else {
            Route::NotFound
        },
        Method::Other => Route::NotFound,
    }
}

/// The headers that a list says: name and value of each.
pub open spec fn header_views(headers: Seq<(String, String)>) -> Seq<(Seq<char>, Seq<char>)> {
    headers.map_values(|header: (String, String)| (header.0@, header.1@))
}

/// The value of the first header with this name, whatever the case of its letters.
pub open spec fn header_value(
    headers: Seq<(Seq<char>, Seq<char>)>,
    name: Seq<char>,
) -> Option<Seq<char>>
    decreases headers.len(),
{
    if headers.len() == 0 {
        None
    } else if alike(name, headers[0].0) {
        Some(headers[0].1)
    } else {
        header_value(headers.drop_first(), name)
    }
}

/// The key that comes with a request: the trimmed value of the first key header, where that is
/// not empty.
pub open spec fn key_in(headers: Seq<(Seq<char>, Seq<char>)>) -> Option<Seq<char>> {
    match header_value(headers, KEY_HEADER@) {
        Some(value) => if trimmed(value).len() > 0 {
            Some(trimmed(value))
        } else {
            None
        },
        None => None,
    }
}

/// The caller's own key, per request.
pub fn caller_key(headers: &Vec<(String, String)>) -> (res: Option<String>)
    ensures
        match res {
            Some(key) => key_in(header_views(headers@)) == Some(key@),
            None => key_in(header_views(headers@)) is None,
        },
{
    let ghost all = header_views(headers@);
    let mut i: usize = 0;
    assert(all.skip(0) == all);
    while i < headers.len()
        invariant
            all == header_views(headers@),
            i <= headers@.len(),
            header_value(all, KEY_HEADER@) == header_value(all.skip(i as int), KEY_HEADER@),
        decreases headers@.len() - i,
    {
        assert(all.skip(i as int)[0] == (headers@[i as int].0@, headers@[i as int].1@));
        assert(all.skip(i as int).drop_first() == all.skip(i + 1));
        if same_ignoring_case(KEY_HEADER, headers[i].0.as_str()) {
            let key = trim(headers[i].1.as_str());
            if key.is_empty() {
                return None;
            }
            return Some(key.to_owned());
        }
        i = i + 1;
    }
    None
}

/// The payload that asks for a key.
pub open spec fn need_key_tree() -> Tree {
    Tree::object().with("error"@, Tree::Text("需要 API Key"@)).with(
        "detail"@,
        Tree::Text(
            "点右上角「设置」填入你自己的 OpenRouter Key。Key 只存在你的浏览器里。"@,
        ),
    ).with("need_key"@, Tree::Bool(true))
}

/// The payload that asks for a key.
pub fn need_key() -> (res: Json)
    ensures
        res@ == need_key_tree(),
{
    Json::object().with("error", Json::text("需要 API Key")).with(
        "detail",
        Json::text("点右上角「设置」填入你自己的 OpenRouter Key。Key 只存在你的浏览器里。"),
    ).with("need_key", Json::Bool(true))
}

/// The base URL and the model of a service.
pub open spec fn service_tree(base: Seq<char>, model: Seq<char>) -> Tree {
    Tree::object().with("base"@, Tree::Text(base)).with("model"@, Tree::Text(model))
}

fn service(base: &str, model: &str) -> (res: Json)
    ensures
        res@ == service_tree(base@, model@),
{
    Json::object().with("base", Json::text(base)).with("model", Json::text(model))
}

/// What the page is told of the configuration. `byok` has it demand a key before anything
/// else; it is always true, for there is no key on this side.
pub open spec fn config_tree(config: Config) -> Tree {
    Tree::object().with("judge"@, service_tree(config.jev_base@, config.jev_model@)).with(
        "draft"@,
        service_tree(config.draft_base@, config.draft_model@),
    ).with("vision"@, service_tree(config.vision_base@, config.vision_model@)).with(
        "byok"@,
        Tree::Bool(true),
    )
}

/// What the page is told of the configuration.
pub fn config_payload(config: &Config) -> (res: Json)
    ensures
        res@ == config_tree(*config),
{
    Json::object().with(
        "judge",
        service(config.jev_base.as_str(), config.jev_model.as_str()),
    ).with("draft", service(config.draft_base.as_str(), config.draft_model.as_str())).with(
        "vision",
        service(config.vision_base.as_str(), config.vision_model.as_str()),
    ).with("byok", Json::Bool(true))
}

/// A response as it goes over the wire.
#[derive(Debug, PartialEq)]
pub struct Response {
    pub status: u16,
    pub content_type: String,
    pub body: String,
}

impl View for Response {
    type V = (u16, Seq<char>, Seq<char>);

    open spec fn view(&self) -> (u16, Seq<char>, Seq<char>) {
        (self.status, self.content_type@, self.body@)
    }
}

/// The response with a JSON payload: a status, a content type and a body.
pub open spec fn json_response(reply: (u16, Tree)) -> (u16, Seq<char>, Seq<char>) {
    (reply.0, "application/json; charset=utf-8"@, json_text(reply.1))
}

/// The response with a JSON payload.
pub fn respond_json(reply: &Reply) -> (res: Response)
    ensures
        res@ == json_response(reply@),
{
    Response {
        status: reply.status,
        content_type: "application/json; charset=utf-8".to_owned(),
        body: render(&reply.payload),
    }
}

/// The response that says that the server is up.
pub fn healthy() -> (res: Response)
    ensures
        res@ == (200u16, "text/plain"@, "ok"@),
{
    Response { status: 200, content_type: "text/plain".to_owned(), body: "ok".to_owned() }
}

/// The response to a request that no route takes.
pub fn not_found() -> (res: Response)
    ensures
        res@ == (404u16, "text/plain; charset=utf-8"@, "not found"@),
{
    Response {
        status: 404,
        content_type: "text/plain; charset=utf-8".to_owned(),
        body: "not found".to_owned(),
    }
}

/// The answer where the page could not be read.
pub fn index_unreadable(reason: &str) -> (res: Reply)
    ensures
        res@ == (500u16, error_tree(reason@)),
{
    Reply { status: 500, payload: plain_failure(reason) }
}

/// The content type of the page.
pub const INDEX_TYPE: &'static str = "text/html; charset=utf-8";

/// What is sent where the page was asked for.
#[derive(Debug, PartialEq)]
pub enum IndexAnswer {
    /// The page, as it was read.
    Page { status: u16, content_type: String, bytes: Vec<u8> },
    /// It could not be read.
    Failed(Reply),
}

/// What is sent where the page was asked for: what was read of it, or the reason why it could
/// not be.
pub fn answer_index(read: Result<Vec<u8>, String>) -> (res: IndexAnswer)
    ensures
        match read {
            Ok(page) => res matches IndexAnswer::Page { status, content_type, bytes } && status
                == 200 && content_type@ == INDEX_TYPE@ && bytes@ == page@,
            Err(reason) => res matches IndexAnswer::Failed(reply) && reply@ == (
                500u16,
                error_tree(reason@),
            ),
        },
{
    match read {
        Ok(bytes) => IndexAnswer::Page { status: 200, content_type: INDEX_TYPE.to_owned(), bytes },
        Err(reason) => IndexAnswer::Failed(index_unreadable(reason.as_str())),
    }
}

/// The headers of every response: what it holds, and that nothing on the way may keep it.
pub fn response_headers(content_type: &str) -> (res: Vec<(String, String)>)
    ensures
        header_views(res@) == seq![
            ("Content-Type"@, content_type@),
            ("Cache-Control"@, "no-store"@),
        ],
{
    let mut res: Vec<(String, String)> = Vec::new();
    res.push(("Content-Type".to_owned(), content_type.to_owned()));
    res.push(("Cache-Control".to_owned(), "no-store".to_owned()));
    assert(header_views(res@) == seq![
        ("Content-Type"@, content_type@),
        ("Cache-Control"@, "no-store"@),
    ]);
    res
}

/// The key that comes with a request, or the answer that asks for one.
pub fn require_key(headers: &Vec<(String, String)>) -> (res: Result<String, Reply>)
    ensures
        match key_in(header_views(headers@)) {
            Some(key) => res matches Ok(found) && found@ == key,
            None => res matches Err(reply) && reply@ == (401u16, need_key_tree()),
        },
{
    match caller_key(headers) {
        Some(key) => Ok(key),
        None => Err(Reply { status: 401, payload: need_key() }),
    }
}

/// The routes that take a body.
#[derive(Debug, Clone, Copy, PartialEq, Eq, Structural)]
pub enum PostTarget {
    Vision,
    Import,
    Judge,
    Draft,
}

/// What is to be done with a request.
#[derive(Debug, PartialEq)]
pub enum Action {
    /// Send the page.
    ServeIndex,
    Respond(Response),
    /// Check a key with this call.
    Probe(Call),
    /// Take the request through the steps of a POST request, for this route.
    Post(PostTarget),
}

/// What is to be done with a request.
pub fn handle(
    config: &Config,
    method: Method,
    url: &str,
    headers: &Vec<(String, String)>,
) -> (res: Action)
    ensures
        deals_with(
            res,
            *config,
            method,
            path_of(url@),
            key_in(header_views(headers@)),
        ),
{
    match route(method, url) {
        Route::Index => Action::ServeIndex,
        Route::Health => Action::Respond(healthy()),
        Route::Config => Action::Respond(
            respond_json(&Reply { status: 200, payload: config_payload(config) }),
        ),
        Route::Questions => Action::Respond(
            respond_json(&Reply { status: 200, payload: judgement_questions() }),
        ),
        Route::Probe => match require_key(headers) {
            Ok(key) => Action::Probe(probe_call(config, key.as_str())),
            Err(reply) => Action::Respond(respond_json(&reply)),
        },
        Route::Vision => Action::Post(PostTarget::Vision),
        Route::Import => Action::Post(PostTarget::Import),
        Route::Judge => Action::Post(PostTarget::Judge),
        Route::Draft => Action::Post(PostTarget::Draft),
        Route::NotFound => Action::Respond(not_found()),
    }
}

/// How far a POST request has come. The key is asked for first, so that no route can do
/// without it.
#[derive(Debug, PartialEq)]
pub enum PostState {
    /// It has arrived.
    Arrived,
    /// It has a key, and its body is being read.
    Reading { key: String },
    /// It has a key, and its body is being parsed.
    Parsing { key: String },
    /// It has been answered, or handed to its route.
    Finished,
}

/// What happens to a POST request.
#[derive(Debug, PartialEq)]
pub enum PostEvent {
    /// Its headers are known.
    Headers(Vec<(String, String)>),
    /// Its body was read.
    Body(String),
    /// Its body could not be read, for this reason.
    BodyFailed(String),
    /// Its body is what the route takes.
    Parsed,
    /// Its body is not what the route takes, for this reason.
    ParseFailed(String),
}

/// What is to be done with a POST request.
#[derive(Debug, PartialEq)]
pub enum PostAction {
    ReadBody,
    ParseBody(String),
    /// Hand the request to its route, with this key.
    Handle { key: String },
    Respond(Reply),
    /// The event does not belong to the state.
    Nothing,
}

/// What a state says: how far the request has come, and with which key.
pub enum Progress {
    Arrived,
    Reading(Seq<char>),
    Parsing(Seq<char>),
    Finished,
}

/// What an action says.
pub enum Step {
    ReadBody,
    ParseBody(Seq<char>),
    Handle(Seq<char>),
    Respond(u16, Tree),
    Nothing,
}

impl View for PostState {
    type V = Progress;

    open spec fn view(&self) -> Progress {
        match *self {
            PostState::Arrived => Progress::Arrived,
            PostState::Reading { key } => Progress::Reading(key@),
            PostState::Parsing { key } => Progress::Parsing(key@),
            PostState::Finished => Progress::Finished,
        }
    }
}

impl View for PostAction {
    type V = Step;

    open spec fn view(&self) -> Step {
        match *self {
            PostAction::ReadBody => Step::ReadBody,
            PostAction::ParseBody(body) => Step::ParseBody(body@),
            PostAction::Handle { key } => Step::Handle(key@),
            PostAction::Respond(reply) => Step::Respond(reply.status, reply.payload@),
            PostAction::Nothing => Step::Nothing,
        }
    }
}

/// How a POST request goes on: the next state, and what is to be done.
pub open spec fn post_step(state: Progress, event: PostEvent) -> (Progress, Step) {
    match (state, event) {
        (Progress::Arrived, PostEvent::Headers(headers)) => match key_in(header_views(headers@)) {
            Some(key) => (Progress::Reading(key), Step::ReadBody),
            None => (Progress::Finished, Step::Respond(401u16, need_key_tree())),
        },
        (Progress::Reading(key), PostEvent::Body(body)) => (
            Progress::Parsing(key),
            Step::ParseBody(body@),
        ),
        (Progress::Reading(_), PostEvent::BodyFailed(reason)) => (
            Progress::Finished,
            Step::Respond(400u16, failure_tree("could not read body"@, reason@)),
        ),
        (Progress::Parsing(key), PostEvent::Parsed) => (Progress::Finished, Step::Handle(key)),
        (Progress::Parsing(_), PostEvent::ParseFailed(reason)) => (
            Progress::Finished,
            Step::Respond(400u16, failure_tree("bad request"@, reason@)),
        ),
        _ => (state, Step::Nothing),
    }
}

/// How a POST request goes on: it must have a key, then its body is read, then parsed, and
/// then its route handles it.
pub fn post_route(state: PostState, event: PostEvent) -> (res: (PostState, PostAction))
    ensures
        (res.0@, res.1@) == post_step(state@, event),
{
    match (state, event) {
        (PostState::Arrived, PostEvent::Headers(headers)) => match require_key(&headers) {
            Ok(key) => (PostState::Reading { key }, PostAction::ReadBody),
            Err(reply) => (PostState::Finished, PostAction::Respond(reply)),
        },
        (PostState::Reading { key }, PostEvent::Body(body)) => (
            PostState::Parsing { key },
            PostAction::ParseBody(body),
        ),
        (PostState::Reading { key: _ }, PostEvent::BodyFailed(reason)) => (
            PostState::Finished,
            PostAction::Respond(
                Reply { status: 400, payload: failure("could not read body", reason.as_str()) },
            ),
        ),
        (PostState::Parsing { key }, PostEvent::Parsed) => (
            PostState::Finished,
            PostAction::Handle { key },
        ),
        (PostState::Parsing { key: _ }, PostEvent::ParseFailed(reason)) => (
            PostState::Finished,
            PostAction::Respond(
                Reply { status: 400, payload: failure("bad request", reason.as_str()) },
            ),
        ),
        (state, _) => (state, PostAction::Nothing),
    }
}

/// How far a POST request has come after some events.
pub open spec fn progress_after(events: Seq<PostEvent>) -> Progress
    decreases events.len(),
{
    if events.len() == 0 {
        Progress::Arrived
    } else {
        post_step(progress_after(events.drop_last()), events.last()).0
    }
}

/// Whether some event brought headers with this key.
pub open spec fn brought_key(events: Seq<PostEvent>, key: Seq<char>) -> bool {
    exists|i: int|
        0 <= i < events.len() && (#[trigger] events[i] matches PostEvent::Headers(headers)
            && key_in(header_views(headers@)) == Some(key))
}

proof fn progress_needs_key(events: Seq<PostEvent>)
    ensures
        progress_after(events) matches Progress::Reading(key) ==> brought_key(events, key),
        progress_after(events) matches Progress::Parsing(key) ==> brought_key(events, key),
    decreases events.len(),
{
    if events.len() > 0 {
        let before = events.drop_last();
        progress_needs_key(before);
        assert forall|key: Seq<char>| brought_key(before, key) implies brought_key(events, key) by {
            let i = choose|i: int|
                0 <= i < before.len() && (#[trigger] before[i] matches PostEvent::Headers(headers)
                    && key_in(header_views(headers@)) == Some(key));
            assert(events[i] == before[i]);
        }
        assert(events[events.len() - 1] == events.last());
    }
}

/// No route is reached without a key: whatever happens to a POST request, and in whatever order,
/// it is handed to its route only with a key that its own headers brought.
pub proof fn no_route_without_key(events: Seq<PostEvent>, event: PostEvent, key: Seq<char>)
    requires
        post_step(progress_after(events), event).1 == Step::Handle(key),
    ensures
        brought_key(events, key),
        key.len() > 0,
        event is Parsed,
{
    progress_needs_key(events);
    let i = choose|i: int|
        0 <= i < events.len() && (#[trigger] events[i] matches PostEvent::Headers(headers)
            && key_in(header_views(headers@)) == Some(key));
    assert(events[i] is Headers);
}

/// A POST request is answered, or handed to its route, at most once: with that it is finished,
/// and nothing more is done with it.
pub proof fn answered_at_most_once(state: Progress, event: PostEvent, later: PostEvent)
    ensures
        post_step(state, event).1 is Respond || post_step(state, event).1 is Handle ==> post_step(
            state,
            event,
        ).0 is Finished,
        post_step(Progress::Finished, later) == (Progress::Finished, Step::Nothing),
{
}

/// The path of a request is its URL up to the first question mark.
pub proof fn query_makes_no_difference(path: Seq<char>, query: Seq<char>)
    requires
        !path.contains('?'),
    ensures
        path_of(path + seq!['?'] + query) == path,
        path_of(path) == path,
{
    split_at_the_first_mark(path, query, '?');
    assert((path + seq!['?'] + query).take(path.len() as int) == path);
    assert(path.take(path.len() as int) == path);
}

/// Each route has its method and its path, and a request that fits none of them goes nowhere.
pub proof fn routes_are_known(method: Method, path: Seq<char>)
    ensures
        ({
            let get = method == Method::Get;
            let post = method == Method::Post;
            let route = route_of(method, path);
            &&& route == Route::Index <==> get && (path == "/"@ || path == "/index.html"@)
            &&& route == Route::Health <==> get && path == "/healthz"@
            &&& route == Route::Config <==> get && path == "/api/config"@
            &&& route == Route::Questions <==> get && path == "/api/questions"@
            &&& route == Route::Probe <==> get && path == "/api/probe"@
            &&& route == Route::Vision <==> post && path == "/api/vision"@
            &&& route == Route::Import <==> post && path == "/api/import"@
            &&& route == Route::Judge <==> post && path == "/api/judge"@
            &&& route == Route::Draft <==> post && path == "/api/draft"@
            &&& method == Method::Other ==> route == Route::NotFound
        }),
{
    reveal_strlit("/");
    reveal_strlit("/index.html");
    reveal_strlit("/healthz");
    reveal_strlit("/api/config");
    reveal_strlit("/api/questions");
    reveal_strlit("/api/probe");
    reveal_strlit("/api/vision");
    reveal_strlit("/api/import");
    reveal_strlit("/api/judge");
    reveal_strlit("/api/draft");
    assert({
        &&& "/"@.len() == 1
        &&& "/index.html"@.len() == 11
        &&& "/healthz"@.len() == 8
        &&& "/api/config"@.len() == 11
        &&& "/api/questions"@.len() == 14
        &&& "/api/probe"@.len() == 10
        &&& "/api/vision"@.len() == 11
        &&& "/api/import"@.len() == 11
        &&& "/api/judge"@.len() == 10
        &&& "/api/draft"@.len() == 10
    });
    assert({
        &&& "/index.html"@[1] == 'i'
        &&& "/api/config"@[1] == 'a'
        &&& "/api/config"@[5] == 'c'
        &&& "/api/vision"@[1] == 'a'
        &&& "/api/vision"@[5] == 'v'
        &&& "/api/import"@[1] == 'a'
        &&& "/api/import"@[5] == 'i'
        &&& "/api/probe"@[5] == 'p'
        &&& "/api/judge"@[5] == 'j'
        &&& "/api/draft"@[5] == 'd'
    });
}

/// A list of headers has the names and values of its entries, one for one.
pub proof fn headers_go_one_for_one(headers: Seq<(String, String)>, i: int)
    requires
        0 <= i < headers.len(),
    ensures
        header_views(headers).len() == headers.len(),
        header_views(headers)[i] == (headers[i].0@, headers[i].1@),
{
}

/// The key is the value of the first header that is named `X-Jev-Key`, in whatever case, whole
/// but for white space at its ends. A blank one, or none, is no key.
pub proof fn first_key_header_decides(headers: Seq<(Seq<char>, Seq<char>)>, i: int)
    ensures
        0 <= i < headers.len() && alike("X-Jev-Key"@, headers[i].0) && (forall|j: int|
            0 <= j < i ==> !alike("X-Jev-Key"@, (#[trigger] headers[j]).0)) ==> {
            &&& trimmed(headers[i].1).len() > 0 ==> key_in(headers) == Some(trimmed(headers[i].1))
            &&& trimmed(headers[i].1).len() == 0 ==> key_in(headers) is None
        },
        (forall|j: int| 0 <= j < headers.len() ==> !alike("X-Jev-Key"@, (#[trigger] headers[j]).0))
            ==> key_in(headers) is None,
{
    first_header_decides(headers, "X-Jev-Key"@, i);
}

/// The value of a header is that of the first one with its name, in whatever case.
pub proof fn first_header_decides(
    headers: Seq<(Seq<char>, Seq<char>)>,
    name: Seq<char>,
    i: int,
)
    ensures
        0 <= i < headers.len() && alike(name, headers[i].0) && (forall|j: int|
            0 <= j < i ==> !alike(name, (#[trigger] headers[j]).0)) ==> header_value(headers, name)
            == Some(headers[i].1),
        (forall|j: int| 0 <= j < headers.len() ==> !alike(name, (#[trigger] headers[j]).0))
            ==> header_value(headers, name) is None,
    decreases headers.len(),
{
    if headers.len() > 0 {
        let rest = headers.drop_first();
        first_header_decides(rest, name, i - 1);
        assert(forall|j: int| 0 <= j < rest.len() ==> #[trigger] rest[j] == headers[j + 1]);
        if 0 < i < headers.len() {
            assert(rest[i - 1] == headers[i]);
        }
    }
}

/// A request without a key is told what it needs, and that a key is what it needs.
pub proof fn missing_key_is_told(other: Seq<char>)
    ensures
        need_key_tree().text_at("error"@) == Some("需要 API Key"@),
        need_key_tree().text_at("detail"@) == Some(
            "点右上角「设置」填入你自己的 OpenRouter Key。Key 只存在你的浏览器里。"@,
        ),
        need_key_tree().get("need_key"@) == Some(Tree::Bool(true)),
        need_key_tree().get(other) is Some ==> other == "error"@ || other == "detail"@ || other
            == "need_key"@,
{
    broadcast use {field_after_with, object_after_with, empty_object};

    reveal_strlit("error");
    reveal_strlit("detail");
    reveal_strlit("need_key");
    assert({
        &&& "error"@.len() == 5
        &&& "detail"@.len() == 6
        &&& "need_key"@.len() == 8
    });
}

/// The page is told the base and the model of each of the three services under its own name, and
/// that it needs a key, and nothing else.
pub proof fn page_is_told_the_services(config: Config, other: Seq<char>)
    ensures
        ({
            let told = config_tree(config);
            let judge = told.get("judge"@)->0;
            let draft = told.get("draft"@)->0;
            let vision = told.get("vision"@)->0;
            &&& judge.text_at("base"@) == Some(config.jev_base@)
            &&& judge.text_at("model"@) == Some(config.jev_model@)
            &&& draft.text_at("base"@) == Some(config.draft_base@)
            &&& draft.text_at("model"@) == Some(config.draft_model@)
            &&& vision.text_at("base"@) == Some(config.vision_base@)
            &&& vision.text_at("model"@) == Some(config.vision_model@)
            &&& told.get("byok"@) == Some(Tree::Bool(true))
            &&& told.get(other) is Some <==> other == "judge"@ || other == "draft"@ || other
                == "vision"@ || other == "byok"@
        }),
{
    broadcast use {field_after_with, object_after_with, empty_object};

    reveal_strlit("judge");
    reveal_strlit("draft");
    reveal_strlit("vision");
    reveal_strlit("byok");
    reveal_strlit("base");
    reveal_strlit("model");
    assert({
        &&& "judge"@.len() == 5
        &&& "draft"@.len() == 5
        &&& "vision"@.len() == 6
        &&& "byok"@.len() == 4
        &&& "base"@.len() == 4
        &&& "model"@.len() == 5
    });
    assert({
        &&& "judge"@[0] == 'j'
        &&& "draft"@[0] == 'd'
        &&& "model"@[0] == 'm'
        &&& "byok"@[1] == 'y'
        &&& "base"@[1] == 'a'
    });
}

/// A reply goes over the wire with its own status, as JSON, and as the text of its payload.
pub proof fn reply_goes_over_the_wire(reply: Reply, response: Response)
    ensures
        reply@ == (reply.status, reply.payload@),
        response@ == (response.status, response.content_type@, response.body@),
        json_response(reply@) == (
            reply.status,
            "application/json; charset=utf-8"@,
            json_text(reply.payload@),
        ),
        INDEX_TYPE@ == "text/html; charset=utf-8"@,
        WORKERS == 8,
{
}

/// How a POST request goes on from each state. It is read only with a key, and carries that key
/// along unchanged until its route gets it; what goes wrong is answered with the reason.
pub proof fn post_goes_step_by_step(
    headers: Vec<(String, String)>,
    key: Seq<char>,
    text: String,
    state: Progress,
)
    ensures
        key_in(header_views(headers@)) == Some(key) ==> post_step(
            Progress::Arrived,
            PostEvent::Headers(headers),
        ) == (Progress::Reading(key), Step::ReadBody),
        key_in(header_views(headers@)) is None ==> post_step(
            Progress::Arrived,
            PostEvent::Headers(headers),
        ) == (Progress::Finished, Step::Respond(401u16, need_key_tree())),
        post_step(Progress::Reading(key), PostEvent::Body(text)) == (
            Progress::Parsing(key),
            Step::ParseBody(text@),
        ),
        post_step(Progress::Parsing(key), PostEvent::Parsed) == (
            Progress::Finished,
            Step::Handle(key),
        ),
        ({
            let (next, step) = post_step(Progress::Reading(key), PostEvent::BodyFailed(text));
            &&& next is Finished
            &&& step matches Step::Respond(status, payload)
            &&& status == 400
            &&& payload.text_at("error"@) == Some("could not read body"@)
            &&& payload.text_at("detail"@) == Some(text@)
        }),
        ({
            let (next, step) = post_step(Progress::Parsing(key), PostEvent::ParseFailed(text));
            &&& next is Finished
            &&& step matches Step::Respond(status, payload)
            &&& status == 400
            &&& payload.text_at("error"@) == Some("bad request"@)
            &&& payload.text_at("detail"@) == Some(text@)
        }),
        !(state is Arrived) ==> post_step(state, PostEvent::Headers(headers)) == (state, Step::Nothing),
        !(state is Reading) ==> post_step(state, PostEvent::Body(text)) == (state, Step::Nothing),
        !(state is Reading) ==> post_step(state, PostEvent::BodyFailed(text)) == (state, Step::Nothing),
        !(state is Parsing) ==> post_step(state, PostEvent::Parsed) == (state, Step::Nothing),
        !(state is Parsing) ==> post_step(state, PostEvent::ParseFailed(text)) == (
            state,
            Step::Nothing,
        ),
{
    failure_says_what_failed("could not read body"@, text@, key);
    failure_says_what_failed("bad request"@, text@, key);
}

/// A state says its key, and an action says what it is to be done with.
pub proof fn states_and_actions_say_what_they_hold(key: String, reply: Reply)
    ensures
        PostState::Arrived@ == Progress::Arrived,
        (PostState::Reading { key })@ == Progress::Reading(key@),
        (PostState::Parsing { key })@ == Progress::Parsing(key@),
        PostState::Finished@ == Progress::Finished,
        PostAction::ReadBody@ == Step::ReadBody,
        PostAction::ParseBody(key)@ == Step::ParseBody(key@),
        (PostAction::Handle { key })@ == Step::Handle(key@),
        PostAction::Respond(reply)@ == Step::Respond(reply.status, reply.payload@),
        PostAction::Nothing@ == Step::Nothing,
{
}

/// Whether an action is what is to be done with a request.
pub open spec fn deals_with(
    action: Action,
    config: Config,
    method: Method,
    path: Seq<char>,
    key: Option<Seq<char>>,
) -> bool {
    match route_of(method, path) {
        Route::Index => action is ServeIndex,
        Route::Health => action matches Action::Respond(response) && response@ == (
            200u16,
            "text/plain"@,
            "ok"@,
        ),
        Route::Config => action matches Action::Respond(response) && response@ == json_response(
            (200u16, config_tree(config)),
        ),
        Route::Questions => action matches Action::Respond(response) && response@ == json_response(
            (200u16, judgement_tree()),
        ),
        Route::Probe => match key {
            Some(key) => action matches Action::Probe(call) && call.gets(
                config.draft_base@ + "/key"@,
                key,
                20,
            ),
            None => action matches Action::Respond(response) && response@ == json_response(
                (401u16, need_key_tree()),
            ),
        },
        Route::Vision => action == Action::Post(PostTarget::Vision),
        Route::Import => action == Action::Post(PostTarget::Import),
        Route::Judge => action == Action::Post(PostTarget::Judge),
        Route::Draft => action == Action::Post(PostTarget::Draft),
        Route::NotFound => action matches Action::Respond(response) && response@ == (
            404u16,
            "text/plain; charset=utf-8"@,
            "not found"@,
        ),
    }
}

/// What each request comes to. A key is checked only where one came along, with that key and at
/// the service that drafts; and what no route takes is not found.
pub proof fn each_request_is_dealt_with(
    action: Action,
    config: Config,
    method: Method,
    path: Seq<char>,
    key: Option<Seq<char>>,
)
    requires
        deals_with(action, config, method, path, key),
    ensures
        ({
            let get = method == Method::Get;
            let post = method == Method::Post;
            let probes = get && path == "/api/probe"@;
            &&& action is ServeIndex <==> get && (path == "/"@ || path == "/index.html"@)
            &&& action is Probe <==> probes && key is Some
            &&& action matches Action::Probe(call) ==> call.url@ == config.draft_base@ + "/key"@
                && call.authorization@ == "Bearer "@ + key->0 && call.timeout_seconds == 20
                && call.body is None
            &&& probes && key is None ==> (action matches Action::Respond(response) && response.status
                == 401 && response.body@ == json_text(need_key_tree()))
            &&& get && path == "/healthz"@ ==> (action matches Action::Respond(response)
                && response.status == 200 && response.content_type@ == "text/plain"@ && response.body@
                == "ok"@)
            &&& get && path == "/api/config"@ ==> (action matches Action::Respond(response)
                && response.status == 200 && response.body@ == json_text(config_tree(config)))
            &&& get && path == "/api/questions"@ ==> (action matches Action::Respond(response)
                && response.status == 200 && response.body@ == json_text(judgement_tree()))
            &&& action == Action::Post(PostTarget::Vision) <==> post && path == "/api/vision"@
            &&& action == Action::Post(PostTarget::Import) <==> post && path == "/api/import"@
            &&& action == Action::Post(PostTarget::Judge) <==> post && path == "/api/judge"@
            &&& action == Action::Post(PostTarget::Draft) <==> post && path == "/api/draft"@
            &&& method == Method::Other || route_of(method, path) == Route::NotFound ==> (
            action matches Action::Respond(response) && response.status == 404 && response.content_type@
                == "text/plain; charset=utf-8"@ && response.body@ == "not found"@)
        }),
{
    routes_are_known(method, path);
}

} // verus!
