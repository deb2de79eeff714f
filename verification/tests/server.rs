use jev_copilot::config::load_config;
use jev_copilot::exchange::Reply;
use jev_copilot::json::Json;
use jev_copilot::probe::probe_call;
use jev_copilot::questions::judgement_questions;
use jev_copilot::server::{
    answer_index, caller_key, config_payload, handle, healthy, index_unreadable, need_key,
    not_found, post_route, require_key, respond_json, response_headers, route, Action,
    IndexAnswer, Method, PostAction, PostEvent, PostState, PostTarget, Route,
};
use jev_copilot::value::render;

fn header(name: &str, value: &str) -> (String, String) {
    (name.to_string(), value.to_string())
}

#[test]
fn requests_take_their_routes() {
    let cases = [
        (Method::Get, "/", Route::Index),
        (Method::Get, "/index.html?v=2", Route::Index),
        (Method::Get, "?x", Route::NotFound),
        (Method::Get, "/healthz", Route::Health),
        (Method::Get, "/api/config", Route::Config),
        (Method::Get, "/api/questions?", Route::Questions),
        (Method::Get, "/api/probe", Route::Probe),
        (Method::Post, "/api/vision", Route::Vision),
        (Method::Post, "/api/import", Route::Import),
        (Method::Post, "/api/judge?a=b?c", Route::Judge),
        (Method::Post, "/api/draft", Route::Draft),
        (Method::Get, "/api/judge", Route::NotFound),
        (Method::Post, "/", Route::NotFound),
        (Method::Post, "/api/probe", Route::NotFound),
        (Method::Other, "/", Route::NotFound),
        (Method::Get, "/api/config/", Route::NotFound),
    ];
    for (method, url, expected) in cases {
        assert_eq!(route(method, url), expected, "{url}");
    }
}

#[test]
fn requests_are_dealt_with() {
    let config = load_config(&vec![], &vec![]);
    let none = vec![];
    let keyed = vec![header("X-Jev-Key", " k ")];
    let get = |url| handle(&config, Method::Get, url, &none);
    let json = |status, payload| Action::Respond(respond_json(&Reply { status, payload }));

    assert_eq!(get("/?fresh"), Action::ServeIndex);
    assert_eq!(get("/healthz"), Action::Respond(healthy()));
    assert_eq!(get("/api/config"), json(200, config_payload(&config)));
    assert_eq!(get("/api/questions"), json(200, judgement_questions()));
    assert_eq!(get("/api/probe"), json(401, need_key()));
    assert_eq!(
        handle(&config, Method::Get, "/api/probe", &keyed),
        Action::Probe(probe_call(&config, "k"))
    );
    assert_eq!(get("/elsewhere"), Action::Respond(not_found()));
    for (url, target) in [
        ("/api/vision", PostTarget::Vision),
        ("/api/import", PostTarget::Import),
        ("/api/judge", PostTarget::Judge),
        ("/api/draft", PostTarget::Draft),
    ] {
        assert_eq!(handle(&config, Method::Post, url, &none), Action::Post(target));
        assert_eq!(get(url), Action::Respond(not_found()));
    }
}

#[test]
fn the_key_is_the_first_key_header() {
    let headers = vec![
        header("Accept", "*/*"),
        header("x-jev-key", "  mine\t"),
        header("X-Jev-Key", "other"),
    ];
    assert_eq!(caller_key(&headers), Some("mine".to_string()));
    assert_eq!(caller_key(&vec![header("X-Jev-Key", "  "), header("X-Jev-Key", "b")]), None);
    assert_eq!(caller_key(&vec![header("X-Jev-Keys", "b")]), None);
    assert_eq!(caller_key(&vec![]), None);
}

#[test]
fn a_request_without_a_key_is_asked_for_one() {
    let reply = require_key(&vec![]).unwrap_err();
    assert_eq!(reply.status, 401);
    assert_eq!(reply.payload, need_key());
    assert_eq!(reply.payload.get("need_key"), Some(&Json::Bool(true)));
    assert_eq!(reply.payload.str_at("error"), Some("需要 API Key"));
    assert_eq!(
        reply.payload.str_at("detail"),
        Some("点右上角「设置」填入你自己的 OpenRouter Key。Key 只存在你的浏览器里。")
    );
    assert_eq!(require_key(&vec![header("X-Jev-Key", "k")]), Ok("k".to_string()));
}

#[test]
fn a_post_request_is_keyed_then_read_then_parsed_then_handled() {
    let key = || "k".to_string();
    let (state, action) =
        post_route(PostState::Arrived, PostEvent::Headers(vec![header("X-Jev-Key", "k")]));
    assert_eq!((&state, action), (&PostState::Reading { key: key() }, PostAction::ReadBody));
    let (state, action) = post_route(state, PostEvent::Body("{}".to_string()));
    assert_eq!(
        (&state, action),
        (&PostState::Parsing { key: key() }, PostAction::ParseBody("{}".to_string()))
    );
    let (state, action) = post_route(state, PostEvent::Parsed);
    assert_eq!((&state, action), (&PostState::Finished, PostAction::Handle { key: key() }));
    let (state, action) = post_route(state, PostEvent::Parsed);
    assert_eq!((state, action), (PostState::Finished, PostAction::Nothing));
}

#[test]
fn a_post_request_without_a_key_goes_no_further() {
    let (state, action) = post_route(PostState::Arrived, PostEvent::Headers(vec![]));
    assert_eq!(state, PostState::Finished);
    assert_eq!(action, PostAction::Respond(Reply { status: 401, payload: need_key() }));
    let (state, action) = post_route(PostState::Arrived, PostEvent::Parsed);
    assert_eq!((state, action), (PostState::Arrived, PostAction::Nothing));
}

#[test]
fn a_post_request_that_cannot_be_read_is_refused() {
    let reading = PostState::Reading { key: "k".to_string() };
    let (state, action) = post_route(reading, PostEvent::BodyFailed("cut off".to_string()));
    assert_eq!(state, PostState::Finished);
    let payload = Json::object()
        .with("error", Json::text("could not read body"))
        .with("detail", Json::text("cut off"));
    assert_eq!(action, PostAction::Respond(Reply { status: 400, payload }));

    let parsing = PostState::Parsing { key: "k".to_string() };
    let (state, action) = post_route(parsing, PostEvent::ParseFailed("no".to_string()));
    assert_eq!(state, PostState::Finished);
    let payload = Json::object()
        .with("error", Json::text("bad request"))
        .with("detail", Json::text("no"));
    assert_eq!(action, PostAction::Respond(Reply { status: 400, payload }));
}

#[test]
fn the_page_is_told_the_configuration_and_that_it_needs_a_key() {
    let payload = config_payload(&load_config(&vec![], &vec![]));
    assert_eq!(
        render(&payload),
        r#"{"byok":true,"draft":{"base":"https://openrouter.ai/api/v1","model":"deepseek/deepseek-chat-v3.1"},"judge":{"base":"https://openrouter.ai/api","model":"jev-latest"},"vision":{"base":"https://openrouter.ai/api/v1","model":"qwen/qwen3.7-flash"}}"#
    );
}

#[test]
fn responses_on_the_wire() {
    let response = respond_json(&index_unreadable("no \"such\" file"));
    assert_eq!(response.status, 500);
    assert_eq!(response.content_type, "application/json; charset=utf-8");
    assert_eq!(response.body, r#"{"error":"no \"such\" file"}"#);
    assert_eq!(healthy().body, "ok");
    assert_eq!((healthy().status, healthy().content_type.as_str()), (200, "text/plain"));
    assert_eq!(not_found().status, 404);
    assert_eq!(not_found().body, "not found");
    assert_eq!(not_found().content_type, "text/plain; charset=utf-8");
}

#[test]
fn every_response_is_typed_and_not_to_be_stored() {
    assert_eq!(
        response_headers("text/plain"),
        vec![header("Content-Type", "text/plain"), header("Cache-Control", "no-store")]
    );
}

#[test]
fn the_page_is_sent_as_it_was_read() {
    assert_eq!(
        answer_index(Ok(vec![60, 0, 255])),
        IndexAnswer::Page {
            status: 200,
            content_type: "text/html; charset=utf-8".to_string(),
            bytes: vec![60, 0, 255],
        }
    );
    assert_eq!(
        answer_index(Err("gone".to_string())),
        IndexAnswer::Failed(index_unreadable("gone"))
    );
}
