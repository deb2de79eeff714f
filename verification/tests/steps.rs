use jev_copilot::completion::{content_of, unfence, usage_of};
use jev_copilot::config::{load_config, Config};
use jev_copilot::draft::{
    after_drafting, draft_and_rank, draft_call, draft_reply, rank_call, read_candidates,
    read_ranking, request_drafts, DraftAction, DraftEvent, DraftRequest, DraftState, Drafts,
    Ranking,
};
use jev_copilot::exchange::{chat_result, jev_result, Call, Outcome, Reply};
use jev_copilot::json::Json;
use jev_copilot::judge::{judge_call, judge_reply, JudgeRequest};
use jev_copilot::probe::{probe_call, probe_reply};
use jev_copilot::questions::{judgement_questions, DRAFT_SYSTEM_PROMPT};
use jev_copilot::recognition::{
    finish_recognition, read_screenshot, read_transcript, read_turns, recognise,
    recognition_reply, screenshot_reply, transcript_reply, ImportRequest, VisionRequest,
    MAX_IMAGE_BYTES, MAX_IMPORT_CHARS,
};
use jev_copilot::value::{parse, render};

fn tree_of(text: &str) -> Json {
    parse(text).unwrap()
}

fn defaults() -> Config {
    load_config(&vec![], &vec![])
}

fn body_of(call: &Call) -> String {
    render(call.body.as_ref().unwrap())
}

fn completion(content: &str) -> Json {
    Json::object()
        .with(
            "choices",
            Json::Array(vec![
                Json::object().with("message", Json::object().with("content", Json::text(content)))
            ]),
        )
        .with("usage", Json::Unsigned(7))
}

fn draft_request() -> DraftRequest {
    DraftRequest {
        conversation: tree_of(r#"[{"speaker":"other","text":"hi"}]"#),
        background: None,
        verdict: tree_of(r#"{"answers":{}}"#),
        model: None,
        judge_model: None,
        reasoning: None,
    }
}

#[test]
fn judging_asks_the_seven_questions_of_the_conversation() {
    let request = JudgeRequest {
        conversation: tree_of("[1]"),
        background: Some(Json::text("met once")),
        model: Some("m".to_string()),
    };
    let call = judge_call(&defaults(), "secret", &request);
    assert_eq!(call.url, "https://openrouter.ai/api/v1/systemone");
    assert_eq!(call.authorization, "Bearer secret");
    assert_eq!(call.timeout_seconds, 40);
    let body = call.body.unwrap();
    assert_eq!(body.str_at("model"), Some("m"));
    assert_eq!(body.get("questions"), Some(&judgement_questions()));
    assert_eq!(
        render(body.get("state").unwrap()),
        r#"{"background":"met once","conversation":[1]}"#
    );
}

#[test]
fn an_empty_model_is_none_and_a_null_background_too() {
    let request = JudgeRequest {
        conversation: Json::Null,
        background: Some(Json::Null),
        model: Some(String::new()),
    };
    let body = judge_call(&defaults(), "k", &request).body.unwrap();
    assert_eq!(body.str_at("model"), Some("jev-latest"));
    assert_eq!(render(body.get("state").unwrap()), r#"{"conversation":null}"#);
}

#[test]
fn a_verdict_is_answered_with_its_latency() {
    let reply = judge_reply(Outcome::Body(tree_of(r#"{"answers":{"a":1}}"#)), 12);
    assert_eq!(reply.status, 200);
    assert_eq!(render(&reply.payload), r#"{"answers":{"a":1},"latency_ms":12}"#);
    let list = judge_reply(Outcome::Body(tree_of("[1]")), 12);
    assert_eq!(list, Reply { status: 200, payload: tree_of("[1]") });
}

#[test]
fn errors_of_the_judge_are_handed_on() {
    let reply = judge_reply(Outcome::Status(422, "bad schema".to_string()), 1);
    assert_eq!(reply.status, 502);
    assert_eq!(render(&reply.payload), r#"{"detail":"bad schema","error":"Jev HTTP 422"}"#);
    assert_eq!(
        render(&jev_result(Outcome::Unreadable("x".to_string())).unwrap_err()),
        r#"{"detail":"x","error":"invalid Jev body"}"#
    );
    assert_eq!(
        render(&jev_result(Outcome::Failed("y".to_string())).unwrap_err()),
        r#"{"detail":"y","error":"Jev request failed"}"#
    );
}

#[test]
fn errors_of_a_chat_model_name_the_step() {
    assert_eq!(
        render(&chat_result("vision", Outcome::Status(500, String::new())).unwrap_err()),
        r#"{"detail":"","error":"vision HTTP 500"}"#
    );
    assert_eq!(
        render(&chat_result("import", Outcome::Unreadable("x".to_string())).unwrap_err()),
        r#"{"detail":"x","error":"import body invalid"}"#
    );
    assert_eq!(
        render(&chat_result("draft", Outcome::Failed("x".to_string())).unwrap_err()),
        r#"{"detail":"x","error":"draft request failed"}"#
    );
}

#[test]
fn drafting_is_asked_of_the_chat_model() {
    let call = draft_call(&defaults(), "k", &draft_request());
    assert_eq!(call.url, "https://openrouter.ai/api/v1/chat/completions");
    assert_eq!(call.timeout_seconds, 60);
    let body = call.body.unwrap();
    assert_eq!(body.str_at("model"), Some("deepseek/deepseek-chat-v3.1"));
    assert_eq!(body.get("max_tokens"), Some(&Json::Unsigned(900)));
    assert_eq!(render(body.get("response_format").unwrap()), r#"{"type":"json_object"}"#);
    assert_eq!(render(body.get("reasoning").unwrap()), r#"{"enabled":false}"#);
    let messages = body.get("messages").unwrap().as_array().unwrap();
    assert_eq!(messages.len(), 2);
    assert_eq!(messages[0].str_at("role"), Some("system"));
    assert_eq!(messages[0].str_at("content"), Some(DRAFT_SYSTEM_PROMPT));
    assert_eq!(messages[1].str_at("role"), Some("user"));
    assert_eq!(
        messages[1].str_at("content"),
        Some(r#"{"analysis":{"answers":{}},"background":null,"conversation":[{"speaker":"other","text":"hi"}]}"#)
    );
}

#[test]
fn reasoning_is_on_only_where_it_is_asked_for() {
    let mut request = draft_request();
    request.reasoning = Some(true);
    request.background = Some(Json::text("b"));
    let call = draft_call(&defaults(), "k", &request);
    assert!(body_of(&call).contains(r#""reasoning":{"enabled":true}"#));
    assert!(body_of(&call).contains(r#"\"background\":\"b\""#));
}

#[test]
fn fences_are_dropped() {
    assert_eq!(unfence("```json\n{\"a\":1}\n```\n"), "{\"a\":1}");
    assert_eq!(unfence("```\n[1]\n```"), "[1]");
    assert_eq!(unfence("  {} "), "{}");
    assert_eq!(unfence("```json```json{}"), "{}");
}

#[test]
fn the_content_of_a_completion() {
    assert_eq!(content_of(&completion("x")), Some("x"));
    assert_eq!(
        content_of(&tree_of(r#"{"choices":{"0":{"message":{"content":"x"}}}}"#)),
        Some("x")
    );
    for text in [
        "{}",
        r#"{"choices":[]}"#,
        r#"{"choices":[{}]}"#,
        r#"{"choices":[{"message":{"content":null}}]}"#,
        r#"[{"message":{"content":"x"}}]"#,
    ] {
        assert_eq!(content_of(&tree_of(text)), None, "{text}");
    }
    assert_eq!(usage_of(&completion("x")), Json::Unsigned(7));
    assert_eq!(usage_of(&Json::Null), Json::Null);
}

#[test]
fn drafts_are_read_from_a_completion() {
    let content = "```json\n{\"drafts\":[\" a \",\"b\",\"c\",\"d\",\"e\",\"f\"]}\n```";
    let drafts = request_drafts(Outcome::Body(completion(content))).unwrap();
    assert_eq!(drafts.texts, vec!["a", "b", "c", "d", "e"]);
    assert_eq!(drafts.usage, Json::Unsigned(7));
}

#[test]
fn drafting_fails_in_so_many_words() {
    let none = request_drafts(Outcome::Body(tree_of("{}"))).unwrap_err();
    assert_eq!(render(&none), r#"{"detail":"{}","error":"draft response had no content"}"#);

    let garbled = request_drafts(Outcome::Body(completion("sorry"))).unwrap_err();
    assert_eq!(garbled.str_at("error"), Some("draft content was not JSON"));
    assert_eq!(garbled.str_at("detail"), Some("expected value at line 1 column 1"));
    assert_eq!(garbled.str_at("raw"), Some("sorry"));

    let empty = request_drafts(Outcome::Body(completion("{\"drafts\":[]}"))).unwrap_err();
    assert_eq!(
        render(&empty),
        r#"{"error":"draft JSON had no candidate list","raw":"{\"drafts\":[]}"}"#
    );

    let refused = request_drafts(Outcome::Status(402, "pay".to_string())).unwrap_err();
    assert_eq!(render(&refused), r#"{"detail":"pay","error":"draft HTTP 402"}"#);
}

#[test]
fn candidates_depend_on_what_was_parsed() {
    assert_eq!(
        read_candidates("x", &Ok(tree_of(r#"["a","b"]"#))),
        Ok(vec!["a".to_string(), "b".to_string()])
    );
    assert!(read_candidates("x", &Ok(Json::Null)).is_err());
    assert_eq!(
        render(&read_candidates("x", &Err("why".to_string())).unwrap_err()),
        r#"{"detail":"why","error":"draft content was not JSON","raw":"x"}"#
    );
}

#[test]
fn a_failed_drafting_answers_the_browser() {
    let reply = after_drafting(Outcome::Failed("down".to_string())).unwrap_err();
    assert_eq!(reply.status, 502);
    assert_eq!(reply.payload.str_at("error"), Some("draft request failed"));
    assert!(after_drafting(Outcome::Body(completion(r#"["a","b"]"#))).is_ok());
}

#[test]
fn ranking_shows_the_judge_the_candidates() {
    let mut request = draft_request();
    request.judge_model = Some("judge".to_string());
    request.background = Some(Json::text("b"));
    let drafts = Drafts { texts: vec!["x".to_string(), "y".to_string()], usage: Json::Null };
    let call = rank_call(&defaults(), "k", &request, &drafts);
    assert_eq!(call.url, "https://openrouter.ai/api/v1/systemone");
    let body = call.body.unwrap();
    assert_eq!(body.str_at("model"), Some("judge"));
    let state = body.get("state").unwrap();
    assert_eq!(
        render(state.get("candidates").unwrap()),
        r#"[{"id":"draft_1","text":"x"},{"id":"draft_2","text":"y"}]"#
    );
    assert_eq!(render(state.get("judgement").unwrap()), r#"{"answers":{}}"#);
    assert_eq!(state.str_at("background"), Some("b"));
    let criteria = body.get("questions").unwrap().get("best_draft").unwrap().get("criteria");
    assert!(criteria.unwrap().get("draft_2").is_some());
    assert!(criteria.unwrap().get("draft_3").is_none());
}

#[test]
fn a_ranking_is_read_or_its_error_reported() {
    let good = read_ranking(Outcome::Body(tree_of(
        r#"{"answers":{"best_draft":{"choice":"draft_2"}},"usage":{"cost":0.25}}"#,
    )));
    assert_eq!(render(&good.ranking), r#"{"choice":"draft_2"}"#);
    assert_eq!(good.error, Json::Null);
    assert_eq!(render(good.cost.as_ref().unwrap()), "0.25");

    let bare = read_ranking(Outcome::Body(tree_of("{}")));
    assert_eq!(bare, Ranking { ranking: Json::Null, error: Json::Null, cost: None });

    let bad = read_ranking(Outcome::Status(500, "x".to_string()));
    assert_eq!(bad.ranking, Json::Null);
    assert_eq!(bad.error.str_at("error"), Some("Jev HTTP 500"));
    assert_eq!(bad.cost, None);
}

#[test]
fn the_drafts_are_answered_with_their_ranking() {
    let drafts = Drafts { texts: vec!["x".to_string(), "y".to_string()], usage: Json::Unsigned(3) };
    let ranking = Ranking { ranking: Json::text("draft_1"), error: Json::Null, cost: None };
    let reply = draft_reply(
        &defaults(),
        &draft_request(),
        &drafts,
        &ranking,
        10,
        20,
        tree_of("0.0"),
    );
    assert_eq!(reply.status, 200);
    assert_eq!(
        render(&reply.payload),
        r#"{"draft_model":"deepseek/deepseek-chat-v3.1","draft_ms":10,"draft_usage":3,"drafts":["x","y"],"rank_cost":0.0,"rank_error":null,"rank_ms":20,"ranking":"draft_1"}"#
    );
    let mut request = draft_request();
    request.model = Some(String::new());
    let reply = draft_reply(&defaults(), &request, &drafts, &ranking, 0, 0, Json::Null);
    assert_eq!(reply.payload.str_at("draft_model"), Some(""));
}

fn drafted() -> Outcome {
    Outcome::Body(completion(r#"{"drafts":["x"," y "]}"#))
}

fn candidates() -> Drafts {
    Drafts { texts: vec!["x".to_string(), "y".to_string()], usage: Json::Unsigned(7) }
}

#[test]
fn drafts_are_asked_for_then_ranked_then_weighed_then_answered() {
    let (config, request) = (defaults(), draft_request());
    let step = |state, event| draft_and_rank(&config, "k", &request, state, event);

    let (state, action) = step(DraftState::Arrived, DraftEvent::Begin);
    assert_eq!(state, DraftState::Drafting);
    assert_eq!(action, DraftAction::Send(draft_call(&config, "k", &request)));

    let (state, action) = step(state, DraftEvent::Answered { outcome: drafted(), elapsed_ms: 10 });
    assert_eq!(state, DraftState::Ranking { drafts: candidates(), draft_ms: 10 });
    assert_eq!(action, DraftAction::Send(rank_call(&config, "k", &request, &candidates())));

    let outcome = Outcome::Body(tree_of(
        r#"{"answers":{"best_draft":"draft_2"},"usage":{"cost":0.5}}"#,
    ));
    let (state, action) = step(state, DraftEvent::Answered { outcome, elapsed_ms: 20 });
    assert_eq!(action, DraftAction::Weigh(Some(tree_of("0.5"))));

    let (state, action) =
        step(state, DraftEvent::Weighed { cost: tree_of("0.5"), elapsed_ms: 21 });
    assert_eq!(state, DraftState::Finished);
    let DraftAction::Answer(reply) = action else { panic!("no answer") };
    assert_eq!(reply.status, 200);
    assert_eq!(
        render(&reply.payload),
        r#"{"draft_model":"deepseek/deepseek-chat-v3.1","draft_ms":10,"draft_usage":7,"drafts":["x","y"],"rank_cost":0.5,"rank_error":null,"rank_ms":21,"ranking":"draft_2"}"#
    );

    let (state, action) = step(state, DraftEvent::Begin);
    assert_eq!((state, action), (DraftState::Finished, DraftAction::Nothing));
}

#[test]
fn drafts_are_answered_though_the_ranking_failed() {
    let (config, request) = (defaults(), draft_request());
    let step = |state, event| draft_and_rank(&config, "k", &request, state, event);
    let ranking = DraftState::Ranking { drafts: candidates(), draft_ms: 1 };
    let outcome = Outcome::Failed("timed out".to_string());
    let (state, action) = step(ranking, DraftEvent::Answered { outcome, elapsed_ms: 2 });
    assert_eq!(action, DraftAction::Weigh(None));
    let (_, action) = step(state, DraftEvent::Weighed { cost: tree_of("0.0"), elapsed_ms: 3 });
    let DraftAction::Answer(reply) = action else { panic!("no answer") };
    assert_eq!(reply.status, 200);
    assert_eq!(render(reply.payload.get("drafts").unwrap()), r#"["x","y"]"#);
    assert_eq!(
        render(reply.payload.get("rank_error").unwrap()),
        r#"{"detail":"timed out","error":"Jev request failed"}"#
    );
}

#[test]
fn the_judge_is_not_asked_where_there_are_no_drafts() {
    let outcome = Outcome::Status(500, "x".to_string());
    let (state, action) = draft_and_rank(
        &defaults(),
        "k",
        &draft_request(),
        DraftState::Drafting,
        DraftEvent::Answered { outcome, elapsed_ms: 1 },
    );
    assert_eq!(state, DraftState::Finished);
    let DraftAction::Answer(reply) = action else { panic!("no answer") };
    assert_eq!(reply.status, 502);
    assert_eq!(reply.payload.str_at("error"), Some("draft HTTP 500"));
}

#[test]
fn blank_turns_are_dropped_and_the_lines_of_the_others_kept() {
    let list = tree_of(
        r#"[{"speaker":"me","text":" a "},{"text":"  "},{"speaker":"ME","name":" B ","text":"b"},{"text":1},{"speaker":"other","text":"c"}]"#,
    );
    let (turns, lines) = read_turns(list.as_array().unwrap());
    assert_eq!(lines, vec![1, 3, 5]);
    assert_eq!(render(&turns[0]), r#"{"name":"","speaker":"me","text":"a"}"#);
    assert_eq!(render(&turns[1]), r#"{"name":"B","speaker":"other","text":"b"}"#);
    assert_eq!(render(&turns[2]), r#"{"name":"","speaker":"other","text":"c"}"#);
}

#[test]
fn a_recognised_conversation_is_answered() {
    let content = r#"{"conversation":[{"speaker":"me","text":"a"},{"text":""},{"text":"c"}],"uncertain":[3,"1",2],"note":"group"}"#;
    let reply = finish_recognition(&completion(content), "vision", "fallback", 5);
    assert_eq!(reply.status, 200);
    assert_eq!(
        render(&reply.payload),
        r#"{"conversation":[{"name":"","speaker":"me","text":"a"},{"name":"","speaker":"other","text":"c"}],"latency_ms":5,"model":"fallback","note":"group","uncertain":[1,2],"usage":7}"#
    );
    let named = completion(content).with("model", Json::text("real"));
    let reply = finish_recognition(&named, "vision", "fallback", 5);
    assert_eq!(reply.payload.str_at("model"), Some("real"));
}

#[test]
fn recognition_fails_in_so_many_words() {
    let none = finish_recognition(&tree_of("[]"), "import", "m", 1);
    assert_eq!(none.status, 502);
    assert_eq!(
        render(&none.payload),
        r#"{"detail":"[]","error":"import response had no content"}"#
    );

    let garbled = finish_recognition(&completion("sorry"), "vision", "m", 1);
    assert_eq!(garbled.status, 502);
    assert_eq!(garbled.payload.str_at("error"), Some("vision content was not JSON"));
    assert_eq!(garbled.payload.str_at("raw"), Some("sorry"));

    let empty = finish_recognition(&completion(r#"{"conversation":[{"text":" "}]}"#), "vision", "m", 1);
    assert_eq!(empty.status, 502);
    assert_eq!(empty.payload.str_at("error"), Some("没有识别出任何消息"));
    assert_eq!(empty.payload.str_at("detail"), Some("vision"));

    let refused = recognition_reply(Outcome::Status(429, "slow".to_string()), "vision", "m", 1);
    assert_eq!(refused.status, 502);
    assert_eq!(refused.payload.str_at("error"), Some("vision HTTP 429"));
    let fine = recognition_reply(Outcome::Body(completion(r#"[{"text":"a"}]"#)), "import", "m", 1);
    assert_eq!(fine.status, 200);
    assert_eq!(fine.payload.str_at("note"), Some(""));
}

#[test]
fn recognition_depends_on_what_was_parsed() {
    let reply = recognise(&Json::Null, "raw", &Ok(tree_of(r#"[{"text":"a"}]"#)), "vision", "m", 2);
    assert_eq!(reply.status, 200);
    let reply = recognise(&Json::Null, "raw", &Err("why".to_string()), "vision", "m", 2);
    assert_eq!(
        render(&reply.payload),
        r#"{"detail":"why","error":"vision content was not JSON","raw":"raw"}"#
    );
}

#[test]
fn a_screenshot_goes_to_the_vision_model() {
    let request = VisionRequest { image: " data:image/png;base64,AAAA\n".to_string(), model: None };
    let call = read_screenshot(&defaults(), "k", &request).unwrap();
    assert_eq!(call.url, "https://openrouter.ai/api/v1/chat/completions");
    assert_eq!(call.timeout_seconds, 90);
    let body = call.body.unwrap();
    assert_eq!(body.str_at("model"), Some("qwen/qwen3.7-flash"));
    assert_eq!(body.get("max_tokens"), Some(&Json::Unsigned(2400)));
    let user = &body.get("messages").unwrap().as_array().unwrap()[1];
    assert_eq!(
        render(user.get("content").unwrap()),
        r#"[{"text":"请读出这张截图里的对话。","type":"text"},{"image_url":{"url":"data:image/png;base64,AAAA"},"type":"image_url"}]"#
    );
}

#[test]
fn a_screenshot_must_be_an_image_of_bearable_size() {
    let text = VisionRequest { image: "data:text/plain,x".to_string(), model: None };
    let reply = read_screenshot(&defaults(), "k", &text).unwrap_err();
    assert_eq!(reply.status, 400);
    assert_eq!(
        reply.payload.str_at("error"),
        Some("expected a data:image/... URL from the browser")
    );

    let limit = MAX_IMAGE_BYTES / 3 * 4;
    let mut image = "data:image/png;base64,".to_string();
    while image.len() < limit + 3 {
        image.push('A');
    }
    let fits = VisionRequest { image: image.clone(), model: None };
    assert!(read_screenshot(&defaults(), "k", &fits).is_ok());
    image.push('A');
    let large = VisionRequest { image, model: None };
    let reply = read_screenshot(&defaults(), "k", &large).unwrap_err();
    assert_eq!(reply.status, 413);
    assert_eq!(render(&reply.payload), r#"{"detail":"控制在 8 MB 以内","error":"截图太大"}"#);
}

#[test]
fn a_transcript_goes_to_the_text_model() {
    let request = ImportRequest { text: "\n甲 10:05\n你好\n".to_string(), model: Some("m".to_string()) };
    let call = read_transcript(&defaults(), "k", &request).unwrap();
    assert_eq!(call.timeout_seconds, 60);
    let body = call.body.unwrap();
    assert_eq!(body.str_at("model"), Some("m"));
    assert_eq!(body.get("max_tokens"), Some(&Json::Unsigned(4000)));
    let user = &body.get("messages").unwrap().as_array().unwrap()[1];
    assert_eq!(user.str_at("content"), Some("甲 10:05\n你好"));
}

#[test]
fn each_reading_is_answered_under_its_own_label_and_model() {
    let config = defaults();
    let fine = || Outcome::Body(completion(r#"[{"text":"a"}]"#));
    let lost = || Outcome::Failed("x".to_string());

    let image = |model: Option<&str>| VisionRequest {
        image: String::new(),
        model: model.map(str::to_string),
    };
    let reply = screenshot_reply(&config, &image(None), fine(), 4);
    assert_eq!(reply.status, 200);
    assert_eq!(reply.payload.str_at("model"), Some("qwen/qwen3.7-flash"));
    assert_eq!(reply.payload.get("latency_ms"), Some(&Json::Unsigned(4)));
    let reply = screenshot_reply(&config, &image(Some("m")), fine(), 4);
    assert_eq!(reply.payload.str_at("model"), Some("m"));
    let reply = screenshot_reply(&config, &image(None), lost(), 4);
    assert_eq!(reply.status, 502);
    assert_eq!(reply.payload.str_at("error"), Some("vision request failed"));

    let text = |model: Option<&str>| ImportRequest {
        text: String::new(),
        model: model.map(str::to_string),
    };
    let reply = transcript_reply(&config, &text(Some("")), fine(), 4);
    assert_eq!(reply.status, 200);
    assert_eq!(reply.payload.str_at("model"), Some("deepseek/deepseek-chat-v3.1"));
    let reply = transcript_reply(&config, &text(None), Outcome::Unreadable("x".to_string()), 4);
    assert_eq!(reply.status, 502);
    assert_eq!(reply.payload.str_at("error"), Some("import body invalid"));
}

#[test]
fn a_transcript_must_be_neither_blank_nor_endless() {
    let blank = ImportRequest { text: " \n ".to_string(), model: None };
    let reply = read_transcript(&defaults(), "k", &blank).unwrap_err();
    assert_eq!(reply.status, 400);
    assert_eq!(render(&reply.payload), r#"{"detail":"先粘贴一段聊天记录","error":"没有内容"}"#);

    let fits = ImportRequest { text: "字".repeat(MAX_IMPORT_CHARS), model: None };
    assert!(read_transcript(&defaults(), "k", &fits).is_ok());
    let endless = ImportRequest { text: "字".repeat(MAX_IMPORT_CHARS + 1), model: None };
    let reply = read_transcript(&defaults(), "k", &endless).unwrap_err();
    assert_eq!(reply.status, 413);
    assert_eq!(
        reply.payload.str_at("detail"),
        Some("控制在 20000 字以内，只贴相关的那一段就够了")
    );
}

#[test]
fn a_key_is_probed_without_spending() {
    let call = probe_call(&defaults(), "k");
    assert_eq!(
        call,
        Call {
            url: "https://openrouter.ai/api/v1/key".to_string(),
            authorization: "Bearer k".to_string(),
            timeout_seconds: 20,
            body: None,
        }
    );
}

#[test]
fn a_probe_reports_what_it_learned() {
    let wrapped = probe_reply(Outcome::Body(tree_of(
        r#"{"data":{"label":"mine","usage":1.5,"limit":null,"limit_remaining":8,"is_free_tier":false}}"#,
    )));
    assert_eq!(wrapped.status, 200);
    assert_eq!(
        render(&wrapped.payload),
        r#"{"is_free_tier":false,"label":"mine","limit":null,"limit_remaining":8,"ok":true,"usage":1.5}"#
    );
    let flat = probe_reply(Outcome::Body(tree_of(r#"{"label":3,"usage":2}"#)));
    assert_eq!(
        render(&flat.payload),
        r#"{"is_free_tier":null,"label":"","limit":null,"limit_remaining":null,"ok":true,"usage":2}"#
    );
}

#[test]
fn a_probe_reports_what_went_wrong() {
    for code in [401, 403] {
        let reply = probe_reply(Outcome::Status(code, "x".to_string()));
        assert_eq!(reply.status, 200);
        assert_eq!(render(&reply.payload), r#"{"error":"Key 无效或已被撤销","ok":false}"#);
    }
    let other = probe_reply(Outcome::Status(500, "x".to_string()));
    assert_eq!(other.status, 200);
    assert_eq!(render(&other.payload), r#"{"detail":"x","error":"上游返回 HTTP 500","ok":false}"#);
    let failed = probe_reply(Outcome::Failed("x".to_string()));
    assert_eq!(render(&failed.payload), r#"{"detail":"x","error":"连接失败","ok":false}"#);
    let unreadable = probe_reply(Outcome::Unreadable("x".to_string()));
    assert_eq!(unreadable.status, 502);
    assert_eq!(render(&unreadable.payload), r#"{"detail":"x","error":"probe body invalid"}"#);
}
