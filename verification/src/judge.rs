//! The first step: seven judgements on a conversation, in one request.
use vstd::prelude::*;

use crate::config::Config;
use crate::exchange::{
    choose_model, chosen_model, jev_body, jev_result, jev_tree, option_tree, post_jev, Call, Outcome,
    Reply,
};
use crate::json::{
    empty_object, field_after_with, object_after_with, only_objects_have_fields, Json, Tree,
};
use crate::questions::{judgement_questions, judgement_tree};

verus! {

/// What the browser sends to have a conversation judged.
#[derive(Debug, PartialEq)]
pub struct JudgeRequest {
    /// The turns in order, each with a speaker and a text.
    pub conversation: Json,
    pub background: Option<Json>,
    /// A model in place of the default one. There is nothing here for the base URL: with it the
    /// server would hand the caller's key to any host.
    pub model: Option<String>,
}

/// The state with the background under `background`, where there is one.
pub open spec fn with_background(state: Tree, background: Option<Tree>) -> Tree {
    match background {
        Some(Tree::Null) => state,
        Some(background) => state.with("background"@, background),
        None => state,
    }
}

/// The state with the background under `background`, where there is one.
pub fn add_background(state: Json, background: &Option<Json>) -> (res: Json)
    ensures
        res@ == with_background(state@, option_tree(*background)),
{
    match background {
        Some(Json::Null) => state,
        Some(background) => state.with("background", background.duplicate()),
        None => state,
    }
}

/// The request to the judge.
pub fn judge_call(config: &Config, key: &str, request: &JudgeRequest) -> (res: Call)
    ensures
        asks_for_judgement(res, *config, key@, *request),
{
    let state = Json::object().with("conversation", request.conversation.duplicate());
    post_jev(
        config.jev_base.as_str(),
        key,
        choose_model(&request.model, config.jev_model.as_str()),
        add_background(state, &request.background),
        judgement_questions(),
    )
}

/// The answer to the browser: the verdict with the time that it took, or the error.
pub fn judge_reply(outcome: Outcome, latency_ms: u64) -> (res: Reply)
    ensures
        res@ == judgement_answer(outcome, latency_ms),
{
    match jev_result(outcome) {
        Ok(verdict) => Reply {
            status: 200,
            payload: verdict.with("latency_ms", Json::Unsigned(latency_ms)),
        },
        Err(payload) => Reply { status: 502, payload },
    }
}

/// A background that says something is put to the state under `background`, as it is; none, or
/// a null, leaves the state as it was. Everything else in the state stays.
pub proof fn background_is_added(state: Tree, background: Tree, other: Seq<char>)
    requires
        state.is_object(),
    ensures
        background != Tree::Null ==> with_background(state, Some(background)).get("background"@)
            == Some(background),
        other != "background"@ ==> with_background(state, Some(background)).get(other) == state.get(
            other,
        ),
        with_background(state, Some(Tree::Null)) == state,
        with_background(state, None) == state,
{
    broadcast use {field_after_with, object_after_with, empty_object};

}

/// Whether a call asks the judge the seven questions on a conversation.
pub open spec fn asks_for_judgement(
    call: Call,
    config: Config,
    key: Seq<char>,
    request: JudgeRequest,
) -> bool {
    call.posts(
        config.jev_base@ + "/v1/systemone"@,
        key,
        40,
        jev_body(
            chosen_model(request.model, config.jev_model@),
            with_background(
                Tree::object().with("conversation"@, request.conversation@),
                option_tree(request.background),
            ),
            judgement_tree(),
        ),
    )
}

/// The judge is asked where the configuration says, with the caller's key, about the
/// conversation as it came, with the background where there is one, and all seven questions.
pub proof fn judgement_is_asked_on_the_conversation(
    call: Call,
    config: Config,
    key: Seq<char>,
    request: JudgeRequest,
    other: Seq<char>,
)
    requires
        asks_for_judgement(call, config, key, request),
    ensures
        ({
            let body = call.body->0@;
            let state = body.get("state"@)->0;
            &&& call.url@ == config.jev_base@ + "/v1/systemone"@
            &&& call.authorization@ == "Bearer "@ + key
            &&& call.timeout_seconds == 40
            &&& call.body is Some
            &&& body.text_at("model"@) == Some(chosen_model(request.model, config.jev_model@))
            &&& body.get("questions"@) == Some(judgement_tree())
            &&& body.get("state"@) is Some
            &&& state.get("conversation"@) == Some(request.conversation@)
            &&& request.background matches Some(background) ==> (background@ != Tree::Null ==> state.get(
                "background"@,
            ) == Some(background@))
            &&& request.background is None || request.background->0@ == Tree::Null ==> state.get(
                "background"@,
            ) is None
            &&& state.get(other) is Some ==> other == "conversation"@ || other == "background"@
        }),
{
    broadcast use {field_after_with, object_after_with, empty_object};

    reveal_strlit("model");
    reveal_strlit("state");
    reveal_strlit("questions");
    reveal_strlit("conversation");
    reveal_strlit("background");
    assert({
        &&& "model"@.len() == 5
        &&& "state"@.len() == 5
        &&& "questions"@.len() == 9
        &&& "conversation"@.len() == 12
        &&& "background"@.len() == 10
    });
    assert({
        &&& "model"@[0] == 'm'
        &&& "state"@[0] == 's'
    });
}

/// The answer to the browser: a verdict, or the error.
pub open spec fn judgement_answer(outcome: Outcome, latency_ms: u64) -> (u16, Tree) {
    match jev_tree(outcome) {
        Ok(verdict) => (200u16, verdict.with("latency_ms"@, Tree::Unsigned(latency_ms))),
        Err(payload) => (502u16, payload),
    }
}

/// A verdict reaches the browser whole, with the time that it took beside it; without a verdict
/// the browser gets the error.
pub proof fn verdict_reaches_the_browser(
    verdict: Json,
    outcome: Outcome,
    latency_ms: u64,
    other: Seq<char>,
)
    ensures
        ({
            let answer = judgement_answer(Outcome::Body(verdict), latency_ms);
            &&& answer.0 == 200
            &&& verdict@.is_object() ==> answer.1.get("latency_ms"@) == Some(
                Tree::Unsigned(latency_ms),
            )
            &&& verdict@.is_object() && other != "latency_ms"@ ==> answer.1.get(other)
                == verdict@.get(other)
            &&& !(verdict@ is Object) ==> answer.1 == verdict@
        }),
        !(outcome is Body) ==> judgement_answer(outcome, latency_ms).0 == 502 && Err::<Tree, Tree>(
            judgement_answer(outcome, latency_ms).1,
        ) == jev_tree(outcome),
{
    broadcast use {field_after_with, object_after_with, empty_object};

    only_objects_have_fields(verdict@, "latency_ms"@, Tree::Unsigned(latency_ms));
}

} // verus!
