//! What is sent upstream, what comes back, and what the browser is answered.
use vstd::prelude::*;

use crate::json::{
    empty_object, field_after_with, get_after_with, object_after_with, trees, Json, Tree,
};
use crate::text::{begins_with, decimal, digits_of, join};

verus! {

/// A request to an upstream service: a POST where there is a body, else a GET.
#[derive(Debug, PartialEq)]
pub struct Call {
    pub url: String,
    /// The value of the `Authorization` header.
    pub authorization: String,
    pub timeout_seconds: u64,
    pub body: Option<Json>,
}

impl Call {
    /// Whether the call posts `body` to `url`, paid for by `key`.
    pub open spec fn posts(self, url: Seq<char>, key: Seq<char>, seconds: u64, body: Tree) -> bool {
        &&& self.url@ == url
        &&& self.authorization@ == "Bearer "@ + key
        &&& self.timeout_seconds == seconds
        &&& self.body matches Some(json) && json@ == body
    }

    /// Whether the call gets `url`, with `key`.
    pub open spec fn gets(self, url: Seq<char>, key: Seq<char>, seconds: u64) -> bool {
        &&& self.url@ == url
        &&& self.authorization@ == "Bearer "@ + key
        &&& self.timeout_seconds == seconds
        &&& self.body is None
    }
}

/// What became of a call.
#[derive(Debug, PartialEq)]
pub enum Outcome {
    /// It succeeded, with this JSON body.
    Body(Json),
    /// It succeeded, but the body could not be read as JSON, for this reason.
    Unreadable(String),
    /// It was answered with this error status and this text.
    Status(u16, String),
    /// It was not answered, for this reason.
    Failed(String),
}

/// An answer to the browser: a status and a JSON payload.
#[derive(Debug, PartialEq)]
pub struct Reply {
    pub status: u16,
    pub payload: Json,
}

impl View for Reply {
    type V = (u16, Tree);

    open spec fn view(&self) -> (u16, Tree) {
        (self.status, self.payload@)
    }
}

/// What a result with JSON on both sides says.
pub open spec fn result_tree(result: Result<Json, Json>) -> Result<Tree, Tree> {
    match result {
        Ok(json) => Ok(json@),
        Err(json) => Err(json@),
    }
}

/// What an optional JSON value says.
pub open spec fn option_tree(json: Option<Json>) -> Option<Tree> {
    match json {
        Some(json) => Some(json@),
        None => None,
    }
}

/// The payload of an error, with a detail.
pub open spec fn failure_tree(error: Seq<char>, detail: Seq<char>) -> Tree {
    Tree::object().with("error"@, Tree::Text(error)).with("detail"@, Tree::Text(detail))
}

/// The payload of an error, with a detail.
pub fn failure(error: &str, detail: &str) -> (res: Json)
    ensures
        res@ == failure_tree(error@, detail@),
{
    Json::object().with("error", Json::text(error)).with("detail", Json::text(detail))
}

/// The payload of an error without a detail.
pub open spec fn error_tree(error: Seq<char>) -> Tree {
    Tree::object().with("error"@, Tree::Text(error))
}

/// The payload of an error without a detail.
pub fn plain_failure(error: &str) -> (res: Json)
    ensures
        res@ == error_tree(error@),
{
    Json::object().with("error", Json::text(error))
}

/// A call that posts `body` to `url`, paid for by `key`.
pub fn post(url: String, key: &str, timeout_seconds: u64, body: Json) -> (res: Call)
    ensures
        res.posts(url@, key@, timeout_seconds, body@),
{
    Call { url, authorization: join("Bearer ", key), timeout_seconds, body: Some(body) }
}

/// A call that gets `url`, with `key`.
pub fn get(url: String, key: &str, timeout_seconds: u64) -> (res: Call)
    ensures
        res.gets(url@, key@, timeout_seconds),
{
    Call { url, authorization: join("Bearer ", key), timeout_seconds, body: None }
}

/// What came back from a call, with the errors worded by `unreadable`, `service` and `failed`.
pub open spec fn outcome_tree(
    outcome: Outcome,
    unreadable: Seq<char>,
    service: Seq<char>,
    failed: Seq<char>,
) -> Result<Tree, Tree> {
    match outcome {
        Outcome::Body(value) => Ok(value@),
        Outcome::Unreadable(detail) => Err(failure_tree(unreadable, detail@)),
        Outcome::Status(code, detail) => Err(
            failure_tree(service + " HTTP "@ + digits_of(code as nat), detail@),
        ),
        Outcome::Failed(detail) => Err(failure_tree(failed, detail@)),
    }
}

fn settle(outcome: Outcome, unreadable: &str, service: &str, failed: &str) -> (res: Result<
    Json,
    Json,
>)
    ensures
        result_tree(res) == outcome_tree(outcome, unreadable@, service@, failed@),
{
    match outcome {
        Outcome::Body(value) => Ok(value),
        Outcome::Unreadable(detail) => Err(failure(unreadable, detail.as_str())),
        Outcome::Status(code, detail) => Err(
            failure(
                join(join(service, " HTTP ").as_str(), decimal(code as u64).as_str()).as_str(),
                detail.as_str(),
            ),
        ),
        Outcome::Failed(detail) => Err(failure(failed, detail.as_str())),
    }
}

/// What the judge answered: its JSON, or the payload of an error. The text of a refusal is
/// handed on as it is, for it explains mistakes in a question set.
pub open spec fn jev_tree(outcome: Outcome) -> Result<Tree, Tree> {
    outcome_tree(outcome, "invalid Jev body"@, "Jev"@, "Jev request failed"@)
}

/// What the judge answered.
pub fn jev_result(outcome: Outcome) -> (res: Result<Json, Json>)
    ensures
        result_tree(res) == jev_tree(outcome),
{
    settle(outcome, "invalid Jev body", "Jev", "Jev request failed")
}

/// What a chat model answered: its JSON, or the payload of an error that says which step broke.
pub open spec fn chat_tree(label: Seq<char>, outcome: Outcome) -> Result<Tree, Tree> {
    outcome_tree(outcome, label + " body invalid"@, label, label + " request failed"@)
}

/// What a chat model answered. The label only words the errors.
pub fn chat_result(label: &str, outcome: Outcome) -> (res: Result<Json, Json>)
    ensures
        result_tree(res) == chat_tree(label@, outcome),
{
    settle(
        outcome,
        join(label, " body invalid").as_str(),
        label,
        join(label, " request failed").as_str(),
    )
}

/// The label only words the errors: what succeeds under one label succeeds under every other,
/// with the same answer.
pub proof fn label_only_words_errors(label: Seq<char>, other: Seq<char>, outcome: Outcome)
    ensures
        chat_tree(label, outcome) is Ok <==> chat_tree(other, outcome) is Ok,
        chat_tree(label, outcome) is Ok ==> chat_tree(label, outcome) == chat_tree(other, outcome),
{
}

/// An error says which step broke: its text begins with the label.
pub proof fn error_names_its_step(label: Seq<char>, outcome: Outcome)
    requires
        chat_tree(label, outcome) is Err,
    ensures
        chat_tree(label, outcome)->Err_0.text_at("error"@) matches Some(text) && begins_with(
            text,
            label + " "@,
        ),
{
    reveal_strlit("error");
    reveal_strlit("detail");
    reveal_strlit(" ");
    reveal_strlit(" body invalid");
    reveal_strlit(" HTTP ");
    reveal_strlit(" request failed");
    assert("error"@.len() == 5 && "detail"@.len() == 6);
    let (text, detail) = match outcome {
        Outcome::Body(_) => (label, label),
        Outcome::Unreadable(detail) => (label + " body invalid"@, detail@),
        Outcome::Status(code, detail) => (label + " HTTP "@ + digits_of(code as nat), detail@),
        Outcome::Failed(detail) => (label + " request failed"@, detail@),
    };
    assert(chat_tree(label, outcome)->Err_0 == failure_tree(text, detail));
    let first = Tree::object().with("error"@, Tree::Text(text));
    get_after_with(Tree::object(), "error"@, Tree::Text(text), "error"@);
    get_after_with(first, "detail"@, Tree::Text(detail), "error"@);
    assert(text.take((label + " "@).len() as int) == label + " "@);
}

/// The body of a request to the judge.
pub open spec fn jev_body(model: Seq<char>, state: Tree, question_set: Tree) -> Tree {
    Tree::object().with("model"@, Tree::Text(model)).with("state"@, state).with(
        "questions"@,
        question_set,
    )
}

/// A request to the judge at `base`.
pub fn post_jev(base: &str, key: &str, model: &str, state: Json, question_set: Json) -> (res: Call)
    ensures
        res.posts(
            base@ + "/v1/systemone"@,
            key@,
            40,
            jev_body(model@, state@, question_set@),
        ),
{
    post(
        join(base, "/v1/systemone"),
        key,
        40,
        Json::object().with("model", Json::text(model)).with("state", state).with(
            "questions",
            question_set,
        ),
    )
}

/// A message of a chat.
pub open spec fn message_tree(role: Seq<char>, content: Tree) -> Tree {
    Tree::object().with("role"@, Tree::Text(role)).with("content"@, content)
}

fn message(role: &str, content: Json) -> (res: Json)
    ensures
        res@ == message_tree(role@, content@),
{
    Json::object().with("role", Json::text(role)).with("content", content)
}

/// The body of a request to a chat model that is to answer with a JSON object.
pub open spec fn chat_body(
    model: Seq<char>,
    max_tokens: u64,
    reasoning: bool,
    system: Seq<char>,
    user: Tree,
) -> Tree {
    Tree::object().with("model"@, Tree::Text(model)).with(
        "max_tokens"@,
        Tree::Unsigned(max_tokens),
    ).with("response_format"@, Tree::object().with("type"@, Tree::Text("json_object"@))).with(
        "reasoning"@,
        Tree::object().with("enabled"@, Tree::Bool(reasoning)),
    ).with(
        "messages"@,
        Tree::Array(
            seq![message_tree("system"@, Tree::Text(system)), message_tree("user"@, user)],
        ),
    )
}

/// A request for one chat completion at `base`.
pub fn chat_completion(
    base: &str,
    key: &str,
    timeout_seconds: u64,
    model: &str,
    max_tokens: u64,
    reasoning: bool,
    system: &str,
    user: Json,
) -> (res: Call)
    ensures
        res.posts(
            base@ + "/chat/completions"@,
            key@,
            timeout_seconds,
            chat_body(model@, max_tokens, reasoning, system@, user@),
        ),
{
    let mut list: Vec<Json> = Vec::new();
    list.push(message("system", Json::text(system)));
    list.push(message("user", user));
    assert(trees(list@) == seq![
        message_tree("system"@, Tree::Text(system@)),
        message_tree("user"@, user@),
    ]);
    let messages = Json::Array(list);
    assert(messages@->Array_0 == trees(list@));
    post(
        join(base, "/chat/completions"),
        key,
        timeout_seconds,
        Json::object().with("model", Json::text(model)).with(
            "max_tokens",
            Json::Unsigned(max_tokens),
        ).with(
            "response_format",
            Json::object().with("type", Json::text("json_object")),
        ).with("reasoning", Json::object().with("enabled", Json::Bool(reasoning))).with(
            "messages",
            messages,
        ),
    )
}

/// The model that a request names, or the default where it names none.
pub open spec fn chosen_model(named: Option<String>, default_model: Seq<char>) -> Seq<char> {
    match named {
        Some(model) => if model@.len() > 0 {
            model@
        } else {
            default_model
        },
        None => default_model,
    }
}

/// The model that a request names, or the default where it names none.
pub fn choose_model<'a>(named: &'a Option<String>, default_model: &'a str) -> (res: &'a str)
    ensures
        res@ == chosen_model(*named, default_model@),
{
    if let Some(model) = named {
        if !model.as_str().is_empty() {
            return model.as_str();
        }
    }
    default_model
}

/// A call that posts, or gets, goes to the URL, carries the key as a bearer token, waits as long
/// as it is to, and takes the body along, or none.
pub proof fn call_is_as_it_says(
    call: Call,
    url: Seq<char>,
    key: Seq<char>,
    seconds: u64,
    body: Tree,
)
    ensures
        call.posts(url, key, seconds, body) ==> call.url@ == url && call.authorization@ == "Bearer "@
            + key && call.timeout_seconds == seconds && option_tree(call.body) == Some(body),
        call.gets(url, key, seconds) ==> call.url@ == url && call.authorization@ == "Bearer "@ + key
            && call.timeout_seconds == seconds && option_tree(call.body) is None,
{
}

/// What an optional value, or a result, says is what it holds.
pub proof fn wrapped_values_say_what_they_hold(json: Json)
    ensures
        option_tree(Some(json)) == Some(json@),
        option_tree(None) is None,
        result_tree(Ok(json)) == Ok::<Tree, Tree>(json@),
        result_tree(Err(json)) == Err::<Tree, Tree>(json@),
{
}

/// An error is reported in its own words, with its detail as it came, and nothing beside them.
pub proof fn failure_says_what_failed(error: Seq<char>, detail: Seq<char>, other: Seq<char>)
    ensures
        failure_tree(error, detail).is_object(),
        failure_tree(error, detail).text_at("error"@) == Some(error),
        failure_tree(error, detail).text_at("detail"@) == Some(detail),
        failure_tree(error, detail).get(other) is Some ==> other == "error"@ || other == "detail"@,
        error_tree(error).is_object(),
        error_tree(error).text_at("error"@) == Some(error),
        error_tree(error).get(other) is Some ==> other == "error"@,
{
    broadcast use {field_after_with, object_after_with, empty_object};

    reveal_strlit("error");
    reveal_strlit("detail");
    assert({
        &&& "error"@.len() == 5
        &&& "detail"@.len() == 6
    });
}

/// What the judge answers is handed on as it is. Where it does not answer, the error says how,
/// with the status that came and the text of the refusal word for word.
pub proof fn judge_is_handed_on(json: Json, code: u16, text: String)
    ensures
        jev_tree(Outcome::Body(json)) == Ok::<Tree, Tree>(json@),
        ({
            let unreadable = jev_tree(Outcome::Unreadable(text));
            let refused = jev_tree(Outcome::Status(code, text));
            let failed = jev_tree(Outcome::Failed(text));
            &&& unreadable is Err && refused is Err && failed is Err
            &&& unreadable->Err_0.text_at("error"@) == Some("invalid Jev body"@)
            &&& unreadable->Err_0.text_at("detail"@) == Some(text@)
            &&& refused->Err_0.text_at("error"@) == Some("Jev HTTP "@ + digits_of(code as nat))
            &&& refused->Err_0.text_at("detail"@) == Some(text@)
            &&& failed->Err_0.text_at("error"@) == Some("Jev request failed"@)
            &&& failed->Err_0.text_at("detail"@) == Some(text@)
        }),
{
    reveal_strlit("Jev");
    reveal_strlit(" HTTP ");
    reveal_strlit("Jev HTTP ");
    assert("Jev"@ + " HTTP "@ == "Jev HTTP "@);
    let none = Seq::<char>::empty();
    failure_says_what_failed("invalid Jev body"@, text@, none);
    failure_says_what_failed("Jev"@ + " HTTP "@ + digits_of(code as nat), text@, none);
    failure_says_what_failed("Jev request failed"@, text@, none);
}

/// What a chat model answers is handed on as it is. Where it does not answer, the error says
/// which step broke and how, with the status that came and the text word for word.
pub proof fn chat_is_handed_on(label: Seq<char>, json: Json, code: u16, text: String)
    ensures
        chat_tree(label, Outcome::Body(json)) == Ok::<Tree, Tree>(json@),
        ({
            let unreadable = chat_tree(label, Outcome::Unreadable(text));
            let refused = chat_tree(label, Outcome::Status(code, text));
            let failed = chat_tree(label, Outcome::Failed(text));
            &&& unreadable is Err && refused is Err && failed is Err
            &&& unreadable->Err_0.text_at("error"@) == Some(label + " body invalid"@)
            &&& unreadable->Err_0.text_at("detail"@) == Some(text@)
            &&& refused->Err_0.text_at("error"@) == Some(label + " HTTP "@ + digits_of(code as nat))
            &&& refused->Err_0.text_at("detail"@) == Some(text@)
            &&& failed->Err_0.text_at("error"@) == Some(label + " request failed"@)
            &&& failed->Err_0.text_at("detail"@) == Some(text@)
        }),
{
    let none = Seq::<char>::empty();
    failure_says_what_failed(label + " body invalid"@, text@, none);
    failure_says_what_failed(label + " HTTP "@ + digits_of(code as nat), text@, none);
    failure_says_what_failed(label + " request failed"@, text@, none);
}

/// The judge is sent the model, the state and the questions, each as it is, and nothing else.
pub proof fn judge_is_sent_its_three_parts(
    model: Seq<char>,
    state: Tree,
    question_set: Tree,
    other: Seq<char>,
)
    ensures
        ({
            let body = jev_body(model, state, question_set);
            &&& body.text_at("model"@) == Some(model)
            &&& body.get("state"@) == Some(state)
            &&& body.get("questions"@) == Some(question_set)
            &&& body.get(other) is Some ==> other == "model"@ || other == "state"@ || other
                == "questions"@
        }),
{
    broadcast use {field_after_with, object_after_with, empty_object};

    reveal_strlit("model");
    reveal_strlit("state");
    reveal_strlit("questions");
    assert({
        &&& "model"@.len() == 5
        &&& "state"@.len() == 5
        &&& "questions"@.len() == 9
    });
    assert({
        &&& "model"@[0] == 'm'
        &&& "state"@[0] == 's'
    });
}

/// A chat model is sent the model's name, the limit on its answer, whether to think, that it is
/// to answer with a JSON object, and two messages: the prompt and then the content.
pub proof fn chat_is_sent_prompt_and_content(
    model: Seq<char>,
    max_tokens: u64,
    reasoning: bool,
    system: Seq<char>,
    user: Tree,
    other: Seq<char>,
)
    ensures
        ({
            let body = chat_body(model, max_tokens, reasoning, system, user);
            let messages = body.get("messages"@)->0->Array_0;
            &&& body.text_at("model"@) == Some(model)
            &&& body.get("max_tokens"@) == Some(Tree::Unsigned(max_tokens))
            &&& body.get("response_format"@)->0.text_at("type"@) == Some("json_object"@)
            &&& body.get("reasoning"@)->0.get("enabled"@) == Some(Tree::Bool(reasoning))
            &&& body.get("messages"@) == Some(Tree::Array(messages))
            &&& messages.len() == 2
            &&& messages[0].text_at("role"@) == Some("system"@)
            &&& messages[0].text_at("content"@) == Some(system)
            &&& messages[1].text_at("role"@) == Some("user"@)
            &&& messages[1].get("content"@) == Some(user)
            &&& body.get(other) is Some ==> other == "model"@ || other == "max_tokens"@ || other
                == "response_format"@ || other == "reasoning"@ || other == "messages"@
        }),
{
    broadcast use {field_after_with, object_after_with, empty_object};

    reveal_strlit("model");
    reveal_strlit("max_tokens");
    reveal_strlit("response_format");
    reveal_strlit("reasoning");
    reveal_strlit("messages");
    reveal_strlit("type");
    reveal_strlit("enabled");
    reveal_strlit("role");
    reveal_strlit("content");
    assert({
        &&& "model"@.len() == 5
        &&& "max_tokens"@.len() == 10
        &&& "response_format"@.len() == 15
        &&& "reasoning"@.len() == 9
        &&& "messages"@.len() == 8
        &&& "type"@.len() == 4
        &&& "enabled"@.len() == 7
        &&& "role"@.len() == 4
        &&& "content"@.len() == 7
    });
    assert({
        &&& "type"@[0] == 't'
        &&& "role"@[0] == 'r'
        &&& "enabled"@[0] == 'e'
        &&& "content"@[0] == 'c'
    });
}

/// A model that is named is taken, unless its name is empty.
pub proof fn named_model_is_taken(named: String, default_model: Seq<char>)
    ensures
        named@.len() > 0 ==> chosen_model(Some(named), default_model) == named@,
        named@.len() == 0 ==> chosen_model(Some(named), default_model) == default_model,
        chosen_model(None, default_model) == default_model,
{
}

} // verus!
