//! The second and third step: a chat model drafts replies, and the judge ranks them.
use vstd::prelude::*;

use crate::completion::{content_in, content_of, unfence, unfenced, usage_in, usage_of};
use crate::config::Config;
use crate::exchange::{
    chat_body, chat_completion, chat_is_sent_prompt_and_content, chat_result, chat_tree,
    choose_model, chosen_model, error_tree, failure, failure_says_what_failed, failure_tree,
    jev_body, jev_result, jev_tree, option_tree, plain_failure, post_jev, Call, Outcome, Reply,
};
use crate::json::{
    empty_object, field_after_with, get_after_with, object_after_with, Json, Tree,
};
use crate::judge::{add_background, with_background};
use crate::questions::{
    draft_name, name_draft, ranking_criteria, ranking_offers_each_draft, ranking_questions,
    ranking_tree, DRAFT_SYSTEM_PROMPT,
};
use crate::search::{drafts_in, find_strings, found_drafts_are_usable};
use crate::text::{digits_of, trimmed, views};
use crate::value::{json_text, parse, parsed_json, parsed_view, render};

verus! {

/// What the browser sends to have replies drafted.
#[derive(Debug, PartialEq)]
pub struct DraftRequest {
    pub conversation: Json,
    pub background: Option<Json>,
    /// The judgement, passed back so that the drafts respect it.
    pub verdict: Json,
    /// A drafting model in place of the default one.
    pub model: Option<String>,
    /// A judge in place of the default one, for the ranking.
    pub judge_model: Option<String>,
    pub reasoning: Option<bool>,
}

/// The candidates, at most five, and what drafting them used.
#[derive(Debug, PartialEq)]
pub struct Drafts {
    pub texts: Vec<String>,
    pub usage: Json,
}

/// What drafts say: the texts and the usage.
pub open spec fn drafts_view(drafts: Drafts) -> (Seq<Seq<char>>, Tree) {
    (views(drafts.texts@), drafts.usage@)
}

/// What the drafting model is told of a conversation.
pub open spec fn draft_payload(request: DraftRequest) -> Tree {
    Tree::object().with("conversation"@, request.conversation@).with(
        "background"@,
        match option_tree(request.background) {
            Some(background) => background,
            None => Tree::Null,
        },
    ).with("analysis"@, request.verdict@)
}

/// Whether thinking is asked for. Three short replies need none, and it dominates the time.
pub open spec fn reasoning_asked(request: DraftRequest) -> bool {
    request.reasoning == Some(true)
}

/// Whether a call asks the drafting model for drafts.
pub open spec fn asks_for_drafts(
    call: Call,
    config: Config,
    key: Seq<char>,
    request: DraftRequest,
) -> bool {
    call.posts(
        config.draft_base@ + "/chat/completions"@,
        key,
        60,
        chat_body(
            chosen_model(request.model, config.draft_model@),
            900,
            reasoning_asked(request),
            DRAFT_SYSTEM_PROMPT@,
            Tree::Text(json_text(draft_payload(request))),
        ),
    )
}

/// The request to the drafting model.
pub fn draft_call(config: &Config, key: &str, request: &DraftRequest) -> (res: Call)
    ensures
        asks_for_drafts(res, *config, key@, *request),
{
    let background = match &request.background {
        Some(background) => background.duplicate(),
        None => Json::Null,
    };
    let payload = Json::object().with("conversation", request.conversation.duplicate()).with(
        "background",
        background,
    ).with("analysis", request.verdict.duplicate());
    let reasoning = match request.reasoning {
        Some(asked) => asked,
        None => false,
    };
    chat_completion(
        config.draft_base.as_str(),
        key,
        60,
        choose_model(&request.model, config.draft_model.as_str()),
        900,
        reasoning,
        DRAFT_SYSTEM_PROMPT,
        Json::Text(render(&payload)),
    )
}

/// The first five of a list.
pub open spec fn first_five(texts: Seq<Seq<char>>) -> Seq<Seq<char>> {
    if texts.len() > 5 {
        texts.take(5)
    } else {
        texts
    }
}

/// The candidates in a content of which `parsed` was read, or the payload of an error.
pub open spec fn candidates_in(content: Seq<char>, parsed: Result<Tree, Seq<char>>) -> Result<
    Seq<Seq<char>>,
    Tree,
> {
    match parsed {
        Err(detail) => Err(
            failure_tree("draft content was not JSON"@, detail).with("raw"@, Tree::Text(content)),
        ),
        Ok(tree) => match drafts_in(tree) {
            Some(texts) => Ok(first_five(texts)),
            None => Err(
                error_tree("draft JSON had no candidate list"@).with("raw"@, Tree::Text(content)),
            ),
        },
    }
}

/// The candidates in a content of which `parsed` was read, or the payload of an error.
pub fn read_candidates(content: &str, parsed: &Result<Json, String>) -> (res: Result<
    Vec<String>,
    Json,
>)
    ensures
        match res {
            Ok(texts) => candidates_in(content@, parsed_view(*parsed)) == Ok::<Seq<Seq<char>>, Tree>(
                views(texts@),
            ),
            Err(payload) => candidates_in(content@, parsed_view(*parsed)) == Err::<
                Seq<Seq<char>>,
                Tree,
            >(payload@),
        },
{
    match parsed {
        Err(detail) => Err(
            failure("draft content was not JSON", detail.as_str()).with("raw", Json::text(content)),
        ),
        Ok(json) => match find_strings(json) {
            Some(found) => {
                let mut texts = found;
                texts.truncate(5);
                assert(views(texts@) == first_five(views(found@)));
                Ok(texts)
            },
            None => Err(
                plain_failure("draft JSON had no candidate list").with("raw", Json::text(content)),
            ),
        },
    }
}

/// The drafts in a completion, or the payload of an error.
pub open spec fn completion_drafts(completion: Tree) -> Result<(Seq<Seq<char>>, Tree), Tree> {
    match content_in(completion) {
        None => Err(failure_tree("draft response had no content"@, json_text(completion))),
        Some(content) => match candidates_in(content, parsed_json(unfenced(content))) {
            Ok(texts) => Ok((texts, usage_in(completion))),
            Err(payload) => Err(payload),
        },
    }
}

/// The drafts that the drafting model answered with, or the payload of an error.
pub open spec fn drafts_tree(outcome: Outcome) -> Result<(Seq<Seq<char>>, Tree), Tree> {
    match chat_tree("draft"@, outcome) {
        Ok(completion) => completion_drafts(completion),
        Err(payload) => Err(payload),
    }
}

/// What drafts, or the payload of an error, say.
pub open spec fn drafts_result_view(result: Result<Drafts, Json>) -> Result<
    (Seq<Seq<char>>, Tree),
    Tree,
> {
    match result {
        Ok(drafts) => Ok(drafts_view(drafts)),
        Err(payload) => Err(payload@),
    }
}

/// The drafts that the drafting model answered with, or the payload of an error.
pub fn request_drafts(outcome: Outcome) -> (res: Result<Drafts, Json>)
    ensures
        drafts_result_view(res) == drafts_tree(outcome),
{
    match chat_result("draft", outcome) {
        Err(payload) => Err(payload),
        Ok(completion) => match content_of(&completion) {
            None => Err(
                failure("draft response had no content", render(&completion).as_str()),
            ),
            Some(content) => {
                let parsed = parse(unfence(content));
                match read_candidates(content, &parsed) {
                    Ok(texts) => Ok(Drafts { texts, usage: usage_of(&completion) }),
                    Err(payload) => Err(payload),
                }
            },
        },
    }
}

/// The answer to the browser where drafting came to nothing, or the drafts to go on with.
pub open spec fn drafting_step(outcome: Outcome) -> Result<(Seq<Seq<char>>, Tree), (u16, Tree)> {
    match drafts_tree(outcome) {
        Ok((texts, usage)) => if texts.len() > 0 {
            Ok((texts, usage))
        } else {
            Err((502u16, error_tree("drafting model returned no candidates"@)))
        },
        Err(payload) => Err((502u16, payload)),
    }
}

/// The candidates as the judge is shown them: each with its name and its text.
pub open spec fn candidate_trees(texts: Seq<Seq<char>>) -> Seq<Tree> {
    Seq::new(
        texts.len(),
        |i: int|
            Tree::object().with("id"@, Tree::Text(draft_name((i + 1) as nat))).with(
                "text"@,
                Tree::Text(texts[i]),
            ),
    )
}

/// The state that a ranking is asked about.
pub open spec fn ranking_state(request: DraftRequest, texts: Seq<Seq<char>>) -> Tree {
    with_background(
        Tree::object().with("conversation"@, request.conversation@).with(
            "judgement"@,
            request.verdict@,
        ).with("candidates"@, Tree::Array(candidate_trees(texts))),
        option_tree(request.background),
    )
}

fn list_candidates(texts: &Vec<String>) -> (res: Json)
    ensures
        res@ == Tree::Array(candidate_trees(views(texts@))),
{
    let ghost all = candidate_trees(views(texts@));
    let mut list: Vec<Json> = Vec::new();
    let mut i: usize = 0;
    while i < texts.len()
        invariant
            all == candidate_trees(views(texts@)),
            i <= texts@.len(),
            list@.len() == i,
            forall|j: int| 0 <= j < i ==> (#[trigger] list@[j])@ == all[j],
        decreases texts@.len() - i,
    {
        assert(views(texts@)[i as int] == texts@[i as int]@);
        let entry = Json::object().with("id", Json::Text(name_draft(i as u64 + 1))).with(
            "text",
            Json::text(texts[i].as_str()),
        );
        list.push(entry);
        i = i + 1;
    }
    let res = Json::Array(list);
    assert(res@->Array_0 == all);
    res
}

/// Whether a call asks the judge to rank drafts.
pub open spec fn asks_for_ranking(
    call: Call,
    config: Config,
    key: Seq<char>,
    request: DraftRequest,
    texts: Seq<Seq<char>>,
) -> bool {
    call.posts(
        config.jev_base@ + "/v1/systemone"@,
        key,
        40,
        jev_body(
            chosen_model(request.judge_model, config.jev_model@),
            ranking_state(request, texts),
            ranking_tree(texts.len()),
        ),
    )
}

/// The request that has the drafts ranked.
pub fn rank_call(config: &Config, key: &str, request: &DraftRequest, drafts: &Drafts) -> (res: Call)
    ensures
        asks_for_ranking(res, *config, key@, *request, views(drafts.texts@)),
{
    assert(views(drafts.texts@).len() == drafts.texts@.len());
    let state = Json::object().with("conversation", request.conversation.duplicate()).with(
        "judgement",
        request.verdict.duplicate(),
    ).with("candidates", list_candidates(&drafts.texts));
    post_jev(
        config.jev_base.as_str(),
        key,
        choose_model(&request.judge_model, config.jev_model.as_str()),
        add_background(state, &request.background),
        ranking_questions(drafts.texts.len()),
    )
}

/// What drafts, or an answer to the browser, say.
pub open spec fn step_view(result: Result<Drafts, Reply>) -> Result<
    (Seq<Seq<char>>, Tree),
    (u16, Tree),
> {
    match result {
        Ok(drafts) => Ok(drafts_view(drafts)),
        Err(reply) => Err(reply@),
    }
}

/// What follows the drafting: the drafts to have ranked, or the answer to the browser where
/// there are none.
pub fn after_drafting(outcome: Outcome) -> (res: Result<Drafts, Reply>)
    ensures
        step_view(res) == drafting_step(outcome),
        res matches Ok(drafts) ==> 0 < drafts.texts@.len() <= 5,
{
    match request_drafts(outcome) {
        Ok(drafts) => {
            assert(drafts_view(drafts).0.len() == drafts.texts@.len());
            if drafts.texts.len() > 0 {
                Ok(drafts)
            } else {
                Err(
                    Reply {
                        status: 502,
                        payload: plain_failure("drafting model returned no candidates"),
                    },
                )
            }
        },
        Err(payload) => Err(Reply { status: 502, payload }),
    }
}

/// Drafting that succeeds leaves from two to five drafts, none of them blank, and none with
/// white space at either end.
pub proof fn drafts_are_usable(outcome: Outcome)
    requires
        drafting_step(outcome) is Ok,
    ensures
        2 <= drafting_step(outcome)->Ok_0.0.len() <= 5,
        forall|i: int|
            0 <= i < drafting_step(outcome)->Ok_0.0.len() ==> (#[trigger] drafting_step(
                outcome,
            )->Ok_0.0[i]).len() > 0 && trimmed(drafting_step(outcome)->Ok_0.0[i])
                == drafting_step(outcome)->Ok_0.0[i],
{
    let completion = chat_tree("draft"@, outcome)->Ok_0;
    let content = content_in(completion)->0;
    let tree = parsed_json(unfenced(content))->Ok_0;
    found_drafts_are_usable(tree);
    let found = drafts_in(tree)->0;
    let texts = drafting_step(outcome)->Ok_0.0;
    assert(texts == first_five(found));
    assert forall|i: int| 0 <= i < texts.len() implies (#[trigger] texts[i]).len() > 0 && trimmed(
        texts[i],
    ) == texts[i] by {
        assert(texts[i] == found[i]);
    }
}

/// What became of a ranking.
#[derive(Debug, PartialEq)]
pub struct Ranking {
    /// The judge's choice, or null.
    pub ranking: Json,
    /// The payload of an error, or null.
    pub error: Json,
    /// What the ranking cost, as the judge reports it.
    pub cost: Option<Json>,
}

/// The value under a key of what stands under another.
pub open spec fn nested(tree: Tree, outer: Seq<char>, inner: Seq<char>) -> Option<Tree> {
    match tree.get(outer) {
        Some(value) => value.get(inner),
        None => None,
    }
}

fn find_nested<'a>(value: &'a Json, outer: &str, inner: &str) -> (res: Option<&'a Json>)
    ensures
        match res {
            Some(found) => nested(value@, outer@, inner@) == Some(found@),
            None => nested(value@, outer@, inner@) is None,
        },
{
    match value.get(outer) {
        Some(value) => value.get(inner),
        None => None,
    }
}

impl View for Ranking {
    type V = (Tree, Tree, Option<Tree>);

    open spec fn view(&self) -> (Tree, Tree, Option<Tree>) {
        (self.ranking@, self.error@, option_tree(self.cost))
    }
}

/// What became of a ranking: the choice, the error and the cost.
pub open spec fn ranking_in(outcome: Outcome) -> (Tree, Tree, Option<Tree>) {
    match jev_tree(outcome) {
        Ok(answer) => (
            match nested(answer, "answers"@, "best_draft"@) {
                Some(choice) => choice,
                None => Tree::Null,
            },
            Tree::Null,
            nested(answer, "usage"@, "cost"@),
        ),
        Err(payload) => (Tree::Null, payload, None),
    }
}

/// What became of a ranking. It is not insisted on: drafts are of use unranked too, so an
/// error is only reported.
pub fn read_ranking(outcome: Outcome) -> (res: Ranking)
    ensures
        res@ == ranking_in(outcome),
{
    match jev_result(outcome) {
        Ok(answer) => {
            let ranking = match find_nested(&answer, "answers", "best_draft") {
                Some(choice) => choice.duplicate(),
                None => Json::Null,
            };
            let cost = match find_nested(&answer, "usage", "cost") {
                Some(cost) => Some(cost.duplicate()),
                None => None,
            };
            Ranking { ranking, error: Json::Null, cost }
        },
        Err(payload) => Ranking { ranking: Json::Null, error: payload, cost: None },
    }
}

/// The texts of a list as JSON values.
pub open spec fn text_trees(texts: Seq<Seq<char>>) -> Seq<Tree> {
    texts.map_values(|s: Seq<char>| Tree::Text(s))
}

fn list_texts(texts: &Vec<String>) -> (res: Json)
    ensures
        res@ == Tree::Array(text_trees(views(texts@))),
{
    let ghost all = text_trees(views(texts@));
    let mut list: Vec<Json> = Vec::new();
    let mut i: usize = 0;
    while i < texts.len()
        invariant
            all == text_trees(views(texts@)),
            i <= texts@.len(),
            list@.len() == i,
            forall|j: int| 0 <= j < i ==> (#[trigger] list@[j])@ == all[j],
        decreases texts@.len() - i,
    {
        assert(views(texts@)[i as int] == texts@[i as int]@);
        list.push(Json::text(texts[i].as_str()));
        i = i + 1;
    }
    let res = Json::Array(list);
    assert(res@->Array_0 == all);
    res
}

/// The answer to the browser: the drafts, how they were ranked, what was used, and the time
/// that each of the two steps took.
pub open spec fn drafts_answer(
    model: Seq<char>,
    drafts: (Seq<Seq<char>>, Tree),
    ranking: (Tree, Tree, Option<Tree>),
    draft_ms: u64,
    rank_ms: u64,
    rank_cost: Tree,
) -> (u16, Tree) {
    (
        200u16,
        Tree::object().with("drafts"@, Tree::Array(text_trees(drafts.0))).with(
            "ranking"@,
            ranking.0,
        ).with("rank_error"@, ranking.1).with("draft_ms"@, Tree::Unsigned(draft_ms)).with(
            "draft_model"@,
            Tree::Text(model),
        ).with("draft_usage"@, drafts.1).with("rank_ms"@, Tree::Unsigned(rank_ms)).with(
            "rank_cost"@,
            rank_cost,
        ),
    )
}

/// The model that the answer names: the one that the request named, even where that is empty.
pub open spec fn reported_model(request: DraftRequest, config: Config) -> Seq<char> {
    match request.model {
        Some(model) => model@,
        None => config.draft_model@,
    }
}

/// The answer to the browser. `rank_cost` is the cost of the ranking as a number.
pub fn draft_reply(
    config: &Config,
    request: &DraftRequest,
    drafts: &Drafts,
    ranking: &Ranking,
    draft_ms: u64,
    rank_ms: u64,
    rank_cost: Json,
) -> (res: Reply)
    ensures
        res@ == drafts_answer(
            reported_model(*request, *config),
            drafts_view(*drafts),
            ranking@,
            draft_ms,
            rank_ms,
            rank_cost@,
        ),
{
    let model = match &request.model {
        Some(model) => model.as_str(),
        None => config.draft_model.as_str(),
    };
    Reply {
        status: 200,
        payload: Json::object().with("drafts", list_texts(&drafts.texts)).with(
            "ranking",
            ranking.ranking.duplicate(),
        ).with("rank_error", ranking.error.duplicate()).with(
            "draft_ms",
            Json::Unsigned(draft_ms),
        ).with("draft_model", Json::text(model)).with("draft_usage", drafts.usage.duplicate()).with(
            "rank_ms",
            Json::Unsigned(rank_ms),
        ).with("rank_cost", rank_cost),
    }
}

/// How far drafting and ranking have come.
#[derive(Debug, PartialEq)]
pub enum DraftState {
    /// The request has arrived.
    Arrived,
    /// The drafting model was asked.
    Drafting,
    /// There are drafts, and the judge was asked to rank them.
    Ranking { drafts: Drafts, draft_ms: u64 },
    /// The judge has answered, and the cost of that is being read as a number.
    Weighing { drafts: Drafts, draft_ms: u64, ranking: Ranking },
    /// The browser was answered.
    Finished,
}

/// What happens while drafting and ranking.
#[derive(Debug, PartialEq)]
pub enum DraftEvent {
    Begin,
    /// What became of the call that was sent, and how long it took.
    Answered { outcome: Outcome, elapsed_ms: u64 },
    /// The cost of the ranking as a number, and how long the ranking took.
    Weighed { cost: Json, elapsed_ms: u64 },
}

/// What is to be done next.
#[derive(Debug, PartialEq)]
pub enum DraftAction {
    Send(Call),
    /// Read the cost of the ranking, as the judge reports it, as a number.
    Weigh(Option<Json>),
    Answer(Reply),
    /// The event does not belong to the state.
    Nothing,
}

/// How drafting and ranking go on. The drafting model is asked first. Where that comes to
/// nothing, the browser is told so and the judge is not asked; else the judge ranks the drafts,
/// and the browser gets them whatever becomes of the ranking.
pub open spec fn goes_on(
    config: Config,
    key: Seq<char>,
    request: DraftRequest,
    state: DraftState,
    event: DraftEvent,
    next: DraftState,
    action: DraftAction,
) -> bool {
    match (state, event) {
        (DraftState::Arrived, DraftEvent::Begin) => {
            &&& next is Drafting
            &&& action matches DraftAction::Send(call) && asks_for_drafts(call, config, key, request)
        },
        (DraftState::Drafting, DraftEvent::Answered { outcome, elapsed_ms }) => match drafting_step(
            outcome,
        ) {
            Ok(found) => {
                &&& next matches DraftState::Ranking { drafts, draft_ms } && drafts_view(drafts)
                    == found && draft_ms == elapsed_ms
                &&& action matches DraftAction::Send(call) && asks_for_ranking(
                    call,
                    config,
                    key,
                    request,
                    found.0,
                )
            },
            Err(refusal) => {
                &&& next is Finished
                &&& action matches DraftAction::Answer(reply) && reply@ == refusal
            },
        },
        (
            DraftState::Ranking { drafts, draft_ms },
            DraftEvent::Answered { outcome, elapsed_ms: _ },
        ) => {
            &&& next matches DraftState::Weighing { drafts: kept, draft_ms: ms, ranking } && kept
                == drafts && ms == draft_ms && ranking@ == ranking_in(outcome)
            &&& action matches DraftAction::Weigh(cost) && option_tree(cost) == ranking_in(outcome).2
        },
        (
            DraftState::Weighing { drafts, draft_ms, ranking },
            DraftEvent::Weighed { cost, elapsed_ms },
        ) => {
            &&& next is Finished
            &&& action matches DraftAction::Answer(reply) && reply@ == drafts_answer(
                reported_model(request, config),
                drafts_view(drafts),
                ranking@,
                draft_ms,
                elapsed_ms,
                cost@,
            )
        },
        _ => next == state && action is Nothing,
    }
}

/// Drafts replies with a chat model, and has the judge rank them.
pub fn draft_and_rank(
    config: &Config,
    key: &str,
    request: &DraftRequest,
    state: DraftState,
    event: DraftEvent,
) -> (res: (DraftState, DraftAction))
    ensures
        goes_on(*config, key@, *request, state, event, res.0, res.1),
{
    match (state, event) {
        (DraftState::Arrived, DraftEvent::Begin) => (
            DraftState::Drafting,
            DraftAction::Send(draft_call(config, key, request)),
        ),
        (DraftState::Drafting, DraftEvent::Answered { outcome, elapsed_ms }) => match after_drafting(
            outcome,
        ) {
            Ok(drafts) => {
                let call = rank_call(config, key, request, &drafts);
                (DraftState::Ranking { drafts, draft_ms: elapsed_ms }, DraftAction::Send(call))
            },
            Err(reply) => (DraftState::Finished, DraftAction::Answer(reply)),
        },
        (
            DraftState::Ranking { drafts, draft_ms },
            DraftEvent::Answered { outcome, elapsed_ms: _ },
        ) => {
            let ranking = read_ranking(outcome);
            let cost = match &ranking.cost {
                Some(cost) => Some(cost.duplicate()),
                None => None,
            };
            (DraftState::Weighing { drafts, draft_ms, ranking }, DraftAction::Weigh(cost))
        },
        (
            DraftState::Weighing { drafts, draft_ms, ranking },
            DraftEvent::Weighed { cost, elapsed_ms },
        ) => (
            DraftState::Finished,
            DraftAction::Answer(
                draft_reply(config, request, &drafts, &ranking, draft_ms, elapsed_ms, cost),
            ),
        ),
        (state, _) => (state, DraftAction::Nothing),
    }
}

/// No key comes back in an answer: whatever the key, the browser is answered at the same points,
/// and with the same.
pub proof fn answers_hold_no_key(
    config: Config,
    key: Seq<char>,
    other: Seq<char>,
    request: DraftRequest,
    state: DraftState,
    event: DraftEvent,
    with_key: (DraftState, DraftAction),
    with_other: (DraftState, DraftAction),
)
    requires
        goes_on(config, key, request, state, event, with_key.0, with_key.1),
        goes_on(config, other, request, state, event, with_other.0, with_other.1),
    ensures
        with_key.1 is Answer <==> with_other.1 is Answer,
        with_key.1 is Answer ==> with_key.1->Answer_0@ == with_other.1->Answer_0@,
{
}

/// Drafts reach the browser whatever becomes of the ranking: the answer is a success, with the
/// drafts in it, and an error of the ranking is reported beside them.
pub proof fn drafts_survive_the_ranking(
    model: Seq<char>,
    drafts: (Seq<Seq<char>>, Tree),
    outcome: Outcome,
    draft_ms: u64,
    rank_ms: u64,
    rank_cost: Tree,
)
    ensures
        ({
            let answer = drafts_answer(
                model,
                drafts,
                ranking_in(outcome),
                draft_ms,
                rank_ms,
                rank_cost,
            );
            &&& answer.0 == 200
            &&& answer.1.get("drafts"@) == Some(Tree::Array(text_trees(drafts.0)))
            &&& answer.1.get("rank_error"@) == Some(
                match jev_tree(outcome) {
                    Ok(_) => Tree::Null,
                    Err(payload) => payload,
                },
            )
        }),
{
    reveal_strlit("drafts");
    reveal_strlit("ranking");
    reveal_strlit("rank_error");
    reveal_strlit("draft_ms");
    reveal_strlit("draft_model");
    reveal_strlit("draft_usage");
    reveal_strlit("rank_ms");
    reveal_strlit("rank_cost");
    let ranking = ranking_in(outcome);
    let list = Tree::Array(text_trees(drafts.0));
    let t1 = Tree::object().with("drafts"@, list);
    let t2 = t1.with("ranking"@, ranking.0);
    let t3 = t2.with("rank_error"@, ranking.1);
    let t4 = t3.with("draft_ms"@, Tree::Unsigned(draft_ms));
    let t5 = t4.with("draft_model"@, Tree::Text(model));
    let t6 = t5.with("draft_usage"@, drafts.1);
    let t7 = t6.with("rank_ms"@, Tree::Unsigned(rank_ms));
    assert("drafts"@.len() == 6 && "rank_error"@.len() == 10);
    get_after_with(Tree::object(), "drafts"@, list, "drafts"@);
    get_after_with(t1, "ranking"@, ranking.0, "drafts"@);
    get_after_with(t2, "rank_error"@, ranking.1, "drafts"@);
    get_after_with(t3, "draft_ms"@, Tree::Unsigned(draft_ms), "drafts"@);
    get_after_with(t3, "draft_ms"@, Tree::Unsigned(draft_ms), "rank_error"@);
    get_after_with(t4, "draft_model"@, Tree::Text(model), "drafts"@);
    get_after_with(t4, "draft_model"@, Tree::Text(model), "rank_error"@);
    get_after_with(t5, "draft_usage"@, drafts.1, "drafts"@);
    get_after_with(t5, "draft_usage"@, drafts.1, "rank_error"@);
    get_after_with(t6, "rank_ms"@, Tree::Unsigned(rank_ms), "drafts"@);
    get_after_with(t6, "rank_ms"@, Tree::Unsigned(rank_ms), "rank_error"@);
    get_after_with(t7, "rank_cost"@, rank_cost, "drafts"@);
    get_after_with(t7, "rank_cost"@, rank_cost, "rank_error"@);
}

/// What drafts say is their texts, one for one, and their usage.
pub proof fn drafts_say_what_they_hold(drafts: Drafts, i: int)
    ensures
        drafts_view(drafts).0.len() == drafts.texts@.len(),
        0 <= i < drafts.texts@.len() ==> drafts_view(drafts).0[i] == drafts.texts@[i]@,
        drafts_view(drafts).1 == drafts.usage@,
{
}

/// The drafting model is told the conversation, the background or null, and the verdict, each as
/// it came, and nothing else.
pub proof fn drafting_model_is_told_all(request: DraftRequest, other: Seq<char>)
    ensures
        ({
            let payload = draft_payload(request);
            &&& payload.get("conversation"@) == Some(request.conversation@)
            &&& payload.get("analysis"@) == Some(request.verdict@)
            &&& request.background matches Some(background) ==> payload.get("background"@) == Some(
                background@,
            )
            &&& request.background is None ==> payload.get("background"@) == Some(Tree::Null)
            &&& payload.get(other) is Some ==> other == "conversation"@ || other == "analysis"@ || other
                == "background"@
        }),
{
    broadcast use {field_after_with, object_after_with, empty_object};

    reveal_strlit("conversation");
    reveal_strlit("analysis");
    reveal_strlit("background");
    assert({
        &&& "conversation"@.len() == 12
        &&& "analysis"@.len() == 8
        &&& "background"@.len() == 10
    });
}

/// Drafts are asked of the chat model that the configuration names the base of, with the caller's
/// key and the model that was chosen. Thinking is on only where it was asked for. What the model
/// is told is the text of the payload, behind the prompt.
pub proof fn drafts_are_asked_for(
    call: Call,
    config: Config,
    key: Seq<char>,
    request: DraftRequest,
)
    requires
        asks_for_drafts(call, config, key, request),
    ensures
        ({
            let body = call.body->0@;
            let messages = body.get("messages"@)->0->Array_0;
            &&& call.url@ == config.draft_base@ + "/chat/completions"@
            &&& call.authorization@ == "Bearer "@ + key
            &&& call.timeout_seconds == 60
            &&& call.body is Some
            &&& body.text_at("model"@) == Some(chosen_model(request.model, config.draft_model@))
            &&& body.get("max_tokens"@) == Some(Tree::Unsigned(900))
            &&& request.reasoning == Some(true) ==> body.get("reasoning"@)->0.get("enabled"@) == Some(
                Tree::Bool(true),
            )
            &&& request.reasoning != Some(true) ==> body.get("reasoning"@)->0.get("enabled"@) == Some(
                Tree::Bool(false),
            )
            &&& messages.len() == 2
            &&& messages[0].text_at("role"@) == Some("system"@)
            &&& messages[0].text_at("content"@) == Some(DRAFT_SYSTEM_PROMPT@)
            &&& messages[1].text_at("role"@) == Some("user"@)
            &&& messages[1].text_at("content"@) == Some(json_text(draft_payload(request)))
        }),
{
    chat_is_sent_prompt_and_content(
        chosen_model(request.model, config.draft_model@),
        900,
        reasoning_asked(request),
        DRAFT_SYSTEM_PROMPT@,
        Tree::Text(json_text(draft_payload(request))),
        key,
    );
}

/// No draft is lost where there are at most five, and where there are more the first five stay:
/// what is kept of the drafts that were found is as many of them as there are, up to five, from
/// the first on, each as it is.
pub proof fn no_draft_is_lost(
    content: Seq<char>,
    tree: Tree,
    found: Seq<Seq<char>>,
    i: int,
)
    requires
        drafts_in(tree) == Some(found),
    ensures
        ({
            let kept = candidates_in(content, Ok(tree))->Ok_0;
            &&& candidates_in(content, Ok(tree)) is Ok
            &&& found.len() <= 5 ==> kept.len() == found.len()
            &&& found.len() > 5 ==> kept.len() == 5
            &&& 0 <= i < kept.len() ==> kept[i] == found[i]
        }),
{
}

/// Without drafts there is an error that says why, with the content as it came.
pub proof fn missing_drafts_are_told(content: Seq<char>, tree: Tree, detail: Seq<char>)
    ensures
        ({
            let garbled = candidates_in(content, Err(detail));
            &&& garbled is Err
            &&& garbled->Err_0.text_at("error"@) == Some("draft content was not JSON"@)
            &&& garbled->Err_0.text_at("detail"@) == Some(detail)
            &&& garbled->Err_0.text_at("raw"@) == Some(content)
        }),
        drafts_in(tree) is None ==> ({
            let none = candidates_in(content, Ok(tree));
            &&& none is Err
            &&& none->Err_0.text_at("error"@) == Some("draft JSON had no candidate list"@)
            &&& none->Err_0.text_at("raw"@) == Some(content)
        }),
{
    broadcast use {field_after_with, object_after_with, empty_object};

    reveal_strlit("error");
    reveal_strlit("detail");
    reveal_strlit("raw");
    assert({
        &&& "error"@.len() == 5
        &&& "detail"@.len() == 6
        &&& "raw"@.len() == 3
    });
}

/// The drafts of a completion are read from its content, without its fence, and come with the
/// usage that the completion reports.
pub proof fn drafts_come_from_the_content(completion: Tree, content: Seq<char>)
    ensures
        content_in(completion) == Some(content) ==> match candidates_in(
            content,
            parsed_json(unfenced(content)),
        ) {
            Ok(texts) => {
                &&& completion_drafts(completion) matches Ok((kept, usage))
                &&& kept == texts
                &&& completion.get("usage"@) is Some ==> completion.get("usage"@) == Some(usage)
                &&& completion.get("usage"@) is None ==> usage == Tree::Null
            },
            Err(payload) => completion_drafts(completion) == Err::<(Seq<Seq<char>>, Tree), Tree>(payload),
        },
        content_in(completion) is None ==> ({
            let none = completion_drafts(completion);
            &&& none is Err
            &&& none->Err_0.text_at("error"@) == Some("draft response had no content"@)
            &&& none->Err_0.text_at("detail"@) == Some(json_text(completion))
        }),
{
    failure_says_what_failed("draft response had no content"@, json_text(completion), content);
}

/// The drafts of a completion go on to be ranked, all of them; where there are none, or the call
/// failed, the browser is told so.
pub proof fn drafts_go_on(completion: Json, outcome: Outcome, texts: Seq<Seq<char>>, usage: Tree)
    ensures
        completion_drafts(completion@) == Ok::<(Seq<Seq<char>>, Tree), Tree>((texts, usage))
            && texts.len() > 0 ==> drafting_step(Outcome::Body(completion)) == Ok::<
            (Seq<Seq<char>>, Tree),
            (u16, Tree),
        >((texts, usage)),
        completion_drafts(completion@) matches Err(payload) ==> drafting_step(Outcome::Body(completion))
            == Err::<(Seq<Seq<char>>, Tree), (u16, Tree)>((502u16, payload)),
        completion_drafts(completion@) matches Ok((none, _)) ==> (none.len() == 0 ==> (drafting_step(
            Outcome::Body(completion),
        ) matches Err((status, payload)) && status == 502 && payload.text_at("error"@) == Some(
            "drafting model returned no candidates"@,
        ))),
        !(outcome is Body) ==> (drafting_step(outcome) matches Err((status, payload)) && status == 502
            && chat_tree("draft"@, outcome) == Err::<Tree, Tree>(payload)),
{
    failure_says_what_failed("drafting model returned no candidates"@, Seq::empty(), Seq::empty());
}

/// The judge is shown every draft under its own name: at each position the text of the draft
/// there, and the name that the same position has among the answers to choose from.
pub proof fn each_draft_is_shown_under_its_name(texts: Seq<Seq<char>>, i: int, other: Seq<char>)
    requires
        0 <= i < texts.len(),
    ensures
        candidate_trees(texts).len() == texts.len(),
        candidate_trees(texts)[i].text_at("id"@) == Some("draft_"@ + digits_of((i + 1) as nat)),
        candidate_trees(texts)[i].text_at("text"@) == Some(texts[i]),
        candidate_trees(texts)[i].get(other) is Some ==> other == "id"@ || other == "text"@,
        ranking_criteria(texts.len()).get(candidate_trees(texts)[i].text_at("id"@)->0) is Some,
{
    broadcast use {field_after_with, object_after_with, empty_object};

    reveal_strlit("id");
    reveal_strlit("text");
    assert({
        &&& "id"@.len() == 2
        &&& "text"@.len() == 4
    });
    ranking_offers_each_draft(texts.len(), (i + 1) as nat);
}

/// The judge ranks with the conversation, the verdict and the background as they came, and all
/// the drafts.
pub proof fn ranking_is_asked_with_all(
    call: Call,
    config: Config,
    key: Seq<char>,
    request: DraftRequest,
    texts: Seq<Seq<char>>,
    other: Seq<char>,
)
    requires
        asks_for_ranking(call, config, key, request, texts),
    ensures
        ({
            let body = call.body->0@;
            let state = body.get("state"@)->0;
            &&& call.url@ == config.jev_base@ + "/v1/systemone"@
            &&& call.authorization@ == "Bearer "@ + key
            &&& call.timeout_seconds == 40
            &&& call.body is Some
            &&& body.text_at("model"@) == Some(chosen_model(request.judge_model, config.jev_model@))
            &&& body.get("questions"@) == Some(ranking_tree(texts.len()))
            &&& body.get("state"@) is Some
            &&& state.get("conversation"@) == Some(request.conversation@)
            &&& state.get("judgement"@) == Some(request.verdict@)
            &&& state.get("candidates"@) == Some(Tree::Array(candidate_trees(texts)))
            &&& request.background matches Some(background) ==> (background@ != Tree::Null ==> state.get(
                "background"@,
            ) == Some(background@))
            &&& request.background is None || request.background->0@ == Tree::Null ==> state.get(
                "background"@,
            ) is None
            &&& state.get(other) is Some ==> other == "conversation"@ || other == "judgement"@ || other
                == "candidates"@ || other == "background"@
        }),
{
    broadcast use {field_after_with, object_after_with, empty_object};

    reveal_strlit("model");
    reveal_strlit("state");
    reveal_strlit("questions");
    reveal_strlit("conversation");
    reveal_strlit("judgement");
    reveal_strlit("candidates");
    reveal_strlit("background");
    assert({
        &&& "model"@.len() == 5
        &&& "state"@.len() == 5
        &&& "questions"@.len() == 9
        &&& "conversation"@.len() == 12
        &&& "judgement"@.len() == 9
        &&& "candidates"@.len() == 10
        &&& "background"@.len() == 10
    });
    assert({
        &&& "model"@[0] == 'm'
        &&& "state"@[0] == 's'
        &&& "questions"@[0] == 'q'
        &&& "judgement"@[0] == 'j'
        &&& "candidates"@[0] == 'c'
        &&& "background"@[0] == 'b'
    });
}

/// A ranking is the judge's choice under `best_draft` as it came, or null, with what it cost; or
/// the error and nothing else.
pub proof fn ranking_is_the_judges(answer: Json, outcome: Outcome, part: Tree)
    ensures
        ({
            let (choice, error, cost) = ranking_in(Outcome::Body(answer));
            &&& error == Tree::Null
            &&& answer@.get("answers"@) == Some(part) && part.get("best_draft"@) is Some ==> Some(choice)
                == part.get("best_draft"@)
            &&& answer@.get("answers"@) == Some(part) && part.get("best_draft"@) is None ==> choice
                == Tree::Null
            &&& answer@.get("answers"@) is None ==> choice == Tree::Null
            &&& answer@.get("usage"@) == Some(part) ==> cost == part.get("cost"@)
            &&& answer@.get("usage"@) is None ==> cost is None
        }),
        !(outcome is Body) ==> ({
            let (choice, error, cost) = ranking_in(outcome);
            choice == Tree::Null && jev_tree(outcome) == Err::<Tree, Tree>(error) && cost is None
        }),
{
}

/// The browser gets every draft in its place, the choice and the error of the ranking, the usage,
/// the model, the cost, and the time of each of the two steps under its own name.
pub proof fn drafts_are_answered_in_full(
    model: Seq<char>,
    drafts: (Seq<Seq<char>>, Tree),
    ranking: (Tree, Tree, Option<Tree>),
    draft_ms: u64,
    rank_ms: u64,
    rank_cost: Tree,
    i: int,
    other: Seq<char>,
)
    ensures
        ({
            let (status, payload) = drafts_answer(
                model,
                drafts,
                ranking,
                draft_ms,
                rank_ms,
                rank_cost,
            );
            let list = payload.get("drafts"@)->0->Array_0;
            &&& status == 200
            &&& payload.get("drafts"@) == Some(Tree::Array(list))
            &&& list.len() == drafts.0.len()
            &&& 0 <= i < list.len() ==> list[i] == Tree::Text(drafts.0[i])
            &&& payload.get("ranking"@) == Some(ranking.0)
            &&& payload.get("rank_error"@) == Some(ranking.1)
            &&& payload.get("draft_ms"@) == Some(Tree::Unsigned(draft_ms))
            &&& payload.text_at("draft_model"@) == Some(model)
            &&& payload.get("draft_usage"@) == Some(drafts.1)
            &&& payload.get("rank_ms"@) == Some(Tree::Unsigned(rank_ms))
            &&& payload.get("rank_cost"@) == Some(rank_cost)
            &&& payload.get(other) is Some ==> other == "drafts"@ || other == "ranking"@ || other
                == "rank_error"@ || other == "draft_ms"@ || other == "draft_model"@ || other
                == "draft_usage"@ || other == "rank_ms"@ || other == "rank_cost"@
        }),
{
    broadcast use {field_after_with, object_after_with, empty_object};

    reveal_strlit("drafts");
    reveal_strlit("ranking");
    reveal_strlit("rank_error");
    reveal_strlit("draft_ms");
    reveal_strlit("draft_model");
    reveal_strlit("draft_usage");
    reveal_strlit("rank_ms");
    reveal_strlit("rank_cost");
    assert({
        &&& "drafts"@.len() == 6
        &&& "ranking"@.len() == 7
        &&& "rank_error"@.len() == 10
        &&& "draft_ms"@.len() == 8
        &&& "draft_model"@.len() == 11
        &&& "draft_usage"@.len() == 11
        &&& "rank_ms"@.len() == 7
        &&& "rank_cost"@.len() == 9
    });
    assert({
        &&& "ranking"@[4] == 'i'
        &&& "rank_ms"@[4] == '_'
        &&& "draft_model"@[6] == 'm'
        &&& "draft_usage"@[6] == 'u'
    });
}

/// The model that is reported is the one that the request named, and else the default one.
pub proof fn named_model_is_reported(request: DraftRequest, config: Config)
    ensures
        request.model matches Some(model) ==> reported_model(request, config) == model@,
        request.model is None ==> reported_model(request, config) == config.draft_model@,
{
}

/// How drafting and ranking go on from each state. The drafts and the time that they took are
/// carried along unchanged until the browser is answered, with the time of the ranking beside
/// them; an event that does not belong to the state changes nothing.
pub proof fn each_step_follows(
    config: Config,
    key: Seq<char>,
    request: DraftRequest,
    state: DraftState,
    event: DraftEvent,
    next: DraftState,
    action: DraftAction,
)
    requires
        goes_on(config, key, request, state, event, next, action),
    ensures
        state is Arrived && event is Begin ==> next is Drafting && action is Send && asks_for_drafts(
            action->Send_0,
            config,
            key,
            request,
        ),
        state is Drafting && event is Answered ==> match drafting_step(event->outcome) {
            Ok(found) => {
                &&& next is Ranking
                &&& drafts_view(next->Ranking_drafts) == found
                &&& next->Ranking_draft_ms == event->Answered_elapsed_ms
                &&& action is Send
                &&& asks_for_ranking(action->Send_0, config, key, request, found.0)
            },
            Err(refusal) => next is Finished && action is Answer && action->Answer_0@ == refusal,
        },
        state is Ranking && event is Answered ==> {
            &&& next is Weighing
            &&& next->Weighing_drafts == state->Ranking_drafts
            &&& next->Weighing_draft_ms == state->Ranking_draft_ms
            &&& next->Weighing_ranking@ == ranking_in(event->outcome)
            &&& action is Weigh
            &&& option_tree(action->Weigh_0) == ranking_in(event->outcome).2
        },
        state is Weighing && event is Weighed ==> {
            &&& next is Finished
            &&& action is Answer
            &&& action->Answer_0@ == drafts_answer(
                reported_model(request, config),
                drafts_view(state->Weighing_drafts),
                state->Weighing_ranking@,
                state->Weighing_draft_ms,
                event->Weighed_elapsed_ms,
                event->cost@,
            )
        },
        state is Finished || (event is Begin && !(state is Arrived)) || (event is Weighed && !(
        state is Weighing)) || (event is Answered && !(state is Drafting) && !(state is Ranking)) ==> next
            == state && action is Nothing,
{
}

/// What is chosen can be found: the draft that the browser shows at a position is the one that
/// the judge ranked under the name of that position.
pub proof fn choice_names_the_draft_shown(
    config: Config,
    key: Seq<char>,
    request: DraftRequest,
    outcome: Outcome,
    draft_ms: u64,
    ranking: Ranking,
    cost: Json,
    rank_ms: u64,
    asked: (DraftState, DraftAction),
    told: (DraftState, DraftAction),
    i: int,
)
    requires
        goes_on(
            config,
            key,
            request,
            DraftState::Drafting,
            DraftEvent::Answered { outcome, elapsed_ms: draft_ms },
            asked.0,
            asked.1,
        ),
        asked.0 is Ranking,
        goes_on(
            config,
            key,
            request,
            DraftState::Weighing { drafts: asked.0->Ranking_drafts, draft_ms, ranking },
            DraftEvent::Weighed { cost, elapsed_ms: rank_ms },
            told.0,
            told.1,
        ),
        0 <= i < asked.0->Ranking_drafts.texts@.len(),
    ensures
        ({
            let judged = asked.1->Send_0.body->0@.get("state"@)->0.get("candidates"@)->0->Array_0;
            let shown = told.1->Answer_0@.1.get("drafts"@)->0->Array_0;
            &&& judged.len() == shown.len() == asked.0->Ranking_drafts.texts@.len()
            &&& judged[i].text_at("id"@) == Some("draft_"@ + digits_of((i + 1) as nat))
            &&& shown[i] == Tree::Text(asked.0->Ranking_drafts.texts@[i]@)
            &&& judged[i].get("text"@) == Some(shown[i])
        }),
{
    let drafts = asked.0->Ranking_drafts;
    let texts = drafts_view(drafts).0;
    drafts_say_what_they_hold(drafts, i);
    ranking_is_asked_with_all(asked.1->Send_0, config, key, request, texts, key);
    each_draft_is_shown_under_its_name(texts, i, key);
    drafts_are_answered_in_full(
        reported_model(request, config),
        drafts_view(drafts),
        ranking@,
        draft_ms,
        rank_ms,
        cost@,
        i,
        key,
    );
}

/// What became of a ranking, of drafting, and of the step after it, says what it holds.
pub proof fn results_say_what_they_hold(ranking: Ranking, drafts: Drafts, payload: Json, reply: Reply)
    ensures
        ranking@ == (ranking.ranking@, ranking.error@, option_tree(ranking.cost)),
        drafts_result_view(Ok(drafts)) == Ok::<(Seq<Seq<char>>, Tree), Tree>(drafts_view(drafts)),
        drafts_result_view(Err(payload)) == Err::<(Seq<Seq<char>>, Tree), Tree>(payload@),
        step_view(Ok(drafts)) == Ok::<(Seq<Seq<char>>, Tree), (u16, Tree)>(drafts_view(drafts)),
        step_view(Err(reply)) == Err::<(Seq<Seq<char>>, Tree), (u16, Tree)>(
            (reply.status, reply.payload@),
        ),
{
}

} // verus!
