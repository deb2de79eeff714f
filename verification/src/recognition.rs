//! Turning a screenshot or a pasted transcript into turns.
//!
//! The two differ only in how the model is asked. What comes after that (unwrapping the JSON,
//! dropping blank turns, moving the `uncertain` flags onto the rows that stay) is the same.
use vstd::prelude::*;

use crate::completion::{content_in, content_of, unfence, unfenced, usage_in, usage_of};
use crate::config::Config;
use crate::exchange::{
    chat_body, chat_completion, chat_is_sent_prompt_and_content, chat_result, chat_tree,
    choose_model, chosen_model, error_names_its_step, error_tree, failure, failure_says_what_failed,
    failure_tree, plain_failure, Call, Outcome, Reply,
};
use crate::json::{
    empty_object, field_after_with, get_after_with, object_after_with, trees, Json, Tree,
};
use crate::questions::{IMPORT_SYSTEM_PROMPT, VISION_SYSTEM_PROMPT};
use crate::search::{
    find_string_field, find_turns, flag_marks_its_row, number_trees, remap_uncertain, text_in,
    turns_in, uncertain_lines, uncertain_rows,
};
use crate::text::{
    begins_with, join, same, starts_with, trim, trimmed, trimming_is_thorough, Class,
};
use crate::value::{json_text, parse, parsed_json, parsed_view, render};

verus! {

/// The largest screenshot, in bytes.
pub const MAX_IMAGE_BYTES: usize = 8 * 1024 * 1024;

/// The longest transcript, in characters: enough for a few hundred messages, and short enough
/// to turn away a whole file that was pasted by mistake.
pub const MAX_IMPORT_CHARS: usize = 20000;

/// What the browser sends to have a screenshot read.
#[derive(Debug, PartialEq)]
pub struct VisionRequest {
    /// A data URL.
    pub image: String,
    pub model: Option<String>,
}

/// What the browser sends to have a transcript read.
#[derive(Debug, PartialEq)]
pub struct ImportRequest {
    /// Text as it was copied out of a chat client.
    pub text: String,
    pub model: Option<String>,
}

/// The turn that an item of a turn list is: it has a text that is not blank. Anyone but an
/// explicit `me` is the other party, for to take one's own line for theirs is the safer error.
pub open spec fn turn_in(item: Tree) -> Option<Tree> {
    match item.text_at("text"@) {
        Some(text) => if trimmed(text).len() > 0 {
            Some(
                Tree::object().with(
                    "speaker"@,
                    Tree::Text(
                        if item.text_at("speaker"@) == Some("me"@) {
                            "me"@
                        } else {
                            "other"@
                        },
                    ),
                ).with(
                    "name"@,
                    Tree::Text(
                        trimmed(
                            match item.text_at("name"@) {
                                Some(name) => name,
                                None => ""@,
                            },
                        ),
                    ),
                ).with("text"@, Tree::Text(trimmed(text))),
            )
        } else {
            None
        },
        None => None,
    }
}

/// The turns of a turn list, in order.
pub open spec fn kept_turns(list: Seq<Tree>) -> Seq<Tree>
    decreases list.len(),
{
    if list.len() == 0 {
        Seq::empty()
    } else {
        match turn_in(list.last()) {
            Some(turn) => kept_turns(list.drop_last()).push(turn),
            None => kept_turns(list.drop_last()),
        }
    }
}

/// The numbers, counted from one, of the items of a turn list that are turns.
pub open spec fn kept_lines(list: Seq<Tree>) -> Seq<u64>
    decreases list.len(),
{
    if list.len() == 0 {
        Seq::empty()
    } else {
        match turn_in(list.last()) {
            Some(_) => kept_lines(list.drop_last()).push(list.len() as u64),
            None => kept_lines(list.drop_last()),
        }
    }
}

/// The turn list that a value holds, or none.
pub open spec fn turn_items(tree: Tree) -> Seq<Tree> {
    match turns_in(tree) {
        Some(items) => items,
        None => Seq::empty(),
    }
}

fn read_turn(item: &Json) -> (res: Option<Json>)
    ensures
        match res {
            Some(turn) => turn_in(item@) == Some(turn@),
            None => turn_in(item@) is None,
        },
{
    let text = match item.str_at("text") {
        Some(text) => trim(text),
        None => {
            return None;
        },
    };
    if text.is_empty() {
        return None;
    }
    let speaker = match item.str_at("speaker") {
        Some(speaker) => if same(speaker, "me") {
            "me"
        } else {
            "other"
        },
        None => "other",
    };
    let name = match item.str_at("name") {
        Some(name) => name,
        None => "",
    };
    Some(
        Json::object().with("speaker", Json::text(speaker)).with("name", Json::text(trim(name))).with(
            "text",
            Json::text(text),
        ),
    )
}

/// The turns of a turn list, each with the number of the item that it was.
pub fn read_turns(list: &Vec<Json>) -> (res: (Vec<Json>, Vec<u64>))
    ensures
        trees(res.0@) == kept_turns(trees(list@)),
        res.1@ == kept_lines(trees(list@)),
        res.0@.len() == res.1@.len(),
{
    let ghost all = trees(list@);
    let mut turns: Vec<Json> = Vec::new();
    let mut source_lines: Vec<u64> = Vec::new();
    let mut index: usize = 0;
    assert(trees(turns@) == kept_turns(all.take(0)));
    assert(source_lines@ == kept_lines(all.take(0)));
    while index < list.len()
        invariant
            all == trees(list@),
            index <= list@.len(),
            trees(turns@) == kept_turns(all.take(index as int)),
            source_lines@ == kept_lines(all.take(index as int)),
            turns@.len() == source_lines@.len(),
        decreases list@.len() - index,
    {
        let ghost so_far = trees(turns@);
        assert(all.take(index + 1).drop_last() == all.take(index as int));
        assert(all.take(index + 1).last() == list@[index as int]@);
        if let Some(turn) = read_turn(&list[index]) {
            turns.push(turn);
            assert(trees(turns@) == so_far.push(turn@));
            source_lines.push(index as u64 + 1);
        }
        index = index + 1;
    }
    assert(all.take(index as int) == all);
    (turns, source_lines)
}

/// The answer to the browser on a completion with this content, of which `parsed` was read.
pub open spec fn recognised(
    completion: Tree,
    content: Seq<char>,
    parsed: Result<Tree, Seq<char>>,
    label: Seq<char>,
    fallback_model: Seq<char>,
    latency_ms: u64,
) -> (u16, Tree) {
    match parsed {
        Err(detail) => (
            502u16,
            failure_tree(label + " content was not JSON"@, detail).with("raw"@, Tree::Text(content)),
        ),
        Ok(tree) => {
            let list = turn_items(tree);
            if kept_turns(list).len() == 0 {
                (
                    502u16,
                    failure_tree("没有识别出任何消息"@, label).with("raw"@, Tree::Text(content)),
                )
            } else {
                (
                    200u16,
                    Tree::object().with("conversation"@, Tree::Array(kept_turns(list))).with(
                        "uncertain"@,
                        Tree::Array(number_trees(uncertain_rows(tree, kept_lines(list)))),
                    ).with(
                        "note"@,
                        Tree::Text(
                            match text_in(tree, "note"@) {
                                Some(note) => note,
                                None => ""@,
                            },
                        ),
                    ).with(
                        "model"@,
                        match completion.get("model"@) {
                            Some(model) => model,
                            None => Tree::Text(fallback_model),
                        },
                    ).with("usage"@, usage_in(completion)).with(
                        "latency_ms"@,
                        Tree::Unsigned(latency_ms),
                    ),
                )
            }
        },
    }
}

/// The answer to the browser on a completion with this content, of which `parsed` was read.
pub fn recognise(
    completion: &Json,
    content: &str,
    parsed: &Result<Json, String>,
    label: &str,
    fallback_model: &str,
    latency_ms: u64,
) -> (res: Reply)
    ensures
        res@ == recognised(
            completion@,
            content@,
            parsed_view(*parsed),
            label@,
            fallback_model@,
            latency_ms,
        ),
{
    let parsed_content = match parsed {
        Ok(json) => json,
        Err(detail) => {
            return Reply {
                status: 502,
                payload: failure(
                    join(label, " content was not JSON").as_str(),
                    detail.as_str(),
                ).with("raw", Json::text(content)),
            };
        },
    };
    let (turns, source_lines) = match find_turns(parsed_content) {
        Some(list) => read_turns(list),
        None => {
            let none: Vec<Json> = Vec::new();
            assert(trees(none@) == Seq::<Tree>::empty());
            (none, Vec::new())
        },
    };
    assert(trees(turns@).len() == turns@.len());
    if turns.len() == 0 {
        return Reply {
            status: 502,
            payload: failure("没有识别出任何消息", label).with("raw", Json::text(content)),
        };
    }
    let uncertain = remap_uncertain(parsed_content, source_lines.as_slice());
    let note = match find_string_field(parsed_content, "note") {
        Some(note) => note,
        None => "".to_owned(),
    };
    let model = match completion.get("model") {
        Some(model) => model.duplicate(),
        None => Json::text(fallback_model),
    };
    let conversation = Json::Array(turns);
    assert(conversation@->Array_0 == trees(turns@));
    let flags = Json::Array(uncertain);
    assert(flags@->Array_0 == trees(uncertain@));
    Reply {
        status: 200,
        payload: Json::object().with("conversation", conversation).with("uncertain", flags).with(
            "note",
            Json::Text(note),
        ).with("model", model).with("usage", usage_of(completion)).with(
            "latency_ms",
            Json::Unsigned(latency_ms),
        ),
    }
}

/// The answer to the browser on a completion.
pub open spec fn recognition(
    completion: Tree,
    label: Seq<char>,
    fallback_model: Seq<char>,
    latency_ms: u64,
) -> (u16, Tree) {
    match content_in(completion) {
        None => (
            502u16,
            failure_tree(label + " response had no content"@, json_text(completion)),
        ),
        Some(content) => recognised(
            completion,
            content,
            parsed_json(unfenced(content)),
            label,
            fallback_model,
            latency_ms,
        ),
    }
}

/// Turns a completion into the answer to the browser.
pub fn finish_recognition(
    completion: &Json,
    label: &str,
    fallback_model: &str,
    latency_ms: u64,
) -> (res: Reply)
    ensures
        res@ == recognition(completion@, label@, fallback_model@, latency_ms),
{
    match content_of(completion) {
        None => Reply {
            status: 502,
            payload: failure(
                join(label, " response had no content").as_str(),
                render(completion).as_str(),
            ),
        },
        Some(content) => {
            let parsed = parse(unfence(content));
            recognise(completion, content, &parsed, label, fallback_model, latency_ms)
        },
    }
}

/// The answer to the browser once the model was asked.
pub open spec fn recognition_answer(
    outcome: Outcome,
    label: Seq<char>,
    fallback_model: Seq<char>,
    latency_ms: u64,
) -> (u16, Tree) {
    match chat_tree(label, outcome) {
        Ok(completion) => recognition(completion, label, fallback_model, latency_ms),
        Err(payload) => (502u16, payload),
    }
}

/// The answer to the browser once the model was asked.
pub fn recognition_reply(
    outcome: Outcome,
    label: &str,
    fallback_model: &str,
    latency_ms: u64,
) -> (res: Reply)
    ensures
        res@ == recognition_answer(outcome, label@, fallback_model@, latency_ms),
{
    match chat_result(label, outcome) {
        Ok(completion) => finish_recognition(&completion, label, fallback_model, latency_ms),
        Err(payload) => Reply { status: 502, payload },
    }
}

/// What the vision model is asked: a line of text, and the image.
pub open spec fn screenshot_question(image: Seq<char>) -> Tree {
    Tree::Array(
        seq![
            Tree::object().with("type"@, Tree::Text("text"@)).with(
                "text"@,
                Tree::Text("请读出这张截图里的对话。"@),
            ),
            Tree::object().with("type"@, Tree::Text("image_url"@)).with(
                "image_url"@,
                Tree::object().with("url"@, Tree::Text(image)),
            ),
        ],
    )
}

fn ask_about(image: &str) -> (res: Json)
    ensures
        res@ == screenshot_question(image@),
{
    let mut parts: Vec<Json> = Vec::new();
    parts.push(
        Json::object().with("type", Json::text("text")).with(
            "text",
            Json::text("请读出这张截图里的对话。"),
        ),
    );
    parts.push(
        Json::object().with("type", Json::text("image_url")).with(
            "image_url",
            Json::object().with("url", Json::text(image)),
        ),
    );
    let res = Json::Array(parts);
    assert(res@->Array_0 == screenshot_question(image@)->Array_0);
    res
}

/// Why a screenshot is turned away, where it is. A data URL in base64 is a third longer than
/// the image, so the limit holds for three quarters of its length in bytes.
pub open spec fn screenshot_refusal(image: Seq<char>) -> Option<(u16, Tree)> {
    if !begins_with(image, "data:image/"@) {
        Some((400u16, error_tree("expected a data:image/... URL from the browser"@)))
    } else if vstd::utf8::encode_utf8(image).len() / 4 * 3 > MAX_IMAGE_BYTES {
        Some((413u16, failure_tree("截图太大"@, "控制在 8 MB 以内"@)))
    } else {
        None
    }
}

/// The request to the vision model, or the answer to the browser where the screenshot is
/// turned away. The turns that come back are always shown for correction, because who said
/// what is the part most likely to be wrong.
pub fn read_screenshot(config: &Config, key: &str, request: &VisionRequest) -> (res: Result<
    Call,
    Reply,
>)
    ensures
        match screenshot_refusal(trimmed(request.image@)) {
            Some(refusal) => res matches Err(reply) && reply@ == refusal,
            None => res matches Ok(call) && asks_about_screenshot(call, *config, key@, *request),
        },
{
    let image = trim(request.image.as_str());
    if !starts_with(image, "data:image/") {
        return Err(
            Reply {
                status: 400,
                payload: plain_failure("expected a data:image/... URL from the browser"),
            },
        );
    }
    if image.as_bytes().len() / 4 * 3 > MAX_IMAGE_BYTES {
        return Err(Reply { status: 413, payload: failure("截图太大", "控制在 8 MB 以内") });
    }
    Ok(
        chat_completion(
            config.vision_base.as_str(),
            key,
            90,
            choose_model(&request.model, config.vision_model.as_str()),
            2400,
            false,
            VISION_SYSTEM_PROMPT,
            ask_about(image),
        ),
    )
}

/// The answer to the browser once the vision model was asked about a screenshot.
pub fn screenshot_reply(
    config: &Config,
    request: &VisionRequest,
    outcome: Outcome,
    latency_ms: u64,
) -> (res: Reply)
    ensures
        res@ == screenshot_answer(*config, *request, outcome, latency_ms),
{
    let model = choose_model(&request.model, config.vision_model.as_str());
    recognition_reply(outcome, "vision", model, latency_ms)
}

/// Why a transcript is turned away, where it is.
pub open spec fn transcript_refusal(text: Seq<char>) -> Option<(u16, Tree)> {
    if text.len() == 0 {
        Some((400u16, failure_tree("没有内容"@, "先粘贴一段聊天记录"@)))
    } else if text.len() > MAX_IMPORT_CHARS {
        Some(
            (
                413u16,
                failure_tree("内容太长"@, "控制在 20000 字以内，只贴相关的那一段就够了"@),
            ),
        )
    } else {
        None
    }
}

/// The request that has a transcript split, or the answer to the browser where it is turned
/// away. The text model does it: splitting needs neither eyes nor thought.
pub fn read_transcript(config: &Config, key: &str, request: &ImportRequest) -> (res: Result<
    Call,
    Reply,
>)
    ensures
        match transcript_refusal(trimmed(request.text@)) {
            Some(refusal) => res matches Err(reply) && reply@ == refusal,
            None => res matches Ok(call) && asks_about_transcript(call, *config, key@, *request),
        },
{
    let text = trim(request.text.as_str());
    if text.is_empty() {
        return Err(Reply { status: 400, payload: failure("没有内容", "先粘贴一段聊天记录") });
    }
    if text.unicode_len() > MAX_IMPORT_CHARS {
        return Err(
            Reply {
                status: 413,
                payload: failure(
                    "内容太长",
                    "控制在 20000 字以内，只贴相关的那一段就够了",
                ),
            },
        );
    }
    Ok(
        chat_completion(
            config.draft_base.as_str(),
            key,
            60,
            choose_model(&request.model, config.draft_model.as_str()),
            4000,
            false,
            IMPORT_SYSTEM_PROMPT,
            Json::text(text),
        ),
    )
}

/// The answer to the browser once the text model was asked to split a transcript. It has the
/// form of an answer on a screenshot.
pub fn transcript_reply(
    config: &Config,
    request: &ImportRequest,
    outcome: Outcome,
    latency_ms: u64,
) -> (res: Reply)
    ensures
        res@ == transcript_answer(*config, *request, outcome, latency_ms),
{
    let model = choose_model(&request.model, config.draft_model.as_str());
    recognition_reply(outcome, "import", model, latency_ms)
}

proof fn kept_lines_rise(list: Seq<Tree>)
    requires
        list.len() <= u64::MAX,
    ensures
        kept_lines(list).len() == kept_turns(list).len(),
        forall|i: int| 0 <= i < kept_lines(list).len() ==> 1 <= #[trigger] kept_lines(list)[i] <= list.len(),
        forall|i: int, j: int|
            0 <= i < j < kept_lines(list).len() ==> kept_lines(list)[i] < kept_lines(list)[j],
        forall|i: int|
            0 <= i < kept_lines(list).len() ==> turn_in(list[#[trigger] kept_lines(list)[i] - 1])
                == Some(kept_turns(list)[i]),
    decreases list.len(),
{
    if list.len() > 0 {
        let before = list.drop_last();
        kept_lines_rise(before);
        assert forall|i: int| 0 <= i < kept_lines(list).len() implies turn_in(
            list[#[trigger] kept_lines(list)[i] - 1],
        ) == Some(kept_turns(list)[i]) by {
            if i < kept_lines(before).len() {
                assert(kept_lines(list)[i] == kept_lines(before)[i]);
                assert(kept_turns(list)[i] == kept_turns(before)[i]);
                assert(list[kept_lines(before)[i] - 1] == before[kept_lines(before)[i] - 1]);
            }
        }
    }
}

/// Each row that is shown is the turn of one item of the list, whose number is known; the rows
/// stand in the order of the list.
pub proof fn rows_come_from_their_lines(list: Seq<Tree>, row: int)
    requires
        list.len() <= u64::MAX,
        0 <= row < kept_turns(list).len(),
    ensures
        kept_lines(list).len() == kept_turns(list).len(),
        1 <= kept_lines(list)[row] <= list.len(),
        turn_in(list[kept_lines(list)[row] - 1]) == Some(kept_turns(list)[row]),
        forall|later: int|
            row < later < kept_lines(list).len() ==> kept_lines(list)[row] < kept_lines(list)[later],
{
    kept_lines_rise(list);
}

/// A row that is shown carries a flag if and only if the model flagged the item that the row
/// came from, however many blank items were dropped before it.
pub proof fn flag_follows_its_turn(tree: Tree, list: Seq<Tree>, row: int)
    requires
        list.len() <= u64::MAX,
        0 <= row < kept_turns(list).len(),
    ensures
        uncertain_rows(tree, kept_lines(list)).contains((row + 1) as u64)
            <==> uncertain_lines(tree).contains(kept_lines(list)[row]),
{
    kept_lines_rise(list);
    let lines = kept_lines(list);
    let n = (row + 1) as u64;
    kept_count(list);
    flag_marks_its_row(uncertain_lines(tree), lines, n);
    assert(n - 1 == row);
}

proof fn kept_count(list: Seq<Tree>)
    ensures
        kept_lines(list).len() <= list.len(),
        kept_lines(list).len() == kept_turns(list).len(),
    decreases list.len(),
{
    if list.len() > 0 {
        kept_count(list.drop_last());
    }
}

/// No flag points beyond the rows that are shown.
pub proof fn flags_stay_in_range(tree: Tree, list: Seq<Tree>, n: u64)
    requires
        list.len() <= u64::MAX,
        uncertain_rows(tree, kept_lines(list)).contains(n),
    ensures
        1 <= n <= kept_turns(list).len(),
{
    kept_count(list);
    flag_marks_its_row(uncertain_lines(tree), kept_lines(list), n);
}

/// Every turn that is kept has a text that is not blank, and its speaker is `me` where the
/// model said so in so many words, and `other` in every other case.
pub proof fn turns_are_complete(item: Tree)
    requires
        turn_in(item) is Some,
    ensures
        turn_in(item)->0.text_at("text"@) is Some,
        turn_in(item)->0.text_at("text"@)->0.len() > 0,
        trimmed(turn_in(item)->0.text_at("text"@)->0) == turn_in(item)->0.text_at("text"@)->0,
        turn_in(item)->0.text_at("speaker"@) == Some(
            if item.text_at("speaker"@) == Some("me"@) {
                "me"@
            } else {
                "other"@
            },
        ),
{
    reveal_strlit("speaker");
    reveal_strlit("name");
    reveal_strlit("text");
    let text = trimmed(item.text_at("text"@)->0);
    trimming_is_thorough(item.text_at("text"@)->0, Class::Space);
    let speaker = Tree::Text(
        if item.text_at("speaker"@) == Some("me"@) {
            "me"@
        } else {
            "other"@
        },
    );
    let name = Tree::Text(
        trimmed(
            match item.text_at("name"@) {
                Some(name) => name,
                None => ""@,
            },
        ),
    );
    let first = Tree::object().with("speaker"@, speaker);
    let second = first.with("name"@, name);
    assert("speaker"@.len() == 7 && "name"@.len() == 4 && "text"@.len() == 4);
    assert("name"@[0] == 'n' && "text"@[0] == 't');
    get_after_with(Tree::object(), "speaker"@, speaker, "speaker"@);
    get_after_with(first, "name"@, name, "speaker"@);
    get_after_with(second, "text"@, Tree::Text(text), "speaker"@);
}

/// A turn keeps the whole of its text and its name, but for white space at their ends: nothing
/// inside them goes, line breaks neither. An item without a text, or with a blank one, is no turn;
/// every other item is.
pub proof fn turn_keeps_its_text_and_name(item: Tree, text: Seq<char>, other: Seq<char>)
    ensures
        item.get("text"@) == Some(Tree::Text(text)) && trimmed(text).len() > 0 ==> ({
            let turn = turn_in(item)->0;
            &&& turn_in(item) is Some
            &&& turn.is_object()
            &&& turn.text_at("text"@) == Some(trimmed(text))
            &&& item.text_at("name"@) matches Some(name) ==> turn.text_at("name"@) == Some(trimmed(name))
            &&& item.text_at("name"@) is None ==> turn.text_at("name"@) == Some(Seq::<char>::empty())
            &&& item.text_at("speaker"@) == Some("me"@) ==> turn.text_at("speaker"@) == Some("me"@)
            &&& item.text_at("speaker"@) != Some("me"@) ==> turn.text_at("speaker"@) == Some("other"@)
            &&& turn.get(other) is Some <==> other == "speaker"@ || other == "name"@ || other == "text"@
        }),
        item.get("text"@) == Some(Tree::Text(text)) && trimmed(text).len() == 0 ==> turn_in(
            item,
        ) is None,
        item.text_at("text"@) is None ==> turn_in(item) is None,
{
    broadcast use {field_after_with, object_after_with, empty_object};

    reveal_strlit("speaker");
    reveal_strlit("name");
    reveal_strlit("text");
    assert({
        &&& "speaker"@.len() == 7
        &&& "name"@.len() == 4
        &&& "text"@.len() == 4
    });
    assert({
        &&& "name"@[0] == 'n'
        &&& "text"@[0] == 't'
    });
    reveal_strlit("");
    assert(""@.len() == 0);
    assert(trimmed(""@) == Seq::<char>::empty());
}

/// The turns of a list are those of its parts, one after the other: an item that is a turn gives
/// it, and any other item gives none.
pub proof fn turns_go_item_by_item(front: Seq<Tree>, back: Seq<Tree>, item: Tree)
    ensures
        kept_turns(front + back) == kept_turns(front) + kept_turns(back),
        turn_in(item) matches Some(turn) ==> kept_turns(seq![item]) == seq![turn],
        turn_in(item) is None ==> kept_turns(seq![item]).len() == 0,
    decreases back.len(),
{
    assert(seq![item].drop_last() == Seq::<Tree>::empty());
    assert(seq![item].last() == item);
    assert(kept_turns(Seq::<Tree>::empty()) == Seq::<Tree>::empty());
    if back.len() == 0 {
        assert(front + back == front);
    } else {
        assert((front + back).drop_last() == front + back.drop_last());
        assert((front + back).last() == back.last());
        turns_go_item_by_item(front, back.drop_last(), item);
    }
}

/// Every turn of a list has its row, which knows the number of the item that it came from.
pub proof fn every_turn_has_its_row(list: Seq<Tree>, i: int) -> (row: int)
    requires
        list.len() <= u64::MAX,
        0 <= i < list.len(),
        turn_in(list[i]) is Some,
    ensures
        0 <= row < kept_turns(list).len(),
        kept_turns(list).len() == kept_lines(list).len(),
        turn_in(list[i]) == Some(kept_turns(list)[row]),
        kept_lines(list)[row] == i + 1,
    decreases list.len(),
{
    kept_count(list);
    let front = list.drop_last();
    kept_count(front);
    if i == list.len() - 1 {
        kept_turns(front).len() as int
    } else {
        assert(front[i] == list[i]);
        every_turn_has_its_row(front, i)
    }
}

/// The items that turns are read from are those of the turn list that was found; without one
/// there are none.
pub proof fn found_list_is_read(tree: Tree, items: Seq<Tree>)
    ensures
        turns_in(tree) == Some(items) ==> turn_items(tree) == items,
        turns_in(tree) is None ==> turn_items(tree).len() == 0,
{
}

/// What the browser is answered where turns were found: all of them, the flags on their rows, the
/// model's note or none, the model, the usage and the time, and nothing else.
pub proof fn turns_are_answered(
    completion: Tree,
    content: Seq<char>,
    tree: Tree,
    label: Seq<char>,
    fallback_model: Seq<char>,
    latency_ms: u64,
    other: Seq<char>,
)
    requires
        kept_turns(turn_items(tree)).len() > 0,
    ensures
        ({
            let (status, payload) = recognised(
                completion,
                content,
                Ok(tree),
                label,
                fallback_model,
                latency_ms,
            );
            &&& status == 200
            &&& payload.get("conversation"@) == Some(Tree::Array(kept_turns(turn_items(tree))))
            &&& payload.get("uncertain"@) == Some(
                Tree::Array(number_trees(uncertain_rows(tree, kept_lines(turn_items(tree))))),
            )
            &&& text_in(tree, "note"@) matches Some(note) ==> payload.text_at("note"@) == Some(note)
            &&& text_in(tree, "note"@) is None ==> payload.text_at("note"@) == Some(
                Seq::<char>::empty(),
            )
            &&& completion.get("model"@) is Some ==> payload.get("model"@) == completion.get("model"@)
            &&& completion.get("model"@) is None ==> payload.text_at("model"@) == Some(fallback_model)
            &&& completion.get("usage"@) is Some ==> payload.get("usage"@) == completion.get("usage"@)
            &&& completion.get("usage"@) is None ==> payload.get("usage"@) == Some(Tree::Null)
            &&& payload.get("latency_ms"@) == Some(Tree::Unsigned(latency_ms))
            &&& payload.get(other) is Some ==> other == "conversation"@ || other == "uncertain"@ || other
                == "note"@ || other == "model"@ || other == "usage"@ || other == "latency_ms"@
        }),
{
    broadcast use {field_after_with, object_after_with, empty_object};

    reveal_strlit("conversation");
    reveal_strlit("uncertain");
    reveal_strlit("note");
    reveal_strlit("model");
    reveal_strlit("usage");
    reveal_strlit("latency_ms");
    assert({
        &&& "conversation"@.len() == 12
        &&& "uncertain"@.len() == 9
        &&& "note"@.len() == 4
        &&& "model"@.len() == 5
        &&& "usage"@.len() == 5
        &&& "latency_ms"@.len() == 10
    });
    assert({
        &&& "model"@[0] == 'm'
        &&& "usage"@[0] == 'u'
    });
    reveal_strlit("");
    assert(""@ == Seq::<char>::empty());
}

/// What the browser is answered where the content was no JSON, or held no turn: an error that
/// says so, with the content as it came.
pub proof fn missing_turns_are_answered(
    completion: Tree,
    content: Seq<char>,
    tree: Tree,
    detail: Seq<char>,
    label: Seq<char>,
    fallback_model: Seq<char>,
    latency_ms: u64,
)
    ensures
        ({
            let (status, payload) = recognised(
                completion,
                content,
                Err(detail),
                label,
                fallback_model,
                latency_ms,
            );
            &&& status == 502
            &&& payload.text_at("error"@) == Some(label + " content was not JSON"@)
            &&& payload.text_at("detail"@) == Some(detail)
            &&& payload.text_at("raw"@) == Some(content)
        }),
        kept_turns(turn_items(tree)).len() == 0 ==> ({
            let (status, payload) = recognised(
                completion,
                content,
                Ok(tree),
                label,
                fallback_model,
                latency_ms,
            );
            &&& status == 502
            &&& payload.text_at("error"@) == Some("没有识别出任何消息"@)
            &&& payload.text_at("detail"@) == Some(label)
            &&& payload.text_at("raw"@) == Some(content)
        }),
{
    broadcast use {field_after_with, object_after_with, empty_object};

    reveal_strlit("error");
    reveal_strlit("detail");
    reveal_strlit("raw");
    assert({
        &&& "error"@.len() == 5
        &&& "detail"@.len() == 6
        &&& "raw"@.len() == 3
    });
}

/// A message that the model read reaches the browser: an item with a text that is not blank gives
/// a row with that text, whole but for white space at its ends; and the row is flagged if and
/// only if the model flagged the item.
pub proof fn message_reaches_the_browser(
    completion: Tree,
    content: Seq<char>,
    tree: Tree,
    label: Seq<char>,
    fallback_model: Seq<char>,
    latency_ms: u64,
    i: int,
    text: Seq<char>,
) -> (row: int)
    requires
        turn_items(tree).len() <= u64::MAX,
        0 <= i < turn_items(tree).len(),
        turn_items(tree)[i].get("text"@) == Some(Tree::Text(text)),
        trimmed(text).len() > 0,
    ensures
        ({
            let (status, payload) = recognised(
                completion,
                content,
                Ok(tree),
                label,
                fallback_model,
                latency_ms,
            );
            let rows = payload.get("conversation"@)->0->Array_0;
            let flags = payload.get("uncertain"@)->0->Array_0;
            &&& status == 200
            &&& payload.get("conversation"@) is Some
            &&& 0 <= row < rows.len()
            &&& rows[row].text_at("text"@) == Some(trimmed(text))
            &&& flags.contains(Tree::Unsigned((row + 1) as u64)) <==> uncertain_lines(tree).contains(
                (i + 1) as u64,
            )
        }),
{
    let list = turn_items(tree);
    turn_keeps_its_text_and_name(list[i], text, "text"@);
    let row = every_turn_has_its_row(list, i);
    turns_are_answered(completion, content, tree, label, fallback_model, latency_ms, "text"@);
    kept_count(list);
    flag_follows_its_turn(tree, list, row);
    let numbers = uncertain_rows(tree, kept_lines(list));
    let n = (row + 1) as u64;
    assert(number_trees(numbers).contains(Tree::Unsigned(n)) <==> numbers.contains(n)) by {
        if numbers.contains(n) {
            let k = choose|k: int| 0 <= k < numbers.len() && numbers[k] == n;
            assert(number_trees(numbers)[k] == Tree::Unsigned(n));
        }
        if number_trees(numbers).contains(Tree::Unsigned(n)) {
            let k = choose|k: int|
                0 <= k < number_trees(numbers).len() && number_trees(numbers)[k] == Tree::Unsigned(n);
            assert(numbers[k] == n);
        }
    }
    row
}

/// What is read is the content of the completion, without its fence; a completion without one is
/// an error, with the completion as its detail.
pub proof fn content_is_what_is_read(
    completion: Tree,
    content: Seq<char>,
    label: Seq<char>,
    fallback_model: Seq<char>,
    latency_ms: u64,
)
    ensures
        content_in(completion) == Some(content) ==> recognition(
            completion,
            label,
            fallback_model,
            latency_ms,
        ) == recognised(
            completion,
            content,
            parsed_json(unfenced(content)),
            label,
            fallback_model,
            latency_ms,
        ),
        content_in(completion) is None ==> ({
            let (status, payload) = recognition(completion, label, fallback_model, latency_ms);
            &&& status == 502
            &&& payload.text_at("error"@) == Some(label + " response had no content"@)
            &&& payload.text_at("detail"@) == Some(json_text(completion))
        }),
{
    failure_says_what_failed(label + " response had no content"@, json_text(completion), label);
}

/// A completion is answered by what was recognised in it, and a call that failed by its error.
pub proof fn answer_follows_the_call(
    completion: Json,
    outcome: Outcome,
    label: Seq<char>,
    fallback_model: Seq<char>,
    latency_ms: u64,
)
    ensures
        recognition_answer(Outcome::Body(completion), label, fallback_model, latency_ms) == recognition(
            completion@,
            label,
            fallback_model,
            latency_ms,
        ),
        !(outcome is Body) ==> ({
            let (status, payload) = recognition_answer(outcome, label, fallback_model, latency_ms);
            status == 502 && chat_tree(label, outcome) == Err::<Tree, Tree>(payload)
        }),
{
}

/// The vision model is sent one line of text and the image as it came, and nothing else.
pub proof fn image_is_shown_to_the_model(image: Seq<char>)
    ensures
        ({
            let parts = screenshot_question(image)->Array_0;
            &&& screenshot_question(image) is Array
            &&& parts.len() == 2
            &&& parts[0].text_at("type"@) == Some("text"@)
            &&& parts[0].text_at("text"@) == Some("请读出这张截图里的对话。"@)
            &&& parts[1].text_at("type"@) == Some("image_url"@)
            &&& parts[1].get("image_url"@)->0.text_at("url"@) == Some(image)
        }),
{
    broadcast use {field_after_with, object_after_with, empty_object};

    reveal_strlit("type");
    reveal_strlit("text");
    reveal_strlit("image_url");
    reveal_strlit("url");
    assert({
        &&& "type"@.len() == 4
        &&& "text"@.len() == 4
        &&& "image_url"@.len() == 9
        &&& "url"@.len() == 3
    });
    assert({
        &&& "type"@[1] == 'y'
        &&& "text"@[1] == 'e'
    });
}

/// A screenshot is taken if and only if it is a data URL of an image and is not too large: three
/// quarters of its length come to eight megabytes at most. What is no image is told so first.
pub proof fn only_bearable_images_are_taken(image: Seq<char>)
    ensures
        ({
            let is_image = begins_with(image, "data:image/"@);
            let large = vstd::utf8::encode_utf8(image).len() / 4 * 3 > 8388608;
            &&& screenshot_refusal(image) is None <==> is_image && !large
            &&& !is_image ==> (screenshot_refusal(image) matches Some((status, payload)) && status == 400
                && payload.text_at("error"@) == Some("expected a data:image/... URL from the browser"@))
            &&& is_image && large ==> (screenshot_refusal(image) matches Some((status, payload)) && status
                == 413 && payload.text_at("error"@) == Some("截图太大"@) && payload.text_at("detail"@)
                == Some("控制在 8 MB 以内"@))
        }),
{
    let none = Seq::<char>::empty();
    failure_says_what_failed("expected a data:image/... URL from the browser"@, none, none);
    failure_says_what_failed("截图太大"@, "控制在 8 MB 以内"@, none);
}

/// A transcript is taken if and only if it has from one to twenty thousand characters.
pub proof fn only_bearable_transcripts_are_taken(text: Seq<char>)
    ensures
        transcript_refusal(text) is None <==> 1 <= text.len() <= 20000,
        text.len() == 0 ==> (transcript_refusal(text) matches Some((status, payload)) && status == 400
            && payload.text_at("error"@) == Some("没有内容"@) && payload.text_at("detail"@) == Some(
            "先粘贴一段聊天记录"@,
        )),
        text.len() > 20000 ==> (transcript_refusal(text) matches Some((status, payload)) && status == 413
            && payload.text_at("error"@) == Some("内容太长"@) && payload.text_at("detail"@) == Some(
            "控制在 20000 字以内，只贴相关的那一段就够了"@,
        )),
{
    let none = Seq::<char>::empty();
    failure_says_what_failed("没有内容"@, "先粘贴一段聊天记录"@, none);
    failure_says_what_failed("内容太长"@, "控制在 20000 字以内，只贴相关的那一段就够了"@, none);
}

/// Whether a call asks the vision model about a screenshot.
pub open spec fn asks_about_screenshot(
    call: Call,
    config: Config,
    key: Seq<char>,
    request: VisionRequest,
) -> bool {
    call.posts(
        config.vision_base@ + "/chat/completions"@,
        key,
        90,
        chat_body(
            chosen_model(request.model, config.vision_model@),
            2400,
            false,
            VISION_SYSTEM_PROMPT@,
            screenshot_question(trimmed(request.image@)),
        ),
    )
}

/// A screenshot goes to the vision model that was chosen, with the caller's key: whole but for
/// white space at its ends, behind the prompt, and without thinking.
pub proof fn screenshot_is_asked_about(
    call: Call,
    config: Config,
    key: Seq<char>,
    request: VisionRequest,
)
    requires
        asks_about_screenshot(call, config, key, request),
    ensures
        ({
            let body = call.body->0@;
            let messages = body.get("messages"@)->0->Array_0;
            let parts = messages[1].get("content"@)->0->Array_0;
            &&& call.url@ == config.vision_base@ + "/chat/completions"@
            &&& call.authorization@ == "Bearer "@ + key
            &&& call.timeout_seconds == 90
            &&& call.body is Some
            &&& body.text_at("model"@) == Some(chosen_model(request.model, config.vision_model@))
            &&& body.get("max_tokens"@) == Some(Tree::Unsigned(2400))
            &&& body.get("reasoning"@)->0.get("enabled"@) == Some(Tree::Bool(false))
            &&& messages.len() == 2
            &&& messages[0].text_at("role"@) == Some("system"@)
            &&& messages[0].text_at("content"@) == Some(VISION_SYSTEM_PROMPT@)
            &&& messages[1].text_at("role"@) == Some("user"@)
            &&& parts.len() == 2
            &&& parts[1].get("image_url"@)->0.text_at("url"@) == Some(trimmed(request.image@))
        }),
{
    chat_is_sent_prompt_and_content(
        chosen_model(request.model, config.vision_model@),
        2400,
        false,
        VISION_SYSTEM_PROMPT@,
        screenshot_question(trimmed(request.image@)),
        key,
    );
    image_is_shown_to_the_model(trimmed(request.image@));
}

/// Whether a call asks the text model to split a transcript.
pub open spec fn asks_about_transcript(
    call: Call,
    config: Config,
    key: Seq<char>,
    request: ImportRequest,
) -> bool {
    call.posts(
        config.draft_base@ + "/chat/completions"@,
        key,
        60,
        chat_body(
            chosen_model(request.model, config.draft_model@),
            4000,
            false,
            IMPORT_SYSTEM_PROMPT@,
            Tree::Text(trimmed(request.text@)),
        ),
    )
}

/// A transcript goes to the text model that was chosen, with the caller's key: whole but for white
/// space at its ends, behind the prompt, and without thinking.
pub proof fn transcript_is_asked_about(
    call: Call,
    config: Config,
    key: Seq<char>,
    request: ImportRequest,
)
    requires
        asks_about_transcript(call, config, key, request),
    ensures
        ({
            let body = call.body->0@;
            let messages = body.get("messages"@)->0->Array_0;
            &&& call.url@ == config.draft_base@ + "/chat/completions"@
            &&& call.authorization@ == "Bearer "@ + key
            &&& call.timeout_seconds == 60
            &&& call.body is Some
            &&& body.text_at("model"@) == Some(chosen_model(request.model, config.draft_model@))
            &&& body.get("max_tokens"@) == Some(Tree::Unsigned(4000))
            &&& body.get("reasoning"@)->0.get("enabled"@) == Some(Tree::Bool(false))
            &&& messages.len() == 2
            &&& messages[0].text_at("role"@) == Some("system"@)
            &&& messages[0].text_at("content"@) == Some(IMPORT_SYSTEM_PROMPT@)
            &&& messages[1].text_at("role"@) == Some("user"@)
            &&& messages[1].text_at("content"@) == Some(trimmed(request.text@))
        }),
{
    chat_is_sent_prompt_and_content(
        chosen_model(request.model, config.draft_model@),
        4000,
        false,
        IMPORT_SYSTEM_PROMPT@,
        Tree::Text(trimmed(request.text@)),
        key,
    );
}

/// The answer to the browser on a screenshot.
pub open spec fn screenshot_answer(
    config: Config,
    request: VisionRequest,
    outcome: Outcome,
    latency_ms: u64,
) -> (u16, Tree) {
    recognition_answer(
        outcome,
        "vision"@,
        chosen_model(request.model, config.vision_model@),
        latency_ms,
    )
}

/// The answer to the browser on a transcript.
pub open spec fn transcript_answer(
    config: Config,
    request: ImportRequest,
    outcome: Outcome,
    latency_ms: u64,
) -> (u16, Tree) {
    recognition_answer(
        outcome,
        "import"@,
        chosen_model(request.model, config.draft_model@),
        latency_ms,
    )
}

/// Each of the two readings is answered under its own label: an error of the call begins with it,
/// and where a completion names no model, the one that was chosen for this reading stands in.
pub proof fn readings_keep_their_labels(
    config: Config,
    image: VisionRequest,
    text: ImportRequest,
    outcome: Outcome,
    latency_ms: u64,
)
    ensures
        !(outcome is Body) ==> ({
            let vision = screenshot_answer(config, image, outcome, latency_ms);
            let import = transcript_answer(config, text, outcome, latency_ms);
            &&& vision.0 == 502 && import.0 == 502
            &&& vision.1.text_at("error"@) matches Some(error) && begins_with(error, "vision "@)
            &&& import.1.text_at("error"@) matches Some(error) && begins_with(error, "import "@)
        }),
        outcome matches Outcome::Body(completion) ==> ({
            let vision = screenshot_answer(config, image, outcome, latency_ms);
            let import = transcript_answer(config, text, outcome, latency_ms);
            &&& vision.0 == 200 <==> import.0 == 200
            &&& vision.0 == 200 ==> vision.1.get("conversation"@) == import.1.get("conversation"@)
            &&& vision.0 == 200 ==> vision.1.get("uncertain"@) == import.1.get("uncertain"@)
            &&& vision.0 == 200 && completion@.get("model"@) is None ==> vision.1.text_at("model"@)
                == Some(chosen_model(image.model, config.vision_model@)) && import.1.text_at("model"@)
                == Some(chosen_model(text.model, config.draft_model@))
        }),
{
    match outcome {
        Outcome::Body(completion) => {
            if let Some(content) = content_in(completion@) {
                if let Ok(tree) = parsed_json(unfenced(content)) {
                    if kept_turns(turn_items(tree)).len() > 0 {
                        let none = Seq::<char>::empty();
                        turns_are_answered(
                            completion@,
                            content,
                            tree,
                            "vision"@,
                            chosen_model(image.model, config.vision_model@),
                            latency_ms,
                            none,
                        );
                        turns_are_answered(
                            completion@,
                            content,
                            tree,
                            "import"@,
                            chosen_model(text.model, config.draft_model@),
                            latency_ms,
                            none,
                        );
                    }
                }
            }
        },
        _ => {
            error_names_its_step("vision"@, outcome);
            error_names_its_step("import"@, outcome);
            reveal_strlit("vision");
            reveal_strlit("vision ");
            reveal_strlit("import");
            reveal_strlit("import ");
            reveal_strlit(" ");
            assert("vision"@ + " "@ == "vision "@);
            assert("import"@ + " "@ == "import "@);
        },
    }
}

} // verus!
