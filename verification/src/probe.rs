//! Checking a key without spending anything.
use vstd::prelude::*;

use crate::config::Config;
use crate::exchange::{failure, failure_tree, get, Call, Outcome, Reply};
use crate::json::{empty_object, field_after_with, object_after_with, Json, Tree};
use crate::text::{decimal, digits_of, join};

verus! {

/// The request that checks a key.
pub fn probe_call(config: &Config, key: &str) -> (res: Call)
    ensures
        res.gets(config.draft_base@ + "/key"@, key@, 20),
{
    get(join(config.draft_base.as_str(), "/key"), key, 20)
}

/// What the service knows of a key: what stands under `data`, or the whole answer.
pub open spec fn key_data(answer: Tree) -> Tree {
    match answer.get("data"@) {
        Some(data) => data,
        None => answer,
    }
}

/// The value under a key, or null.
pub open spec fn field_or_null(tree: Tree, key: Seq<char>) -> Tree {
    match tree.get(key) {
        Some(value) => value,
        None => Tree::Null,
    }
}

fn copy_field(value: &Json, key: &str) -> (res: Json)
    ensures
        res@ == field_or_null(value@, key@),
{
    match value.get(key) {
        Some(field) => field.duplicate(),
        None => Json::Null,
    }
}

/// The payload for a key that works: its label, and the credit that is left on it.
pub open spec fn working_key(answer: Tree) -> Tree {
    let data = key_data(answer);
    Tree::object().with("ok"@, Tree::Bool(true)).with(
        "label"@,
        Tree::Text(
            match data.text_at("label"@) {
                Some(label) => label,
                None => ""@,
            },
        ),
    ).with("usage"@, field_or_null(data, "usage"@)).with("limit"@, field_or_null(data, "limit"@)).with(
        "limit_remaining"@,
        field_or_null(data, "limit_remaining"@),
    ).with("is_free_tier"@, field_or_null(data, "is_free_tier"@))
}

/// The payload for a key that does not work.
pub open spec fn failing_key(error: Seq<char>) -> Tree {
    Tree::object().with("ok"@, Tree::Bool(false)).with("error"@, Tree::Text(error))
}

fn report_failing(error: &str) -> (res: Json)
    ensures
        res@ == failing_key(error@),
{
    Json::object().with("ok", Json::Bool(false)).with("error", Json::text(error))
}

/// The answer to the browser. That a key does not work is no error of the check: it is
/// reported, with the reason, so that a wrong key shows at once.
pub fn probe_reply(outcome: Outcome) -> (res: Reply)
    ensures
        res@ == probe_answer(outcome),
{
    match outcome {
        Outcome::Body(answer) => {
            let data = match answer.get("data") {
                Some(data) => data,
                None => &answer,
            };
            let label = match data.str_at("label") {
                Some(label) => label,
                None => "",
            };
            Reply {
                status: 200,
                payload: Json::object().with("ok", Json::Bool(true)).with(
                    "label",
                    Json::text(label),
                ).with("usage", copy_field(data, "usage")).with(
                    "limit",
                    copy_field(data, "limit"),
                ).with("limit_remaining", copy_field(data, "limit_remaining")).with(
                    "is_free_tier",
                    copy_field(data, "is_free_tier"),
                ),
            }
        },
        Outcome::Unreadable(detail) => Reply {
            status: 502,
            payload: failure("probe body invalid", detail.as_str()),
        },
        Outcome::Status(code, detail) => if code == 401 || code == 403 {
            Reply { status: 200, payload: report_failing("Key 无效或已被撤销") }
        } else {
            let error = join("上游返回 HTTP ", decimal(code as u64).as_str());
            Reply {
                status: 200,
                payload: report_failing(error.as_str()).with("detail", Json::Text(detail)),
            }
        },
        Outcome::Failed(detail) => Reply {
            status: 200,
            payload: report_failing("连接失败").with("detail", Json::Text(detail)),
        },
    }
}

/// What is known of a key stands under `data`, or is the whole answer where there is no `data`.
/// The browser is told its label, or an empty one, and the four figures as they came, or null.
pub proof fn working_key_is_reported(answer: Tree, data: Tree, other: Seq<char>)
    requires
        answer.get("data"@) == Some(data) || (answer.get("data"@) is None && data == answer),
    ensures
        ({
            let report = working_key(answer);
            &&& report.get("ok"@) == Some(Tree::Bool(true))
            &&& data.text_at("label"@) matches Some(label) ==> report.text_at("label"@) == Some(label)
            &&& data.text_at("label"@) is None ==> report.text_at("label"@) == Some(""@)
            &&& report.get(other) is Some <==> other == "ok"@ || other == "label"@ || other == "usage"@
                || other == "limit"@ || other == "limit_remaining"@ || other == "is_free_tier"@
            &&& (other == "usage"@ || other == "limit"@ || other == "limit_remaining"@ || other
                == "is_free_tier"@) && data.get(other) is Some ==> report.get(other) == data.get(other)
            &&& (other == "usage"@ || other == "limit"@ || other == "limit_remaining"@ || other
                == "is_free_tier"@) && data.get(other) is None ==> report.get(other) == Some(Tree::Null)
        }),
{
    broadcast use {field_after_with, object_after_with, empty_object};

    reveal_strlit("ok");
    reveal_strlit("label");
    reveal_strlit("usage");
    reveal_strlit("limit");
    reveal_strlit("limit_remaining");
    reveal_strlit("is_free_tier");
    assert({
        &&& "ok"@.len() == 2
        &&& "label"@.len() == 5
        &&& "usage"@.len() == 5
        &&& "limit"@.len() == 5
        &&& "limit_remaining"@.len() == 15
        &&& "is_free_tier"@.len() == 12
    });
    assert({
        &&& "label"@[0] == 'l'
        &&& "label"@[1] == 'a'
        &&& "usage"@[0] == 'u'
        &&& "limit"@[0] == 'l'
        &&& "limit"@[1] == 'i'
    });
}

/// The answer to the browser once a key was checked.
pub open spec fn probe_answer(outcome: Outcome) -> (u16, Tree) {
    match outcome {
        Outcome::Body(answer) => (200u16, working_key(answer@)),
        Outcome::Unreadable(detail) => (502u16, failure_tree("probe body invalid"@, detail@)),
        Outcome::Status(code, detail) => if code == 401 || code == 403 {
            (200u16, failing_key("Key 无效或已被撤销"@))
        } else {
            (
                200u16,
                failing_key("上游返回 HTTP "@ + digits_of(code as nat)).with(
                    "detail"@,
                    Tree::Text(detail@),
                ),
            )
        },
        Outcome::Failed(detail) => (
            200u16,
            failing_key("连接失败"@).with("detail"@, Tree::Text(detail@)),
        ),
    }
}

/// A key is reported to work if and only if the service answered with what it knows of it. Where
/// it refused the key, the browser is told so; another refusal, and no answer at all, are told
/// with their reason; only an answer that cannot be read is an error of the check itself.
pub proof fn key_works_only_where_the_service_says_so(outcome: Outcome)
    ensures
        ({
            let (status, report) = probe_answer(outcome);
            &&& report.get("ok"@) == Some(Tree::Bool(true)) <==> outcome is Body
            &&& report.get("ok"@) == Some(Tree::Bool(false)) <==> outcome is Status || outcome is Failed
            &&& status == 502 <==> outcome is Unreadable
            &&& status == 200 <==> !(outcome is Unreadable)
            &&& outcome matches Outcome::Unreadable(detail) ==> report.text_at("error"@) == Some(
                "probe body invalid"@,
            ) && report.text_at("detail"@) == Some(detail@)
            &&& outcome matches Outcome::Failed(detail) ==> report.text_at("error"@) == Some(
                "连接失败"@,
            ) && report.text_at("detail"@) == Some(detail@)
            &&& outcome matches Outcome::Status(code, _) ==> (code == 401 || code == 403
                ==> report.text_at("error"@) == Some("Key 无效或已被撤销"@))
            &&& outcome matches Outcome::Status(code, detail) ==> (code != 401 && code != 403
                ==> report.text_at("error"@) == Some("上游返回 HTTP "@ + digits_of(code as nat))
                && report.text_at("detail"@) == Some(detail@))
        }),
{
    broadcast use {field_after_with, object_after_with, empty_object};

    reveal_strlit("ok");
    reveal_strlit("label");
    reveal_strlit("usage");
    reveal_strlit("limit");
    reveal_strlit("limit_remaining");
    reveal_strlit("is_free_tier");
    reveal_strlit("error");
    reveal_strlit("detail");
    assert({
        &&& "ok"@.len() == 2
        &&& "label"@.len() == 5
        &&& "usage"@.len() == 5
        &&& "limit"@.len() == 5
        &&& "limit_remaining"@.len() == 15
        &&& "is_free_tier"@.len() == 12
        &&& "error"@.len() == 5
        &&& "detail"@.len() == 6
    });
    assert({
        &&& "label"@[0] == 'l'
        &&& "label"@[1] == 'a'
        &&& "usage"@[0] == 'u'
        &&& "limit"@[0] == 'l'
        &&& "limit"@[1] == 'i'
        &&& "error"@[0] == 'e'
    });
}

} // verus!
