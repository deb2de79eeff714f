//! The questions that are put to the judge, and the prompts for the chat models.
//!
//! The set is kept on this side so that a browser cannot change it.
use vstd::prelude::*;

use crate::json::{
    empty_object, field_after_with, get_after_with, object_after_with, Json, Tree,
};
use crate::text::{decimal, digits_of, digits_tell_numbers_apart, join};

verus! {

/// What a question says: its type, its wording, and what each answer means.
pub open spec fn question_tree(kind: Seq<char>, instructions: Seq<char>, criteria: Tree) -> Tree {
    Tree::object().with("type"@, Tree::Text(kind)).with(
        "instructions"@,
        Tree::Text(instructions),
    ).with("criteria"@, criteria)
}

fn question(kind: &str, instructions: &str, criteria: Json) -> (res: Json)
    ensures
        res@ == question_tree(kind@, instructions@, criteria@),
{
    Json::object().with("type", Json::text(kind)).with("instructions", Json::text(instructions)).with(
        "criteria",
        criteria,
    )
}

/// What the other side's last messages are after.
pub open spec fn intent_criteria() -> Tree {
    Tree::object()
        .with("ask_info"@, Tree::Text("询问信息或确认事实"@))
        .with("request_action"@, Tree::Text("希望你去做某件事"@))
        .with("push_decision"@, Tree::Text("催促你表态或做决定"@))
        .with("complain"@, Tree::Text("表达不满、抱怨或指责"@))
        .with("socialize"@, Tree::Text("寒暄、闲聊或维持关系"@))
        .with("sell"@, Tree::Text("推销、拉人或营销"@))
        .with("probe_money"@, Tree::Text("试探钱财、账号、隐私或索要转账"@))
        .with("other"@, Tree::Text("以上都不匹配"@))
}

fn intent() -> (res: Json)
    ensures
        res@ == question_tree(
            "choice"@,
            "对方最后这几条消息的真实意图是什么？"@,
            intent_criteria(),
        ),
{
    question(
        "choice",
        "对方最后这几条消息的真实意图是什么？",
        intent_answers(),
    )
}

fn intent_answers() -> (res: Json)
    ensures
        res@ == intent_criteria(),
{
    Json::object()
        .with("ask_info", Json::text("询问信息或确认事实"))
        .with("request_action", Json::text("希望你去做某件事"))
        .with("push_decision", Json::text("催促你表态或做决定"))
        .with("complain", Json::text("表达不满、抱怨或指责"))
        .with("socialize", Json::text("寒暄、闲聊或维持关系"))
        .with("sell", Json::text("推销、拉人或营销"))
        .with("probe_money", Json::text("试探钱财、账号、隐私或索要转账"))
        .with("other", Json::text("以上都不匹配"))
}

/// Each band names concrete things that must appear in the text: bands that are
/// abstract are hard to tell apart.
pub open spec fn danger_criteria() -> Tree {
    Tree::Array(
        seq![
            Tree::Text("只是交换信息或闲聊，没有出现承诺、钱财、权限、个人信息"@),
            Tree::Text("出现了时间安排或工作交付的约定，属于日常范围"@),
            Tree::Text("要求你承诺具体结果，或出现了金额、合同、账号权限、私人信息"@),
            Tree::Text("索要转账、验证码、账号密码，或用身份与时限逼你立刻照做"@),
        ],
    )
}

fn danger() -> (res: Json)
    ensures
        res@ == question_tree(
            "score"@,
            "这段对话触及了哪一类需要谨慎对待的内容？只看对话里实际出现的东西。"@,
            danger_criteria(),
        ),
{
    question(
        "score",
        "这段对话触及了哪一类需要谨慎对待的内容？只看对话里实际出现的东西。",
        danger_answers(),
    )
}

fn danger_answers() -> (res: Json)
    ensures
        res@ == danger_criteria(),
{
    let mut bands: Vec<Json> = Vec::new();
    bands.push(Json::text("只是交换信息或闲聊，没有出现承诺、钱财、权限、个人信息"));
    bands.push(Json::text("出现了时间安排或工作交付的约定，属于日常范围"));
    bands.push(Json::text("要求你承诺具体结果，或出现了金额、合同、账号权限、私人信息"));
    bands.push(Json::text("索要转账、验证码、账号密码，或用身份与时限逼你立刻照做"));
    let res = Json::Array(bands);
    assert(res@->Array_0 == danger_criteria()->Array_0);
    res
}

/// What the other side most wants to get.
pub open spec fn wants_criteria() -> Tree {
    Tree::object()
        .with("an_answer"@, Tree::Text("一个明确的答复或信息"@))
        .with("a_commitment"@, Tree::Text("一个承诺、时间点或表态"@))
        .with("an_action"@, Tree::Text("你实际去执行某件事"@))
        .with("emotional_response"@, Tree::Text("情绪上的回应、安慰或认同"@))
        .with("money_or_access"@, Tree::Text("钱、账号、权限或隐私信息"@))
        .with("nothing_specific"@, Tree::Text("没有具体诉求"@))
}

fn wants() -> (res: Json)
    ensures
        res@ == question_tree(
            "choice"@,
            "对方最想从你这里得到什么？"@,
            wants_criteria(),
        ),
{
    question(
        "choice",
        "对方最想从你这里得到什么？",
        wants_answers(),
    )
}

fn wants_answers() -> (res: Json)
    ensures
        res@ == wants_criteria(),
{
    Json::object()
        .with("an_answer", Json::text("一个明确的答复或信息"))
        .with("a_commitment", Json::text("一个承诺、时间点或表态"))
        .with("an_action", Json::text("你实际去执行某件事"))
        .with("emotional_response", Json::text("情绪上的回应、安慰或认同"))
        .with("money_or_access", Json::text("钱、账号、权限或隐私信息"))
        .with("nothing_specific", Json::text("没有具体诉求"))
}

/// Whether an answer is due at once.
pub open spec fn reply_now_criteria() -> Tree {
    Tree::object()
        .with("true"@, Tree::Text("对方在等答复，拖延会造成误解或损失"@))
        .with("false"@, Tree::Text("可以晚点回，或需要先想清楚、先去核实、甚至不该回"@))
}

fn reply_now() -> (res: Json)
    ensures
        res@ == question_tree(
            "noul"@,
            "现在是否应该立刻回复？"@,
            reply_now_criteria(),
        ),
{
    question(
        "noul",
        "现在是否应该立刻回复？",
        reply_now_answers(),
    )
}

fn reply_now_answers() -> (res: Json)
    ensures
        res@ == reply_now_criteria(),
{
    Json::object()
        .with("true", Json::text("对方在等答复，拖延会造成误解或损失"))
        .with("false", Json::text("可以晚点回，或需要先想清楚、先去核实、甚至不该回"))
}

/// Each option says what one actually does, and the options do not overlap.
pub open spec fn best_action_criteria() -> Tree {
    Tree::object()
        .with("comply"@, Tree::Text("照对方的要求去做，或把对方索要的信息直接给出"@))
        .with("comply_partly"@, Tree::Text("先给出手上能给的部分，同时说明还缺什么"@))
        .with("ask_clarify"@, Tree::Text("先反问，把对方的诉求或前提问清楚，这一轮不给结论"@))
        .with("buy_time"@, Tree::Text("只回应一句表示收到，把实际处理推到之后"@))
        .with("decline"@, Tree::Text("明确拒绝，或划清界限说明这件事不能做"@))
        .with("escalate"@, Tree::Text("交给别人处理，或换更正式的渠道留痕"@))
        .with("ignore"@, Tree::Text("不回复，不要接这个话头"@))
}

fn best_action() -> (res: Json)
    ensures
        res@ == question_tree(
            "choice"@,
            "此刻最合适的动作是什么？只看动作本身，不考虑措辞。"@,
            best_action_criteria(),
        ),
{
    question(
        "choice",
        "此刻最合适的动作是什么？只看动作本身，不考虑措辞。",
        best_action_answers(),
    )
}

fn best_action_answers() -> (res: Json)
    ensures
        res@ == best_action_criteria(),
{
    Json::object()
        .with("comply", Json::text("照对方的要求去做，或把对方索要的信息直接给出"))
        .with("comply_partly", Json::text("先给出手上能给的部分，同时说明还缺什么"))
        .with("ask_clarify", Json::text("先反问，把对方的诉求或前提问清楚，这一轮不给结论"))
        .with("buy_time", Json::text("只回应一句表示收到，把实际处理推到之后"))
        .with("decline", Json::text("明确拒绝，或划清界限说明这件事不能做"))
        .with("escalate", Json::text("交给别人处理，或换更正式的渠道留痕"))
        .with("ignore", Json::text("不回复，不要接这个话头"))
}

/// An observation on how the other side talks, not a recommendation on how to answer:
/// an observation has evidence in the transcript.
pub open spec fn counterpart_style_criteria() -> Tree {
    Tree::object()
        .with("casual"@, Tree::Text("口语化短句，有语气词、表情或玩笑，像熟人聊天"@))
        .with("businesslike"@, Tree::Text("直接说事、用词规范，典型的工作沟通口吻"@))
        .with("terse"@, Tree::Text("极简，只给结论或指令，不解释不铺垫"@))
        .with("emotional"@, Tree::Text("带明显情绪，出现抱怨、指责、反问或急切的表达"@))
}

fn counterpart_style() -> (res: Json)
    ensures
        res@ == question_tree(
            "choice"@,
            "对方在这段对话里的说话风格是哪一种？描述对方，不是建议你怎么回。"@,
            counterpart_style_criteria(),
        ),
{
    question(
        "choice",
        "对方在这段对话里的说话风格是哪一种？描述对方，不是建议你怎么回。",
        counterpart_style_answers(),
    )
}

fn counterpart_style_answers() -> (res: Json)
    ensures
        res@ == counterpart_style_criteria(),
{
    Json::object()
        .with("casual", Json::text("口语化短句，有语气词、表情或玩笑，像熟人聊天"))
        .with("businesslike", Json::text("直接说事、用词规范，典型的工作沟通口吻"))
        .with("terse", Json::text("极简，只给结论或指令，不解释不铺垫"))
        .with("emotional", Json::text("带明显情绪，出现抱怨、指责、反问或急切的表达"))
}

/// How much pressure the other side applies.
pub open spec fn pressure_criteria() -> Tree {
    Tree::Array(
        seq![
            Tree::Text("没有施压，正常交流"@),
            Tree::Text("有催促或期待，但可以商量"@),
            Tree::Text("强烈施压，用情绪或时限逼你表态"@),
        ],
    )
}

fn pressure() -> (res: Json)
    ensures
        res@ == question_tree(
            "score"@,
            "对方施加的压力有多大？"@,
            pressure_criteria(),
        ),
{
    question(
        "score",
        "对方施加的压力有多大？",
        pressure_answers(),
    )
}

fn pressure_answers() -> (res: Json)
    ensures
        res@ == pressure_criteria(),
{
    let mut bands: Vec<Json> = Vec::new();
    bands.push(Json::text("没有施压，正常交流"));
    bands.push(Json::text("有催促或期待，但可以商量"));
    bands.push(Json::text("强烈施压，用情绪或时限逼你表态"));
    let res = Json::Array(bands);
    assert(res@->Array_0 == pressure_criteria()->Array_0);
    res
}

/// The seven judgements. They are answered in one request, in parallel, and none can see the
/// answer to another, so none depends on another.
pub open spec fn judgement_tree() -> Tree {
    Tree::object().with(
        "intent"@,
        question_tree(
            "choice"@,
            "对方最后这几条消息的真实意图是什么？"@,
            intent_criteria(),
        ),
    ).with(
        "danger"@,
        question_tree(
            "score"@,
            "这段对话触及了哪一类需要谨慎对待的内容？只看对话里实际出现的东西。"@,
            danger_criteria(),
        ),
    ).with(
        "wants"@,
        question_tree(
            "choice"@,
            "对方最想从你这里得到什么？"@,
            wants_criteria(),
        ),
    ).with(
        "reply_now"@,
        question_tree(
            "noul"@,
            "现在是否应该立刻回复？"@,
            reply_now_criteria(),
        ),
    ).with(
        "best_action"@,
        question_tree(
            "choice"@,
            "此刻最合适的动作是什么？只看动作本身，不考虑措辞。"@,
            best_action_criteria(),
        ),
    ).with(
        "counterpart_style"@,
        question_tree(
            "choice"@,
            "对方在这段对话里的说话风格是哪一种？描述对方，不是建议你怎么回。"@,
            counterpart_style_criteria(),
        ),
    ).with(
        "pressure"@,
        question_tree(
            "score"@,
            "对方施加的压力有多大？"@,
            pressure_criteria(),
        ),
    )
}

/// Seven judgements, answered in one request.
pub fn judgement_questions() -> (res: Json)
    ensures
        res@ == judgement_tree(),
{
    Json::object()
        .with("intent", intent())
        .with("danger", danger())
        .with("wants", wants())
        .with("reply_now", reply_now())
        .with("best_action", best_action())
        .with("counterpart_style", counterpart_style())
        .with("pressure", pressure())
}

/// What the judge is asked under `intent`, and what each of the answers means.
pub proof fn intent_is_asked(other: Seq<char>)
    ensures
        ({
            let asked = judgement_tree().get("intent"@)->0;
            let criteria = asked.get("criteria"@)->0;
            &&& judgement_tree().get("intent"@) is Some
            &&& asked.text_at("type"@) == Some("choice"@)
            &&& asked.text_at("instructions"@) == Some("对方最后这几条消息的真实意图是什么？"@)
            &&& asked.get("criteria"@) is Some
            &&& criteria.text_at("ask_info"@) == Some("询问信息或确认事实"@)
            &&& criteria.text_at("request_action"@) == Some("希望你去做某件事"@)
            &&& criteria.text_at("push_decision"@) == Some("催促你表态或做决定"@)
            &&& criteria.text_at("complain"@) == Some("表达不满、抱怨或指责"@)
            &&& criteria.text_at("socialize"@) == Some("寒暄、闲聊或维持关系"@)
            &&& criteria.text_at("sell"@) == Some("推销、拉人或营销"@)
            &&& criteria.text_at("probe_money"@) == Some("试探钱财、账号、隐私或索要转账"@)
            &&& criteria.text_at("other"@) == Some("以上都不匹配"@)
            &&& criteria.get(other) is Some ==> other == "ask_info"@
                || other == "request_action"@ || other == "push_decision"@
                || other == "complain"@ || other == "socialize"@ || other == "sell"@
                || other == "probe_money"@ || other == "other"@
        }),
{
    broadcast use {field_after_with, object_after_with, empty_object};

    reveal_strlit("type");
    reveal_strlit("instructions");
    reveal_strlit("criteria");
    reveal_strlit("intent");
    reveal_strlit("danger");
    reveal_strlit("wants");
    reveal_strlit("reply_now");
    reveal_strlit("best_action");
    reveal_strlit("counterpart_style");
    reveal_strlit("pressure");
    reveal_strlit("ask_info");
    reveal_strlit("request_action");
    reveal_strlit("push_decision");
    reveal_strlit("complain");
    reveal_strlit("socialize");
    reveal_strlit("sell");
    reveal_strlit("probe_money");
    reveal_strlit("other");
    assert({
        &&& "type"@.len() == 4
        &&& "instructions"@.len() == 12
        &&& "criteria"@.len() == 8
        &&& "intent"@.len() == 6
        &&& "danger"@.len() == 6
        &&& "wants"@.len() == 5
        &&& "reply_now"@.len() == 9
        &&& "best_action"@.len() == 11
        &&& "counterpart_style"@.len() == 17
        &&& "pressure"@.len() == 8
        &&& "ask_info"@.len() == 8
        &&& "request_action"@.len() == 14
        &&& "push_decision"@.len() == 13
        &&& "complain"@.len() == 8
        &&& "socialize"@.len() == 9
        &&& "sell"@.len() == 4
        &&& "probe_money"@.len() == 11
        &&& "other"@.len() == 5
    });
    assert({
        &&& "type"@[0] == 't'
        &&& "sell"@[0] == 's'
        &&& "criteria"@[0] == 'c'
        &&& "criteria"@[1] == 'r'
        &&& "pressure"@[0] == 'p'
        &&& "ask_info"@[0] == 'a'
        &&& "complain"@[0] == 'c'
        &&& "complain"@[1] == 'o'
        &&& "intent"@[0] == 'i'
        &&& "danger"@[0] == 'd'
        &&& "wants"@[0] == 'w'
        &&& "other"@[0] == 'o'
        &&& "reply_now"@[0] == 'r'
        &&& "socialize"@[0] == 's'
        &&& "best_action"@[0] == 'b'
        &&& "probe_money"@[0] == 'p'
    });
}

/// What the judge is asked under `danger`, and what each of the answers means.
pub proof fn danger_is_asked()
    ensures
        ({
            let asked = judgement_tree().get("danger"@)->0;
            let criteria = asked.get("criteria"@)->0;
            &&& judgement_tree().get("danger"@) is Some
            &&& asked.text_at("type"@) == Some("score"@)
            &&& asked.text_at("instructions"@) == Some("这段对话触及了哪一类需要谨慎对待的内容？只看对话里实际出现的东西。"@)
            &&& asked.get("criteria"@) is Some
            &&& criteria.as_items() == Some(
                seq![
                    Tree::Text("只是交换信息或闲聊，没有出现承诺、钱财、权限、个人信息"@),
                    Tree::Text("出现了时间安排或工作交付的约定，属于日常范围"@),
                    Tree::Text("要求你承诺具体结果，或出现了金额、合同、账号权限、私人信息"@),
                    Tree::Text("索要转账、验证码、账号密码，或用身份与时限逼你立刻照做"@),
                ],
            )
        }),
{
    broadcast use {field_after_with, object_after_with, empty_object};

    reveal_strlit("type");
    reveal_strlit("instructions");
    reveal_strlit("criteria");
    reveal_strlit("intent");
    reveal_strlit("danger");
    reveal_strlit("wants");
    reveal_strlit("reply_now");
    reveal_strlit("best_action");
    reveal_strlit("counterpart_style");
    reveal_strlit("pressure");
    assert({
        &&& "type"@.len() == 4
        &&& "instructions"@.len() == 12
        &&& "criteria"@.len() == 8
        &&& "intent"@.len() == 6
        &&& "danger"@.len() == 6
        &&& "wants"@.len() == 5
        &&& "reply_now"@.len() == 9
        &&& "best_action"@.len() == 11
        &&& "counterpart_style"@.len() == 17
        &&& "pressure"@.len() == 8
    });
    assert({
        &&& "criteria"@[0] == 'c'
        &&& "pressure"@[0] == 'p'
        &&& "intent"@[0] == 'i'
        &&& "danger"@[0] == 'd'
    });
}

/// What the judge is asked under `wants`, and what each of the answers means.
pub proof fn wants_is_asked(other: Seq<char>)
    ensures
        ({
            let asked = judgement_tree().get("wants"@)->0;
            let criteria = asked.get("criteria"@)->0;
            &&& judgement_tree().get("wants"@) is Some
            &&& asked.text_at("type"@) == Some("choice"@)
            &&& asked.text_at("instructions"@) == Some("对方最想从你这里得到什么？"@)
            &&& asked.get("criteria"@) is Some
            &&& criteria.text_at("an_answer"@) == Some("一个明确的答复或信息"@)
            &&& criteria.text_at("a_commitment"@) == Some("一个承诺、时间点或表态"@)
            &&& criteria.text_at("an_action"@) == Some("你实际去执行某件事"@)
            &&& criteria.text_at("emotional_response"@) == Some("情绪上的回应、安慰或认同"@)
            &&& criteria.text_at("money_or_access"@) == Some("钱、账号、权限或隐私信息"@)
            &&& criteria.text_at("nothing_specific"@) == Some("没有具体诉求"@)
            &&& criteria.get(other) is Some ==> other == "an_answer"@
                || other == "a_commitment"@ || other == "an_action"@
                || other == "emotional_response"@ || other == "money_or_access"@
                || other == "nothing_specific"@
        }),
{
    broadcast use {field_after_with, object_after_with, empty_object};

    reveal_strlit("type");
    reveal_strlit("instructions");
    reveal_strlit("criteria");
    reveal_strlit("intent");
    reveal_strlit("danger");
    reveal_strlit("wants");
    reveal_strlit("reply_now");
    reveal_strlit("best_action");
    reveal_strlit("counterpart_style");
    reveal_strlit("pressure");
    reveal_strlit("an_answer");
    reveal_strlit("a_commitment");
    reveal_strlit("an_action");
    reveal_strlit("emotional_response");
    reveal_strlit("money_or_access");
    reveal_strlit("nothing_specific");
    assert({
        &&& "type"@.len() == 4
        &&& "instructions"@.len() == 12
        &&& "criteria"@.len() == 8
        &&& "intent"@.len() == 6
        &&& "danger"@.len() == 6
        &&& "wants"@.len() == 5
        &&& "reply_now"@.len() == 9
        &&& "best_action"@.len() == 11
        &&& "counterpart_style"@.len() == 17
        &&& "pressure"@.len() == 8
        &&& "an_answer"@.len() == 9
        &&& "a_commitment"@.len() == 12
        &&& "an_action"@.len() == 9
        &&& "emotional_response"@.len() == 18
        &&& "money_or_access"@.len() == 15
        &&& "nothing_specific"@.len() == 16
    });
    assert({
        &&& "instructions"@[0] == 'i'
        &&& "a_commitment"@[0] == 'a'
        &&& "criteria"@[0] == 'c'
        &&& "pressure"@[0] == 'p'
        &&& "intent"@[0] == 'i'
        &&& "danger"@[0] == 'd'
        &&& "reply_now"@[0] == 'r'
        &&& "an_answer"@[0] == 'a'
        &&& "an_answer"@[4] == 'n'
        &&& "an_action"@[0] == 'a'
        &&& "an_action"@[4] == 'c'
    });
}

/// What the judge is asked under `reply_now`, and what each of the answers means.
pub proof fn reply_now_is_asked(other: Seq<char>)
    ensures
        ({
            let asked = judgement_tree().get("reply_now"@)->0;
            let criteria = asked.get("criteria"@)->0;
            &&& judgement_tree().get("reply_now"@) is Some
            &&& asked.text_at("type"@) == Some("noul"@)
            &&& asked.text_at("instructions"@) == Some("现在是否应该立刻回复？"@)
            &&& asked.get("criteria"@) is Some
            &&& criteria.text_at("true"@) == Some("对方在等答复，拖延会造成误解或损失"@)
            &&& criteria.text_at("false"@) == Some("可以晚点回，或需要先想清楚、先去核实、甚至不该回"@)
            &&& criteria.get(other) is Some ==> other == "true"@ || other == "false"@
        }),
{
    broadcast use {field_after_with, object_after_with, empty_object};

    reveal_strlit("type");
    reveal_strlit("instructions");
    reveal_strlit("criteria");
    reveal_strlit("intent");
    reveal_strlit("danger");
    reveal_strlit("wants");
    reveal_strlit("reply_now");
    reveal_strlit("best_action");
    reveal_strlit("counterpart_style");
    reveal_strlit("pressure");
    reveal_strlit("true");
    reveal_strlit("false");
    assert({
        &&& "type"@.len() == 4
        &&& "instructions"@.len() == 12
        &&& "criteria"@.len() == 8
        &&& "intent"@.len() == 6
        &&& "danger"@.len() == 6
        &&& "wants"@.len() == 5
        &&& "reply_now"@.len() == 9
        &&& "best_action"@.len() == 11
        &&& "counterpart_style"@.len() == 17
        &&& "pressure"@.len() == 8
        &&& "true"@.len() == 4
        &&& "false"@.len() == 5
    });
    assert({
        &&& "type"@[1] == 'y'
        &&& "true"@[1] == 'r'
        &&& "criteria"@[0] == 'c'
        &&& "pressure"@[0] == 'p'
        &&& "intent"@[0] == 'i'
        &&& "danger"@[0] == 'd'
        &&& "wants"@[0] == 'w'
        &&& "false"@[0] == 'f'
    });
}

/// What the judge is asked under `best_action`, and what each of the answers means.
pub proof fn best_action_is_asked(other: Seq<char>)
    ensures
        ({
            let asked = judgement_tree().get("best_action"@)->0;
            let criteria = asked.get("criteria"@)->0;
            &&& judgement_tree().get("best_action"@) is Some
            &&& asked.text_at("type"@) == Some("choice"@)
            &&& asked.text_at("instructions"@) == Some("此刻最合适的动作是什么？只看动作本身，不考虑措辞。"@)
            &&& asked.get("criteria"@) is Some
            &&& criteria.text_at("comply"@) == Some("照对方的要求去做，或把对方索要的信息直接给出"@)
            &&& criteria.text_at("comply_partly"@) == Some("先给出手上能给的部分，同时说明还缺什么"@)
            &&& criteria.text_at("ask_clarify"@) == Some("先反问，把对方的诉求或前提问清楚，这一轮不给结论"@)
            &&& criteria.text_at("buy_time"@) == Some("只回应一句表示收到，把实际处理推到之后"@)
            &&& criteria.text_at("decline"@) == Some("明确拒绝，或划清界限说明这件事不能做"@)
            &&& criteria.text_at("escalate"@) == Some("交给别人处理，或换更正式的渠道留痕"@)
            &&& criteria.text_at("ignore"@) == Some("不回复，不要接这个话头"@)
            &&& criteria.get(other) is Some ==> other == "comply"@ || other == "comply_partly"@
                || other == "ask_clarify"@ || other == "buy_time"@ || other == "decline"@
                || other == "escalate"@ || other == "ignore"@
        }),
{
    broadcast use {field_after_with, object_after_with, empty_object};

    reveal_strlit("type");
    reveal_strlit("instructions");
    reveal_strlit("criteria");
    reveal_strlit("intent");
    reveal_strlit("danger");
    reveal_strlit("wants");
    reveal_strlit("reply_now");
    reveal_strlit("best_action");
    reveal_strlit("counterpart_style");
    reveal_strlit("pressure");
    reveal_strlit("comply");
    reveal_strlit("comply_partly");
    reveal_strlit("ask_clarify");
    reveal_strlit("buy_time");
    reveal_strlit("decline");
    reveal_strlit("escalate");
    reveal_strlit("ignore");
    assert({
        &&& "type"@.len() == 4
        &&& "instructions"@.len() == 12
        &&& "criteria"@.len() == 8
        &&& "intent"@.len() == 6
        &&& "danger"@.len() == 6
        &&& "wants"@.len() == 5
        &&& "reply_now"@.len() == 9
        &&& "best_action"@.len() == 11
        &&& "counterpart_style"@.len() == 17
        &&& "pressure"@.len() == 8
        &&& "comply"@.len() == 6
        &&& "comply_partly"@.len() == 13
        &&& "ask_clarify"@.len() == 11
        &&& "buy_time"@.len() == 8
        &&& "decline"@.len() == 7
        &&& "escalate"@.len() == 8
        &&& "ignore"@.len() == 6
    });
    assert({
        &&& "criteria"@[0] == 'c'
        &&& "pressure"@[0] == 'p'
        &&& "buy_time"@[0] == 'b'
        &&& "escalate"@[0] == 'e'
        &&& "intent"@[0] == 'i'
        &&& "intent"@[1] == 'n'
        &&& "danger"@[0] == 'd'
        &&& "comply"@[0] == 'c'
        &&& "ignore"@[0] == 'i'
        &&& "ignore"@[1] == 'g'
        &&& "best_action"@[0] == 'b'
        &&& "ask_clarify"@[0] == 'a'
    });
}

/// What the judge is asked under `counterpart_style`, and what each of the answers means.
pub proof fn counterpart_style_is_asked(other: Seq<char>)
    ensures
        ({
            let asked = judgement_tree().get("counterpart_style"@)->0;
            let criteria = asked.get("criteria"@)->0;
            &&& judgement_tree().get("counterpart_style"@) is Some
            &&& asked.text_at("type"@) == Some("choice"@)
            &&& asked.text_at("instructions"@) == Some("对方在这段对话里的说话风格是哪一种？描述对方，不是建议你怎么回。"@)
            &&& asked.get("criteria"@) is Some
            &&& criteria.text_at("casual"@) == Some("口语化短句，有语气词、表情或玩笑，像熟人聊天"@)
            &&& criteria.text_at("businesslike"@) == Some("直接说事、用词规范，典型的工作沟通口吻"@)
            &&& criteria.text_at("terse"@) == Some("极简，只给结论或指令，不解释不铺垫"@)
            &&& criteria.text_at("emotional"@) == Some("带明显情绪，出现抱怨、指责、反问或急切的表达"@)
            &&& criteria.get(other) is Some ==> other == "casual"@ || other == "businesslike"@
                || other == "terse"@ || other == "emotional"@
        }),
{
    broadcast use {field_after_with, object_after_with, empty_object};

    reveal_strlit("type");
    reveal_strlit("instructions");
    reveal_strlit("criteria");
    reveal_strlit("intent");
    reveal_strlit("danger");
    reveal_strlit("wants");
    reveal_strlit("reply_now");
    reveal_strlit("best_action");
    reveal_strlit("counterpart_style");
    reveal_strlit("pressure");
    reveal_strlit("casual");
    reveal_strlit("businesslike");
    reveal_strlit("terse");
    reveal_strlit("emotional");
    assert({
        &&& "type"@.len() == 4
        &&& "instructions"@.len() == 12
        &&& "criteria"@.len() == 8
        &&& "intent"@.len() == 6
        &&& "danger"@.len() == 6
        &&& "wants"@.len() == 5
        &&& "reply_now"@.len() == 9
        &&& "best_action"@.len() == 11
        &&& "counterpart_style"@.len() == 17
        &&& "pressure"@.len() == 8
        &&& "casual"@.len() == 6
        &&& "businesslike"@.len() == 12
        &&& "terse"@.len() == 5
        &&& "emotional"@.len() == 9
    });
    assert({
        &&& "instructions"@[0] == 'i'
        &&& "businesslike"@[0] == 'b'
        &&& "criteria"@[0] == 'c'
        &&& "pressure"@[0] == 'p'
        &&& "intent"@[0] == 'i'
        &&& "danger"@[0] == 'd'
        &&& "casual"@[0] == 'c'
        &&& "wants"@[0] == 'w'
        &&& "terse"@[0] == 't'
        &&& "reply_now"@[0] == 'r'
        &&& "emotional"@[0] == 'e'
    });
}

/// What the judge is asked under `pressure`, and what each of the answers means.
pub proof fn pressure_is_asked()
    ensures
        ({
            let asked = judgement_tree().get("pressure"@)->0;
            let criteria = asked.get("criteria"@)->0;
            &&& judgement_tree().get("pressure"@) is Some
            &&& asked.text_at("type"@) == Some("score"@)
            &&& asked.text_at("instructions"@) == Some("对方施加的压力有多大？"@)
            &&& asked.get("criteria"@) is Some
            &&& criteria.as_items() == Some(
                seq![
                    Tree::Text("没有施压，正常交流"@),
                    Tree::Text("有催促或期待，但可以商量"@),
                    Tree::Text("强烈施压，用情绪或时限逼你表态"@),
                ],
            )
        }),
{
    broadcast use {field_after_with, object_after_with, empty_object};

    reveal_strlit("type");
    reveal_strlit("instructions");
    reveal_strlit("criteria");
    reveal_strlit("intent");
    reveal_strlit("danger");
    reveal_strlit("wants");
    reveal_strlit("reply_now");
    reveal_strlit("best_action");
    reveal_strlit("counterpart_style");
    reveal_strlit("pressure");
    assert({
        &&& "type"@.len() == 4
        &&& "instructions"@.len() == 12
        &&& "criteria"@.len() == 8
        &&& "intent"@.len() == 6
        &&& "danger"@.len() == 6
        &&& "wants"@.len() == 5
        &&& "reply_now"@.len() == 9
        &&& "best_action"@.len() == 11
        &&& "counterpart_style"@.len() == 17
        &&& "pressure"@.len() == 8
    });
    assert({
        &&& "criteria"@[0] == 'c'
        &&& "pressure"@[0] == 'p'
        &&& "intent"@[0] == 'i'
        &&& "danger"@[0] == 'd'
    });
}

/// The name of the draft with a number, counted from one.
pub open spec fn draft_name(n: nat) -> Seq<char> {
    "draft_"@ + digits_of(n)
}

/// The answers to choose from when drafts are ranked: one for each draft.
pub open spec fn ranking_criteria(count: nat) -> Tree
    decreases count,
{
    if count == 0 {
        Tree::object()
    } else {
        ranking_criteria((count - 1) as nat).with(
            draft_name(count),
            Tree::Text("第 "@ + digits_of(count) + " 条候选回复"@),
        )
    }
}

/// The one question that a ranking asks.
pub open spec fn ranking_tree(count: nat) -> Tree {
    Tree::object().with(
        "best_draft"@,
        question_tree(
            "choice"@,
            "综合判断结果和对话上下文，哪一条候选回复最合适？"@,
            ranking_criteria(count),
        ),
    )
}

/// The name of the draft with a number.
pub(crate) fn name_draft(n: u64) -> (res: String)
    ensures
        res@ == draft_name(n as nat),
{
    join("draft_", decimal(n).as_str())
}

/// Ranking is a second request: which of the drafts fits best.
pub fn ranking_questions(count: usize) -> (res: Json)
    ensures
        res@ == ranking_tree(count as nat),
{
    let mut criteria = Json::object();
    let mut index: usize = 0;
    while index < count
        invariant
            index <= count,
            criteria@ == ranking_criteria(index as nat),
        decreases count - index,
    {
        let n: u64 = index as u64 + 1;
        let label = join(join("第 ", decimal(n).as_str()).as_str(), " 条候选回复");
        criteria = criteria.with(name_draft(n).as_str(), Json::Text(label));
        index = index + 1;
    }
    Json::object().with(
        "best_draft",
        question(
            "choice",
            "综合判断结果和对话上下文，哪一条候选回复最合适？",
            criteria,
        ),
    )
}

proof fn draft_names_differ(a: nat, b: nat)
    ensures
        draft_name(a) == draft_name(b) ==> a == b,
{
    let prefix = "draft_"@;
    if draft_name(a) == draft_name(b) {
        assert(draft_name(a).skip(prefix.len() as int) == digits_of(a));
        assert(draft_name(b).skip(prefix.len() as int) == digits_of(b));
        digits_tell_numbers_apart(a, b);
    }
}

/// A ranking offers each of the drafts under its name, and no draft that there is not.
pub proof fn ranking_offers_each_draft(count: nat, n: nat)
    ensures
        ranking_criteria(count).is_object(),
        ranking_criteria(count).get(draft_name(n)) is Some <==> 1 <= n <= count,
    decreases count,
{
    if count > 0 {
        let before = ranking_criteria((count - 1) as nat);
        let label = Tree::Text("第 "@ + digits_of(count) + " 条候选回复"@);
        ranking_offers_each_draft((count - 1) as nat, n);
        get_after_with(before, draft_name(count), label, draft_name(n));
        draft_names_differ(count, n);
    }
}

/// The drafting model is an ordinary chat model. It must not invent facts, and it must respect
/// the judgement that was made already.
pub const DRAFT_SYSTEM_PROMPT: &'static str = r#"你在帮用户起草聊天回复。用户会给你一段对话、以及一个判断模型对这段对话的分析结果。

请起草 3 条候选回复，要求：
- 口语化，像真人在聊天，不要写成公文或客服话术
- 长度控制在 1-3 句，除非对话明显需要更长
- 严格执行分析结果里的 best_action（最佳动作），它决定你这条回复要做什么。特别注意：comply 是真的照对方要求去做，不是回一句解释为什么做不了；comply_partly 是先给出部分成果；buy_time 才是只应一声把事推后
- 参照 counterpart_style（对方的说话风格）调整用词的松紧：对方随意你就别太正式，对方极简你也别长篇大论；但如果 danger 较高或 best_action 是拒绝，措辞要比对方更清楚、更留得住底
- 三条之间要有真实差异：可以是详略不同、态度软硬不同、或给不给承诺不同
- 绝对不要编造对话和背景信息里没有的事实、数字、时间点或承诺
- 如果分析结果建议拒绝或不回，那么候选里应体现拒绝或极简回应，不要强行热情

输出格式：一个 JSON 对象，只含 drafts 一个键，值是长度为 3 的字符串数组，每个字符串就是一条可以直接发出去的回复原文。

务必注意：数组里放的是真正写好的回复内容，不是占位符。不要输出 "..."、"第一条"、"候选回复1" 这类示意文字。回复用对话本身的语言书写。"#;

/// Splitting a pasted transcript. A copied transcript labels the reader's own messages with a
/// nickname like any other, so nothing in the text says which name is the reader's. The model
/// is told not to guess: every turn comes back as `other`, and the reader points at their own
/// name. A wrong guess would turn the whole analysis round and still look plausible.
pub const IMPORT_SYSTEM_PROMPT: &'static str = r#"你在读一段从聊天软件里复制出来的文字记录，任务是把它切分成结构化的消息列表。

切分规则：
- 一条消息通常由三部分组成：发送者昵称、时间、正文。三者可能各占一行，中间可能有空行，也可能昵称和时间挤在同一行
- 发送者昵称写进 name，正文写进 text
- 时间戳全部丢弃，不要留在 text 里。常见形式：2026年09月24日 7:40、2026/09/24 15:07、昨天 14:23、上午 10:05、15:09
- 日期分隔线、「以下为新消息」、「XX撤回了一条消息」、「对方正在输入」、「已读」这类系统提示全部丢弃
- 同一个人连续发的多条消息，必须各自独立成条，绝对不要合并。连发几条本身就是信息
- 一条消息内部的换行保留为 \n
- [强] [图片] [语音] [表情] [链接] [文件] 这类方括号占位原样抄录，不要改写成文字描述
- @某人 保留在正文里
- 引用或回复某条消息的引用块，写进该条 text 的开头，用「引用：」标明
- 严格保留原文用字，包括错别字、省略号、标点误用，不要润色

关于 speaker：
- speaker 一律填 "other"
- 不要试图判断哪个昵称是当前用户。复制出来的记录里，用户自己发的消息显示的也是昵称，文字本身没有这个信息。归属由用户在界面上指定，你猜错会让后续判断整体反向

把下面这些情况的序号（从 1 开始）记进 uncertain：
- 没有昵称，无法确定是谁说的
- 正文明显被截断或看起来不完整
- 你不确定某一段到底是一条消息还是两条

顺序按原文从上到下。

只输出 JSON：
{"conversation":[{"speaker":"other","name":"沐桐旭","text":"..."}],"uncertain":[3],"note":""}

note 里写一句你对这段记录的判断（单聊还是群聊、识别到几个说话人、有没有明显缺失），没有就留空。"#;

/// Reading a chat screenshot. The hard part is not the characters but who said what: that lies
/// in the position and colour of the bubbles, which is why a vision model reads it.
pub const VISION_SYSTEM_PROMPT: &'static str = r#"你在读一张聊天软件的截图，任务是把屏幕上的对话转成结构化数据。

判断说话人：
- 气泡靠右、或底色是绿色/蓝色等主题色的，是「我」（speaker 填 me）
- 气泡靠左、或底色是白色/灰色的，是「对方」（speaker 填 other）
- 位置和颜色冲突时以位置为准，因为不同软件配色不同
- 实在判断不出来的，填 other 并在 uncertain 里记下该条的序号

抄录文字：
- 严格保留原文，不要改写、润色、翻译或补全
- 不要抄时间戳、日期分隔线、「已读」「已送达」标记、头像上的昵称
- 群聊里气泡上方的发送者昵称，写进该条的 name 字段
- 一条消息内的换行保留为 \n
- 被截断看不全的消息，照抄可见部分，并把序号记进 uncertain
- 图片、表情包、语音、文件等非文字消息，text 写成 [图片] [语音] [文件：名称] 这样的占位

顺序按屏幕从上到下。

只输出 JSON：
{"conversation":[{"speaker":"other","name":"","text":"..."}],"uncertain":[2],"note":""}

note 里可以写一句你对这张图的判断说明（比如软件名、是群聊还是单聊、有没有明显遮挡），没有就留空。"#;

/// The judge is asked seven questions, and no other.
pub proof fn seven_questions_are_asked(other: Seq<char>)
    ensures
        judgement_tree().get(other) is Some <==> other == "intent"@ || other == "danger"@ || other
            == "wants"@ || other == "reply_now"@ || other == "best_action"@ || other
            == "counterpart_style"@ || other == "pressure"@,
{
    broadcast use {field_after_with, object_after_with, empty_object};

}

/// A ranking asks one question: which draft fits best.
pub proof fn ranking_asks_for_the_best(count: nat, other: Seq<char>)
    ensures
        ({
            let asked = ranking_tree(count).get("best_draft"@)->0;
            &&& ranking_tree(count).get(other) is Some <==> other == "best_draft"@
            &&& asked.text_at("type"@) == Some("choice"@)
            &&& asked.text_at("instructions"@) == Some(
                "综合判断结果和对话上下文，哪一条候选回复最合适？"@,
            )
            &&& asked.get("criteria"@) == Some(ranking_criteria(count))
        }),
{
    broadcast use {field_after_with, object_after_with, empty_object};

    reveal_strlit("type");
    reveal_strlit("instructions");
    reveal_strlit("criteria");
    assert({
        &&& "type"@.len() == 4
        &&& "instructions"@.len() == 12
        &&& "criteria"@.len() == 8
    });
}

/// Each draft is offered under its own name, with its own number, and nothing else is offered.
pub proof fn each_draft_is_offered_by_number(count: nat, n: nat, other: Seq<char>)
    ensures
        1 <= n <= count ==> ranking_criteria(count).text_at("draft_"@ + digits_of(n)) == Some(
            "第 "@ + digits_of(n) + " 条候选回复"@,
        ),
        ranking_criteria(count).get(other) is Some ==> exists|k: nat|
            1 <= k <= count && other == "draft_"@ + #[trigger] digits_of(k),
    decreases count,
{
    ranking_offers_each_draft(count, n);
    if count > 0 {
        let before = ranking_criteria((count - 1) as nat);
        let label = Tree::Text("第 "@ + digits_of(count) + " 条候选回复"@);
        ranking_offers_each_draft((count - 1) as nat, n);
        each_draft_is_offered_by_number((count - 1) as nat, n, other);
        get_after_with(before, draft_name(count), label, draft_name(n));
        get_after_with(before, draft_name(count), label, other);
        draft_names_differ(count, n);
        if other == draft_name(count) {
            assert(other == "draft_"@ + digits_of(count));
        }
    }
}

/// The drafting model is told to write three drafts, to do what the verdict says, to invent
/// nothing, and to answer with a list under `drafts`, in these words.
pub proof fn drafting_prompt_is_told()
    ensures
        DRAFT_SYSTEM_PROMPT@ == r#"你在帮用户起草聊天回复。用户会给你一段对话、以及一个判断模型对这段对话的分析结果。

请起草 3 条候选回复，要求：
- 口语化，像真人在聊天，不要写成公文或客服话术
- 长度控制在 1-3 句，除非对话明显需要更长
- 严格执行分析结果里的 best_action（最佳动作），它决定你这条回复要做什么。特别注意：comply 是真的照对方要求去做，不是回一句解释为什么做不了；comply_partly 是先给出部分成果；buy_time 才是只应一声把事推后
- 参照 counterpart_style（对方的说话风格）调整用词的松紧：对方随意你就别太正式，对方极简你也别长篇大论；但如果 danger 较高或 best_action 是拒绝，措辞要比对方更清楚、更留得住底
- 三条之间要有真实差异：可以是详略不同、态度软硬不同、或给不给承诺不同
- 绝对不要编造对话和背景信息里没有的事实、数字、时间点或承诺
- 如果分析结果建议拒绝或不回，那么候选里应体现拒绝或极简回应，不要强行热情

输出格式：一个 JSON 对象，只含 drafts 一个键，值是长度为 3 的字符串数组，每个字符串就是一条可以直接发出去的回复原文。

务必注意：数组里放的是真正写好的回复内容，不是占位符。不要输出 "..."、"第一条"、"候选回复1" 这类示意文字。回复用对话本身的语言书写。"#@,
{
}

/// The model that splits a transcript is told to keep every message apart and as it is, not to
/// guess whose name is the reader's, and to flag what it is not sure of, in these words.
pub proof fn import_prompt_is_told()
    ensures
        IMPORT_SYSTEM_PROMPT@ == r#"你在读一段从聊天软件里复制出来的文字记录，任务是把它切分成结构化的消息列表。

切分规则：
- 一条消息通常由三部分组成：发送者昵称、时间、正文。三者可能各占一行，中间可能有空行，也可能昵称和时间挤在同一行
- 发送者昵称写进 name，正文写进 text
- 时间戳全部丢弃，不要留在 text 里。常见形式：2026年09月24日 7:40、2026/09/24 15:07、昨天 14:23、上午 10:05、15:09
- 日期分隔线、「以下为新消息」、「XX撤回了一条消息」、「对方正在输入」、「已读」这类系统提示全部丢弃
- 同一个人连续发的多条消息，必须各自独立成条，绝对不要合并。连发几条本身就是信息
- 一条消息内部的换行保留为 \n
- [强] [图片] [语音] [表情] [链接] [文件] 这类方括号占位原样抄录，不要改写成文字描述
- @某人 保留在正文里
- 引用或回复某条消息的引用块，写进该条 text 的开头，用「引用：」标明
- 严格保留原文用字，包括错别字、省略号、标点误用，不要润色

关于 speaker：
- speaker 一律填 "other"
- 不要试图判断哪个昵称是当前用户。复制出来的记录里，用户自己发的消息显示的也是昵称，文字本身没有这个信息。归属由用户在界面上指定，你猜错会让后续判断整体反向

把下面这些情况的序号（从 1 开始）记进 uncertain：
- 没有昵称，无法确定是谁说的
- 正文明显被截断或看起来不完整
- 你不确定某一段到底是一条消息还是两条

顺序按原文从上到下。

只输出 JSON：
{"conversation":[{"speaker":"other","name":"沐桐旭","text":"..."}],"uncertain":[3],"note":""}

note 里写一句你对这段记录的判断（单聊还是群聊、识别到几个说话人、有没有明显缺失），没有就留空。"#@,
{
}

/// The vision model is told how to tell the speakers apart, to copy the text as it is, and to flag
/// what it is not sure of, in these words.
pub proof fn vision_prompt_is_told()
    ensures
        VISION_SYSTEM_PROMPT@ == r#"你在读一张聊天软件的截图，任务是把屏幕上的对话转成结构化数据。

判断说话人：
- 气泡靠右、或底色是绿色/蓝色等主题色的，是「我」（speaker 填 me）
- 气泡靠左、或底色是白色/灰色的，是「对方」（speaker 填 other）
- 位置和颜色冲突时以位置为准，因为不同软件配色不同
- 实在判断不出来的，填 other 并在 uncertain 里记下该条的序号

抄录文字：
- 严格保留原文，不要改写、润色、翻译或补全
- 不要抄时间戳、日期分隔线、「已读」「已送达」标记、头像上的昵称
- 群聊里气泡上方的发送者昵称，写进该条的 name 字段
- 一条消息内的换行保留为 \n
- 被截断看不全的消息，照抄可见部分，并把序号记进 uncertain
- 图片、表情包、语音、文件等非文字消息，text 写成 [图片] [语音] [文件：名称] 这样的占位

顺序按屏幕从上到下。

只输出 JSON：
{"conversation":[{"speaker":"other","name":"","text":"..."}],"uncertain":[2],"note":""}

note 里可以写一句你对这张图的判断说明（比如软件名、是群聊还是单聊、有没有明显遮挡），没有就留空。"#@,
{
}

} // verus!
