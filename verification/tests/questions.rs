use jev_copilot::json::Json;
use jev_copilot::questions::{
    judgement_questions, ranking_questions, DRAFT_SYSTEM_PROMPT, IMPORT_SYSTEM_PROMPT,
    VISION_SYSTEM_PROMPT,
};
use jev_copilot::value::render;

#[test]
fn there_are_seven_judgements() {
    let questions = judgement_questions();
    let expected = [
        ("best_action", "choice"),
        ("counterpart_style", "choice"),
        ("danger", "score"),
        ("intent", "choice"),
        ("pressure", "score"),
        ("reply_now", "noul"),
        ("wants", "choice"),
    ];
    if let Json::Object(members) = &questions {
        assert_eq!(members.len(), expected.len());
        for (i, (name, kind)) in expected.iter().enumerate() {
            assert_eq!(members.key(i), *name);
            assert_eq!(members.value(i).str_at("type"), Some(*kind));
            assert!(members.value(i).str_at("instructions").is_some());
            assert!(members.value(i).get("criteria").is_some());
        }
    } else {
        panic!("no object");
    }
}

#[test]
fn the_wording_of_the_judgements() {
    let questions = judgement_questions();
    let intent = questions.get("intent").unwrap();
    assert_eq!(intent.str_at("instructions"), Some("对方最后这几条消息的真实意图是什么？"));
    let criteria = intent.get("criteria").unwrap();
    assert_eq!(criteria.str_at("sell"), Some("推销、拉人或营销"));
    assert_eq!(criteria.str_at("other"), Some("以上都不匹配"));
    let bands = questions.get("danger").unwrap().get("criteria").unwrap().as_array().unwrap();
    assert_eq!(bands.len(), 4);
    assert_eq!(bands[3].as_str(), Some("索要转账、验证码、账号密码，或用身份与时限逼你立刻照做"));
    let now = questions.get("reply_now").unwrap().get("criteria").unwrap();
    assert_eq!(now.str_at("true"), Some("对方在等答复，拖延会造成误解或损失"));
}

#[test]
fn a_ranking_offers_each_draft() {
    assert_eq!(
        render(&ranking_questions(2)),
        r#"{"best_draft":{"criteria":{"draft_1":"第 1 条候选回复","draft_2":"第 2 条候选回复"},"instructions":"综合判断结果和对话上下文，哪一条候选回复最合适？","type":"choice"}}"#
    );
    let criteria = ranking_questions(11);
    let criteria = criteria.get("best_draft").unwrap().get("criteria").unwrap();
    assert_eq!(criteria.str_at("draft_11"), Some("第 11 条候选回复"));
    assert!(criteria.get("draft_12").is_none());
    assert!(criteria.get("draft_0").is_none());
}

#[test]
fn a_ranking_of_nothing_offers_nothing() {
    assert_eq!(
        ranking_questions(0).get("best_draft").unwrap().get("criteria"),
        Some(&Json::object())
    );
}

#[test]
fn the_prompts_ask_for_json() {
    assert!(DRAFT_SYSTEM_PROMPT.starts_with("你在帮用户起草聊天回复。"));
    assert!(DRAFT_SYSTEM_PROMPT.contains("只含 drafts 一个键"));
    assert!(IMPORT_SYSTEM_PROMPT.contains("speaker 一律填 \"other\""));
    assert!(VISION_SYSTEM_PROMPT.contains("只输出 JSON"));
    assert!(VISION_SYSTEM_PROMPT.contains("一条消息内的换行保留为 \\n"));
}
