//! What a chat completion holds.
use vstd::prelude::*;

use crate::json::{trees, Json, Tree};
use crate::text::{
    begins_with, drop_both, drop_both_stops, drop_prefixes, is_space, trim, trim_both, trim_prefixes,
    trimmed, Class,
};

verus! {

/// The first item of an array, or what an object has under `0`.
pub open spec fn first_entry(tree: Tree) -> Option<Tree> {
    match tree {
        Tree::Array(items) => if items.len() > 0 {
            Some(items[0])
        } else {
            None
        },
        _ => tree.get("0"@),
    }
}

/// The value at `/choices/0/message`.
pub open spec fn message_in(tree: Tree) -> Option<Tree> {
    match tree.get("choices"@) {
        Some(choices) => match first_entry(choices) {
            Some(choice) => choice.get("message"@),
            None => None,
        },
        None => None,
    }
}

/// The text at `/choices/0/message/content`.
pub open spec fn content_in(tree: Tree) -> Option<Seq<char>> {
    match message_in(tree) {
        Some(message) => message.text_at("content"@),
        None => None,
    }
}

/// A content without the fence that a model may put round its JSON.
pub open spec fn unfenced(content: Seq<char>) -> Seq<char> {
    trimmed(drop_both(drop_prefixes(trimmed(content), "```json"@), Class::Only('`')))
}

/// What a completion used, as the model reports it.
pub open spec fn usage_in(tree: Tree) -> Tree {
    match tree.get("usage"@) {
        Some(usage) => usage,
        None => Tree::Null,
    }
}

fn first_of(value: &Json) -> (res: Option<&Json>)
    ensures
        match res {
            Some(entry) => first_entry(value@) == Some(entry@),
            None => first_entry(value@) is None,
        },
{
    match value {
        Json::Array(items) => {
            assert(value@->Array_0 == trees(items@));
            if items.len() > 0 {
                Some(&items[0])
            } else {
                None
            }
        },
        other => other.get("0"),
    }
}

/// The text at `/choices/0/message/content`.
pub fn content_of(value: &Json) -> (res: Option<&str>)
    ensures
        match res {
            Some(content) => content_in(value@) == Some(content@),
            None => content_in(value@) is None,
        },
{
    match value.get("choices") {
        Some(choices) => match first_of(choices) {
            Some(choice) => match choice.get("message") {
                Some(message) => message.str_at("content"),
                None => None,
            },
            None => None,
        },
        None => None,
    }
}

/// A content without the fence that a model may put round its JSON.
pub fn unfence<'a>(content: &'a str) -> (res: &'a str)
    ensures
        res@ == unfenced(content@),
{
    trim(trim_both(trim_prefixes(trim(content), "```json"), &Class::Only('`')))
}

/// What a completion used.
pub fn usage_of(value: &Json) -> (res: Json)
    ensures
        res@ == usage_in(value@),
{
    match value.get("usage") {
        Some(usage) => usage.duplicate(),
        None => Json::Null,
    }
}

/// Whether a text begins and ends with what is neither white space nor a backtick, as the text
/// of a JSON object or array does.
pub open spec fn is_bare(body: Seq<char>) -> bool {
    &&& body.len() > 0
    &&& !is_space(body[0]) && body[0] != '`'
    &&& !is_space(body.last()) && body.last() != '`'
}

/// Whether every character of a text is white space.
pub open spec fn is_blank(s: Seq<char>) -> bool {
    forall|i: int| 0 <= i < s.len() ==> is_space(#[trigger] s[i])
}

/// A fence makes no difference: what stands inside one is read as if it stood alone. The fence
/// may say `json` or not, and there may be white space round what it holds and round itself. (A
/// plain fence with `json` directly behind it is one that says `json`.)
pub proof fn fence_makes_no_difference(
    body: Seq<char>,
    outer: Seq<char>,
    inner: Seq<char>,
)
    requires
        is_bare(body),
        is_blank(outer),
        is_blank(inner),
    ensures
        unfenced(outer + body + outer) == body,
        unfenced(outer + ("```json"@ + inner + body + inner + "```"@) + outer) == body,
        inner.len() > 0 || !begins_with(body, "json"@) ==> unfenced(
            outer + ("```"@ + inner + body + inner + "```"@) + outer,
        ) == body,
{
    reveal_strlit("```json");
    reveal_strlit("```");
    reveal_strlit("json");
    reveal_with_fuel(drop_prefixes, 2);
    let none = Seq::<char>::empty();
    let ticks = "```"@;
    let tag = "```json"@;
    let tick = Class::Only('`');
    let padded = inner + body + inner;
    // Nothing round the body but white space.
    drop_both_stops(outer, body, outer, Class::Space);
    assert(!begins_with(body, tag)) by {
        if begins_with(body, tag) {
            assert(body[0] == body.take(tag.len() as int)[0]);
        }
    }
    drop_both_stops(none, body, none, tick);
    assert(none + body + none == body);
    drop_both_stops(none, body, none, Class::Space);
    // A fence that says `json`.
    let tagged = tag + inner + body + inner + ticks;
    assert(tagged == tag + (padded + ticks));
    drop_both_stops(outer, tagged, outer, Class::Space);
    assert(begins_with(tagged, tag)) by {
        assert(tagged.take(tag.len() as int) == tag);
    }
    assert(tagged.skip(tag.len() as int) == padded + ticks);
    assert(!begins_with(padded + ticks, tag)) by {
        if begins_with(padded + ticks, tag) {
            assert((padded + ticks)[0] == (padded + ticks).take(tag.len() as int)[0]);
            if inner.len() > 0 {
                assert((padded + ticks)[0] == inner[0]);
                assert(is_space(inner[0]));
            } else {
                assert((padded + ticks)[0] == body[0]);
            }
        }
    }
    assert(drop_prefixes(tagged, tag) == padded + ticks);
    inside_fence(none, body, inner);
    assert(none + padded + ticks == padded + ticks);
    // A plain fence.
    let plain = ticks + inner + body + inner + ticks;
    assert(plain == ticks + padded + ticks);
    drop_both_stops(outer, plain, outer, Class::Space);
    if inner.len() > 0 || !begins_with(body, "json"@) {
        assert(!begins_with(plain, tag)) by {
            if begins_with(plain, tag) {
                assert(plain[3] == plain.take(tag.len() as int)[3]);
                if inner.len() > 0 {
                    assert(plain[3] == inner[0]);
                    assert(is_space(inner[0]));
                } else {
                    // The ticks at the end cannot be part of the tag.
                    let front = plain.take(tag.len() as int);
                    assert(forall|i: int| 3 <= i < 7 ==> #[trigger] front[i] == plain[i]);
                    assert(forall|i: int| 0 <= i < body.len() ==> plain[i + 3] == body[i]);
                    if body.len() < 4 {
                        assert(plain[3 + body.len() as int] == ticks[0]);
                        assert(front[3 + body.len() as int] == '`');
                    } else {
                        assert forall|i: int| 0 <= i < 4 implies body[i] == "json"@[i] by {
                            assert(front[i + 3] == plain[i + 3]);
                        }
                        assert(body.take(4) == "json"@);
                    }
                }
            }
        }
        inside_fence(ticks, body, inner);
    }
}

proof fn inside_fence(front: Seq<char>, body: Seq<char>, inner: Seq<char>)
    requires
        is_bare(body),
        is_blank(inner),
        front == Seq::<char>::empty() || front == "```"@,
    ensures
        trimmed(drop_both(front + (inner + body + inner) + "```"@, Class::Only('`'))) == body,
{
    reveal_strlit("```");
    let padded = inner + body + inner;
    if inner.len() > 0 {
        assert(padded[0] == inner[0]);
        assert(is_space(inner[0]));
        assert(padded.last() == inner[inner.len() - 1]);
        assert(is_space(inner[inner.len() - 1]));
    } else {
        assert(padded == body);
    }
    drop_both_stops(front, padded, "```"@, Class::Only('`'));
    drop_both_stops(inner, body, inner, Class::Space);
}

/// The content of a completion is the text of the message of its first choice, as it is; without
/// one there is none.
pub proof fn content_is_the_first_choices(
    completion: Tree,
    choices: Seq<Tree>,
    message: Tree,
    content: Seq<char>,
)
    requires
        completion.get("choices"@) == Some(Tree::Array(choices)),
    ensures
        choices.len() > 0 && choices[0].get("message"@) == Some(message) ==> (content_in(completion)
            == Some(content) <==> message.get("content"@) == Some(Tree::Text(content))),
        choices.len() == 0 || choices[0].get("message"@) is None ==> content_in(completion) is None,
{
}

/// What has no choices has no content.
pub proof fn no_choices_no_content(completion: Tree)
    ensures
        completion.get("choices"@) is None ==> content_in(completion) is None,
{
}

/// The usage of a completion is what it reports, as it is, or null.
pub proof fn usage_is_as_reported(completion: Tree)
    ensures
        completion.get("usage"@) matches Some(usage) ==> usage_in(completion) == usage,
        completion.get("usage"@) is None ==> usage_in(completion) == Tree::Null,
{
}

/// Choices that come as an object, with their positions as keys, are read like a list.
pub proof fn numbered_choices_are_choices(completion: Tree, choices: Tree, message: Tree)
    requires
        completion.get("choices"@) == Some(choices),
        !(choices is Array),
    ensures
        choices.get("0"@) matches Some(choice) ==> (choice.get("message"@) == Some(message)
            ==> content_in(completion) == message.text_at("content"@)),
        choices.get("0"@) is None ==> content_in(completion) is None,
{
}

/// Whether a text is nothing but backticks.
pub open spec fn is_ticks(s: Seq<char>) -> bool {
    forall|i: int| 0 <= i < s.len() ==> #[trigger] s[i] == '`'
}

/// Any run of backticks on either side goes, with any white space round it and round what it
/// holds, whether the two sides are alike or not. What stands between them stays as it is.
pub proof fn backticks_and_blanks_go(
    body: Seq<char>,
    blanks: (Seq<char>, Seq<char>, Seq<char>, Seq<char>),
    ticks: (Seq<char>, Seq<char>),
)
    requires
        is_bare(body),
        is_blank(blanks.0) && is_blank(blanks.1) && is_blank(blanks.2) && is_blank(blanks.3),
        is_ticks(ticks.0) && is_ticks(ticks.1),
        !begins_with(ticks.0 + blanks.1 + body + blanks.2 + ticks.1, "```json"@),
    ensures
        unfenced(blanks.0 + ticks.0 + blanks.1 + body + blanks.2 + ticks.1 + blanks.3) == body,
{
    reveal_strlit("```json");
    let none = Seq::<char>::empty();
    let whole = blanks.0 + ticks.0 + blanks.1 + body + blanks.2 + ticks.1 + blanks.3;
    // White space that no backtick stands before goes at once.
    let (outer, left) = if ticks.0.len() > 0 {
        (blanks.0, blanks.1)
    } else {
        (blanks.0 + blanks.1, none)
    };
    let (right, rest) = if ticks.1.len() > 0 {
        (blanks.2, blanks.3)
    } else {
        (none, blanks.2 + blanks.3)
    };
    let padded = left + body + right;
    let core = ticks.0 + padded + ticks.1;
    assert(whole == outer + core + rest);
    assert(is_blank(outer)) by {
        assert forall|i: int| 0 <= i < outer.len() implies is_space(#[trigger] outer[i]) by {
            if i < blanks.0.len() {
                assert(outer[i] == blanks.0[i]);
            } else {
                assert(outer[i] == blanks.1[i - blanks.0.len()]);
            }
        }
    }
    assert(is_blank(rest)) by {
        assert forall|i: int| 0 <= i < rest.len() implies is_space(#[trigger] rest[i]) by {
            if ticks.1.len() > 0 {
                assert(rest[i] == blanks.3[i]);
            } else if i < blanks.2.len() {
                assert(rest[i] == blanks.2[i]);
            } else {
                assert(rest[i] == blanks.3[i - blanks.2.len()]);
            }
        }
    }
    if ticks.0.len() > 0 {
        assert(core[0] == ticks.0[0]);
    } else {
        assert(core[0] == body[0]);
    }
    if ticks.1.len() > 0 {
        assert(core.last() == ticks.1[ticks.1.len() - 1]);
    } else {
        assert(core.last() == body.last());
    }
    drop_both_stops(outer, core, rest, Class::Space);
    // It does not begin with a tag.
    assert(!begins_with(core, "```json"@)) by {
        if begins_with(core, "```json"@) {
            let given = ticks.0 + blanks.1 + body + blanks.2 + ticks.1;
            if ticks.0.len() > 0 {
                let front = core.take(7);
                assert(front == "```json"@);
                if ticks.1.len() > 0 {
                    assert(core == given);
                } else {
                    assert(given == core + blanks.2);
                    assert(given.take(7) == front);
                }
            } else {
                assert(core[0] == core.take(7)[0]);
                assert(core[0] == '`');
            }
        }
    }
    if left.len() > 0 {
        assert(padded[0] == left[0]);
        assert(is_space(left[0]));
    } else {
        assert(padded[0] == body[0]);
    }
    if right.len() > 0 {
        assert(padded.last() == right[right.len() - 1]);
        assert(is_space(right[right.len() - 1]));
    } else {
        assert(padded.last() == body.last());
    }
    drop_both_stops(ticks.0, padded, ticks.1, Class::Only('`'));
    drop_both_stops(left, body, right, Class::Space);
}

} // verus!
