use jev_copilot::json::Json;
use jev_copilot::search::{find_number_array, find_string_field, find_strings, find_turns};
use jev_copilot::value::parse;

fn read_tree(text: &str) -> Json {
    parse(text).unwrap()
}

#[test]
fn turns_are_found_in_the_requested_object() {
    let value = read_tree(r#"{"conversation":[{"speaker":"me","text":"a"}],"uncertain":[]}"#);
    let turns = find_turns(&value).unwrap();
    assert_eq!(turns.len(), 1);
    assert_eq!(turns[0].str_at("text"), Some("a"));
}

#[test]
fn turns_are_found_inside_an_array_and_among_flattened_keys() {
    let inside = read_tree(r#"[{"conversation":[{"text":"a"}]}]"#);
    assert_eq!(find_turns(&inside).unwrap()[0].str_at("text"), Some("a"));
    let flattened = read_tree(r#"["conversation",[{"text":"a"},{"text":"b"}],"uncertain"]"#);
    assert_eq!(find_turns(&flattened).unwrap().len(), 2);
}

#[test]
fn the_conversation_comes_before_earlier_keys() {
    let value = read_tree(r#"{"another":[{"text":"x"}],"conversation":[{"text":"y"}]}"#);
    assert_eq!(find_turns(&value).unwrap()[0].str_at("text"), Some("y"));
}

#[test]
fn without_a_conversation_the_first_key_in_order_wins() {
    let value = read_tree(r#"{"zebra":[{"text":"z"}],"conversation":[],"apple":[{"text":"a"}]}"#);
    assert_eq!(find_turns(&value).unwrap()[0].str_at("text"), Some("a"));
}

#[test]
fn one_item_with_a_text_makes_a_turn_list() {
    let value = read_tree(r#"[1,null,{"text":"a"}]"#);
    assert_eq!(find_turns(&value).unwrap().len(), 3);
    assert!(find_turns(&read_tree(r#"[{"text":1}]"#)).is_none());
    assert!(find_turns(&Json::Null).is_none());
}

#[test]
fn drafts_are_trimmed_and_blank_ones_dropped() {
    let value = read_tree(r#"{"drafts":[" one ","  ","two\n",3]}"#);
    assert_eq!(find_strings(&value), Some(vec!["one".to_string(), "two".to_string()]));
}

#[test]
fn one_text_is_no_list_of_drafts() {
    let value = read_tree(r#"[["drafts"],["a","b"]]"#);
    assert_eq!(find_strings(&value), Some(vec!["a".to_string(), "b".to_string()]));
    assert_eq!(find_strings(&read_tree(r#"{"drafts":["a"]}"#)), None);
}

#[test]
fn the_drafts_come_before_earlier_keys() {
    let value = read_tree(r#"{"a":["x","y"],"drafts":["p","q"]}"#);
    assert_eq!(find_strings(&value), Some(vec!["p".to_string(), "q".to_string()]));
}

#[test]
fn a_named_text_is_found_at_any_depth() {
    let value = read_tree(r#"[0,{"b":{"note":5},"c":[{"note":"here"}]}]"#);
    assert_eq!(find_string_field(&value, "note"), Some("here".to_string()));
    assert_eq!(find_string_field(&value, "b"), None);
}

#[test]
fn the_outermost_number_array_wins() {
    let value = read_tree(r#"{"a":{"uncertain":[1]},"uncertain":[2]}"#);
    assert_eq!(find_number_array(&value, "uncertain"), Some(vec![2]));
    let not_an_array = read_tree(r#"{"a":{"uncertain":[1]},"uncertain":2}"#);
    assert_eq!(find_number_array(&not_an_array, "uncertain"), Some(vec![1]));
}
