use jev_copilot::json::Json;
use jev_copilot::search::{find_number_array, remap_uncertain};

fn numbers(list: &[u64]) -> Json {
    Json::Array(list.iter().map(|n| Json::Unsigned(*n)).collect())
}

fn none() -> Json {
    Json::Array(Vec::new())
}

fn flags(list: &[u64]) -> Json {
    Json::object().with("uncertain", numbers(list))
}

/// The flags that the vision model raises must reach the page, whatever wraps them.
#[test]
fn uncertain_is_found_through_the_usual_wrappers() {
    let plain = Json::object().with("conversation", none()).with("uncertain", numbers(&[2, 4]));
    assert_eq!(find_number_array(&plain, "uncertain"), Some(vec![2, 4]));

    let wrapped_in_array = Json::Array(vec![Json::object()
        .with("conversation", none())
        .with("uncertain", numbers(&[1]))]);
    assert_eq!(find_number_array(&wrapped_in_array, "uncertain"), Some(vec![1]));

    let nested = Json::object().with("result", Json::object().with("data", flags(&[3])));
    assert_eq!(find_number_array(&nested, "uncertain"), Some(vec![3]));

    // Some models quote the numbers.
    let stringly = Json::object()
        .with("uncertain", Json::Array(vec![Json::text("2"), Json::text("3")]));
    assert_eq!(find_number_array(&stringly, "uncertain"), Some(vec![2, 3]));

    // No flags at all is the common case and must not be an error.
    assert_eq!(
        find_number_array(&Json::object().with("conversation", none()), "uncertain"),
        None
    );
}

/// A flag must highlight the row that is shown. Blank turns are dropped, so the numbering has
/// to shift with them.
#[test]
fn uncertain_follows_the_rows_that_survived() {
    // Of five turns the second and the fourth were blank, so the rows came from lines 1, 3, 5.
    let source_lines = [1, 3, 5];
    assert_eq!(
        remap_uncertain(&flags(&[3, 5]), &source_lines),
        vec![Json::Unsigned(2), Json::Unsigned(3)]
    );
}

#[test]
fn uncertain_drops_flags_for_rows_that_no_longer_exist() {
    let source_lines = [1, 3];
    // Line 2 was blank and dropped; flagging it must not mark an unrelated row.
    assert!(remap_uncertain(&flags(&[2]), &source_lines).is_empty());
}

#[test]
fn uncertain_is_sorted_and_deduplicated() {
    let source_lines = [1, 2, 3];
    assert_eq!(
        remap_uncertain(&flags(&[3, 1, 3]), &source_lines),
        vec![Json::Unsigned(1), Json::Unsigned(3)]
    );
}

/// A flag that is out of range must never be handed out, because the page turns it into a
/// request to check a line that is not there.
#[test]
fn uncertain_ignores_out_of_range_flags() {
    let source_lines = [1, 2];
    assert!(remap_uncertain(&flags(&[0, 9]), &source_lines).is_empty());
}

#[test]
fn a_line_that_stands_twice_is_flagged_where_it_comes_first() {
    assert_eq!(remap_uncertain(&flags(&[7]), &[5, 7, 7]), vec![Json::Unsigned(2)]);
}

#[test]
fn no_flags_give_no_rows() {
    assert!(remap_uncertain(&Json::Null, &[1, 2]).is_empty());
}

#[test]
fn what_is_no_line_number_is_passed_over() {
    let mixed = Json::object().with(
        "uncertain",
        Json::Array(vec![
            Json::text(" 4 "),
            Json::text("four"),
            Json::Null,
            Json::text("-1"),
            Json::text("+6"),
            Json::Bool(true),
            Json::Unsigned(9),
            Json::text("18446744073709551616"),
            Json::text("18446744073709551615"),
        ]),
    );
    assert_eq!(
        find_number_array(&mixed, "uncertain"),
        Some(vec![4, 6, 9, u64::MAX])
    );
}
