//! Finding what a model was asked for in the JSON that it wrote.
//!
//! The structure of such JSON is not reliable: the object that was asked for may come inside
//! an array, under another key, or with its keys flattened into a list. So each of these
//! functions walks the whole value and takes the first place that looks right.
use vstd::prelude::*;

use crate::json::{key_index, trees, Json, Tree};
use crate::text::{
    digits_of, digits_spell_the_number, only_digits_are_a_number, parse_u64, spelled_number, trim,
    trimmed, trimming_is_thorough, views, written_number_reads_back, Class,
};

verus! {

/// The first thing that `hit` finds on a walk through `tree`. At each value `hit` is tried
/// first. Then come, for an array, its items in order; for an object, the value under
/// `favourite`, where there is one, and then all values in the order of their keys.
pub open spec fn search<A>(
    tree: Tree,
    favourite: Option<Seq<char>>,
    hit: spec_fn(Tree) -> Option<A>,
) -> Option<A>
    decreases tree,
{
    match hit(tree) {
        Some(found) => Some(found),
        None => match tree {
            Tree::Array(items) => search_items(items, favourite, hit),
            Tree::Object(rows) => {
                let under_favourite = match favourite {
                    Some(key) => {
                        let at = key_index(rows, key);
                        if 0 <= at < rows.len() {
                            search(rows[at].1, favourite, hit)
                        } else {
                            None
                        }
                    },
                    None => None,
                };
                match under_favourite {
                    Some(found) => Some(found),
                    None => search_rows(rows, favourite, hit),
                }
            },
            _ => None,
        },
    }
}

/// The first thing found in one of `items`.
pub open spec fn search_items<A>(
    items: Seq<Tree>,
    favourite: Option<Seq<char>>,
    hit: spec_fn(Tree) -> Option<A>,
) -> Option<A>
    decreases items,
{
    if items.len() == 0 {
        None
    } else {
        match search(items[0], favourite, hit) {
            Some(found) => Some(found),
            None => search_items(items.drop_first(), favourite, hit),
        }
    }
}

/// The first thing found in the value of one of `rows`.
pub open spec fn search_rows<A>(
    rows: Seq<(Seq<char>, Tree)>,
    favourite: Option<Seq<char>>,
    hit: spec_fn(Tree) -> Option<A>,
) -> Option<A>
    decreases rows,
{
    if rows.len() == 0 {
        None
    } else {
        match search(rows[0].1, favourite, hit) {
            Some(found) => Some(found),
            None => search_rows(rows.drop_first(), favourite, hit),
        }
    }
}

/// An array with an item that has a text under `text` is a list of turns.
pub open spec fn turn_list(tree: Tree) -> Option<Seq<Tree>> {
    match tree {
        Tree::Array(items) => if exists|i: int|
            0 <= i < items.len() && (#[trigger] items[i]).text_at("text"@) is Some {
            Some(items)
        } else {
            None
        },
        _ => None,
    }
}

/// `turn_list` as a value.
pub open spec fn turn_hit() -> spec_fn(Tree) -> Option<Seq<Tree>> {
    |tree: Tree| turn_list(tree)
}

/// The turns that a value holds.
pub open spec fn turns_in(tree: Tree) -> Option<Seq<Tree>> {
    search(tree, Some("conversation"@), turn_hit())
}

fn has_text_item(items: &Vec<Json>) -> (res: bool)
    ensures
        res == (turn_list(Tree::Array(trees(items@))) is Some),
{
    let ghost all = trees(items@);
    let mut i: usize = 0;
    while i < items.len()
        invariant
            all == trees(items@),
            i <= items@.len(),
            forall|j: int| 0 <= j < i ==> (#[trigger] all[j]).text_at("text"@) is None,
        decreases items@.len() - i,
    {
        let ghost item = all[i as int];
        assert(item == items@[i as int]@);
        if items[i].str_at("text").is_some() {
            assert(item.text_at("text"@) is Some);
            return true;
        }
        i = i + 1;
    }
    false
}

/// Locates the turn list, however the model wrapped it: the first array, on the walk, of
/// which an item has a `text`.
pub fn find_turns(value: &Json) -> (res: Option<&Vec<Json>>)
    ensures
        match res {
            Some(list) => turns_in(value@) == Some(trees(list@)),
            None => turns_in(value@) is None,
        },
    decreases value@,
{
    match value {
        Json::Array(items) => {
            let ghost all = trees(items@);
            assert(value@->Array_0 == all);
            if has_text_item(items) {
                return Some(items);
            }
            let mut i: usize = 0;
            assert(all.skip(0) == all);
            while i < items.len()
                invariant
                    all == trees(items@),
                    value@ == Tree::Array(all),
                    i <= items@.len(),
                    turns_in(value@) == search_items(
                        all.skip(i as int),
                        Some("conversation"@),
                        turn_hit(),
                    ),
                decreases items@.len() - i,
            {
                assert(all[i as int] == items@[i as int]@);
                assert(all.skip(i as int)[0] == all[i as int]);
                assert(all.skip(i as int).drop_first() == all.skip(i + 1));
                assert(decreases_to!(value@ => value@->Array_0[i as int]));
                if let Some(found) = find_turns(&items[i]) {
                    return Some(found);
                }
                i = i + 1;
            }
            None
        },
        Json::Object(members) => {
            let ghost rows = members@;
            if let Some(inner) = members.get("conversation") {
                assert(decreases_to!(value@ => value@->Object_0[key_index(rows, "conversation"@)].1));
                if let Some(found) = find_turns(inner) {
                    return Some(found);
                }
            }
            let mut i: usize = 0;
            assert(rows.skip(0) == rows);
            while i < members.len()
                invariant
                    rows == members@,
                    value@ == Tree::Object(rows),
                    i <= rows.len(),
                    turns_in(value@) == search_rows(
                        rows.skip(i as int),
                        Some("conversation"@),
                        turn_hit(),
                    ),
                decreases rows.len() - i,
            {
                assert(rows.skip(i as int)[0] == rows[i as int]);
                assert(rows.skip(i as int).drop_first() == rows.skip(i + 1));
                assert(decreases_to!(value@ => value@->Object_0[i as int].1));
                if let Some(found) = find_turns(members.value(i)) {
                    return Some(found);
                }
                i = i + 1;
            }
            None
        },
        _ => None,
    }
}

/// The text of an item that is a text with more than white space in it, trimmed.
pub open spec fn candidate(item: Tree) -> Option<Seq<char>> {
    match item {
        Tree::Text(s) => if trimmed(s).len() > 0 {
            Some(trimmed(s))
        } else {
            None
        },
        _ => None,
    }
}

/// The candidates among `items`, in order.
pub open spec fn candidates(items: Seq<Tree>) -> Seq<Seq<char>>
    decreases items.len(),
{
    if items.len() == 0 {
        Seq::empty()
    } else {
        match candidate(items.last()) {
            Some(s) => candidates(items.drop_last()).push(s),
            None => candidates(items.drop_last()),
        }
    }
}

/// An array with at least two candidates is a list of drafts. One alone is not enough, so
/// that a stray list with the name of a key in it is passed over.
pub open spec fn draft_list(tree: Tree) -> Option<Seq<Seq<char>>> {
    match tree {
        Tree::Array(items) => if candidates(items).len() >= 2 {
            Some(candidates(items))
        } else {
            None
        },
        _ => None,
    }
}

/// `draft_list` as a value.
pub open spec fn draft_hit() -> spec_fn(Tree) -> Option<Seq<Seq<char>>> {
    |tree: Tree| draft_list(tree)
}

/// The drafts that a value holds.
pub open spec fn drafts_in(tree: Tree) -> Option<Seq<Seq<char>>> {
    search(tree, Some("drafts"@), draft_hit())
}

fn candidate_texts(items: &Vec<Json>) -> (res: Vec<String>)
    ensures
        views(res@) == candidates(trees(items@)),
{
    let ghost all = trees(items@);
    let mut res: Vec<String> = Vec::new();
    let mut i: usize = 0;
    assert(views(res@) == candidates(all.take(0)));
    while i < items.len()
        invariant
            all == trees(items@),
            i <= items@.len(),
            views(res@) == candidates(all.take(i as int)),
        decreases items@.len() - i,
    {
        assert(all.take(i + 1).drop_last() == all.take(i as int));
        assert(all.take(i + 1).last() == items@[i as int]@);
        if let Some(s) = items[i].as_str() {
            let kept = trim(s);
            if !kept.is_empty() {
                let ghost old_views = views(res@);
                res.push(kept.to_owned());
                assert(views(res@) == old_views.push(kept@));
            }
        }
        i = i + 1;
    }
    assert(all.take(i as int) == all);
    res
}

/// Locates the drafts in the same way: the first array, on the walk, with at least two
/// texts that are not blank.
pub fn find_strings(value: &Json) -> (res: Option<Vec<String>>)
    ensures
        match res {
            Some(found) => drafts_in(value@) == Some(views(found@)),
            None => drafts_in(value@) is None,
        },
    decreases value@,
{
    match value {
        Json::Array(items) => {
            let ghost all = trees(items@);
            assert(value@->Array_0 == all);
            let texts = candidate_texts(items);
            assert(views(texts@).len() == texts@.len());
            if texts.len() >= 2 {
                return Some(texts);
            }
            let mut i: usize = 0;
            assert(all.skip(0) == all);
            while i < items.len()
                invariant
                    all == trees(items@),
                    value@ == Tree::Array(all),
                    i <= items@.len(),
                    drafts_in(value@) == search_items(all.skip(i as int), Some("drafts"@), draft_hit()),
                decreases items@.len() - i,
            {
                assert(all[i as int] == items@[i as int]@);
                assert(all.skip(i as int)[0] == all[i as int]);
                assert(all.skip(i as int).drop_first() == all.skip(i + 1));
                assert(decreases_to!(value@ => value@->Array_0[i as int]));
                if let Some(found) = find_strings(&items[i]) {
                    return Some(found);
                }
                i = i + 1;
            }
            None
        },
        Json::Object(members) => {
            let ghost rows = members@;
            if let Some(inner) = members.get("drafts") {
                assert(decreases_to!(value@ => value@->Object_0[key_index(rows, "drafts"@)].1));
                if let Some(found) = find_strings(inner) {
                    return Some(found);
                }
            }
            let mut i: usize = 0;
            assert(rows.skip(0) == rows);
            while i < members.len()
                invariant
                    rows == members@,
                    value@ == Tree::Object(rows),
                    i <= rows.len(),
                    drafts_in(value@) == search_rows(rows.skip(i as int), Some("drafts"@), draft_hit()),
                decreases rows.len() - i,
            {
                assert(rows.skip(i as int)[0] == rows[i as int]);
                assert(rows.skip(i as int).drop_first() == rows.skip(i + 1));
                assert(decreases_to!(value@ => value@->Object_0[i as int].1));
                if let Some(found) = find_strings(members.value(i)) {
                    return Some(found);
                }
                i = i + 1;
            }
            None
        },
        _ => None,
    }
}

/// The line number that an item is: an integer, or a text that spells one.
pub open spec fn line_number(item: Tree) -> Option<u64> {
    match item {
        Tree::Unsigned(n) => Some(n),
        Tree::Text(s) => match spelled_number(trimmed(s), u64::MAX as nat) {
            Some(n) => Some(n as u64),
            None => None,
        },
        _ => None,
    }
}

/// The line numbers among `items`, in order.
pub open spec fn line_numbers(items: Seq<Tree>) -> Seq<u64>
    decreases items.len(),
{
    if items.len() == 0 {
        Seq::empty()
    } else {
        match line_number(items.last()) {
            Some(n) => line_numbers(items.drop_last()).push(n),
            None => line_numbers(items.drop_last()),
        }
    }
}

/// An object with an array under `key` has the line numbers in it.
pub open spec fn number_list(tree: Tree, key: Seq<char>) -> Option<Seq<u64>> {
    match tree.get(key) {
        Some(Tree::Array(items)) => Some(line_numbers(items)),
        _ => None,
    }
}

/// `number_list` as a value.
pub open spec fn number_hit(key: Seq<char>) -> spec_fn(Tree) -> Option<Seq<u64>> {
    |tree: Tree| number_list(tree, key)
}

/// The line numbers that a value holds under a key.
pub open spec fn numbers_in(tree: Tree, key: Seq<char>) -> Option<Seq<u64>> {
    search(tree, None, number_hit(key))
}

fn item_number(item: &Json) -> (res: Option<u64>)
    ensures
        res == line_number(item@),
{
    match item {
        Json::Unsigned(n) => Some(*n),
        Json::Text(s) => parse_u64(trim(s.as_str())),
        _ => None,
    }
}

fn item_numbers(items: &Vec<Json>) -> (res: Vec<u64>)
    ensures
        res@ == line_numbers(trees(items@)),
{
    let ghost all = trees(items@);
    let mut res: Vec<u64> = Vec::new();
    let mut i: usize = 0;
    assert(res@ == line_numbers(all.take(0)));
    while i < items.len()
        invariant
            all == trees(items@),
            i <= items@.len(),
            res@ == line_numbers(all.take(i as int)),
        decreases items@.len() - i,
    {
        assert(all.take(i + 1).drop_last() == all.take(i as int));
        assert(all.take(i + 1).last() == items@[i as int]@);
        if let Some(n) = item_number(&items[i]) {
            res.push(n);
        }
        i = i + 1;
    }
    assert(all.take(i as int) == all);
    res
}

/// Pulls a named array of line numbers out of the value, wherever the model put it.
pub fn find_number_array(value: &Json, key: &str) -> (res: Option<Vec<u64>>)
    ensures
        match res {
            Some(found) => numbers_in(value@, key@) == Some(found@),
            None => numbers_in(value@, key@) is None,
        },
    decreases value@,
{
    match value {
        Json::Array(items) => {
            let ghost all = trees(items@);
            assert(value@->Array_0 == all);
            let mut i: usize = 0;
            assert(all.skip(0) == all);
            while i < items.len()
                invariant
                    all == trees(items@),
                    value@ == Tree::Array(all),
                    i <= items@.len(),
                    numbers_in(value@, key@) == search_items(all.skip(i as int), None, number_hit(key@)),
                decreases items@.len() - i,
            {
                assert(all[i as int] == items@[i as int]@);
                assert(all.skip(i as int)[0] == all[i as int]);
                assert(all.skip(i as int).drop_first() == all.skip(i + 1));
                assert(decreases_to!(value@ => value@->Array_0[i as int]));
                if let Some(found) = find_number_array(&items[i], key) {
                    return Some(found);
                }
                i = i + 1;
            }
            None
        },
        Json::Object(members) => {
            let ghost rows = members@;
            if let Some(inner) = members.get(key) {
                if let Some(items) = inner.as_array() {
                    return Some(item_numbers(items));
                }
            }
            let mut i: usize = 0;
            assert(rows.skip(0) == rows);
            while i < members.len()
                invariant
                    rows == members@,
                    value@ == Tree::Object(rows),
                    i <= rows.len(),
                    numbers_in(value@, key@) == search_rows(rows.skip(i as int), None, number_hit(key@)),
                decreases rows.len() - i,
            {
                assert(rows.skip(i as int)[0] == rows[i as int]);
                assert(rows.skip(i as int).drop_first() == rows.skip(i + 1));
                assert(decreases_to!(value@ => value@->Object_0[i as int].1));
                if let Some(found) = find_number_array(members.value(i), key) {
                    return Some(found);
                }
                i = i + 1;
            }
            None
        },
        _ => None,
    }
}

/// `Tree::text_at` for one key as a value.
pub open spec fn text_hit(key: Seq<char>) -> spec_fn(Tree) -> Option<Seq<char>> {
    |tree: Tree| tree.text_at(key)
}

/// The text that a value holds under a key.
pub open spec fn text_in(tree: Tree, key: Seq<char>) -> Option<Seq<char>> {
    search(tree, None, text_hit(key))
}

/// Pulls a named text out of the value, wherever the model put it.
pub fn find_string_field(value: &Json, key: &str) -> (res: Option<String>)
    ensures
        match res {
            Some(found) => text_in(value@, key@) == Some(found@),
            None => text_in(value@, key@) is None,
        },
    decreases value@,
{
    match value {
        Json::Array(items) => {
            let ghost all = trees(items@);
            assert(value@->Array_0 == all);
            let mut i: usize = 0;
            assert(all.skip(0) == all);
            while i < items.len()
                invariant
                    all == trees(items@),
                    value@ == Tree::Array(all),
                    i <= items@.len(),
                    text_in(value@, key@) == search_items(all.skip(i as int), None, text_hit(key@)),
                decreases items@.len() - i,
            {
                assert(all[i as int] == items@[i as int]@);
                assert(all.skip(i as int)[0] == all[i as int]);
                assert(all.skip(i as int).drop_first() == all.skip(i + 1));
                assert(decreases_to!(value@ => value@->Array_0[i as int]));
                if let Some(found) = find_string_field(&items[i], key) {
                    return Some(found);
                }
                i = i + 1;
            }
            None
        },
        Json::Object(members) => {
            let ghost rows = members@;
            if let Some(text) = value.str_at(key) {
                return Some(text.to_owned());
            }
            let mut i: usize = 0;
            assert(rows.skip(0) == rows);
            while i < members.len()
                invariant
                    rows == members@,
                    value@ == Tree::Object(rows),
                    i <= rows.len(),
                    text_in(value@, key@) == search_rows(rows.skip(i as int), None, text_hit(key@)),
                decreases rows.len() - i,
            {
                assert(rows.skip(i as int)[0] == rows[i as int]);
                assert(rows.skip(i as int).drop_first() == rows.skip(i + 1));
                assert(decreases_to!(value@ => value@->Object_0[i as int].1));
                if let Some(found) = find_string_field(members.value(i), key) {
                    return Some(found);
                }
                i = i + 1;
            }
            None
        },
        _ => None,
    }
}

/// The line numbers that a value flags as uncertain.
pub open spec fn uncertain_lines(tree: Tree) -> Seq<u64> {
    match numbers_in(tree, "uncertain"@) {
        Some(lines) => lines,
        None => Seq::empty(),
    }
}

/// Whether a row, counted from zero, is flagged: its line is, and the row is the first of
/// that line.
pub open spec fn flags_row(lines: Seq<u64>, source_lines: Seq<u64>, row: int) -> bool {
    &&& 0 <= row < source_lines.len()
    &&& lines.contains(source_lines[row])
    &&& forall|i: int| 0 <= i < row ==> source_lines[i] != source_lines[row]
}

/// The flagged ones of the first `count` rows, counted from one, in order.
pub open spec fn flagged_rows(lines: Seq<u64>, source_lines: Seq<u64>, count: nat) -> Seq<u64>
    decreases count,
{
    if count == 0 {
        Seq::empty()
    } else {
        let before = flagged_rows(lines, source_lines, (count - 1) as nat);
        if flags_row(lines, source_lines, count - 1) {
            before.push(count as u64)
        } else {
            before
        }
    }
}

/// The rows, counted from one, that the flags of a value fall on.
pub open spec fn uncertain_rows(tree: Tree, source_lines: Seq<u64>) -> Seq<u64> {
    flagged_rows(uncertain_lines(tree), source_lines, source_lines.len())
}

/// The numbers of a list as JSON values.
pub open spec fn number_trees(numbers: Seq<u64>) -> Seq<Tree> {
    numbers.map_values(|n: u64| Tree::Unsigned(n))
}

fn occurs(numbers: &[u64], count: usize, n: u64) -> (res: bool)
    requires
        count <= numbers@.len(),
    ensures
        res == exists|i: int| 0 <= i < count && numbers@[i] == n,
{
    let mut i: usize = 0;
    while i < count
        invariant
            i <= count <= numbers@.len(),
            forall|j: int| 0 <= j < i ==> numbers@[j] != n,
        decreases count - i,
    {
        if numbers[i] == n {
            return true;
        }
        i = i + 1;
    }
    false
}

/// Translates the model's `uncertain` line numbers onto the rows that are shown.
///
/// The model numbers its own output from one. Blank turns are dropped before anyone sees
/// them, so a raw flag would land on the wrong row. `source_lines[i]` is the original number
/// of the turn now at position `i`; a line that no longer exists is discarded.
pub fn remap_uncertain(parsed_content: &Json, source_lines: &[u64]) -> (res: Vec<Json>)
    ensures
        trees(res@) == number_trees(uncertain_rows(parsed_content@, source_lines@)),
{
    let lines: Vec<u64> = match find_number_array(parsed_content, "uncertain") {
        Some(lines) => lines,
        None => Vec::new(),
    };
    assert(lines@ == uncertain_lines(parsed_content@));
    let mut res: Vec<Json> = Vec::new();
    let mut row: usize = 0;
    assert(trees(res@) == number_trees(flagged_rows(lines@, source_lines@, 0)));
    while row < source_lines.len()
        invariant
            row <= source_lines@.len(),
            trees(res@) == number_trees(flagged_rows(lines@, source_lines@, row as nat)),
        decreases source_lines@.len() - row,
    {
        let line = source_lines[row];
        let ghost flagged = flagged_rows(lines@, source_lines@, row as nat);
        let ghost shown = trees(res@);
        if occurs(lines.as_slice(), lines.len(), line) && !occurs(source_lines, row, line) {
            assert(flags_row(lines@, source_lines@, row as int));
            res.push(Json::Unsigned(row as u64 + 1));
            assert(trees(res@) == shown.push(Tree::Unsigned((row + 1) as u64)));
            assert(number_trees(flagged.push((row + 1) as u64)) == number_trees(flagged).push(
                Tree::Unsigned((row + 1) as u64),
            ));
        } else {
            assert(!flags_row(lines@, source_lines@, row as int));
        }
        row = row + 1;
    }
    res
}

/// A flag marks the row that came from its line, and no other: a number is handed out if and
/// only if it is the number of the first row of a flagged line. So none lies beyond the rows
/// that there are, and none stands for a line that was dropped.
pub proof fn flag_marks_its_row(lines: Seq<u64>, source_lines: Seq<u64>, n: u64)
    requires
        source_lines.len() <= u64::MAX,
    ensures
        flagged_rows(lines, source_lines, source_lines.len()).contains(n) <==> flags_row(
            lines,
            source_lines,
            n - 1,
        ),
{
    flagged_rows_members(lines, source_lines, source_lines.len(), n);
}

proof fn flagged_rows_members(lines: Seq<u64>, source_lines: Seq<u64>, count: nat, n: u64)
    requires
        count <= source_lines.len() <= u64::MAX,
    ensures
        flagged_rows(lines, source_lines, count).contains(n) <==> (n <= count && flags_row(
            lines,
            source_lines,
            n - 1,
        )),
    decreases count,
{
    if count > 0 {
        let before = flagged_rows(lines, source_lines, (count - 1) as nat);
        let all = flagged_rows(lines, source_lines, count);
        flagged_rows_members(lines, source_lines, (count - 1) as nat, n);
        if flags_row(lines, source_lines, count - 1) {
            assert(all == before.push(count as u64));
            assert(all[before.len() as int] == count as u64);
            if before.contains(n) {
                let i = choose|i: int| 0 <= i < before.len() && before[i] == n;
                assert(all[i] == n);
            }
            if all.contains(n) && n != count {
                let i = choose|i: int| 0 <= i < all.len() && all[i] == n;
                assert(before[i] == n);
            }
        }
    }
}

/// The rows that are handed out ascend, so that none is there twice.
pub proof fn flagged_rows_ascend(lines: Seq<u64>, source_lines: Seq<u64>, count: nat)
    requires
        count <= source_lines.len() <= u64::MAX,
    ensures
        forall|i: int, j: int|
            0 <= i < j < flagged_rows(lines, source_lines, count).len() ==> flagged_rows(
                lines,
                source_lines,
                count,
            )[i] < flagged_rows(lines, source_lines, count)[j],
    decreases count,
{
    if count > 0 {
        let before = flagged_rows(lines, source_lines, (count - 1) as nat);
        let all = flagged_rows(lines, source_lines, count);
        flagged_rows_ascend(lines, source_lines, (count - 1) as nat);
        assert forall|i: int, j: int| 0 <= i < j < all.len() implies all[i] < all[j] by {
            if j == before.len() {
                assert(before.contains(before[i]));
                flagged_rows_members(lines, source_lines, (count - 1) as nat, before[i]);
            }
        }
    }
}

/// Whether `node` occurs in `tree`, at its top or at any depth.
pub open spec fn within(node: Tree, tree: Tree) -> bool
    decreases tree,
{
    node == tree || match tree {
        Tree::Array(items) => exists|i: int| 0 <= i < items.len() && within(node, #[trigger] items[i]),
        Tree::Object(rows) => exists|i: int|
            0 <= i < rows.len() && within(node, (#[trigger] rows[i]).1),
        _ => false,
    }
}

/// What a search finds stands somewhere in the value.
pub proof fn search_is_sound<A>(
    tree: Tree,
    favourite: Option<Seq<char>>,
    hit: spec_fn(Tree) -> Option<A>,
)
    requires
        search(tree, favourite, hit) is Some,
    ensures
        exists|node: Tree| #[trigger]
            within(node, tree) && hit(node) == search(tree, favourite, hit),
    decreases tree,
{
    if hit(tree) is Some {
        assert(within(tree, tree));
    } else {
        match tree {
            Tree::Array(items) => {
                let i = found_item(items, favourite, hit);
                search_is_sound(items[i], favourite, hit);
                let node = choose|node: Tree| #[trigger]
                    within(node, items[i]) && hit(node) == search(items[i], favourite, hit);
                assert(within(node, tree));
            },
            Tree::Object(rows) => {
                let at = key_index(rows, favourite.unwrap_or(Seq::empty()));
                let i = if favourite is Some && 0 <= at < rows.len() && search(
                    rows[at].1,
                    favourite,
                    hit,
                ) is Some {
                    at
                } else {
                    found_row(rows, favourite, hit)
                };
                search_is_sound(rows[i].1, favourite, hit);
                let node = choose|node: Tree| #[trigger]
                    within(node, rows[i].1) && hit(node) == search(rows[i].1, favourite, hit);
                assert(within(node, tree));
            },
            _ => {},
        }
    }
}

proof fn found_item<A>(
    items: Seq<Tree>,
    favourite: Option<Seq<char>>,
    hit: spec_fn(Tree) -> Option<A>,
) -> (i: int)
    requires
        search_items(items, favourite, hit) is Some,
    ensures
        0 <= i < items.len(),
        search(items[i], favourite, hit) == search_items(items, favourite, hit),
    decreases items.len(),
{
    if search(items[0], favourite, hit) is Some {
        0
    } else {
        1 + found_item(items.drop_first(), favourite, hit)
    }
}

proof fn found_row<A>(
    rows: Seq<(Seq<char>, Tree)>,
    favourite: Option<Seq<char>>,
    hit: spec_fn(Tree) -> Option<A>,
) -> (i: int)
    requires
        search_rows(rows, favourite, hit) is Some,
    ensures
        0 <= i < rows.len(),
        search(rows[i].1, favourite, hit) == search_rows(rows, favourite, hit),
    decreases rows.len(),
{
    if search(rows[0].1, favourite, hit) is Some {
        0
    } else {
        1 + found_row(rows.drop_first(), favourite, hit)
    }
}

/// What is somewhere in the value is found: however deep it lies, and whatever wraps it, a
/// search does not come back with nothing.
pub proof fn search_is_complete<A>(
    tree: Tree,
    favourite: Option<Seq<char>>,
    hit: spec_fn(Tree) -> Option<A>,
    node: Tree,
)
    requires
        within(node, tree),
        hit(node) is Some,
    ensures
        search(tree, favourite, hit) is Some,
    decreases tree,
{
    if node != tree {
        match tree {
            Tree::Array(items) => {
                let i = choose|i: int| 0 <= i < items.len() && within(node, #[trigger] items[i]);
                search_is_complete(items[i], favourite, hit, node);
                item_is_found(items, favourite, hit, i);
            },
            Tree::Object(rows) => {
                let i = choose|i: int| 0 <= i < rows.len() && within(node, (#[trigger] rows[i]).1);
                search_is_complete(rows[i].1, favourite, hit, node);
                row_is_found(rows, favourite, hit, i);
            },
            _ => {},
        }
    }
}

proof fn item_is_found<A>(
    items: Seq<Tree>,
    favourite: Option<Seq<char>>,
    hit: spec_fn(Tree) -> Option<A>,
    i: int,
)
    requires
        0 <= i < items.len(),
        search(items[i], favourite, hit) is Some,
    ensures
        search_items(items, favourite, hit) is Some,
    decreases items.len(),
{
    if i > 0 {
        item_is_found(items.drop_first(), favourite, hit, i - 1);
    }
}

proof fn row_is_found<A>(
    rows: Seq<(Seq<char>, Tree)>,
    favourite: Option<Seq<char>>,
    hit: spec_fn(Tree) -> Option<A>,
    i: int,
)
    requires
        0 <= i < rows.len(),
        search(rows[i].1, favourite, hit) is Some,
    ensures
        search_rows(rows, favourite, hit) is Some,
    decreases rows.len(),
{
    if i > 0 {
        row_is_found(rows.drop_first(), favourite, hit, i - 1);
    }
}

/// An array round a value hides nothing in it: unless the array itself is what is looked for,
/// the same is found.
pub proof fn array_hides_nothing<A>(
    tree: Tree,
    favourite: Option<Seq<char>>,
    hit: spec_fn(Tree) -> Option<A>,
)
    requires
        hit(Tree::Array(seq![tree])) is None,
    ensures
        search(Tree::Array(seq![tree]), favourite, hit) == search(tree, favourite, hit),
{
    let items = seq![tree];
    assert(items.drop_first() == Seq::<Tree>::empty());
    assert(search_items(items.drop_first(), favourite, hit) == None::<A>);
    assert(search_items(items, favourite, hit) == search(tree, favourite, hit));
}

/// An object round a value hides nothing in it, whatever its key.
pub proof fn object_hides_nothing<A>(
    key: Seq<char>,
    tree: Tree,
    favourite: Option<Seq<char>>,
    hit: spec_fn(Tree) -> Option<A>,
)
    requires
        hit(Tree::Object(seq![(key, tree)])) is None,
    ensures
        search(Tree::Object(seq![(key, tree)]), favourite, hit) == search(tree, favourite, hit),
{
    let rows = seq![(key, tree)];
    assert(rows.drop_first() == Seq::<(Seq<char>, Tree)>::empty());
    assert(search_rows(rows.drop_first(), favourite, hit) == None::<A>);
    assert(search_rows(rows, favourite, hit) == search(tree, favourite, hit));
}

/// A line number counts alike whether it comes as a number or as a quoted one.
pub proof fn quoted_line_number_counts(n: u64)
    ensures
        line_number(Tree::Text(digits_of(n as nat))) == line_number(Tree::Unsigned(n)),
{
    written_number_reads_back(n as nat, u64::MAX as nat);
}

proof fn candidates_are_trimmed(items: Seq<Tree>, i: int)
    requires
        0 <= i < candidates(items).len(),
    ensures
        candidates(items)[i].len() > 0,
        trimmed(candidates(items)[i]) == candidates(items)[i],
    decreases items.len(),
{
    let before = candidates(items.drop_last());
    if i < before.len() {
        candidates_are_trimmed(items.drop_last(), i);
    } else if let Tree::Text(s) = items.last() {
        trimming_is_thorough(s, Class::Space);
    }
}

/// The drafts that are found are at least two; none is blank, and none has white space at
/// either end.
pub proof fn found_drafts_are_usable(tree: Tree)
    requires
        drafts_in(tree) is Some,
    ensures
        drafts_in(tree)->0.len() >= 2,
        forall|i: int|
            0 <= i < drafts_in(tree)->0.len() ==> (#[trigger] drafts_in(tree)->0[i]).len() > 0
                && trimmed(drafts_in(tree)->0[i]) == drafts_in(tree)->0[i],
{
    search_is_sound(tree, Some("drafts"@), draft_hit());
    let node = choose|node: Tree| #[trigger]
        within(node, tree) && draft_hit()(node) == drafts_in(tree);
    assert(draft_list(node) == drafts_in(tree));
    let texts = drafts_in(tree)->0;
    assert forall|i: int| 0 <= i < texts.len() implies (#[trigger] texts[i]).len() > 0 && trimmed(
        texts[i],
    ) == texts[i] by {
        candidates_are_trimmed(node->Array_0, i);
    }
}

/// What is looked for is taken where the walk first meets it, before anything inside it.
pub proof fn outermost_decides<A>(
    tree: Tree,
    favourite: Option<Seq<char>>,
    hit: spec_fn(Tree) -> Option<A>,
)
    ensures
        hit(tree) is Some ==> search(tree, favourite, hit) == hit(tree),
        !(tree is Array) && !(tree is Object) ==> search(tree, favourite, hit) == hit(tree),
{
}

/// Of the items of an array the first that holds what is looked for decides.
pub proof fn first_item_decides<A>(
    items: Seq<Tree>,
    favourite: Option<Seq<char>>,
    hit: spec_fn(Tree) -> Option<A>,
    i: int,
)
    requires
        0 <= i < items.len(),
        forall|j: int| 0 <= j < i ==> search(#[trigger] items[j], favourite, hit) is None,
        search(items[i], favourite, hit) is Some,
    ensures
        hit(Tree::Array(items)) is None ==> search(Tree::Array(items), favourite, hit) == search(
            items[i],
            favourite,
            hit,
        ),
        search_items(items, favourite, hit) == search(items[i], favourite, hit),
    decreases items.len(),
{
    if i > 0 {
        let rest = items.drop_first();
        assert(search(items[0], favourite, hit) is None);
        assert forall|j: int| 0 <= j < i - 1 implies search(
            #[trigger] rest[j],
            favourite,
            hit,
        ) is None by {
            assert(rest[j] == items[j + 1]);
        }
        first_item_decides(rest, favourite, hit, i - 1);
    }
}

/// Of the values of an object the favourite one decides, where it holds what is looked for.
pub proof fn favourite_decides<A>(
    tree: Tree,
    key: Seq<char>,
    value: Tree,
    hit: spec_fn(Tree) -> Option<A>,
)
    requires
        hit(tree) is None,
        tree.get(key) == Some(value),
        search(value, Some(key), hit) is Some,
    ensures
        search(tree, Some(key), hit) == search(value, Some(key), hit),
{
}

/// Where no value is favoured, or the favoured one holds nothing, the first value of an object
/// that does decides.
pub proof fn first_value_decides<A>(
    rows: Seq<(Seq<char>, Tree)>,
    favourite: Option<Seq<char>>,
    hit: spec_fn(Tree) -> Option<A>,
    i: int,
)
    requires
        0 <= i < rows.len(),
        forall|j: int| 0 <= j < i ==> search((#[trigger] rows[j]).1, favourite, hit) is None,
        search(rows[i].1, favourite, hit) is Some,
    ensures
        search_rows(rows, favourite, hit) == search(rows[i].1, favourite, hit),
        hit(Tree::Object(rows)) is None && (favourite is Some ==> match Tree::Object(rows).get(
            favourite->0,
        ) {
            Some(value) => search(value, favourite, hit) is None,
            None => true,
        }) ==> search(Tree::Object(rows), favourite, hit) == search(rows[i].1, favourite, hit),
    decreases rows.len(),
{
    if i > 0 {
        let rest = rows.drop_first();
        assert(search(rows[0].1, favourite, hit) is None);
        assert forall|j: int| 0 <= j < i - 1 implies search(
            (#[trigger] rest[j]).1,
            favourite,
            hit,
        ) is None by {
            assert(rest[j] == rows[j + 1]);
        }
        first_value_decides(rest, favourite, hit, i - 1);
    }
}

/// What stands in a value stands in it: the value itself, and all that stands in its parts.
pub proof fn parts_stand_within(tree: Tree, node: Tree, i: int)
    ensures
        within(tree, tree),
        tree is Array && 0 <= i < tree->Array_0.len() && within(node, tree->Array_0[i]) ==> within(
            node,
            tree,
        ),
        tree is Object && 0 <= i < tree->Object_0.len() && within(node, tree->Object_0[i].1) ==> within(
            node,
            tree,
        ),
{
}

/// The turns are the items, all of them and unchanged, of an array in the value of which an item
/// has a text under `text`; and where there is such an array, there are turns.
pub proof fn turns_are_a_whole_array(tree: Tree, items: Seq<Tree>, i: int)
    ensures
        turns_in(tree) == Some(items) ==> within(Tree::Array(items), tree) && exists|j: int|
            0 <= j < items.len() && (#[trigger] items[j]).get("text"@) matches Some(Tree::Text(_)),
        within(Tree::Array(items), tree) && 0 <= i < items.len() && (items[i].get("text"@) matches Some(
            Tree::Text(_),
        )) ==> turns_in(tree) is Some,
        tree == Tree::Array(items) && 0 <= i < items.len() && (items[i].get("text"@) matches Some(
            Tree::Text(_),
        )) ==> turns_in(tree) == Some(items),
{
    let key = Some("conversation"@);
    if turns_in(tree) == Some(items) {
        search_is_sound(tree, key, turn_hit());
        let node = choose|node: Tree| #[trigger]
            within(node, tree) && turn_hit()(node) == turns_in(tree);
        assert(turn_list(node) == Some(items));
        assert(node == Tree::Array(items));
        let j = choose|j: int| 0 <= j < items.len() && (#[trigger] items[j]).text_at("text"@) is Some;
        assert(items[j].get("text"@) matches Some(Tree::Text(_)));
    }
    if 0 <= i < items.len() && (items[i].get("text"@) matches Some(Tree::Text(_))) {
        assert(items[i].text_at("text"@) is Some);
        assert(turn_list(Tree::Array(items)) == Some(items));
        assert(turn_hit()(Tree::Array(items)) == Some(items));
        if within(Tree::Array(items), tree) {
            search_is_complete(tree, key, turn_hit(), Tree::Array(items));
        }
    }
}

/// Turns under `conversation` go before turns anywhere else in an object.
pub proof fn conversation_goes_first(tree: Tree, value: Tree)
    requires
        tree.get("conversation"@) == Some(value),
        turns_in(value) is Some,
    ensures
        turns_in(tree) == turns_in(value),
{
    assert(turn_hit()(tree) is None);
    favourite_decides(tree, "conversation"@, value, turn_hit());
}

/// The candidates of a list are those of its parts, one after the other, and a single item is
/// one if and only if it is a text with more than white space in it, which it keeps but for the
/// white space at its ends.
pub proof fn candidates_go_item_by_item(front: Seq<Tree>, back: Seq<Tree>, item: Tree)
    ensures
        candidates(front + back) == candidates(front) + candidates(back),
        candidates(seq![item]) == (match item {
            Tree::Text(s) => if trimmed(s).len() > 0 {
                seq![trimmed(s)]
            } else {
                Seq::empty()
            },
            _ => Seq::empty(),
        }),
    decreases back.len(),
{
    assert(seq![item].drop_last() == Seq::<Tree>::empty());
    assert(seq![item].last() == item);
    assert(candidates(Seq::<Tree>::empty()) == Seq::<Seq<char>>::empty());
    if back.len() == 0 {
        assert(front + back == front);
    } else {
        assert((front + back).drop_last() == front + back.drop_last());
        assert((front + back).last() == back.last());
        candidates_go_item_by_item(front, back.drop_last(), item);
    }
}

/// Every candidate of an array with at least two of them is a draft, and an array with fewer is
/// no list of drafts. What is drafted stands in an array of the value, and where there is such
/// an array, there are drafts.
pub proof fn drafts_are_all_candidates(tree: Tree, items: Seq<Tree>)
    ensures
        candidates(items).len() >= 2 ==> drafts_in(Tree::Array(items)) == Some(candidates(items)),
        candidates(items).len() >= 2 && within(Tree::Array(items), tree) ==> drafts_in(tree) is Some,
        drafts_in(tree) is Some ==> exists|list: Seq<Tree>| #[trigger]
            within(Tree::Array(list), tree) && candidates(list) == drafts_in(tree)->0 && candidates(
                list,
            ).len() >= 2,
{
    let key = Some("drafts"@);
    if candidates(items).len() >= 2 {
        assert(draft_hit()(Tree::Array(items)) == Some(candidates(items)));
        if within(Tree::Array(items), tree) {
            search_is_complete(tree, key, draft_hit(), Tree::Array(items));
        }
    }
    if drafts_in(tree) is Some {
        search_is_sound(tree, key, draft_hit());
        let node = choose|node: Tree| #[trigger]
            within(node, tree) && draft_hit()(node) == drafts_in(tree);
        assert(draft_list(node) == drafts_in(tree));
        let list = node->Array_0;
        assert(node == Tree::Array(list));
        assert(within(Tree::Array(list), tree));
    }
}

/// Drafts under `drafts` go before drafts anywhere else in an object.
pub proof fn drafts_key_goes_first(tree: Tree, value: Tree)
    requires
        tree.get("drafts"@) == Some(value),
        drafts_in(value) is Some,
    ensures
        drafts_in(tree) == drafts_in(value),
{
    assert(draft_hit()(tree) is None);
    favourite_decides(tree, "drafts"@, value, draft_hit());
}

/// Every number from zero to `u64::MAX` is a line number, as it is, and so is the text of its
/// digits, with a plus sign or without, and with any white space round it. A text that spells
/// no number is none, nor is a value of another kind.
pub proof fn every_number_is_a_line_number(n: u64, item: Tree, text: Seq<char>)
    ensures
        line_number(Tree::Unsigned(n)) == Some(n),
        trimmed(text) == digits_of(n as nat) || trimmed(text) == seq!['+'] + digits_of(n as nat)
            ==> line_number(Tree::Text(text)) == Some(n),
        spelled_number(trimmed(text), u64::MAX as nat) is None ==> line_number(
            Tree::Text(text),
        ) is None,
        !(item is Unsigned) && !(item is Text) ==> line_number(item) is None,
{
    let digits = digits_of(n as nat);
    written_number_reads_back(n as nat, u64::MAX as nat);
    digits_spell_the_number(n as nat);
    assert('0' <= digits[0] <= '9');
    only_digits_are_a_number(digits, u64::MAX as nat);
}

/// The line numbers of a list are those of its parts, one after the other; a single item is one
/// or none. So none is lost, none is made up, and their order stays.
pub proof fn line_numbers_go_item_by_item(front: Seq<Tree>, back: Seq<Tree>, item: Tree, n: u64)
    ensures
        line_numbers(front + back) == line_numbers(front) + line_numbers(back),
        line_number(item) is None ==> line_numbers(seq![item]).len() == 0,
        line_number(item) == Some(n) ==> line_numbers(seq![item]) == seq![n],
    decreases back.len(),
{
    assert(seq![item].drop_last() == Seq::<Tree>::empty());
    assert(seq![item].last() == item);
    assert(line_numbers(Seq::<Tree>::empty()) == Seq::<u64>::empty());
    if back.len() == 0 {
        assert(front + back == front);
    } else {
        assert((front + back).drop_last() == front + back.drop_last());
        assert((front + back).last() == back.last());
        line_numbers_go_item_by_item(front, back.drop_last(), item, n);
    }
}

/// A number is among the line numbers of a list if and only if an item of the list is it.
pub proof fn listed_number_is_found(items: Seq<Tree>, n: u64)
    ensures
        line_numbers(items).contains(n) <==> exists|i: int|
            0 <= i < items.len() && line_number(#[trigger] items[i]) == Some(n),
        items.contains(Tree::Unsigned(n)) ==> line_numbers(items).contains(n),
    decreases items.len(),
{
    if items.len() > 0 {
        let front = items.drop_last();
        let last = items.last();
        listed_number_is_found(front, n);
        line_numbers_go_item_by_item(front, seq![last], last, n);
        assert(front + seq![last] == items);
        if line_number(last) is Some {
            line_numbers_go_item_by_item(front, seq![last], last, line_number(last)->0);
        }
        let found = line_numbers(front);
        let all = line_numbers(items);
        let tail = line_numbers(seq![last]);
        assert(all == found + tail);
        if line_number(last) == Some(n) {
            assert(all[found.len() as int] == n);
            assert(line_number(items[items.len() - 1]) == Some(n));
        }
        if found.contains(n) {
            let i = choose|i: int| 0 <= i < found.len() && found[i] == n;
            assert(all[i] == n);
            let k = choose|k: int| 0 <= k < front.len() && line_number(#[trigger] front[k]) == Some(n);
            assert(items[k] == front[k]);
        }
        if all.contains(n) && !found.contains(n) {
            let i = choose|i: int| 0 <= i < all.len() && all[i] == n;
            if i < found.len() {
                assert(found[i] == n);
            }
            assert(tail[i - found.len()] == n);
            assert(items[items.len() - 1] == last);
        }
        if exists|i: int| 0 <= i < items.len() && line_number(#[trigger] items[i]) == Some(n) {
            let i = choose|i: int| 0 <= i < items.len() && line_number(#[trigger] items[i]) == Some(n);
            if i < front.len() {
                assert(front[i] == items[i]);
            }
        }
        if items.contains(Tree::Unsigned(n)) {
            let i = choose|i: int| 0 <= i < items.len() && items[i] == Tree::Unsigned(n);
            assert(line_number(items[i]) == Some(n));
        }
    } else {
        assert(line_numbers(items).len() == 0);
    }
}

/// An object with an array under the key has the line numbers in it, whatever else it holds. One
/// without is searched; and where no object in the value has such an array, there are none.
pub proof fn named_array_has_the_numbers(tree: Tree, key: Seq<char>, items: Seq<Tree>, node: Tree)
    ensures
        tree.get(key) == Some(Tree::Array(items)) ==> numbers_in(tree, key) == Some(line_numbers(items)),
        within(node, tree) && (node.get(key) matches Some(Tree::Array(_))) ==> numbers_in(tree, key) is Some,
        numbers_in(tree, key) is Some ==> exists|place: Tree, list: Seq<Tree>|
            #![trigger within(place, tree), line_numbers(list)]
            within(place, tree) && place.get(key) == Some(Tree::Array(list)) && numbers_in(tree, key)
                == Some(line_numbers(list)),
{
    if tree.get(key) == Some(Tree::Array(items)) {
        assert(number_hit(key)(tree) == Some(line_numbers(items)));
    }
    if within(node, tree) && (node.get(key) matches Some(Tree::Array(_))) {
        assert(number_hit(key)(node) is Some);
        search_is_complete(tree, None, number_hit(key), node);
    }
    if numbers_in(tree, key) is Some {
        search_is_sound(tree, None, number_hit(key));
        let place = choose|node: Tree| #[trigger]
            within(node, tree) && number_hit(key)(node) == numbers_in(tree, key);
        assert(number_list(place, key) == numbers_in(tree, key));
        let list = place.get(key)->0->Array_0;
        assert(place.get(key) == Some(Tree::Array(list)));
        assert(within(place, tree) && numbers_in(tree, key) == Some(line_numbers(list)));
    }
}

/// An object with a text under the key has that text, whatever else it holds. One without is
/// searched; and where no object in the value has such a text, there is none.
pub proof fn named_text_is_found(tree: Tree, key: Seq<char>, text: Seq<char>, node: Tree)
    ensures
        tree.get(key) == Some(Tree::Text(text)) ==> text_in(tree, key) == Some(text),
        within(node, tree) && (node.get(key) matches Some(Tree::Text(_))) ==> text_in(tree, key) is Some,
        text_in(tree, key) == Some(text) ==> exists|place: Tree| #[trigger]
            within(place, tree) && place.get(key) == Some(Tree::Text(text)),
{
    if tree.get(key) == Some(Tree::Text(text)) {
        assert(text_hit(key)(tree) == Some(text));
    }
    if within(node, tree) && (node.get(key) matches Some(Tree::Text(_))) {
        assert(text_hit(key)(node) is Some);
        search_is_complete(tree, None, text_hit(key), node);
    }
    if text_in(tree, key) == Some(text) {
        search_is_sound(tree, None, text_hit(key));
        let place = choose|node: Tree| #[trigger]
            within(node, tree) && text_hit(key)(node) == text_in(tree, key);
        assert(place.text_at(key) == Some(text));
        assert(place.get(key) == Some(Tree::Text(text)));
    }
}

/// The lines that are flagged are those under `uncertain`, wherever that stands; where it stands
/// nowhere, no line is.
pub proof fn uncertain_holds_the_flags(tree: Tree, items: Seq<Tree>)
    ensures
        tree.get("uncertain"@) == Some(Tree::Array(items)) ==> uncertain_lines(tree) == line_numbers(
            items,
        ),
        numbers_in(tree, "uncertain"@) matches Some(lines) ==> uncertain_lines(tree) == lines,
        numbers_in(tree, "uncertain"@) is None ==> uncertain_lines(tree).len() == 0,
{
    named_array_has_the_numbers(tree, "uncertain"@, items, tree);
}

/// A row is among those that are handed out, by its number counted from one, if and only if its
/// line is flagged and no row before it came from the same line.
pub proof fn flagged_line_marks_its_first_row(lines: Seq<u64>, source_lines: Seq<u64>, n: u64)
    requires
        source_lines.len() <= u64::MAX,
    ensures
        flagged_rows(lines, source_lines, source_lines.len()).contains(n) <==> 1 <= n
            <= source_lines.len() && (exists|k: int|
            0 <= k < lines.len() && #[trigger] lines[k] == source_lines[n - 1]) && (forall|i: int|
            0 <= i < n - 1 ==> #[trigger] source_lines[i] != source_lines[n - 1]),
{
    flag_marks_its_row(lines, source_lines, n);
    if 1 <= n <= source_lines.len() {
        assert(lines.contains(source_lines[n - 1]) <==> exists|k: int|
            0 <= k < lines.len() && #[trigger] lines[k] == source_lines[n - 1]);
    }
}

/// The rows of a value are handed out for all of its flags, one JSON number for each.
pub proof fn rows_become_numbers(tree: Tree, source_lines: Seq<u64>, numbers: Seq<u64>, i: int)
    ensures
        uncertain_rows(tree, source_lines) == flagged_rows(
            uncertain_lines(tree),
            source_lines,
            source_lines.len(),
        ),
        number_trees(numbers).len() == numbers.len(),
        0 <= i < numbers.len() ==> number_trees(numbers)[i] == Tree::Unsigned(numbers[i]),
{
}

} // verus!
