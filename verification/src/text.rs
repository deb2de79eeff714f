//! Text as a sequence of characters: trimming, splitting, comparing, and decimal numbers.
use vstd::prelude::*;

verus! {

/// A class of characters that trimming removes.
pub enum Class {
    /// Unicode white space.
    Space,
    /// This one character.
    Only(char),
}

/// Whether `c` has the Unicode property `White_Space`.
pub open spec fn is_space(c: char) -> bool {
    ||| '\u{9}' <= c <= '\u{d}'
    ||| c == ' '
    ||| c == '\u{85}'
    ||| c == '\u{a0}'
    ||| c == '\u{1680}'
    ||| '\u{2000}' <= c <= '\u{200a}'
    ||| c == '\u{2028}'
    ||| c == '\u{2029}'
    ||| c == '\u{202f}'
    ||| c == '\u{205f}'
    ||| c == '\u{3000}'
}

impl Class {
    /// Whether `c` belongs to the class.
    pub open spec fn holds(self, c: char) -> bool {
        match self {
            Class::Space => is_space(c),
            Class::Only(only) => c == only,
        }
    }

    fn admits(&self, c: char) -> (res: bool)
        ensures
            res == self.holds(c),
    {
        match self {
            Class::Space => ('\u{9}' <= c && c <= '\u{d}') || c == ' ' || c == '\u{85}' || c
                == '\u{a0}' || c == '\u{1680}' || ('\u{2000}' <= c && c <= '\u{200a}') || c
                == '\u{2028}' || c == '\u{2029}' || c == '\u{202f}' || c == '\u{205f}' || c
                == '\u{3000}',
            Class::Only(only) => c == *only,
        }
    }
}

/// `s` without the characters of `class` that it begins with.
pub open spec fn drop_front(s: Seq<char>, class: Class) -> Seq<char>
    decreases s.len(),
{
    if s.len() > 0 && class.holds(s[0]) {
        drop_front(s.drop_first(), class)
    } else {
        s
    }
}

/// `s` without the characters of `class` that it ends with.
pub open spec fn drop_back(s: Seq<char>, class: Class) -> Seq<char>
    decreases s.len(),
{
    if s.len() > 0 && class.holds(s.last()) {
        drop_back(s.drop_last(), class)
    } else {
        s
    }
}

/// `s` without the characters of `class` at either end.
pub open spec fn drop_both(s: Seq<char>, class: Class) -> Seq<char> {
    drop_back(drop_front(s, class), class)
}

/// `s` without the white space at either end.
pub open spec fn trimmed(s: Seq<char>) -> Seq<char> {
    drop_both(s, Class::Space)
}

/// The characters of `s`.
pub fn characters(s: &str) -> (res: Vec<char>)
    ensures
        res@ == s@,
{
    let mut res: Vec<char> = Vec::new();
    for c in it: s.chars()
        invariant
            res@ == s@.take(it.index()),
            it.seq() == s@,
    {
        proof {
            assert(s@.take(it.index() + 1) == s@.take(it.index()).push(s@[it.index()]));
        }
        res.push(c);
    }
    assert(s@.take(s@.len() as int) == s@);
    res
}

/// `str::trim_start_matches` for a class of characters.
pub fn trim_front<'a>(s: &'a str, class: &Class) -> (res: &'a str)
    ensures
        res@ == drop_front(s@, *class),
{
    let chars = characters(s);
    let mut from: usize = 0;
    assert(s@.skip(0) == s@);
    while from < chars.len() && class.admits(chars[from])
        invariant
            chars@ == s@,
            from <= chars@.len(),
            drop_front(s@.skip(from as int), *class) == drop_front(s@, *class),
        decreases chars@.len() - from,
    {
        assert(s@.skip(from as int).drop_first() == s@.skip(from + 1));
        from = from + 1;
    }
    assert(s@.skip(from as int) == s@.subrange(from as int, s@.len() as int));
    s.substring_char(from, chars.len())
}

/// `str::trim_end_matches` for a class of characters.
pub fn trim_back<'a>(s: &'a str, class: &Class) -> (res: &'a str)
    ensures
        res@ == drop_back(s@, *class),
{
    let chars = characters(s);
    let mut to: usize = chars.len();
    assert(s@.take(to as int) == s@);
    while to > 0 && class.admits(chars[to - 1])
        invariant
            chars@ == s@,
            to <= chars@.len(),
            drop_back(s@.take(to as int), *class) == drop_back(s@, *class),
        decreases to,
    {
        assert(s@.take(to as int).drop_last() == s@.take(to - 1));
        to = to - 1;
    }
    s.substring_char(0, to)
}

/// `str::trim_matches` for a class of characters.
pub fn trim_both<'a>(s: &'a str, class: &Class) -> (res: &'a str)
    ensures
        res@ == drop_both(s@, *class),
{
    trim_back(trim_front(s, class), class)
}

/// `str::trim`.
pub fn trim<'a>(s: &'a str) -> (res: &'a str)
    ensures
        res@ == trimmed(s@),
{
    trim_both(s, &Class::Space)
}

/// Whether `s` begins with `prefix`.
pub open spec fn begins_with(s: Seq<char>, prefix: Seq<char>) -> bool {
    prefix.len() <= s.len() && s.take(prefix.len() as int) == prefix
}

/// `s` without the copies of `prefix` that it begins with.
pub open spec fn drop_prefixes(s: Seq<char>, prefix: Seq<char>) -> Seq<char>
    decreases s.len(),
{
    if prefix.len() > 0 && begins_with(s, prefix) {
        drop_prefixes(s.skip(prefix.len() as int), prefix)
    } else {
        s
    }
}

/// The position of the first `c` in `s`, or the length of `s` where there is none.
pub open spec fn first_position(s: Seq<char>, c: char) -> int
    decreases s.len(),
{
    if s.len() == 0 || s[0] == c {
        0
    } else {
        1 + first_position(s.drop_first(), c)
    }
}

/// `first_position` is the one position that holds `c` with no `c` before it.
pub proof fn first_position_is_first(s: Seq<char>, c: char)
    ensures
        0 <= first_position(s, c) <= s.len(),
        first_position(s, c) < s.len() ==> s[first_position(s, c)] == c,
        forall|i: int| 0 <= i < first_position(s, c) ==> s[i] != c,
    decreases s.len(),
{
    if s.len() > 0 && s[0] != c {
        first_position_is_first(s.drop_first(), c);
        assert forall|i: int| 0 <= i < first_position(s, c) implies s[i] != c by {
            if i > 0 {
                assert(s[i] == s.drop_first()[i - 1]);
            }
        }
    }
}

/// What stands before the first `c` in `s`, and what stands behind it.
pub open spec fn halves(s: Seq<char>, c: char) -> Option<(Seq<char>, Seq<char>)> {
    let at = first_position(s, c);
    if at < s.len() {
        Some((s.take(at), s.skip(at + 1)))
    } else {
        None
    }
}

/// `s` without a carriage return at its end.
pub open spec fn drop_return(s: Seq<char>) -> Seq<char> {
    if s.len() > 0 && s.last() == '\r' {
        s.drop_last()
    } else {
        s
    }
}

/// The lines of `s`: each ends at a line feed, which it loses with a carriage return
/// before it; the last one may end with the text instead, and an empty one there is none.
pub open spec fn lines_of(s: Seq<char>) -> Seq<Seq<char>>
    decreases s.len(),
{
    let at = first_position(s, '\n');
    if s.len() == 0 {
        Seq::empty()
    } else if 0 <= at < s.len() {
        seq![drop_return(s.take(at))] + lines_of(s.skip(at + 1))
    } else {
        seq![s]
    }
}

/// The views of a list of texts.
pub open spec fn views(list: Seq<String>) -> Seq<Seq<char>> {
    list.map_values(|s: String| s@)
}

/// `str::starts_with`.
pub fn starts_with(s: &str, prefix: &str) -> (res: bool)
    ensures
        res == begins_with(s@, prefix@),
{
    let length = prefix.unicode_len();
    if length > s.unicode_len() {
        return false;
    }
    same(s.substring_char(0, length), prefix)
}

/// Whether two texts hold the same characters.
pub fn same(a: &str, b: &str) -> (res: bool)
    ensures
        res == (a@ == b@),
{
    a.to_owned() == b.to_owned()
}

/// `str::trim_start_matches` for a text that is not empty.
pub fn trim_prefixes<'a>(s: &'a str, prefix: &str) -> (res: &'a str)
    ensures
        res@ == drop_prefixes(s@, prefix@),
{
    let length = prefix.unicode_len();
    if length == 0 {
        return s;
    }
    let mut rest = s;
    while starts_with(rest, prefix)
        invariant
            length == prefix@.len(),
            length > 0,
            drop_prefixes(rest@, prefix@) == drop_prefixes(s@, prefix@),
        decreases rest@.len(),
    {
        let end = rest.unicode_len();
        assert(rest@.skip(length as int) == rest@.subrange(length as int, end as int));
        rest = rest.substring_char(length, end);
    }
    rest
}

/// The position of the first `c` in `s`, or the length of `s` where there is none.
pub fn position(s: &str, c: char) -> (res: usize)
    ensures
        res == first_position(s@, c),
        res <= s@.len(),
{
    let chars = characters(s);
    let mut at: usize = 0;
    proof {
        first_position_is_first(s@, c);
    }
    while at < chars.len() && chars[at] != c
        invariant
            chars@ == s@,
            at <= first_position(s@, c) <= s@.len(),
            first_position(s@, c) < s@.len() ==> s@[first_position(s@, c)] == c,
            forall|i: int| 0 <= i < first_position(s@, c) ==> s@[i] != c,
        decreases chars@.len() - at,
    {
        at = at + 1;
    }
    at
}

/// What stands before the first `c`, or the whole text where there is none.
pub fn before<'a>(s: &'a str, c: char) -> (res: &'a str)
    ensures
        res@ == s@.take(first_position(s@, c)),
{
    let at = position(s, c);
    s.substring_char(0, at)
}

/// `str::split_once` for a character.
pub fn split_once<'a>(s: &'a str, c: char) -> (res: Option<(&'a str, &'a str)>)
    ensures
        match res {
            Some((left, right)) => halves(s@, c) == Some((left@, right@)),
            None => halves(s@, c) is None,
        },
{
    let at = position(s, c);
    let end = s.unicode_len();
    if at < end {
        assert(s@.skip(at + 1) == s@.subrange(at + 1, end as int));
        Some((s.substring_char(0, at), s.substring_char(at + 1, end)))
    } else {
        None
    }
}

/// `str::lines`.
pub fn lines(s: &str) -> (res: Vec<String>)
    ensures
        views(res@) == lines_of(s@),
{
    let mut res: Vec<String> = Vec::new();
    let mut rest = s;
    assert(views(res@) == Seq::<Seq<char>>::empty());
    assert(Seq::<Seq<char>>::empty() + lines_of(s@) == lines_of(s@));
    while !rest.is_empty()
        invariant
            views(res@) + lines_of(rest@) == lines_of(s@),
        decreases rest@.len(),
    {
        let ghost before_step = views(res@);
        let ghost rest_before = rest@;
        proof {
            first_position_is_first(rest@, '\n');
        }
        match split_once(rest, '\n') {
            Some((line, behind)) => {
                let end = line.unicode_len();
                let kept = if end > 0 && line.get_char(end - 1) == '\r' {
                    assert(line@.take(end - 1) == line@.drop_last());
                    line.substring_char(0, end - 1)
                } else {
                    line
                };
                assert(kept@ == drop_return(line@));
                res.push(kept.to_owned());
                rest = behind;
                assert(views(res@) == before_step.push(kept@));
                assert(before_step.push(kept@) + lines_of(behind@) == before_step + (seq![kept@]
                    + lines_of(behind@)));
            },
            None => {
                let end = rest.unicode_len();
                res.push(rest.to_owned());
                rest = rest.substring_char(end, end);
                assert(views(res@) == before_step.push(rest_before));
                assert(lines_of(rest@) == Seq::<Seq<char>>::empty());
                assert(before_step.push(rest_before) + Seq::<Seq<char>>::empty() == before_step
                    + seq![rest_before]);
            },
        }
    }
    assert(views(res@) + Seq::<Seq<char>>::empty() == views(res@));
    res
}

/// The lower-case form of an ASCII letter; any other character is its own.
pub open spec fn ascii_lower(c: char) -> char {
    if 'A' <= c <= 'Z' {
        (c as u32 + 32) as char
    } else {
        c
    }
}

/// Whether two texts differ at most in the case of ASCII letters.
pub open spec fn alike(a: Seq<char>, b: Seq<char>) -> bool {
    a.len() == b.len() && forall|i: int|
        #![trigger a[i]]
        0 <= i < a.len() ==> ascii_lower(a[i]) == ascii_lower(b[i])
}

fn lower(c: char) -> (res: char)
    ensures
        res == ascii_lower(c),
{
    if 'A' <= c && c <= 'Z' {
        (c as u8 + 32) as char
    } else {
        c
    }
}

/// `str::eq_ignore_ascii_case`.
pub fn same_ignoring_case(a: &str, b: &str) -> (res: bool)
    ensures
        res == alike(a@, b@),
{
    let left = characters(a);
    let right = characters(b);
    if left.len() != right.len() {
        return false;
    }
    let mut i: usize = 0;
    while i < left.len()
        invariant
            left@ == a@,
            right@ == b@,
            left@.len() == right@.len(),
            i <= left@.len(),
            forall|j: int| 0 <= j < i ==> ascii_lower(a@[j]) == ascii_lower(b@[j]),
        decreases left@.len() - i,
    {
        if lower(left[i]) != lower(right[i]) {
            assert(ascii_lower(a@[i as int]) != ascii_lower(b@[i as int]));
            return false;
        }
        i = i + 1;
    }
    true
}

/// Whether `a` stands before `b` in the order of their characters, the first that
/// differs deciding; a proper beginning stands before the whole.
pub open spec fn precedes(a: Seq<char>, b: Seq<char>) -> bool
    decreases a.len(),
{
    if b.len() == 0 {
        false
    } else if a.len() == 0 {
        true
    } else if a[0] != b[0] {
        a[0] < b[0]
    } else {
        precedes(a.drop_first(), b.drop_first())
    }
}

/// No text stands before itself.
pub proof fn precedes_irreflexive(a: Seq<char>)
    ensures
        !precedes(a, a),
    decreases a.len(),
{
    if a.len() > 0 {
        precedes_irreflexive(a.drop_first());
    }
}

/// Of two different texts one stands before the other.
pub proof fn precedes_total(a: Seq<char>, b: Seq<char>)
    ensures
        a == b || precedes(a, b) || precedes(b, a),
    decreases a.len(),
{
    if a.len() > 0 && b.len() > 0 && a[0] == b[0] {
        precedes_total(a.drop_first(), b.drop_first());
        if a.drop_first() == b.drop_first() {
            assert(a == seq![a[0]] + a.drop_first());
            assert(b == seq![b[0]] + b.drop_first());
        }
    } else if a.len() == 0 && b.len() == 0 {
        assert(a == b);
    }
}

/// What stands before a text stands before all that comes after it.
pub proof fn precedes_transitive(a: Seq<char>, b: Seq<char>, c: Seq<char>)
    requires
        precedes(a, b),
        precedes(b, c),
    ensures
        precedes(a, c),
    decreases a.len(),
{
    if a.len() > 0 && a[0] == b[0] && b[0] == c[0] {
        precedes_transitive(a.drop_first(), b.drop_first(), c.drop_first());
    }
}

/// Whether `a` stands before `b`.
pub fn stands_before(a: &str, b: &str) -> (res: bool)
    ensures
        res == precedes(a@, b@),
{
    let left = characters(a);
    let right = characters(b);
    let mut i: usize = 0;
    assert(a@.skip(0) == a@);
    assert(b@.skip(0) == b@);
    while i < left.len() && i < right.len()
        invariant
            left@ == a@,
            right@ == b@,
            i <= left@.len(),
            i <= right@.len(),
            precedes(a@, b@) == precedes(a@.skip(i as int), b@.skip(i as int)),
        decreases left@.len() - i,
    {
        if left[i] != right[i] {
            return left[i] < right[i];
        }
        assert(a@.skip(i as int).drop_first() == a@.skip(i + 1));
        assert(b@.skip(i as int).drop_first() == b@.skip(i + 1));
        i = i + 1;
    }
    i < right.len()
}

/// One text behind another.
pub fn join(a: &str, b: &str) -> (res: String)
    ensures
        res@ == a@ + b@,
{
    let mut res = a.to_owned();
    res.append(b);
    res
}

/// The decimal digit of `d`, for `d` below ten.
pub open spec fn digit(d: nat) -> char {
    (48 + d) as char
}

/// The decimal digits of `n`, with no leading zero but for zero itself.
pub open spec fn digits_of(n: nat) -> Seq<char>
    decreases n,
{
    if n < 10 {
        seq![digit(n)]
    } else {
        digits_of(n / 10).push(digit(n % 10))
    }
}

fn digit_text(d: u64) -> (res: &'static str)
    requires
        d < 10,
    ensures
        res@ == seq![digit(d as nat)],
{
    proof {
        reveal_strlit("0");
        reveal_strlit("1");
        reveal_strlit("2");
        reveal_strlit("3");
        reveal_strlit("4");
        reveal_strlit("5");
        reveal_strlit("6");
        reveal_strlit("7");
        reveal_strlit("8");
        reveal_strlit("9");
    }
    match d {
        0 => "0",
        1 => "1",
        2 => "2",
        3 => "3",
        4 => "4",
        5 => "5",
        6 => "6",
        7 => "7",
        8 => "8",
        _ => "9",
    }
}

/// The decimal text of `n`.
pub fn decimal(n: u64) -> (res: String)
    ensures
        res@ == digits_of(n as nat),
    decreases n,
{
    if n < 10 {
        digit_text(n).to_owned()
    } else {
        let mut res = decimal(n / 10);
        res.append(digit_text(n % 10));
        res
    }
}

/// Whether every character is a decimal digit.
pub open spec fn all_digits(s: Seq<char>) -> bool {
    forall|i: int| 0 <= i < s.len() ==> '0' <= #[trigger] s[i] <= '9'
}

/// The number that a row of decimal digits stands for.
pub open spec fn number_of(s: Seq<char>) -> nat
    decreases s.len(),
{
    if s.len() == 0 {
        0
    } else {
        (10 * number_of(s.drop_last()) + (s.last() as nat - 48)) as nat
    }
}

/// `s` without one plus sign at its beginning.
pub open spec fn unsigned_part(s: Seq<char>) -> Seq<char> {
    if s.len() > 0 && s[0] == '+' {
        s.drop_first()
    } else {
        s
    }
}

/// The number that `s` spells: an optional plus sign, then at least one digit and
/// nothing else, for a number up to `max`.
pub open spec fn spelled_number(s: Seq<char>, max: nat) -> Option<nat> {
    let digits = unsigned_part(s);
    if digits.len() > 0 && all_digits(digits) && number_of(digits) <= max {
        Some(number_of(digits))
    } else {
        None
    }
}

proof fn number_grows(s: Seq<char>, i: int)
    requires
        0 <= i <= s.len(),
        all_digits(s),
    ensures
        number_of(s.take(i)) <= number_of(s),
    decreases s.len(),
{
    if i == s.len() {
        assert(s.take(i) == s);
    } else {
        number_grows(s.drop_last(), i);
        assert(s.drop_last().take(i) == s.take(i));
    }
}

/// `str::parse` to a `u64`.
pub fn parse_u64(s: &str) -> (res: Option<u64>)
    ensures
        match res {
            Some(n) => spelled_number(s@, u64::MAX as nat) == Some(n as nat),
            None => spelled_number(s@, u64::MAX as nat) is None,
        },
{
    let chars = characters(s);
    let from: usize = if chars.len() > 0 && chars[0] == '+' {
        1
    } else {
        0
    };
    let ghost digits = unsigned_part(s@);
    assert(digits == s@.skip(from as int));
    if from == chars.len() {
        return None;
    }
    let mut total: u64 = 0;
    let mut i: usize = from;
    while i < chars.len()
        invariant
            chars@ == s@,
            from <= i <= chars@.len(),
            digits == s@.skip(from as int),
            digits == unsigned_part(s@),
            all_digits(digits.take(i - from)),
            total == number_of(digits.take(i - from)),
        decreases chars@.len() - i,
    {
        let c = chars[i];
        assert(c == digits[i - from]);
        if c < '0' || c > '9' {
            return None;
        }
        let value: u64 = (c as u8 - 48) as u64;
        proof {
            let next = digits.take(i - from + 1);
            assert(next.drop_last() == digits.take(i - from));
            assert(next.last() == c);
            assert(number_of(next) == 10 * total + value);
            if all_digits(digits) {
                number_grows(digits, i - from + 1);
            }
        }
        if total > (u64::MAX - value) / 10 {
            return None;
        }
        total = 10 * total + value;
        i = i + 1;
    }
    assert(digits.take(i - from) == digits);
    Some(total)
}

/// `str::parse` to a `u16`.
pub fn parse_u16(s: &str) -> (res: Option<u16>)
    ensures
        match res {
            Some(n) => spelled_number(s@, u16::MAX as nat) == Some(n as nat),
            None => spelled_number(s@, u16::MAX as nat) is None,
        },
{
    match parse_u64(s) {
        Some(n) => if n <= 65535 {
            Some(n as u16)
        } else {
            None
        },
        None => None,
    }
}

/// Trimming the front stops at the first character that is not of the class.
pub proof fn drop_front_stops(front: Seq<char>, rest: Seq<char>, class: Class)
    requires
        forall|i: int| 0 <= i < front.len() ==> class.holds(#[trigger] front[i]),
        rest.len() > 0,
        !class.holds(rest[0]),
    ensures
        drop_front(front + rest, class) == rest,
    decreases front.len(),
{
    if front.len() == 0 {
        assert(front + rest == rest);
    } else {
        assert((front + rest).drop_first() == front.drop_first() + rest);
        assert((front + rest)[0] == front[0]);
        drop_front_stops(front.drop_first(), rest, class);
    }
}

/// Trimming the back stops at the last character that is not of the class.
pub proof fn drop_back_stops(rest: Seq<char>, back: Seq<char>, class: Class)
    requires
        forall|i: int| 0 <= i < back.len() ==> class.holds(#[trigger] back[i]),
        rest.len() > 0,
        !class.holds(rest.last()),
    ensures
        drop_back(rest + back, class) == rest,
    decreases back.len(),
{
    if back.len() == 0 {
        assert(rest + back == rest);
    } else {
        assert((rest + back).drop_last() == rest + back.drop_last());
        assert((rest + back).last() == back.last());
        drop_back_stops(rest, back.drop_last(), class);
    }
}

/// What is trimmed at both ends is what stands between them.
pub proof fn drop_both_stops(front: Seq<char>, rest: Seq<char>, back: Seq<char>, class: Class)
    requires
        forall|i: int| 0 <= i < front.len() ==> class.holds(#[trigger] front[i]),
        forall|i: int| 0 <= i < back.len() ==> class.holds(#[trigger] back[i]),
        rest.len() > 0,
        !class.holds(rest[0]),
        !class.holds(rest.last()),
    ensures
        drop_both(front + rest + back, class) == rest,
{
    assert(front + rest + back == front + (rest + back));
    drop_front_stops(front, rest + back, class);
    drop_back_stops(rest, back, class);
}

proof fn front_is_bare(s: Seq<char>, class: Class)
    ensures
        drop_front(s, class).len() > 0 ==> !class.holds(drop_front(s, class)[0]),
    decreases s.len(),
{
    if s.len() > 0 && class.holds(s[0]) {
        front_is_bare(s.drop_first(), class);
    }
}

/// What was trimmed at its end does not end in the class, and begins as it did.
pub proof fn back_is_bare(s: Seq<char>, class: Class)
    ensures
        drop_back(s, class).len() > 0 ==> !class.holds(drop_back(s, class).last()),
        drop_back(s, class).len() > 0 ==> drop_back(s, class)[0] == s[0],
    decreases s.len(),
{
    if s.len() > 0 && class.holds(s.last()) {
        back_is_bare(s.drop_last(), class);
    }
}

/// What has been trimmed has nothing left to trim at either end.
pub proof fn trimming_is_thorough(s: Seq<char>, class: Class)
    ensures
        drop_both(s, class).len() > 0 ==> !class.holds(drop_both(s, class)[0]),
        drop_both(s, class).len() > 0 ==> !class.holds(drop_both(s, class).last()),
        drop_both(drop_both(s, class), class) == drop_both(s, class),
{
    front_is_bare(s, class);
    back_is_bare(drop_front(s, class), class);
}

/// The digits of a number are at least one and nothing but digits, and they spell the number.
pub proof fn digits_spell_the_number(n: nat)
    ensures
        digits_of(n).len() > 0,
        all_digits(digits_of(n)),
        number_of(digits_of(n)) == n,
    decreases n,
{
    let digits = digits_of(n);
    if n < 10 {
        assert(digits.drop_last() == Seq::<char>::empty());
        assert(number_of(digits.drop_last()) == 0);
    } else {
        digits_spell_the_number(n / 10);
        assert(digits.drop_last() == digits_of(n / 10));
        assert(digits.last() == digit(n % 10));
    }
}

/// A number that is written in decimal and read again is the same number.
pub proof fn written_number_reads_back(n: nat, max: nat)
    requires
        n <= max,
    ensures
        spelled_number(digits_of(n), max) == Some(n),
        spelled_number(trimmed(digits_of(n)), max) == Some(n),
{
    let digits = digits_of(n);
    digits_spell_the_number(n);
    assert('0' <= digits[0] <= '9');
    assert(unsigned_part(digits) == digits);
    assert('0' <= digits[digits.len() - 1] <= '9');
    let none = Seq::<char>::empty();
    drop_both_stops(none, digits, none, Class::Space);
    assert(none + digits + none == digits);
}

/// Different numbers have different digits.
pub proof fn digits_tell_numbers_apart(a: nat, b: nat)
    ensures
        digits_of(a) == digits_of(b) ==> a == b,
{
    digits_spell_the_number(a);
    digits_spell_the_number(b);
}

/// White space is what Unicode says it is, and a class of one character holds that one.
pub proof fn white_space_is_unicodes(c: char, only: char)
    ensures
        is_space(c) <==> ({
            let n = c as u32;
            n == 9 || n == 10 || n == 11 || n == 12 || n == 13 || n == 32 || n == 133 || n == 160
                || n == 5760 || (8192 <= n && n <= 8202) || n == 8232 || n == 8233 || n == 8239 || n
                == 8287 || n == 12288
        }),
        Class::Space.holds(c) <==> is_space(c),
        Class::Only(only).holds(c) <==> c == only,
{
}

/// Trimming the front takes a run of the class off, all of it, and nothing else.
pub proof fn front_is_all_that_goes(s: Seq<char>, class: Class) -> (from: int)
    ensures
        0 <= from <= s.len(),
        drop_front(s, class) == s.subrange(from, s.len() as int),
        forall|i: int| 0 <= i < from ==> class.holds(#[trigger] s[i]),
        from < s.len() ==> !class.holds(s[from]),
    decreases s.len(),
{
    if s.len() > 0 && class.holds(s[0]) {
        let rest = s.drop_first();
        let from = front_is_all_that_goes(rest, class);
        assert forall|i: int| 0 <= i < from + 1 implies class.holds(#[trigger] s[i]) by {
            if i > 0 {
                assert(s[i] == rest[i - 1]);
            }
        }
        assert(rest.subrange(from, rest.len() as int) == s.subrange(from + 1, s.len() as int));
        from + 1
    } else {
        assert(s.subrange(0, s.len() as int) == s);
        0
    }
}

/// Trimming the back takes a run of the class off, all of it, and nothing else.
pub proof fn back_is_all_that_goes(s: Seq<char>, class: Class) -> (to: int)
    ensures
        0 <= to <= s.len(),
        drop_back(s, class) == s.subrange(0, to),
        forall|i: int| to <= i < s.len() ==> class.holds(#[trigger] s[i]),
        to > 0 ==> !class.holds(s[to - 1]),
    decreases s.len(),
{
    if s.len() > 0 && class.holds(s.last()) {
        let rest = s.drop_last();
        let to = back_is_all_that_goes(rest, class);
        assert forall|i: int| to <= i < s.len() implies class.holds(#[trigger] s[i]) by {
            if i < rest.len() {
                assert(s[i] == rest[i]);
            }
        }
        assert(rest.subrange(0, to) == s.subrange(0, to));
        to
    } else {
        assert(s.subrange(0, s.len() as int) == s);
        s.len() as int
    }
}

/// What trimming leaves is one stretch of the text, unchanged: only white space goes, and only
/// from the two ends, as far as it reaches.
pub proof fn trimming_takes_only_the_ends(s: Seq<char>) -> (ends: (int, int))
    ensures
        0 <= ends.0 <= ends.1 <= s.len(),
        trimmed(s) == s.subrange(ends.0, ends.1),
        forall|i: int| 0 <= i < ends.0 ==> is_space(#[trigger] s[i]),
        forall|i: int| ends.1 <= i < s.len() ==> is_space(#[trigger] s[i]),
        ends.0 < ends.1 ==> !is_space(s[ends.0]) && !is_space(s[ends.1 - 1]),
{
    let from = front_is_all_that_goes(s, Class::Space);
    let rest = drop_front(s, Class::Space);
    let kept = back_is_all_that_goes(rest, Class::Space);
    assert(rest.subrange(0, kept) == s.subrange(from, from + kept));
    assert forall|i: int| from + kept <= i < s.len() implies is_space(#[trigger] s[i]) by {
        assert(s[i] == rest[i - from]);
        assert(Class::Space.holds(rest[i - from]));
    }
    assert forall|i: int| 0 <= i < from implies is_space(#[trigger] s[i]) by {
        assert(Class::Space.holds(s[i]));
    }
    if kept > 0 {
        assert(rest[kept - 1] == s[from + kept - 1]);
        assert(rest[0] == s[from]);
    }
    (from, from + kept)
}

/// A text is blank after trimming if and only if it was nothing but white space.
pub proof fn only_white_space_trims_to_nothing(s: Seq<char>)
    ensures
        trimmed(s).len() == 0 <==> forall|i: int| 0 <= i < s.len() ==> is_space(#[trigger] s[i]),
{
    let ends = trimming_takes_only_the_ends(s);
    if trimmed(s).len() > 0 {
        assert(!is_space(s[ends.0]));
    }
}

/// A text that begins with another is that one with something behind it.
pub proof fn beginning_is_a_first_part(s: Seq<char>, prefix: Seq<char>, rest: Seq<char>)
    ensures
        begins_with(prefix + rest, prefix),
        begins_with(s, prefix) ==> s == prefix + s.skip(prefix.len() as int),
{
    assert((prefix + rest).take(prefix.len() as int) == prefix);
    if begins_with(s, prefix) {
        assert(s == s.take(prefix.len() as int) + s.skip(prefix.len() as int));
    }
}

/// Copies of a beginning go one after the other, and what does not begin so stays.
pub proof fn prefixes_go_one_by_one(prefix: Seq<char>, s: Seq<char>)
    requires
        prefix.len() > 0,
    ensures
        drop_prefixes(prefix + s, prefix) == drop_prefixes(s, prefix),
        (forall|rest: Seq<char>| s != #[trigger] (prefix + rest)) ==> drop_prefixes(s, prefix) == s,
{
    assert((prefix + s).take(prefix.len() as int) == prefix);
    assert((prefix + s).skip(prefix.len() as int) == s);
    if begins_with(s, prefix) {
        assert(s == prefix + s.skip(prefix.len() as int));
    }
}

/// A text is split at the first mark, which is all that goes; without a mark it is not split.
pub proof fn split_at_the_first_mark(left: Seq<char>, right: Seq<char>, mark: char)
    requires
        !left.contains(mark),
    ensures
        halves(left + seq![mark] + right, mark) == Some((left, right)),
        halves(left, mark) is None,
        first_position(left + seq![mark] + right, mark) == left.len(),
        first_position(left, mark) == left.len(),
{
    let whole = left + seq![mark] + right;
    first_position_is_first(whole, mark);
    first_position_is_first(left, mark);
    let at = first_position(whole, mark);
    assert(whole[left.len() as int] == mark);
    if at < left.len() {
        assert(left[at] == mark);
    }
    assert(whole.take(at) == left);
    assert(whole.skip(at + 1) == right);
}

/// A line ends at the first line feed, and loses it with one carriage return before it. What
/// follows is read as if it stood alone; a last line needs no line feed.
pub proof fn lines_come_one_by_one(line: Seq<char>, rest: Seq<char>)
    requires
        !line.contains('\n'),
    ensures
        lines_of(line + seq!['\r', '\n'] + rest) == seq![line] + lines_of(rest),
        line.len() == 0 || line.last() != '\r' ==> lines_of(line + seq!['\n'] + rest) == seq![line]
            + lines_of(rest),
        line.len() > 0 ==> lines_of(line) == seq![line],
        lines_of(Seq::empty()).len() == 0,
{
    let full = line.push('\r');
    assert(!full.contains('\n')) by {
        if full.contains('\n') {
            let i = choose|i: int| 0 <= i < full.len() && full[i] == '\n';
            assert(line[i] == '\n');
        }
    }
    split_at_the_first_mark(full, rest, '\n');
    assert(line + seq!['\r', '\n'] + rest == full + seq!['\n'] + rest);
    assert((full + seq!['\n'] + rest).take(full.len() as int) == full);
    assert((full + seq!['\n'] + rest).skip(full.len() as int + 1) == rest);
    assert(full.drop_last() == line);
    split_at_the_first_mark(line, rest, '\n');
    assert((line + seq!['\n'] + rest).take(line.len() as int) == line);
    assert((line + seq!['\n'] + rest).skip(line.len() as int + 1) == rest);
}

/// Texts are alike if and only if they are equally long and each two characters are the same,
/// or are the capital and the small form of one letter from A to Z.
pub proof fn alike_but_for_case(a: Seq<char>, b: Seq<char>)
    ensures
        alike(a, b) <==> a.len() == b.len() && forall|i: int|
            #![trigger a[i]]
            0 <= i < a.len() ==> a[i] == b[i] || (65 <= a[i] as u32 <= 90 && b[i] as u32 == a[i] as u32
                + 32) || (65 <= b[i] as u32 <= 90 && a[i] as u32 == b[i] as u32 + 32),
{
    if a.len() == b.len() {
        assert forall|i: int| #![trigger a[i]] 0 <= i < a.len() implies ((ascii_lower(a[i]) == ascii_lower(
            b[i],
        )) <==> (a[i] == b[i] || (65 <= a[i] as u32 <= 90 && b[i] as u32 == a[i] as u32 + 32) || (65
            <= b[i] as u32 <= 90 && a[i] as u32 == b[i] as u32 + 32))) by {
            case_is_the_difference(a[i], b[i]);
        }
    }
}

proof fn case_is_the_difference(a: char, b: char)
    ensures
        (ascii_lower(a) == ascii_lower(b)) <==> (a == b || (65 <= a as u32 <= 90 && b as u32 == a as u32
            + 32) || (65 <= b as u32 <= 90 && a as u32 == b as u32 + 32)),
{
}

/// The first difference decides which of two texts stands first, and where there is none the
/// shorter one does.
pub proof fn first_difference_decides(common: Seq<char>, a: Seq<char>, b: Seq<char>)
    ensures
        a.len() > 0 && b.len() > 0 && a[0] != b[0] ==> (precedes(
            common + a,
            common + b,
        ) <==> (a[0] as int) < (b[0] as int)),
        b.len() > 0 ==> precedes(common, common + b),
        !precedes(common + a, common),
    decreases common.len(),
{
    if common.len() == 0 {
        assert(common + a == a);
        assert(common + b == b);
        if a.len() > 0 && b.len() > 0 && a[0] != b[0] {
            assert(precedes(a, b) == (a[0] < b[0]));
        }
    } else {
        let rest = common.drop_first();
        first_difference_decides(rest, a, b);
        assert((common + a).drop_first() == rest + a);
        assert((common + b).drop_first() == rest + b);
        assert((common + a)[0] == common[0] && (common + b)[0] == common[0]);
    }
}

/// What a row of digits stands for: nothing at first, and with each digit ten times as much and
/// the digit.
pub proof fn digits_count_by_tens(s: Seq<char>, d: int)
    requires
        0 <= d < 10,
    ensures
        number_of(Seq::empty()) == 0,
        number_of(s.push((48 + d) as char)) == 10 * number_of(s) + d,
{
    assert(s.push((48 + d) as char).drop_last() == s);
}

/// A number is written without a leading zero.
pub proof fn no_leading_zero(n: nat)
    ensures
        digits_of(n).len() > 0,
        digits_of(n)[0] == '0' ==> n == 0,
        digits_of(0) == seq!['0'],
    decreases n,
{
    if n >= 10 {
        no_leading_zero(n / 10);
        assert(digits_of(n)[0] == digits_of(n / 10)[0]);
    }
}

/// What is read as a number: digits, at least one, with or without a plus sign before them, up
/// to the limit. Every other text is none.
pub proof fn only_digits_are_a_number(s: Seq<char>, max: nat)
    requires
        s.len() == 0 || s[0] != '+',
    ensures
        ({
            let digits = s.len() > 0 && forall|i: int|
                0 <= i < s.len() ==> 48 <= (#[trigger] s[i]) as int <= 57;
            &&& digits && number_of(s) <= max ==> spelled_number(s, max) == Some(number_of(s))
            &&& !digits || number_of(s) > max ==> spelled_number(s, max) is None
        }),
        spelled_number(seq!['+'] + s, max) == spelled_number(s, max),
{
    let signed = seq!['+'] + s;
    assert(signed.drop_first() == s);
    assert(signed[0] == '+');
    assert(all_digits(s) <==> forall|i: int|
        0 <= i < s.len() ==> 48 <= (#[trigger] s[i]) as int <= 57);
}

/// A list of texts has the texts of its items, one for one.
pub proof fn views_go_one_for_one(list: Seq<String>, i: int)
    requires
        0 <= i < list.len(),
    ensures
        views(list).len() == list.len(),
        views(list)[i] == list[i]@,
{
}

} // verus!
