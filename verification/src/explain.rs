//! Reading query plans printed by `EXPLAIN`.
use vstd::prelude::*;

use crate::text;

verus! {

/// Whether `pat` stands in `s` at position `i`.
pub open spec fn occurs_at(s: Seq<char>, pat: Seq<char>, i: int) -> bool {
    0 <= i && i + pat.len() <= s.len() && s.subrange(i, i + pat.len()) == pat
}

/// The first position from `i` on at which `pat` stands in `s`.
pub open spec fn find_from(s: Seq<char>, pat: Seq<char>, i: int) -> Option<int>
    decreases s.len() + 1 - i,
{
    if i + pat.len() > s.len() {
        None
    } else if occurs_at(s, pat, i) {
        Some(i)
    } else {
        find_from(s, pat, i + 1)
    }
}

/// Whether `pat` stands anywhere in `s`.
pub open spec fn contains_text(s: Seq<char>, pat: Seq<char>) -> bool {
    find_from(s, pat, 0) is Some
}

/// The first position from `i` on that holds `c`, or the length.
pub open spec fn next_char(s: Seq<char>, c: char, i: int) -> int
    decreases s.len() - i,
{
    if i >= s.len() {
        s.len() as int
    } else if s[i] == c {
        i
    } else {
        next_char(s, c, i + 1)
    }
}

/// Where the line that starts at `start` ends: before its line feed, or before the carriage return
/// in front of that.
pub open spec fn line_end(s: Seq<char>, start: int) -> int {
    let feed = next_char(s, '\n', start);
    if start < feed < s.len() && s[feed - 1] == '\r' {
        feed - 1
    } else {
        feed
    }
}

/// The first line from `start` on that tells of a scan of a file.
pub open spec fn scan_line(s: Seq<char>, file: Seq<char>, start: int) -> Option<(int, int)>
    decreases s.len() + 1 - start,
    when 0 <= start
{
    if start >= s.len() {
        None
    } else {
        let end = line_end(s, start);
        let line = s.subrange(start, end);
        if contains_text(line, "DataSourceExec"@) && contains_text(line, file) {
            Some((start, end))
        } else {
            proof {
                next_char_bounds(s, '\n', start);
            }
            scan_line(s, file, next_char(s, '\n', start) + 1)
        }
    }
}

/// The next position of a character is not before the start of the search.
pub proof fn next_char_bounds(s: Seq<char>, c: char, i: int)
    requires
        0 <= i <= s.len(),
    ensures
        i <= next_char(s, c, i) <= s.len(),
        next_char(s, c, i) < s.len() ==> s[next_char(s, c, i)] == c,
    decreases s.len() - i,
{
    if i < s.len() && s[i] != c {
        next_char_bounds(s, c, i + 1);
    }
}

/// Whether a character is white space.
pub open spec fn white_space(c: char) -> bool {
    let n = c as u32;
    ||| 0x09 <= n <= 0x0d
    ||| n == 0x20
    ||| n == 0x85
    ||| n == 0xa0
    ||| n == 0x1680
    ||| 0x2000 <= n <= 0x200a
    ||| n == 0x2028
    ||| n == 0x2029
    ||| n == 0x202f
    ||| n == 0x205f
    ||| n == 0x3000
}

/// A text without white space in front.
pub open spec fn trim_start(s: Seq<char>) -> Seq<char>
    decreases s.len(),
{
    if s.len() > 0 && white_space(s[0]) {
        trim_start(s.skip(1))
    } else {
        s
    }
}

/// A text without white space behind.
pub open spec fn trim_end(s: Seq<char>) -> Seq<char>
    decreases s.len(),
{
    if s.len() > 0 && white_space(s.last()) {
        trim_end(s.drop_last())
    } else {
        s
    }
}

/// The number of rows that a line reports: what stands behind `output_rows=`, up to a comma,
/// without white space around it.
pub open spec fn reported_rows(line: Seq<char>) -> Option<Seq<char>> {
    match find_from(line, "output_rows="@, 0) {
        Some(k) => {
            let rest = line.skip(k + "output_rows="@.len());
            Some(trim_end(trim_start(rest.take(next_char(rest, ',', 0)))))
        },
        None => None,
    }
}

fn is_white_space(c: char) -> (b: bool)
    ensures
        b == white_space(c),
{
    let n: u32 = c as u32;
    (0x09 <= n && n <= 0x0d) || n == 0x20 || n == 0x85 || n == 0xa0 || n == 0x1680 || (0x2000 <= n
        && n <= 0x200a) || n == 0x2028 || n == 0x2029 || n == 0x202f || n == 0x205f || n == 0x3000
}

/// The characters of a text.
fn to_chars(s: &str) -> (v: Vec<char>)
    ensures
        v@ == s@,
{
    let mut v: Vec<char> = Vec::new();
    for c in it: s.chars()
        invariant
            it.seq() == s@,
            v@ == s@.take(it.index() as int),
    {
        v.push(c);
        assert(v@ =~= s@.take(it.index() as int + 1));
    }
    assert(v@ =~= s@);
    v
}

/// Whether `pat` stands in `s` at position `i`.
fn stands_at(s: &Vec<char>, pat: &Vec<char>, i: usize) -> (b: bool)
    requires
        i + pat@.len() <= s@.len(),
    ensures
        b == occurs_at(s@, pat@, i as int),
{
    let mut k: usize = 0;
    while k < pat.len()
        invariant
            i + pat@.len() <= s.len(),
            k <= pat@.len(),
            forall|j: int| 0 <= j < k ==> #[trigger] s@[i + j] == pat@[j],
        decreases pat@.len() - k,
    {
        if s[i + k] != pat[k] {
            assert(s@.subrange(i as int, i + pat@.len())[k as int] != pat@[k as int]);
            return false;
        }
        k = k + 1;
    }
    proof {
        assert forall|j: int| 0 <= j < pat@.len() implies s@.subrange(i as int, i + pat@.len())[j]
            == pat@[j] by {
            assert(s@[i + j] == pat@[j]);
        }
        assert(s@.subrange(i as int, i + pat@.len()) =~= pat@);
    }
    true
}

/// The first position at which `pat` stands in `s`.
fn find(s: &Vec<char>, pat: &Vec<char>) -> (r: Option<usize>)
    ensures
        match r {
            Some(i) => find_from(s@, pat@, 0) == Some(i as int) && i + pat@.len() <= s.len(),
            None => find_from(s@, pat@, 0) is None,
        },
{
    let mut i: usize = 0;
    while i <= s.len() && pat.len() <= s.len() - i
        invariant
            i <= s@.len() + 1,
            find_from(s@, pat@, 0) == find_from(s@, pat@, i as int),
        decreases s@.len() + 1 - i,
    {
        if stands_at(s, pat, i) {
            return Some(i);
        }
        if i == s.len() {
            assert(find_from(s@, pat@, i + 1) is None);
            return None;
        }
        i = i + 1;
    }
    None
}

/// The first position from `start` on that holds `c`, or the length.
fn position(s: &Vec<char>, c: char, start: usize) -> (i: usize)
    requires
        start <= s@.len(),
    ensures
        i == next_char(s@, c, start as int),
        start <= i <= s@.len(),
{
    let mut i: usize = start;
    while i < s.len() && s[i] != c
        invariant
            start <= i <= s@.len(),
            next_char(s@, c, start as int) == next_char(s@, c, i as int),
        decreases s@.len() - i,
    {
        i = i + 1;
    }
    i
}

/// A part of a text.
fn part(s: &Vec<char>, from: usize, to: usize) -> (v: Vec<char>)
    requires
        from <= to <= s@.len(),
    ensures
        v@ == s@.subrange(from as int, to as int),
{
    let mut v: Vec<char> = Vec::new();
    let mut i: usize = from;
    while i < to
        invariant
            from <= i <= to <= s@.len(),
            v@ == s@.subrange(from as int, i as int),
        decreases to - i,
    {
        v.push(s[i]);
        i = i + 1;
        assert(v@ =~= s@.subrange(from as int, i as int));
    }
    v
}

/// What `probe_scan_output_rows` gives: the rows that the first line on a scan of the file reports,
/// or what is missing.
pub open spec fn scan_rows(plan: Seq<char>, file: Seq<char>) -> Result<Seq<char>, Seq<char>> {
    match scan_line(plan, file, 0) {
        None => Err("no DataSourceExec for "@ + file + " in:\n"@ + plan),
        Some((start, end)) => {
            let line = plan.subrange(start, end);
            match reported_rows(line) {
                Some(rows) => Ok(rows),
                None => Err("no output_rows in: "@ + line),
            }
        },
    }
}

/// Where the first line on a scan of the file is.
fn find_scan_line(plan: &Vec<char>, file: &Vec<char>) -> (r: Option<(usize, usize)>)
    ensures
        match r {
            Some(l) => scan_line(plan@, file@, 0) == Some((l.0 as int, l.1 as int)) && l.0 <= l.1
                && l.1 <= plan@.len(),
            None => scan_line(plan@, file@, 0) is None,
        },
{
    let marker = to_chars("DataSourceExec");
    let mut start: usize = 0;
    while start < plan.len()
        invariant
            marker@ == "DataSourceExec"@,
            start <= plan@.len(),
            scan_line(plan@, file@, 0) == scan_line(plan@, file@, start as int),
        decreases plan@.len() - start,
    {
        let feed: usize = position(plan, '\n', start);
        let end: usize = if start < feed && feed < plan.len() && plan[feed - 1] == '\r' {
            feed - 1
        } else {
            feed
        };
        let line = part(plan, start, end);
        if find(&line, &marker).is_some() && find(&line, file).is_some() {
            return Some((start, end));
        }
        if feed == plan.len() {
            assert(scan_line(plan@, file@, feed + 1) is None);
            return None;
        }
        start = feed + 1;
    }
    None
}

/// The number of rows, as printed, that the scan of a file put out, from a plan printed by
/// `EXPLAIN ANALYZE`.
pub fn probe_scan_output_rows(plan: &str, file_substr: &str) -> (r: Result<String, String>)
    ensures
        match r {
            Ok(rows) => scan_rows(plan@, file_substr@) == Ok::<Seq<char>, Seq<char>>(rows@),
            Err(message) => scan_rows(plan@, file_substr@) == Err::<Seq<char>, Seq<char>>(message@),
        },
{
    let chars = to_chars(plan);
    let file = to_chars(file_substr);
    let bounds = match find_scan_line(&chars, &file) {
        Some(l) => l,
        None => {
            let mut message = String::from_str("no DataSourceExec for ");
            message.append(file_substr);
            message.append(" in:\n");
            message.append(plan);
            return Err(message);
        },
    };
    let line = part(&chars, bounds.0, bounds.1);
    let line_text: &str = plan.substring_char(bounds.0, bounds.1);
    let marker = to_chars("output_rows=");
    let found: usize = match find(&line, &marker) {
        Some(k) => k,
        None => {
            let mut message = String::from_str("no output_rows in: ");
            message.append(line_text);
            return Err(message);
        },
    };
    let rest_start: usize = found + marker.len();
    let rest = part(&line, rest_start, line.len());
    assert(rest@ =~= line@.skip(rest_start as int));
    let comma: usize = position(&rest, ',', 0);
    let ghost field = rest@.take(comma as int);
    let mut from: usize = 0;
    let mut to: usize = comma;
    assert(rest@.subrange(0, comma as int) =~= field);
    while from < to && is_white_space(rest[from])
        invariant
            from <= to <= rest@.len(),
            to == comma,
            trim_start(field) == trim_start(rest@.subrange(from as int, to as int)),
        decreases to - from,
    {
        assert(rest@.subrange(from as int, to as int).skip(1) =~= rest@.subrange(
            from + 1,
            to as int,
        ));
        from = from + 1;
    }
    let ghost started = rest@.subrange(from as int, to as int);
    assert(trim_start(field) == started);
    while from < to && is_white_space(rest[to - 1])
        invariant
            from <= to <= rest@.len(),
            trim_end(started) == trim_end(rest@.subrange(from as int, to as int)),
        decreases to - from,
    {
        assert(rest@.subrange(from as int, to as int).drop_last() =~= rest@.subrange(
            from as int,
            to - 1,
        ));
        to = to - 1;
    }
    let rows = line_text.substring_char(rest_start + from, rest_start + to);
    proof {
        assert(rows@ =~= rest@.subrange(from as int, to as int));
    }
    Ok(String::from_str(rows))
}

/// Whether a character is a decimal digit.
pub open spec fn is_digit(c: char) -> bool {
    '0' <= c <= '9'
}

/// How many digits a text starts with.
pub open spec fn leading_digits(s: Seq<char>) -> nat
    decreases s.len(),
{
    if s.len() > 0 && is_digit(s[0]) {
        1 + leading_digits(s.skip(1))
    } else {
        0
    }
}

/// The number that digits stand for.
pub open spec fn digits_value(digits: Seq<char>) -> nat
    decreases digits.len(),
{
    if digits.len() == 0 {
        0
    } else {
        10 * digits_value(digits.drop_last()) + (digits.last() as u32 - '0' as u32) as nat
    }
}

/// What `plan_partitions` gives: the number of file groups of the first scan, or what is wrong.
pub open spec fn plan_groups(plan: Seq<char>) -> Result<nat, Seq<char>> {
    let marker = "DataSourceExec: file_groups={"@;
    match find_from(plan, marker, 0) {
        None => Err("EXPLAIN plan did not contain a DataSourceExec"@),
        Some(k) => {
            let rest = plan.skip(k + marker.len());
            let digits = rest.take(leading_digits(rest) as int);
            if digits.len() == 0 {
                Err("cannot parse integer from empty string"@)
            } else if digits_value(digits) > usize::MAX {
                Err("number too large to fit in target type"@)
            } else {
                Ok(digits_value(digits))
            }
        },
    }
}

/// More digits make no smaller number.
proof fn digits_value_grows(digits: Seq<char>, n: int)
    requires
        0 <= n <= digits.len(),
        forall|i: int| 0 <= i < digits.len() ==> is_digit(#[trigger] digits[i]),
    ensures
        digits_value(digits.take(n)) <= digits_value(digits),
    decreases digits.len(),
{
    if n < digits.len() {
        assert(digits.drop_last().take(n) =~= digits.take(n));
        digits_value_grows(digits.drop_last(), n);
    } else {
        assert(digits.take(n) =~= digits);
    }
}

/// A text starts with its leading digits, and the next character is none.
proof fn leading_digits_are_digits(s: Seq<char>)
    ensures
        leading_digits(s) <= s.len(),
        forall|i: int| 0 <= i < leading_digits(s) ==> is_digit(#[trigger] s[i]),
        leading_digits(s) < s.len() ==> !is_digit(s[leading_digits(s) as int]),
    decreases s.len(),
{
    if s.len() > 0 && is_digit(s[0]) {
        leading_digits_are_digits(s.skip(1));
        assert forall|i: int| 0 <= i < leading_digits(s) implies is_digit(#[trigger] s[i]) by {
            if i > 0 {
                assert(s.skip(1)[i - 1] == s[i]);
            }
        }
    }
}

/// The number of partitions of a query, from its plan printed by `EXPLAIN`.
pub fn plan_partitions(plan: &str) -> (r: Result<usize, String>)
    ensures
        match r {
            Ok(n) => plan_groups(plan@) == Ok::<nat, Seq<char>>(n as nat),
            Err(message) => plan_groups(plan@) == Err::<nat, Seq<char>>(message@),
        },
{
    let chars = to_chars(plan);
    let marker = to_chars("DataSourceExec: file_groups={");
    let found: usize = match find(&chars, &marker) {
        Some(k) => k,
        None => return Err(String::from_str("EXPLAIN plan did not contain a DataSourceExec")),
    };
    let start: usize = found + marker.len();
    let ghost rest = chars@.skip(start as int);
    let ghost digits = rest.take(leading_digits(rest) as int);
    proof {
        leading_digits_are_digits(rest);
    }
    let mut n: usize = 0;
    let mut i: usize = start;
    assert(digits.take(0) =~= Seq::empty());
    while i < chars.len() && '0' <= chars[i] && chars[i] <= '9'
        invariant
            start <= i <= chars@.len(),
            rest == chars@.skip(start as int),
            digits == rest.take(leading_digits(rest) as int),
            leading_digits(rest) <= rest.len(),
            forall|j: int| 0 <= j < leading_digits(rest) ==> is_digit(#[trigger] rest[j]),
            leading_digits(rest) < rest.len() ==> !is_digit(rest[leading_digits(rest) as int]),
            i - start <= digits.len(),
            n == digits_value(digits.take(i - start)),
            plan_groups(plan@) == (if digits.len() == 0 {
                Err::<nat, Seq<char>>("cannot parse integer from empty string"@)
            } else if digits_value(digits) > usize::MAX {
                Err("number too large to fit in target type"@)
            } else {
                Ok(digits_value(digits))
            }),
        decreases chars@.len() - i,
    {
        let c: char = chars[i];
        let ghost k = i - start;
        proof {
            assert(rest[k] == c);
            assert(k < digits.len());
            assert(digits.take(k + 1).drop_last() =~= digits.take(k));
            assert(digits.take(k + 1).last() == c);
            assert forall|j: int| 0 <= j < digits.len() implies is_digit(#[trigger] digits[j]) by {
                assert(is_digit(rest[j]));
            }
            digits_value_grows(digits, k + 1);
        }
        let digit: usize = (c as u32 - '0' as u32) as usize;
        let next: Option<usize> = match n.checked_mul(10) {
            Some(tens) => tens.checked_add(digit),
            None => None,
        };
        match next {
            Some(m) => {
                n = m;
            },
            None => return Err(String::from_str("number too large to fit in target type")),
        }
        i = i + 1;
    }
    proof {
        let k = i - start;
        if k < digits.len() {
            assert(is_digit(rest[k]));
            assert(rest[k] == chars@[i as int]);
        }
        assert(digits.take(k) =~= digits);
    }
    if i == start {
        return Err(String::from_str("cannot parse integer from empty string"));
    }
    Ok(n)
}

/// The values of all batches, one after the other.
pub open spec fn concat_values(batches: Seq<Vec<i32>>) -> Seq<i32>
    decreases batches.len(),
{
    if batches.len() == 0 {
        Seq::empty()
    } else {
        concat_values(batches.drop_last()) + batches.last()@
    }
}

/// The values of all batches, one after the other.
pub fn batch_values(batches: &[Vec<i32>]) -> (values: Vec<i32>)
    ensures
        values@ == concat_values(batches@),
{
    let mut values: Vec<i32> = Vec::new();
    let mut i: usize = 0;
    assert(batches@.take(0) =~= Seq::empty());
    while i < batches.len()
        invariant
            i <= batches@.len(),
            values@ == concat_values(batches@.take(i as int)),
        decreases batches@.len() - i,
    {
        values.extend_from_slice(batches[i].as_slice());
        proof {
            assert(batches@.take(i + 1).drop_last() =~= batches@.take(i as int));
            assert(values@ =~= concat_values(batches@.take(i + 1)));
        }
        i = i + 1;
    }
    assert(batches@.take(batches@.len() as int) =~= batches@);
    values
}

/// Whether the characters of `pat` are those of `s` from position `i` on.
pub open spec fn stands(s: Seq<char>, pat: Seq<char>, i: int) -> bool {
    &&& 0 <= i
    &&& i + pat.len() <= s.len()
    &&& forall|j: int| 0 <= j < pat.len() ==> #[trigger] pat[j] == s[i + j]
}

/// Whether `pat` stands in `s` at `k` and nowhere before.
pub open spec fn first_stands(s: Seq<char>, pat: Seq<char>, k: int) -> bool {
    stands(s, pat, k) && forall|j: int| 0 <= j < k ==> !#[trigger] stands(s, pat, j)
}

/// Whether `s` mentions `pat` anywhere.
pub open spec fn mentions(s: Seq<char>, pat: Seq<char>) -> bool {
    exists|k: int| #[trigger] stands(s, pat, k)
}

/// Standing character by character is standing as a whole.
proof fn stands_is_occurs(s: Seq<char>, pat: Seq<char>, i: int)
    ensures
        stands(s, pat, i) == occurs_at(s, pat, i),
{
    if stands(s, pat, i) {
        assert forall|j: int| 0 <= j < pat.len() implies s.subrange(i, i + pat.len())[j]
            == pat[j] by {
            assert(pat[j] == s[i + j]);
        }
        assert(s.subrange(i, i + pat.len()) =~= pat);
    } else if occurs_at(s, pat, i) {
        assert forall|j: int| 0 <= j < pat.len() implies #[trigger] pat[j] == s[i + j] by {
            assert(s.subrange(i, i + pat.len())[j] == pat[j]);
        }
    }
}

/// A search from `i` on finds the first position from there.
proof fn found_from(s: Seq<char>, pat: Seq<char>, i: int)
    requires
        0 <= i,
    ensures
        match find_from(s, pat, i) {
            Some(k) => i <= k && stands(s, pat, k) && forall|j: int|
                i <= j < k ==> !#[trigger] stands(s, pat, j),
            None => forall|j: int| i <= j ==> !#[trigger] stands(s, pat, j),
        },
    decreases s.len() + 1 - i,
{
    stands_is_occurs(s, pat, i);
    if i + pat.len() <= s.len() && !occurs_at(s, pat, i) {
        found_from(s, pat, i + 1);
    }
}

/// A search finds a text where it first stands, and finds nothing where it stands nowhere.
pub proof fn text_is_found_where_it_first_stands(s: Seq<char>, pat: Seq<char>)
    ensures
        match find_from(s, pat, 0) {
            Some(k) => first_stands(s, pat, k),
            None => !mentions(s, pat),
        },
        contains_text(s, pat) <==> mentions(s, pat),
        forall|k: int| #[trigger] first_stands(s, pat, k) ==> find_from(s, pat, 0) == Some(k),
{
    found_from(s, pat, 0);
    if mentions(s, pat) {
        let k = choose|k: int| #[trigger] stands(s, pat, k);
        assert(0 <= k);
    }
    assert forall|k: int| #[trigger] first_stands(s, pat, k) implies find_from(s, pat, 0) == Some(
        k,
    ) by {
        assert(stands(s, pat, k));
        if let Some(m) = find_from(s, pat, 0) {
            if m < k {
                assert(!stands(s, pat, m));
            }
        }
    }
}

/// The next position of a character is the first.
proof fn next_char_is_first(s: Seq<char>, c: char, i: int, k: int)
    requires
        0 <= i <= k <= s.len(),
        forall|j: int| i <= j < k ==> #[trigger] s[j] != c,
        k == s.len() || s[k] == c,
    ensures
        next_char(s, c, i) == k,
    decreases k - i,
{
    if i < k {
        assert(s[i] != c);
        next_char_is_first(s, c, i + 1, k);
    }
}

/// The character does not stand before its next position.
proof fn none_before_next_char(s: Seq<char>, c: char, i: int)
    requires
        0 <= i <= s.len(),
    ensures
        forall|j: int| i <= j < next_char(s, c, i) ==> #[trigger] s[j] != c,
    decreases s.len() - i,
{
    if i < s.len() && s[i] != c {
        none_before_next_char(s, c, i + 1);
    }
}

/// Whether the characters `a..e` are a line: they start the text or follow a line feed, hold no
/// line feed, and end at the end of the text, at a line feed, or at a carriage return before one.
pub open spec fn is_line(s: Seq<char>, a: int, e: int) -> bool {
    &&& 0 <= a <= e <= s.len()
    &&& a < s.len()
    &&& a == 0 || s[a - 1] == '\n'
    &&& forall|j: int| a <= j < e ==> #[trigger] s[j] != '\n'
    &&& {
        ||| e == s.len()
        ||| s[e] == '\n' && !(e > a && s[e - 1] == '\r')
        ||| s[e] == '\r' && e + 1 < s.len() && s[e + 1] == '\n'
    }
}

/// Whether a line tells of a scan of a file.
pub open spec fn tells_of_scan(s: Seq<char>, file: Seq<char>, a: int, e: int) -> bool {
    &&& is_line(s, a, e)
    &&& mentions(s.subrange(a, e), "DataSourceExec"@)
    &&& mentions(s.subrange(a, e), file)
}

/// A line ends where it is said to.
proof fn line_ends(s: Seq<char>, a: int, e: int)
    requires
        is_line(s, a, e),
    ensures
        line_end(s, a) == e,
{
    if e == s.len() || s[e] == '\n' {
        next_char_is_first(s, '\n', a, e);
    } else {
        next_char_is_first(s, '\n', a, e + 1);
    }
}

/// A line starts at the start of the text and behind each line feed.
proof fn line_from(s: Seq<char>, a: int)
    requires
        0 <= a < s.len(),
        a == 0 || s[a - 1] == '\n',
    ensures
        is_line(s, a, line_end(s, a)),
{
    next_char_bounds(s, '\n', a);
    none_before_next_char(s, '\n', a);
}

/// From a line on, the first line that tells of a scan is found.
proof fn scan_found_from(s: Seq<char>, file: Seq<char>, from: int, a: int, e: int)
    requires
        0 <= from <= a,
        from == 0 || s[from - 1] == '\n',
        tells_of_scan(s, file, a, e),
        forall|b: int, f: int| b < a ==> !#[trigger] tells_of_scan(s, file, b, f),
    ensures
        scan_line(s, file, from) == Some((a, e)),
    decreases a - from,
{
    let end = line_end(s, from);
    let line = s.subrange(from, end);
    text_is_found_where_it_first_stands(line, "DataSourceExec"@);
    text_is_found_where_it_first_stands(line, file);
    if from == a {
        line_ends(s, a, e);
    } else {
        line_from(s, from);
        assert(!tells_of_scan(s, file, from, end));
        let feed = next_char(s, '\n', from);
        next_char_bounds(s, '\n', from);
        none_before_next_char(s, '\n', from);
        assert(feed <= a - 1) by {
            if feed > a - 1 {
                assert(s[a - 1] != '\n');
            }
        }
        scan_found_from(s, file, feed + 1, a, e);
    }
}

/// From a line on, nothing is found where no line tells of a scan.
proof fn no_scan_from(s: Seq<char>, file: Seq<char>, from: int)
    requires
        0 <= from,
        from >= s.len() || from == 0 || s[from - 1] == '\n',
        forall|b: int, f: int| !#[trigger] tells_of_scan(s, file, b, f),
    ensures
        scan_line(s, file, from) is None,
    decreases s.len() + 1 - from,
{
    if from < s.len() {
        let end = line_end(s, from);
        let line = s.subrange(from, end);
        text_is_found_where_it_first_stands(line, "DataSourceExec"@);
        text_is_found_where_it_first_stands(line, file);
        line_from(s, from);
        assert(!tells_of_scan(s, file, from, end));
        next_char_bounds(s, '\n', from);
        no_scan_from(s, file, next_char(s, '\n', from) + 1);
    }
}

/// White space in front goes, up to the first character that is none.
proof fn trimmed_start(s: Seq<char>, p: int)
    requires
        0 <= p <= s.len(),
        forall|j: int| 0 <= j < p ==> white_space(#[trigger] s[j]),
        p == s.len() || !white_space(s[p]),
    ensures
        trim_start(s) == s.skip(p),
    decreases p,
{
    if p > 0 {
        assert(white_space(s[0]));
        assert forall|j: int| 0 <= j < p - 1 implies white_space(#[trigger] s.skip(1)[j]) by {
            assert(white_space(s[j + 1]));
        }
        trimmed_start(s.skip(1), p - 1);
        assert(s.skip(1).skip(p - 1) =~= s.skip(p));
    } else {
        assert(s.skip(0) =~= s);
    }
}

/// White space behind goes, down to the last character that is none.
proof fn trimmed_end(s: Seq<char>, q: int)
    requires
        0 <= q <= s.len(),
        forall|j: int| q <= j < s.len() ==> white_space(#[trigger] s[j]),
        q == 0 || !white_space(s[q - 1]),
    ensures
        trim_end(s) == s.take(q),
    decreases s.len() - q,
{
    if q < s.len() {
        assert(white_space(s[s.len() - 1]));
        assert forall|j: int| q <= j < s.drop_last().len() implies white_space(
            #[trigger] s.drop_last()[j],
        ) by {
            assert(white_space(s[j]));
        }
        trimmed_end(s.drop_last(), q);
        assert(s.drop_last().take(q) =~= s.take(q));
    } else {
        assert(s.take(q) =~= s);
    }
}

/// Spaces, tabs and line ends are white space, and no visible ASCII character is.
pub proof fn visible_characters_are_no_white_space(c: char)
    ensures
        c == ' ' || c == '\t' || c == '\n' || c == '\r' ==> white_space(c),
        '!' <= c <= '~' ==> !white_space(c),
{
}

/// Whether `p..q` are the rows that a line reports: behind the first `output_rows=`, which ends at
/// `m`, up to the first comma from there or the end of the line, which is at `c`, and without the
/// white space on both sides.
pub open spec fn reports_rows_at(line: Seq<char>, m: int, c: int, p: int, q: int) -> bool {
    &&& first_stands(line, "output_rows="@, m - "output_rows="@.len())
    &&& m <= p <= q <= c <= line.len()
    &&& forall|j: int| m <= j < c ==> #[trigger] line[j] != ','
    &&& c == line.len() || line[c] == ','
    &&& forall|j: int| m <= j < p ==> white_space(#[trigger] line[j])
    &&& forall|j: int| q <= j < c ==> white_space(#[trigger] line[j])
    &&& if p < q {
        !white_space(line[p]) && !white_space(line[q - 1])
    } else {
        p == c
    }
}

/// The rows that a line reports are read from between the sign and the comma.
proof fn reported_rows_are_read(line: Seq<char>, m: int, c: int, p: int, q: int)
    requires
        reports_rows_at(line, m, c, p, q),
    ensures
        reported_rows(line) == Some(line.subrange(p, q)),
{
    text_is_found_where_it_first_stands(line, "output_rows="@);
    let rest = line.skip(m);
    assert forall|j: int| 0 <= j < c - m implies #[trigger] rest[j] != ',' by {
        assert(line[m + j] != ',');
    }
    next_char_is_first(rest, ',', 0, c - m);
    let field = rest.take(c - m);
    assert forall|j: int| 0 <= j < p - m implies white_space(#[trigger] field[j]) by {
        assert(white_space(line[m + j]));
    }
    trimmed_start(field, p - m);
    let started = field.skip(p - m);
    assert forall|j: int| q - p <= j < started.len() implies white_space(#[trigger] started[j]) by {
        assert(white_space(line[p + j]));
    }
    trimmed_end(started, q - p);
    assert(started.take(q - p) =~= line.subrange(p, q));
}

/// The rows of the first line that tells of a scan of the file are returned, as printed.
pub proof fn scanned_rows_are_read(
    plan: Seq<char>,
    file: Seq<char>,
    a: int,
    e: int,
    m: int,
    c: int,
    p: int,
    q: int,
)
    requires
        tells_of_scan(plan, file, a, e),
        forall|b: int, f: int| b < a ==> !#[trigger] tells_of_scan(plan, file, b, f),
        reports_rows_at(plan.subrange(a, e), m, c, p, q),
    ensures
        scan_rows(plan, file) == Ok::<Seq<char>, Seq<char>>(plan.subrange(a + p, a + q)),
{
    scan_found_from(plan, file, 0, a, e);
    reported_rows_are_read(plan.subrange(a, e), m, c, p, q);
    assert(plan.subrange(a, e).subrange(p, q) =~= plan.subrange(a + p, a + q));
}

/// A plan without a line on the file, and a first line without rows, are refused with the plan or
/// the line that was read.
pub proof fn missing_rows_are_refused(plan: Seq<char>, file: Seq<char>, a: int, e: int)
    ensures
        (forall|b: int, f: int| !#[trigger] tells_of_scan(plan, file, b, f)) ==> scan_rows(
            plan,
            file,
        ) == Err::<Seq<char>, Seq<char>>("no DataSourceExec for "@ + file + " in:\n"@ + plan),
        tells_of_scan(plan, file, a, e) && (forall|b: int, f: int|
            b < a ==> !#[trigger] tells_of_scan(plan, file, b, f)) && !mentions(
            plan.subrange(a, e),
            "output_rows="@,
        ) ==> scan_rows(plan, file) == Err::<Seq<char>, Seq<char>>(
            "no output_rows in: "@ + plan.subrange(a, e),
        ),
{
    if forall|b: int, f: int| !#[trigger] tells_of_scan(plan, file, b, f) {
        no_scan_from(plan, file, 0);
    } else if tells_of_scan(plan, file, a, e) && (forall|b: int, f: int|
        b < a ==> !#[trigger] tells_of_scan(plan, file, b, f)) {
        scan_found_from(plan, file, 0, a, e);
        text_is_found_where_it_first_stands(plan.subrange(a, e), "output_rows="@);
    }
}

/// Digits stand for the sum by their places.
proof fn digits_are_places(digits: Seq<char>)
    requires
        forall|i: int| 0 <= i < digits.len() ==> '0' <= #[trigger] digits[i] <= '9',
    ensures
        digits_value(digits) == text::place_value(digits),
    decreases digits.len(),
{
    if digits.len() > 0 {
        let before = digits.drop_last();
        assert forall|i: int| 0 <= i < before.len() implies '0' <= #[trigger] before[i] <= '9' by {
            assert(digits[i] == before[i]);
        }
        digits_are_places(before);
        text::place_value_of_push(before, digits.last());
        assert(before.push(digits.last()) =~= digits);
        assert('0' <= digits[digits.len() - 1] <= '9');
    }
}

/// The count of file groups is read as it was printed: the digits behind the first mark, up to the
/// first character that is none, by their places. A count beyond the machine's numbers, a mark
/// without digits, and a plan without a mark are refused.
pub proof fn printed_partitions_are_read(plan: Seq<char>, start: int, end: int)
    requires
        first_stands(
            plan,
            "DataSourceExec: file_groups={"@,
            start - "DataSourceExec: file_groups={"@.len(),
        ),
        start <= end <= plan.len(),
        forall|i: int| start <= i < end ==> '0' <= #[trigger] plan[i] <= '9',
        end == plan.len() || !('0' <= plan[end] <= '9'),
    ensures
        ({
            let printed = text::place_value(plan.subrange(start, end));
            if start == end {
                plan_groups(plan) == Err::<nat, Seq<char>>(
                    "cannot parse integer from empty string"@,
                )
            } else if printed <= usize::MAX {
                plan_groups(plan) == Ok::<nat, Seq<char>>(printed as nat)
            } else {
                plan_groups(plan) == Err::<nat, Seq<char>>(
                    "number too large to fit in target type"@,
                )
            }
        }),
{
    let marker = "DataSourceExec: file_groups={"@;
    text_is_found_where_it_first_stands(plan, marker);
    let rest = plan.skip(start);
    leading_digits_are_digits(rest);
    let n = leading_digits(rest) as int;
    if n < end - start {
        assert('0' <= plan[start + n] <= '9');
    } else if n > end - start {
        assert(is_digit(rest[end - start]));
    }
    let digits = rest.take(n);
    assert(digits =~= plan.subrange(start, end));
    assert forall|i: int| 0 <= i < digits.len() implies '0' <= #[trigger] digits[i] <= '9' by {
        assert('0' <= plan[start + i] <= '9');
    }
    digits_are_places(digits);
}

/// A plan without the mark is refused.
pub proof fn plans_without_scan_are_refused(plan: Seq<char>)
    requires
        !mentions(plan, "DataSourceExec: file_groups={"@),
    ensures
        plan_groups(plan) == Err::<nat, Seq<char>>(
            "EXPLAIN plan did not contain a DataSourceExec"@,
        ),
{
    text_is_found_where_it_first_stands(plan, "DataSourceExec: file_groups={"@);
}

/// The values of some batches and those of others are the values of all, and those of one batch are
/// its own: every value is there once, in order.
pub proof fn batches_add_up(a: Seq<Vec<i32>>, b: Seq<Vec<i32>>, one: Vec<i32>)
    ensures
        concat_values(a + b) == concat_values(a) + concat_values(b),
        concat_values(seq![one]) == one@,
    decreases b.len(),
{
    let none = Seq::<Vec<i32>>::empty();
    assert(concat_values(none) =~= Seq::<i32>::empty());
    assert(seq![one].drop_last() =~= none);
    assert(concat_values(seq![one]) == concat_values(none) + one@);
    assert(Seq::<i32>::empty() + one@ =~= one@);
    if b.len() == 0 {
        assert(a + b =~= a);
        assert(b =~= none);
        assert(concat_values(a) + Seq::<i32>::empty() =~= concat_values(a));
    } else {
        batches_add_up(a, b.drop_last(), one);
        assert((a + b).drop_last() =~= a + b.drop_last());
        assert(concat_values(a + b) =~= concat_values(a) + concat_values(b));
    }
}

} // verus!
