//! Verified parsers for the platform tools' textual output: the
//! pipe-delimited window descriptions the scripts print, and the
//! bring-forward order line the launch-services tool prints.

use vstd::prelude::*;
use vstd::string::StrSliceExecFns;
use vstd::string::StringExecFns;
use crate::window::WindowInfo;

verus! {

/// The first position at or after `i` where `c` occurs in `s`, or `s.len()`.
pub open spec fn find_from(s: Seq<char>, c: char, i: int) -> int
    decreases s.len() - i when 0 <= i <= s.len()
{
    if i >= s.len() {
        s.len() as int
    } else if s[i] == c {
        i
    } else {
        find_from(s, c, i + 1)
    }
}

proof fn lemma_find_from_bounds(s: Seq<char>, c: char, i: int)
    requires
        0 <= i <= s.len(),
    ensures
        i <= find_from(s, c, i) <= s.len(),
    decreases s.len() - i,
{
    if i < s.len() && s[i] != c {
        lemma_find_from_bounds(s, c, i + 1);
    }
}

/// The last position where `c` occurs in `s`, or -1.
pub open spec fn rfind(s: Seq<char>, c: char) -> int
    decreases s.len(),
{
    if s.len() == 0 {
        -1
    } else if s.last() == c {
        s.len() - 1
    } else {
        rfind(s.drop_last(), c)
    }
}

/// A decimal digit.
pub open spec fn is_digit(c: char) -> bool {
    48 <= c as u32 <= 57
}

/// Every character is a decimal digit.
pub open spec fn all_digits(s: Seq<char>) -> bool {
    forall|i: int| 0 <= i < s.len() ==> is_digit(s[i])
}

/// The value of a digit string, most significant digit first.
pub open spec fn digits_val(s: Seq<char>) -> int
    decreases s.len(),
{
    if s.len() == 0 {
        0
    } else {
        digits_val(s.drop_last()) * 10 + (s.last() as u32 - 48)
    }
}

/// What parsing a decimal number yields: the value when the string is
/// nonempty, all digits, and fits; nothing otherwise.
pub open spec fn spec_parse_u32(s: Seq<char>) -> Option<u32> {
    if s.len() > 0 && all_digits(s) && digits_val(s) <= u32::MAX {
        Some(digits_val(s) as u32)
    } else {
        None
    }
}

proof fn lemma_digits_val_nonneg(s: Seq<char>)
    requires
        all_digits(s),
    ensures
        digits_val(s) >= 0,
    decreases s.len(),
{
    if s.len() > 0 {
        assert(all_digits(s.drop_last())) by {
            assert(forall|i: int|
                0 <= i < s.drop_last().len() ==> s.drop_last()[i] == s[i]);
        }
        lemma_digits_val_nonneg(s.drop_last());
    }
}

proof fn lemma_digits_val_monotone(s: Seq<char>, i: int)
    requires
        0 <= i <= s.len(),
        all_digits(s),
    ensures
        digits_val(s) >= digits_val(s.take(i)),
    decreases s.len() - i,
{
    if i < s.len() {
        assert(all_digits(s.take(i))) by {
            assert(forall|j: int| 0 <= j < i ==> s.take(i)[j] == s[j]);
        }
        lemma_digits_val_nonneg(s.take(i));
        assert(s.take(i + 1).drop_last() =~= s.take(i));
        assert(s.take(i + 1).last() == s[i]);
        assert(digits_val(s.take(i + 1)) >= digits_val(s.take(i)));
        lemma_digits_val_monotone(s, i + 1);
    } else {
        assert(s.take(i) =~= s);
    }
}

/// Parses a nonempty all-digit string as a decimal number; `None` when a
/// character is no digit, the string is empty, or the value overflows.
pub fn parse_u32(s: &str) -> (r: Option<u32>)
    ensures
        r == spec_parse_u32(s@),
{
    let n = s.unicode_len();
    if n == 0 {
        return None;
    }
    let mut val: u64 = 0;
    let mut i: usize = 0;
    while i < n
        invariant
            n == s@.len(),
            0 < n,
            i <= n,
            all_digits(s@.take(i as int)),
            val == digits_val(s@.take(i as int)),
            val <= u32::MAX,
        decreases n - i,
    {
        let c = s.get_char(i);
        let cu = c as u32;
        if cu < 48 || cu > 57 {
            assert(!all_digits(s@)) by {
                assert(!is_digit(s@[i as int]));
            }
            return None;
        }
        let d: u64 = (cu - 48) as u64;
        val = val * 10 + d;
        proof {
            assert(s@.take(i + 1).drop_last() =~= s@.take(i as int));
            assert(s@.take(i + 1).last() == s@[i as int]);
            assert(all_digits(s@.take(i + 1))) by {
                assert(forall|j: int|
                    0 <= j < i + 1 ==> s@.take(i + 1)[j] == s@[j]);
            }
        }
        i += 1;
        if val > 0xFFFF_FFFFu64 {
            proof {
                if all_digits(s@) {
                    lemma_digits_val_monotone(s@, i as int);
                }
            }
            return None;
        }
    }
    proof {
        assert(s@.take(n as int) =~= s@);
    }
    Some(val as u32)
}

/// The character of one decimal digit.
pub open spec fn digit_char(d: int) -> char {
    if d == 0 {
        '0'
    } else if d == 1 {
        '1'
    } else if d == 2 {
        '2'
    } else if d == 3 {
        '3'
    } else if d == 4 {
        '4'
    } else if d == 5 {
        '5'
    } else if d == 6 {
        '6'
    } else if d == 7 {
        '7'
    } else if d == 8 {
        '8'
    } else {
        '9'
    }
}

/// The decimal rendering of a non-negative number, no leading zeros (a lone
/// zero for 0).
pub open spec fn spec_decimal(v: int) -> Seq<char>
    decreases v when v >= 0
{
    if v < 10 {
        seq![digit_char(v)]
    } else {
        spec_decimal(v / 10).push(digit_char(v % 10))
    }
}

fn digit_str(d: u32) -> (r: &'static str)
    requires
        d < 10,
    ensures
        r@ =~= seq![digit_char(d as int)],
{
    proof {
        reveal_strlit("0");
        reveal_strlit("1");
        reveal_strlit("2");
        reveal_strlit("3");
        reveal_strlit("4");
        reveal_strlit("5");
        reveal_strlit("6");
        reveal_strlit("7");
        reveal_strlit("8");
        reveal_strlit("9");
    }
    match d {
        0 => "0",
        1 => "1",
        2 => "2",
        3 => "3",
        4 => "4",
        5 => "5",
        6 => "6",
        7 => "7",
        8 => "8",
        _ => "9",
    }
}

/// Renders a number in decimal.
pub fn u32_to_string(v: u32) -> (r: String)
    ensures
        r@ == spec_decimal(v as int),
    decreases v,
{
    let d = v % 10;
    let digit = digit_str(d);
    if v < 10 {
        digit.to_owned()
    } else {
        let mut s = u32_to_string(v / 10);
        s.append(digit);
        proof {
            assert(spec_decimal(v as int / 10) + digit@ =~= spec_decimal(v as int / 10).push(
                digit_char(v as int % 10),
            ));
        }
        s
    }
}

/// The first position at or after `from` where `c` occurs, or the length.
fn find_char_from(s: &str, c: char, from: usize) -> (r: usize)
    requires
        from <= s@.len(),
    ensures
        r == find_from(s@, c, from as int),
        from <= r <= s@.len(),
        r < s@.len() ==> s@[r as int] == c,
{
    let n = s.unicode_len();
    let mut i = from;
    while i < n
        invariant
            n == s@.len(),
            from <= i <= n,
            find_from(s@, c, from as int) == find_from(s@, c, i as int),
        decreases n - i,
    {
        if s.get_char(i) == c {
            return i;
        }
        i += 1;
    }
    n
}

/// The last position where `c` occurs, if any.
fn rfind_char(s: &str, c: char) -> (r: Option<usize>)
    ensures
        match r {
            Some(i) => rfind(s@, c) == i && i < s@.len() && s@[i as int] == c,
            None => rfind(s@, c) == -1,
        },
{
    let n = s.unicode_len();
    let mut i = n;
    proof {
        assert(s@.take(n as int) =~= s@);
    }
    while i > 0
        invariant
            n == s@.len(),
            i <= n,
            rfind(s@, c) == rfind(s@.take(i as int), c),
        decreases i,
    {
        if s.get_char(i - 1) == c {
            proof {
                assert(s@.take(i as int).last() == s@[i - 1]);
            }
            return Some(i - 1);
        }
        proof {
            assert(s@.take(i as int).drop_last() =~= s@.take(i - 1));
            assert(s@.take(i as int).last() == s@[i - 1]);
        }
        i -= 1;
    }
    None
}

/// What parsing a window description yields, as the exact specification of
/// [`parse_window_info`]: the format is `appName|pid|title|windowIndex`,
/// where the title may itself contain pipes (the index is everything after
/// the last pipe) and a missing index defaults to 1.
pub open spec fn window_info_parses_to(s: Seq<char>, r: Option<WindowInfo>) -> bool {
    let p1 = find_from(s, '|', 0);
    let p2 = find_from(s, '|', p1 + 1);
    let pid_part = s.subrange(p1 + 1, p2);
    let tai = if p2 == s.len() {
        Seq::<char>::empty()
    } else {
        s.subrange(p2 + 1, s.len() as int)
    };
    let q = rfind(tai, '|');
    let title = if q >= 0 {
        tai.take(q)
    } else {
        tai
    };
    let idx = if q >= 0 {
        tai.skip(q + 1)
    } else {
        "1"@
    };
    match r {
        Some(w) => {
            &&& p1 < s.len()
            &&& 0 < p1
            &&& spec_parse_u32(pid_part) == Some(w.pid)
            &&& w.app_name@ == s.subrange(0, p1)
            &&& w.title@ == title
            &&& w.window_id@ == spec_decimal(w.pid as int) + seq![':'] + idx
        },
        None => p1 == s.len() || p1 == 0 || spec_parse_u32(pid_part) is None,
    }
}

/// Parses a window description of the form `appName|pid|title|windowIndex`.
/// The application name must be nonempty and the pid a decimal number;
/// otherwise nothing is returned. The window id is rendered as `pid:index`.
pub fn parse_window_info(result: &str) -> (r: Option<WindowInfo>)
    ensures
        window_info_parses_to(result@, r),
{
    let n = result.unicode_len();
    let p1 = find_char_from(result, '|', 0);
    if p1 == n {
        return None;
    }
    if p1 == 0 {
        return None;
    }
    let p2 = find_char_from(result, '|', p1 + 1);
    let app_name = result.substring_char(0, p1);
    let pid_part = result.substring_char(p1 + 1, p2);
    let pid = match parse_u32(pid_part) {
        Some(v) => v,
        None => {
            return None;
        },
    };
    let tai = if p2 == n {
        result.substring_char(n, n)
    } else {
        result.substring_char(p2 + 1, n)
    };
    proof {
        if p2 == n {
            assert(tai@ =~= Seq::<char>::empty());
        }
    }
    let tai_len = tai.unicode_len();
    let mut window_id = u32_to_string(pid);
    window_id.append(":");
    proof {
        reveal_strlit(":");
        assert(":"@ =~= seq![':']);
    }
    match rfind_char(tai, '|') {
        Some(q) => {
            let title = tai.substring_char(0, q);
            let idx = tai.substring_char(q + 1, tai_len);
            window_id.append(idx);
            proof {
                assert(title@ =~= tai@.take(q as int));
                assert(idx@ =~= tai@.skip(q + 1));
                assert(window_id@ =~= spec_decimal(pid as int) + seq![':'] + tai@.skip(q + 1));
            }
            Some(
                WindowInfo {
                    pid,
                    window_id,
                    app_name: app_name.to_owned(),
                    title: title.to_owned(),
                },
            )
        },
        None => {
            window_id.append("1");
            proof {
                assert(window_id@ =~= spec_decimal(pid as int) + seq![':'] + "1"@);
            }
            Some(
                WindowInfo {
                    pid,
                    window_id,
                    app_name: app_name.to_owned(),
                    title: tai.to_owned(),
                },
            )
        },
    }
}

/// The first position at or after `i` that holds no space, or the length.
pub open spec fn skip_spaces(s: Seq<char>, i: int) -> int
    decreases s.len() - i when 0 <= i <= s.len()
{
    if i >= s.len() {
        s.len() as int
    } else if s[i] == ' ' {
        skip_spaces(s, i + 1)
    } else {
        i
    }
}

proof fn lemma_skip_spaces_bounds(s: Seq<char>, i: int)
    requires
        0 <= i <= s.len(),
    ensures
        i <= skip_spaces(s, i) <= s.len(),
    decreases s.len() - i,
{
    if i < s.len() && s[i] == ' ' {
        lemma_skip_spaces_bounds(s, i + 1);
    }
}

/// The first position at or after `i` that ends a name tag: a space, a
/// quote, or the length.
pub open spec fn scan_tag_end(s: Seq<char>, i: int) -> int
    decreases s.len() - i when 0 <= i <= s.len()
{
    if i >= s.len() {
        s.len() as int
    } else if s[i] == ' ' || s[i] == '"' {
        i
    } else {
        scan_tag_end(s, i + 1)
    }
}

proof fn lemma_scan_tag_end_bounds(s: Seq<char>, i: int)
    requires
        0 <= i <= s.len(),
    ensures
        i <= scan_tag_end(s, i) <= s.len(),
    decreases s.len() - i,
{
    if i < s.len() && s[i] != ' ' && s[i] != '"' {
        lemma_scan_tag_end_bounds(s, i + 1);
    }
}

/// The (name, tag) pairs read from position `i` on: each name stands in
/// double quotes, and its tag is the following run of non-space characters
/// up to the next space, quote or the end. A pair with an empty name is
/// dropped; a name without a closing quote runs to the end and carries an
/// empty tag.
pub open spec fn spec_parse_pairs(s: Seq<char>, i: int) -> Seq<(Seq<char>, Seq<char>)>
    decreases s.len() - i when 0 <= i <= s.len() via check_parse_pairs_decreases
{
    if i >= s.len() {
        Seq::empty()
    } else if s[i] != '"' {
        spec_parse_pairs(s, i + 1)
    } else {
        let name_end = find_from(s, '"', i + 1);
        let name = s.subrange(i + 1, name_end);
        if name_end >= s.len() {
            if name.len() > 0 {
                seq![(name, Seq::<char>::empty())]
            } else {
                Seq::empty()
            }
        } else {
            let sp = skip_spaces(s, name_end + 1);
            let tag_end = scan_tag_end(s, sp);
            let tag = s.subrange(sp, tag_end);
            let rest = spec_parse_pairs(s, tag_end);
            if name.len() > 0 {
                seq![(name, tag)] + rest
            } else {
                rest
            }
        }
    }
}

#[via_fn]
proof fn check_parse_pairs_decreases(s: Seq<char>, i: int) {
    if i < s.len() && s[i] == '"' {
        lemma_find_from_bounds(s, '"', i + 1);
        let name_end = find_from(s, '"', i + 1);
        if name_end < s.len() {
            lemma_skip_spaces_bounds(s, name_end + 1);
            let sp = skip_spaces(s, name_end + 1);
            lemma_scan_tag_end_bounds(s, sp);
        }
    }
}

/// The views of a vector of string pairs.
pub open spec fn pairs_view(ps: Seq<(String, String)>) -> Seq<(Seq<char>, Seq<char>)> {
    ps.map_values(|p: (String, String)| (p.0@, p.1@))
}

fn skip_spaces_exec(s: &str, from: usize) -> (r: usize)
    requires
        from <= s@.len(),
    ensures
        r == skip_spaces(s@, from as int),
        from <= r <= s@.len(),
{
    let n = s.unicode_len();
    let mut i = from;
    while i < n
        invariant
            n == s@.len(),
            from <= i <= n,
            skip_spaces(s@, from as int) == skip_spaces(s@, i as int),
        decreases n - i,
    {
        if s.get_char(i) != ' ' {
            return i;
        }
        i += 1;
    }
    n
}

fn scan_tag_end_exec(s: &str, from: usize) -> (r: usize)
    requires
        from <= s@.len(),
    ensures
        r == scan_tag_end(s@, from as int),
        from <= r <= s@.len(),
{
    let n = s.unicode_len();
    let mut i = from;
    while i < n
        invariant
            n == s@.len(),
            from <= i <= n,
            scan_tag_end(s@, from as int) == scan_tag_end(s@, i as int),
        decreases n - i,
    {
        let c = s.get_char(i);
        if c == ' ' || c == '"' {
            return i;
        }
        i += 1;
    }
    n
}

/// Parses a bring-forward-order line into (application name, serial-number
/// tag) pairs: names stand in double quotes, each followed by its tag.
pub fn parse_bring_forward_order(line: &str) -> (r: Vec<(String, String)>)
    ensures
        pairs_view(r@) == spec_parse_pairs(line@, 0),
{
    let n = line.unicode_len();
    let mut pairs: Vec<(String, String)> = Vec::new();
    let mut i: usize = 0;
    while i < n
        invariant
            n == line@.len(),
            i <= n,
            pairs_view(pairs@) + spec_parse_pairs(line@, i as int) == spec_parse_pairs(line@, 0),
        decreases n - i,
    {
        if line.get_char(i) != '"' {
            i += 1;
        } else {
            let name_end = find_char_from(line, '"', i + 1);
            let name = line.substring_char(i + 1, name_end);
            if name_end == n {
                if name.unicode_len() > 0 {
                    pairs.push((name.to_owned(), String::new()));
                    proof {
                        assert(pairs_view(pairs@) =~= pairs_view(pairs@.drop_last()).push(
                            (name@, Seq::<char>::empty()),
                        ));
                        assert(spec_parse_pairs(line@, i as int) =~= seq![
                            (name@, Seq::<char>::empty()),
                        ]);
                        assert(pairs_view(pairs@) + spec_parse_pairs(line@, n as int)
                            =~= spec_parse_pairs(line@, 0));
                    }
                } else {
                    proof {
                        assert(spec_parse_pairs(line@, i as int) =~= Seq::<(
                            Seq<char>,
                            Seq<char>,
                        )>::empty());
                        assert(pairs_view(pairs@) + spec_parse_pairs(line@, n as int)
                            =~= spec_parse_pairs(line@, 0));
                    }
                }
                i = n;
            } else {
                let sp = skip_spaces_exec(line, name_end + 1);
                let tag_end = scan_tag_end_exec(line, sp);
                let tag = line.substring_char(sp, tag_end);
                let ghost prev = i as int;
                if name.unicode_len() > 0 {
                    pairs.push((name.to_owned(), tag.to_owned()));
                    proof {
                        assert(pairs_view(pairs@) =~= pairs_view(pairs@.drop_last()).push(
                            (name@, tag@),
                        ));
                        assert(spec_parse_pairs(line@, prev) == seq![(name@, tag@)]
                            + spec_parse_pairs(line@, tag_end as int));
                        assert(pairs_view(pairs@) + spec_parse_pairs(line@, tag_end as int)
                            =~= spec_parse_pairs(line@, 0));
                    }
                } else {
                    proof {
                        assert(spec_parse_pairs(line@, prev) == spec_parse_pairs(
                            line@,
                            tag_end as int,
                        ));
                    }
                }
                i = tag_end;
            }
        }
    }
    proof {
        assert(pairs_view(pairs@) + spec_parse_pairs(line@, i as int) =~= pairs_view(pairs@));
    }
    pairs
}

} // verus!
