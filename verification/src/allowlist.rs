//! Matching a shell command against the editor's auto-approval allowlist:
//! prefix matching on the trimmed command, aware of word boundaries.

use vstd::prelude::*;
use vstd::string::StrSliceExecFns;
use crate::strutil::{str_starts_with, spec_starts_with};

verus! {

/// ASCII whitespace, as trimmed from commands.
pub open spec fn is_space(c: char) -> bool {
    c == ' ' || c == '\t' || c == '\n' || c == '\r'
}

pub open spec fn trim_front(s: Seq<char>) -> Seq<char>
    decreases s.len(),
{
    if s.len() > 0 && is_space(s[0]) {
        trim_front(s.drop_first())
    } else {
        s
    }
}

pub open spec fn trim_back(s: Seq<char>) -> Seq<char>
    decreases s.len(),
{
    if s.len() > 0 && is_space(s[s.len() - 1]) {
        trim_back(s.drop_last())
    } else {
        s
    }
}

/// `s` with leading and trailing ASCII whitespace removed.
pub open spec fn spec_trim(s: Seq<char>) -> Seq<char> {
    trim_back(trim_front(s))
}

proof fn lemma_trim_front_skip(s: Seq<char>, i: int)
    requires
        0 <= i <= s.len(),
        forall|j: int| 0 <= j < i ==> is_space(s[j]),
        i < s.len() ==> !is_space(s[i]),
    ensures
        trim_front(s) == s.skip(i),
    decreases i,
{
    if i == 0 {
        assert(s.skip(0) =~= s);
    } else {
        let t = s.drop_first();
        assert(forall|j: int| 0 <= j < i - 1 ==> t[j] == s[j + 1]);
        lemma_trim_front_skip(t, i - 1);
        assert(t.skip(i - 1) =~= s.skip(i));
    }
}

proof fn lemma_trim_back_take(s: Seq<char>, i: int)
    requires
        0 <= i <= s.len(),
        forall|j: int| i <= j < s.len() ==> is_space(s[j]),
        i > 0 ==> !is_space(s[i - 1]),
    ensures
        trim_back(s) == s.take(i),
    decreases s.len() - i,
{
    if i == s.len() {
        assert(s.take(i) =~= s);
    } else {
        assert(is_space(s[s.len() - 1]));
        assert(forall|j: int| 0 <= j < s.drop_last().len() ==> s.drop_last()[j] == s[j]);
        lemma_trim_back_take(s.drop_last(), i);
        assert(s.drop_last().take(i) =~= s.take(i));
    }
}

fn is_space_char(c: char) -> (r: bool)
    ensures
        r == is_space(c),
{
    c == ' ' || c == '\t' || c == '\n' || c == '\r'
}

/// The slice of `s` with leading and trailing ASCII whitespace removed.
pub fn trim_ascii(s: &str) -> (r: &str)
    ensures
        r@ == spec_trim(s@),
{
    let n = s.unicode_len();
    let mut start: usize = 0;
    while start < n && is_space_char(s.get_char(start))
        invariant
            n == s@.len(),
            start <= n,
            forall|j: int| 0 <= j < start ==> is_space(s@[j]),
        decreases n - start,
    {
        start += 1;
    }
    let mut end: usize = n;
    while end > start && is_space_char(s.get_char(end - 1))
        invariant
            n == s@.len(),
            start <= end <= n,
            forall|j: int| end <= j < n ==> is_space(s@[j]),
        decreases end,
    {
        end -= 1;
    }
    let r = s.substring_char(start, end);
    proof {
        lemma_trim_front_skip(s@, start as int);
        let t = s@.skip(start as int);
        assert(forall|j: int| 0 <= j < t.len() ==> t[j] == s@[j + start]);
        lemma_trim_back_take(t, end - start);
        assert(r@ =~= t.take(end - start));
    }
    r
}

/// One allowlist entry covers the command: the command starts with the
/// entry, and what follows is empty or begins with a space or tab.
pub open spec fn spec_entry_allows(cmd: Seq<char>, allowed: Seq<char>) -> bool {
    &&& spec_starts_with(cmd, allowed)
    &&& (cmd.len() == allowed.len() || cmd[allowed.len() as int] == ' ' || cmd[allowed.len()
        as int] == '\t')
}

/// Some allowlist entry covers the trimmed command.
pub open spec fn spec_command_allowed(command: Seq<char>, allowlist: Seq<String>) -> bool {
    exists|i: int| 0 <= i < allowlist.len() && spec_entry_allows(spec_trim(command), allowlist[i]@)
}

/// Whether the command, trimmed, matches an allowlist entry: exactly, or as
/// a prefix followed by a space or tab.
pub fn is_command_allowed(command: &str, allowlist: &Vec<String>) -> (r: bool)
    ensures
        r == spec_command_allowed(command@, allowlist@),
{
    let trimmed = trim_ascii(command);
    let tn = trimmed.unicode_len();
    let n = allowlist.len();
    let mut i: usize = 0;
    while i < n
        invariant
            n == allowlist@.len(),
            i <= n,
            trimmed@ == spec_trim(command@),
            tn == trimmed@.len(),
            forall|j: int| 0 <= j < i ==> !spec_entry_allows(trimmed@, allowlist@[j]@),
        decreases n - i,
    {
        let a: &str = allowlist[i].as_str();
        if str_starts_with(trimmed, a) {
            let al = a.unicode_len();
            if al == tn {
                assert(spec_entry_allows(spec_trim(command@), allowlist@[i as int]@));
                return true;
            }
            let c = trimmed.get_char(al);
            if c == ' ' || c == '\t' {
                assert(spec_entry_allows(spec_trim(command@), allowlist@[i as int]@));
                return true;
            }
        }
        i += 1;
    }
    false
}

} // verus!
