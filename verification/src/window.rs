//! The identity of a desktop window at a point in time, and the test for
//! whether a window belongs to the agent's editor.

use vstd::prelude::*;
use vstd::string::StrSliceExecFns;

verus! {

/// Information about a window. Equality is structural on all four fields.
#[derive(Debug)]
pub struct WindowInfo {
    /// Process id of the window owner; 0 when unknown.
    pub pid: u32,
    /// Platform-specific window identifier.
    pub window_id: String,
    /// Name of the application (e.g. "Google Chrome").
    pub app_name: String,
    /// Window title.
    pub title: String,
}

/// `c` equals the lowercase ASCII letter `l`, ignoring ASCII case.
pub open spec fn char_matches_lower(c: char, l: char) -> bool {
    c == l || c as u32 + 32 == l as u32
}

/// The editor's identity token, "cursor", read case-insensitively at
/// position `i` of `s`.
pub open spec fn editor_token_at(s: Seq<char>, i: int) -> bool {
    &&& 0 <= i
    &&& i + 6 <= s.len()
    &&& char_matches_lower(s[i], 'c')
    &&& char_matches_lower(s[i + 1], 'u')
    &&& char_matches_lower(s[i + 2], 'r')
    &&& char_matches_lower(s[i + 3], 's')
    &&& char_matches_lower(s[i + 4], 'o')
    &&& char_matches_lower(s[i + 5], 'r')
}

/// An application name counts as the agent editor's when it contains the
/// token "cursor", compared with ASCII case folding.
pub open spec fn is_editor_app_name(s: Seq<char>) -> bool {
    exists|i: int| editor_token_at(s, i)
}

impl WindowInfo {
    /// Whether this window belongs to the agent's editor: its application
    /// name contains the editor's identity token, ignoring ASCII case.
    pub fn is_cursor(&self) -> (r: bool)
        ensures
            r == is_editor_app_name(self.app_name@),
    {
        let name: &str = self.app_name.as_str();
        let n = name.unicode_len();
        if n < 6 {
            return false;
        }
        let mut i: usize = 0;
        while i <= n - 6
            invariant
                n == name@.len(),
                name@ == self.app_name@,
                6 <= n,
                i <= n - 6 + 1,
                forall|j: int| 0 <= j < i ==> !editor_token_at(name@, j),
            decreases n - i,
        {
            if token_matches_at(name, i) {
                return true;
            }
            i += 1;
        }
        false
    }
}

/// A " - " separator stands at position `i` of `s`.
pub open spec fn sep_at(s: Seq<char>, i: int) -> bool {
    &&& 0 <= i
    &&& i + 3 <= s.len()
    &&& s[i] == ' '
    &&& s[i + 1] == '-'
    &&& s[i + 2] == ' '
}

/// The first position at or after `i` where a " - " separator stands, or the
/// length when there is none.
pub open spec fn find_sep_from(s: Seq<char>, i: int) -> int
    decreases s.len() - i when 0 <= i <= s.len()
{
    if i + 3 > s.len() {
        s.len() as int
    } else if sep_at(s, i) {
        i
    } else {
        find_sep_from(s, i + 1)
    }
}

/// The project segment of an editor window title of the form
/// "filename - ProjectName - Editor": what stands between the first " - "
/// separator and the next one; nothing when the title has fewer than two
/// separators.
pub open spec fn spec_cursor_project_name(title: Seq<char>) -> Option<Seq<char>> {
    let p = find_sep_from(title, 0);
    if p == title.len() {
        None
    } else {
        let q = find_sep_from(title, p + 3);
        if q == title.len() {
            None
        } else {
            Some(title.subrange(p + 3, q))
        }
    }
}

proof fn lemma_find_sep_bounds(s: Seq<char>, i: int)
    requires
        0 <= i <= s.len(),
    ensures
        i <= find_sep_from(s, i) <= s.len(),
        find_sep_from(s, i) == s.len() || sep_at(s, find_sep_from(s, i)),
    decreases s.len() - i,
{
    if i + 3 <= s.len() && !sep_at(s, i) {
        lemma_find_sep_bounds(s, i + 1);
    }
}

fn find_sep_exec(s: &str, from: usize) -> (r: usize)
    requires
        from <= s@.len(),
    ensures
        r == find_sep_from(s@, from as int),
        from <= r <= s@.len(),
        r < s@.len() ==> sep_at(s@, r as int),
{
    let n = s.unicode_len();
    let mut i = from;
    while n - i >= 3
        invariant
            n == s@.len(),
            from <= i <= n,
            find_sep_from(s@, from as int) == find_sep_from(s@, i as int),
        decreases n - i,
    {
        if s.get_char(i) == ' ' && s.get_char(i + 1) == '-' && s.get_char(i + 2) == ' ' {
            return i;
        }
        i += 1;
    }
    proof {
        lemma_find_sep_bounds(s@, from as int);
    }
    n
}

impl WindowInfo {
    /// The project name read from this window's title, when the title has
    /// the editor's "filename - ProjectName - Editor" shape: the segment
    /// between the first two " - " separators. The file name changes as
    /// files open; the project segment stays, so it identifies the window.
    pub fn cursor_project_name(&self) -> (r: Option<String>)
        ensures
            match r {
                Some(p) => spec_cursor_project_name(self.title@) == Some(p@),
                None => spec_cursor_project_name(self.title@) is None,
            },
    {
        let title: &str = self.title.as_str();
        let n = title.unicode_len();
        let p = find_sep_exec(title, 0);
        if p == n {
            return None;
        }
        let q = find_sep_exec(title, p + 3);
        if q == n {
            return None;
        }
        Some(title.substring_char(p + 3, q).to_owned())
    }
}

/// Reads six characters of `s` starting at `i` and compares them with
/// "cursor", ignoring ASCII case.
fn token_matches_at(s: &str, i: usize) -> (r: bool)
    requires
        i + 6 <= s@.len(),
        s@.len() <= usize::MAX,
    ensures
        r == editor_token_at(s@, i as int),
{
    char_eq_lower(s.get_char(i), 'c') && char_eq_lower(s.get_char(i + 1), 'u') && char_eq_lower(
        s.get_char(i + 2),
        'r',
    ) && char_eq_lower(s.get_char(i + 3), 's') && char_eq_lower(s.get_char(i + 4), 'o')
        && char_eq_lower(s.get_char(i + 5), 'r')
}

/// ASCII-case-insensitive comparison of one character with a lowercase
/// ASCII letter.
fn char_eq_lower(c: char, l: char) -> (r: bool)
    ensures
        r == char_matches_lower(c, l),
{
    c == l || (c as u32) + 32 == (l as u32)
}

impl Clone for WindowInfo {
    /// A clone carries the same pid, window id, application name and title.
    fn clone(&self) -> (r: Self)
        ensures
            r == *self,
    {
        WindowInfo {
            pid: self.pid,
            window_id: self.window_id.clone(),
            app_name: self.app_name.clone(),
            title: self.title.clone(),
        }
    }
}

impl PartialEq for WindowInfo {
    fn eq(&self, other: &Self) -> (r: bool) {
        self.pid == other.pid && self.window_id == other.window_id && self.app_name
            == other.app_name && self.title == other.title
    }
}

impl vstd::std_specs::cmp::PartialEqSpecImpl for WindowInfo {
    open spec fn obeys_eq_spec() -> bool {
        true
    }

    open spec fn eq_spec(&self, other: &Self) -> bool {
        &&& self.pid == other.pid
        &&& self.window_id@ == other.window_id@
        &&& self.app_name@ == other.app_name@
        &&& self.title@ == other.title@
    }
}

} // verus!
