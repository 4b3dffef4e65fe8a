use vstd::prelude::*;
use crate::selector::Entry;

verus! {

/// A directory entry or a remembered workspace path, as found on disk:
/// `present` says that it is a directory (scanning) or that it still exists
/// (history).
pub struct Candidate {
    pub name: String,
    pub location: String,
    pub present: bool,
    pub modified_ms: u64,
}

/// A hidden name starts with a dot.
pub open spec fn hidden(name: Seq<char>) -> bool {
    name.len() > 0 && name[0] == '.'
}

/// Whether a candidate is offered: scanning offers the directories whose
/// names are not hidden, history the paths that exist.
pub open spec fn offered(c: Candidate, history: bool) -> bool {
    if history {
        c.present
    } else {
        c.present && !hidden(c.name@)
    }
}

/// The offered candidates, in the order found.
pub open spec fn offered_of(cs: Seq<Candidate>, history: bool) -> Seq<Candidate>
    decreases cs.len(),
{
    if cs.len() == 0 {
        Seq::empty()
    } else {
        let k = offered_of(cs.drop_last(), history);
        if offered(cs.last(), history) {
            k.push(cs.last())
        } else {
            k
        }
    }
}

fn is_offered(c: &Candidate, history: bool) -> (r: bool)
    ensures
        r == offered(*c, history),
{
    if history {
        c.present
    } else {
        let name = crate::text::chars_of(c.name.as_str());
        c.present && !(name.len() > 0 && name[0] == '.')
    }
}

fn offered_in(found: &Vec<Candidate>, history: bool) -> (r: Vec<Entry>)
    ensures
        r@.len() == offered_of(found@, history).len(),
        forall|k: int| 0 <= k < r@.len() ==> {
            let c = #[trigger] offered_of(found@, history)[k];
            r@[k].describes(if history { c.location@ } else { c.name@ }, c.location@, c.modified_ms)
        },
{
    let mut r: Vec<Entry> = Vec::new();
    let mut i: usize = 0;
    while i < found.len()
        invariant
            i <= found@.len(),
            r@.len() == offered_of(found@.subrange(0, i as int), history).len(),
            forall|k: int| 0 <= k < r@.len() ==> {
                let c = #[trigger] offered_of(found@.subrange(0, i as int), history)[k];
                r@[k].describes(if history { c.location@ } else { c.name@ }, c.location@, c.modified_ms)
            },
        decreases found@.len() - i,
    {
        let c = &found[i];
        assert(found@.subrange(0, i + 1).drop_last() =~= found@.subrange(0, i as int));
        assert(found@.subrange(0, i + 1).last() == found@[i as int]);
        if is_offered(c, history) {
            let e = if history {
                Entry::new(c.location.as_str(), c.location.clone(), c.modified_ms)
            } else {
                Entry::new(c.name.as_str(), c.location.clone(), c.modified_ms)
            };
            r.push(e);
        }
        i = i + 1;
    }
    assert(found@.subrange(0, i as int) =~= found@);
    r
}

/// The candidates that scanning a base directory offers: its subdirectories
/// whose names do not start with a dot, in the order found, each named by
/// its own name.
pub fn scan_entries(found: &Vec<Candidate>) -> (r: Vec<Entry>)
    ensures
        r@.len() == offered_of(found@, false).len(),
        forall|k: int| 0 <= k < r@.len() ==> {
            let c = #[trigger] offered_of(found@, false)[k];
            r@[k].describes(c.name@, c.location@, c.modified_ms)
        },
{
    offered_in(found, false)
}

/// The candidates that a workspace history offers: the paths that still
/// exist, most recently added first, each named by its full path.
pub fn history_entries(found: &Vec<Candidate>) -> (r: Vec<Entry>)
    ensures
        r@.len() == offered_of(found@, true).len(),
        forall|k: int| 0 <= k < r@.len() ==> {
            let c = #[trigger] offered_of(found@, true)[r@.len() - 1 - k];
            r@[k].describes(c.location@, c.location@, c.modified_ms)
        },
{
    let mut kept = offered_in(found, true);
    let ghost all = kept@;
    let mut r: Vec<Entry> = Vec::new();
    while kept.len() > 0
        invariant
            kept@.len() + r@.len() == all.len(),
            forall|k: int| 0 <= k < kept@.len() ==> #[trigger] kept@[k] == all[k],
            forall|k: int| 0 <= k < r@.len() ==> #[trigger] r@[k] == all[all.len() - 1 - k],
        decreases kept@.len(),
    {
        match kept.pop() {
            Some(e) => r.push(e),
            None => {},
        }
    }
    r
}

/// What `char::is_whitespace` says of a character (Unicode White_Space).
pub uninterp spec fn whitespace_of(c: char) -> bool;

/// Relies on `char::is_whitespace`: space, tab, line feed and carriage return
/// are white space; ASCII letters, digits and `/` are not.
#[verifier::external_body]
fn is_whitespace(c: char) -> (r: bool)
    ensures
        r == whitespace_of(c),
        (c == ' ' || c == '\t' || c == '\n' || c == '\r') ==> r,
        ('a' <= c <= 'z' || 'A' <= c <= 'Z' || '0' <= c <= '9' || c == '/') ==> !r,
{
    c.is_whitespace()
}

/// `s` without leading and trailing white space, as `str::trim` leaves it.
pub open spec fn trimmed_of(s: Seq<char>) -> Seq<char>
    decreases s.len(),
{
    if s.len() == 0 {
        s
    } else if whitespace_of(s[0]) {
        trimmed_of(s.drop_first())
    } else if whitespace_of(s.last()) {
        trimmed_of(s.drop_last())
    } else {
        s
    }
}

proof fn lemma_trimmed(s: Seq<char>, i: int, j: int)
    requires
        0 <= i <= j <= s.len(),
        forall|k: int| 0 <= k < i ==> whitespace_of(#[trigger] s[k]),
        forall|k: int| j <= k < s.len() ==> whitespace_of(#[trigger] s[k]),
        i < j ==> !whitespace_of(s[i]) && !whitespace_of(s[j - 1]),
    ensures
        trimmed_of(s) == s.subrange(i, j),
    decreases s.len(),
{
    if s.len() == 0 {
        assert(s.subrange(i, j) =~= s);
    } else if whitespace_of(s[0]) {
        let t = s.drop_first();
        if i > 0 {
            lemma_trimmed(t, i - 1, j - 1);
            assert(t.subrange(i - 1, j - 1) =~= s.subrange(i, j));
        } else {
            assert(j == 0);
            lemma_trimmed(t, 0, 0);
            assert(t.subrange(0, 0) =~= s.subrange(0, 0));
        }
    } else if whitespace_of(s.last()) {
        assert(i == 0);
        assert(j < s.len());
        let t = s.drop_last();
        lemma_trimmed(t, i, j);
        assert(t.subrange(i, j) =~= s.subrange(i, j));
    } else {
        assert(i == 0);
        assert(j == s.len());
        assert(s.subrange(0, s.len() as int) =~= s);
    }
}

/// The line without leading and trailing white space.
fn trim(line: &str) -> (r: String)
    ensures
        r@ == trimmed_of(line@),
{
    let s = crate::text::chars_of(line);
    let mut i: usize = 0;
    while i < s.len() && is_whitespace(s[i])
        invariant
            i <= s@.len(),
            forall|k: int| 0 <= k < i ==> whitespace_of(#[trigger] s@[k]),
        decreases s@.len() - i,
    {
        i = i + 1;
    }
    let mut j: usize = s.len();
    while j > i && is_whitespace(s[j - 1])
        invariant
            i <= j <= s@.len(),
            forall|k: int| j <= k < s@.len() ==> whitespace_of(#[trigger] s@[k]),
        decreases j,
    {
        j = j - 1;
    }
    let mut r: Vec<char> = Vec::new();
    let mut k: usize = i;
    while k < j
        invariant
            i <= k <= j <= s@.len(),
            r@ == s@.subrange(i as int, k as int),
        decreases j - k,
    {
        r.push(s[k]);
        k = k + 1;
        assert(r@ =~= s@.subrange(i as int, k as int));
    }
    proof {
        lemma_trimmed(s@, i as int, j as int);
    }
    crate::text::string_of(&r)
}

/// The non-blank lines, trimmed, in order.
pub open spec fn history_of(lines: Seq<Seq<char>>) -> Seq<Seq<char>>
    decreases lines.len(),
{
    if lines.len() == 0 {
        Seq::empty()
    } else {
        let k = history_of(lines.drop_last());
        let t = trimmed_of(lines.last());
        if t.len() > 0 {
            k.push(t)
        } else {
            k
        }
    }
}

pub open spec fn views(s: Seq<String>) -> Seq<Seq<char>> {
    s.map_values(|x: String| x@)
}

/// The workspace paths that the lines of a history file list: each line
/// trimmed, blank lines skipped, oldest first.
pub fn history_paths(lines: &Vec<String>) -> (r: Vec<String>)
    ensures
        views(r@) == history_of(views(lines@)),
{
    let mut r: Vec<String> = Vec::new();
    let mut i: usize = 0;
    while i < lines.len()
        invariant
            i <= lines@.len(),
            views(r@) == history_of(views(lines@.subrange(0, i as int))),
        decreases lines@.len() - i,
    {
        let t = trim(lines[i].as_str());
        let ghost prev = r@;
        assert(views(lines@.subrange(0, i + 1)).drop_last() =~= views(lines@.subrange(0, i as int)));
        assert(views(lines@.subrange(0, i + 1)).last() == lines@[i as int]@);
        if crate::text::chars_of(t.as_str()).len() > 0 {
            r.push(t);
            assert(views(r@) =~= views(prev).push(t@));
        }
        i = i + 1;
    }
    assert(lines@.subrange(0, i as int) =~= lines@);
    r
}

/// The history after adding `path`: any earlier occurrence removed, the
/// path appended as the most recent.
pub fn remember(paths: &Vec<String>, path: &String) -> (r: Vec<String>)
    ensures
        views(r@) == views(paths@).filter(|p: Seq<char>| p != path@).push(path@),
{
    let mut r: Vec<String> = Vec::new();
    let mut i: usize = 0;
    while i < paths.len()
        invariant
            i <= paths@.len(),
            views(r@) == views(paths@.subrange(0, i as int)).filter(|p: Seq<char>| p != path@),
        decreases paths@.len() - i,
    {
        let ghost prev = r@;
        let ghost s = views(paths@.subrange(0, i + 1));
        assert(s.drop_last() =~= views(paths@.subrange(0, i as int)));
        assert(s.last() == paths@[i as int]@);
        proof {
            reveal(Seq::filter);
        }
        if paths[i] != *path {
            r.push(paths[i].clone());
            assert(views(r@) =~= views(prev).push(paths@[i as int]@));
        }
        i = i + 1;
    }
    assert(paths@.subrange(0, i as int) =~= paths@);
    r.push(path.clone());
    assert(views(r@) =~= views(paths@).filter(|p: Seq<char>| p != path@).push(path@));
    r
}

} // verus!
