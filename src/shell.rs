use vstd::prelude::*;
use crate::text::{chars_of, string_of};

verus! {

/// The text after the last `/` (all of it when there is none).
pub open spec fn after_last_slash(s: Seq<char>) -> Seq<char>
    decreases s.len(),
{
    if s.len() == 0 || s.last() == '/' {
        Seq::empty()
    } else {
        after_last_slash(s.drop_last()).push(s.last())
    }
}

/// The repository name of a clone URL: the text after the last `/`, without
/// a trailing `.git` when more than that is left; `None` when the URL ends in
/// `/` or is empty.
pub open spec fn repo_name_of(url: Seq<char>) -> Option<Seq<char>> {
    let tail = after_last_slash(url);
    if tail.len() == 0 {
        None
    } else if tail.len() > 4 && tail.subrange(tail.len() - 4, tail.len() as int) == seq!['.', 'g', 'i', 't'] {
        Some(tail.subrange(0, tail.len() - 4))
    } else {
        Some(tail)
    }
}

/// Relies on regex's `Regex::captures` with the pattern `([^/]+?)(\.git)?$`:
/// the leftmost match starts after the last `/`, and the lazy first group
/// leaves a trailing `.git` to the optional second group whenever it can.
#[verifier::external_body]
fn repo_name(url: &str) -> (r: Option<String>)
    ensures
        match r {
            Some(n) => repo_name_of(url@) == Some(n@),
            None => repo_name_of(url@) is None,
        },
{
    let re = regex::Regex::new(r"([^/]+?)(\.git)?$").unwrap();
    re.captures(url).map(|c| c[1].to_string())
}

/// A path in single quotes.
pub open spec fn quoted(p: Seq<char>) -> Seq<char> {
    seq!['\''] + p + seq!['\'']
}

/// What separates commands for the shell wrapper to evaluate.
pub open spec fn separator() -> Seq<char> {
    seq![' ', '&', '&', ' ', '\\', '\n', ' ', ' ']
}

/// The commands joined by the separator.
pub open spec fn joined(cmds: Seq<Seq<char>>) -> Seq<char>
    decreases cmds.len(),
{
    if cmds.len() == 0 {
        Seq::empty()
    } else if cmds.len() == 1 {
        cmds[0]
    } else {
        joined(cmds.drop_last()) + separator() + cmds.last()
    }
}

fn push_chars(out: &mut Vec<char>, s: &Vec<char>)
    ensures
        final(out)@ == old(out)@ + s@,
{
    let mut i: usize = 0;
    let ghost start = out@;
    while i < s.len()
        invariant
            i <= s@.len(),
            out@ == start + s@.subrange(0, i as int),
        decreases s@.len() - i,
    {
        out.push(s[i]);
        i = i + 1;
        assert(out@ =~= start + s@.subrange(0, i as int));
    }
    assert(s@.subrange(0, i as int) =~= s@);
}

/// `prefix`, then `p` in single quotes, then `suffix`.
fn around_quoted(prefix: &str, p: &str, suffix: &str) -> (r: String)
    ensures
        r@ == prefix@ + quoted(p@) + suffix@,
{
    let mut out = chars_of(prefix);
    out.push('\'');
    push_chars(&mut out, &chars_of(p));
    out.push('\'');
    push_chars(&mut out, &chars_of(suffix));
    assert(out@ =~= prefix@ + quoted(p@) + suffix@);
    string_of(&out)
}

/// `prefix`, then `p` in single quotes.
fn command_on(prefix: &str, p: &str) -> (r: String)
    ensures
        r@ == prefix@ + quoted(p@),
{
    let r = around_quoted(prefix, p, "");
    proof {
        reveal_strlit("");
        assert(prefix@ + quoted(p@) + ""@ =~= prefix@ + quoted(p@));
    }
    r
}

/// Commands that enter an existing directory, refreshing its timestamp.
pub fn change_dir_commands(path: &str) -> (r: Vec<String>)
    ensures
        r@.len() == 2,
        r@[0]@ == "touch "@ + quoted(path@),
        r@[1]@ == "cd "@ + quoted(path@),
{
    let mut r: Vec<String> = Vec::new();
    r.push(command_on("touch ", path));
    r.push(command_on("cd ", path));
    r
}

/// Commands that create a directory and enter it.
pub fn create_dir_commands(path: &str) -> (r: Vec<String>)
    ensures
        r@.len() == 3,
        r@[0]@ == "mkdir -p "@ + quoted(path@),
        r@[1]@ == "touch "@ + quoted(path@),
        r@[2]@ == "cd "@ + quoted(path@),
{
    let mut r: Vec<String> = Vec::new();
    r.push(command_on("mkdir -p ", path));
    r.push(command_on("touch ", path));
    r.push(command_on("cd ", path));
    r
}

/// The command that makes a workspace the base directory.
pub fn export_command(path: &str) -> (r: String)
    ensures
        r@ == "export TRY_PATH="@ + quoted(path@),
{
    command_on("export TRY_PATH=", path)
}

/// Commands that clone a repository into a new directory and enter it.
pub fn clone_commands(path: &str, url: &str) -> (r: Vec<String>)
    ensures
        r@.len() == 4,
        r@[0]@ == "mkdir -p "@ + quoted(path@),
        r@[1]@ == "echo 'Cloning "@ + url@ + "...'"@,
        r@[2]@ == "git clone "@ + quoted(url@) + " "@ + quoted(path@),
        r@[3]@ == "cd "@ + quoted(path@),
{
    let mut r: Vec<String> = Vec::new();
    r.push(command_on("mkdir -p ", path));
    let mut echo = chars_of("echo 'Cloning ");
    push_chars(&mut echo, &chars_of(url));
    push_chars(&mut echo, &chars_of("...'"));
    r.push(string_of(&echo));
    let mut clone = chars_of(around_quoted("git clone ", url, " ").as_str());
    push_chars(&mut clone, &chars_of(command_on("", path).as_str()));
    assert(clone@ =~= "git clone "@ + quoted(url@) + " "@ + quoted(path@)) by {
        assert(""@.len() == 0) by {
            reveal_strlit("");
        }
        assert(""@ + quoted(path@) + ""@ =~= quoted(path@));
    }
    r.push(string_of(&clone));
    r.push(command_on("cd ", path));
    r
}

/// Commands that add a detached git worktree of the current repository in
/// a new directory (when inside a repository) and enter it.
pub fn worktree_commands(path: &str) -> (r: Vec<String>)
    ensures
        r@.len() == 3,
        r@[0]@ == "mkdir -p "@ + quoted(path@),
        r@[1]@ == "if git rev-parse --is-inside-work-tree >/dev/null 2>&1; then repo=$(git rev-parse --show-toplevel); git -C \"$repo\" worktree add --detach "@
            + quoted(path@) + "; fi"@,
        r@[2]@ == "cd "@ + quoted(path@),
{
    let mut r: Vec<String> = Vec::new();
    r.push(command_on("mkdir -p ", path));
    r.push(
        around_quoted(
            "if git rev-parse --is-inside-work-tree >/dev/null 2>&1; then repo=$(git rev-parse --show-toplevel); git -C \"$repo\" worktree add --detach ",
            path,
            "; fi",
        ),
    );
    r.push(command_on("cd ", path));
    r
}

/// The commands as one script, joined by the separator.
pub fn join_commands(cmds: &Vec<String>) -> (r: String)
    ensures
        r@ == joined(cmds@.map_values(|c: String| c@)),
{
    let ghost all = cmds@.map_values(|c: String| c@);
    let mut out: Vec<char> = Vec::new();
    let mut i: usize = 0;
    let sep = chars_of(" && \\\n  ");
    assert(sep@ == separator()) by {
        reveal_strlit(" && \\\n  ");
        assert(sep@ =~= separator());
    }
    while i < cmds.len()
        invariant
            i <= cmds@.len(),
            all == cmds@.map_values(|c: String| c@),
            sep@ == separator(),
            out@ == joined(all.subrange(0, i as int)),
        decreases cmds@.len() - i,
    {
        let ghost prev = out@;
        if i > 0 {
            push_chars(&mut out, &sep);
        }
        push_chars(&mut out, &chars_of(cmds[i].as_str()));
        i = i + 1;
        proof {
            let s = all.subrange(0, i as int);
            assert(s.drop_last() =~= all.subrange(0, i - 1));
            assert(s.last() == cmds@[i - 1]@);
            if i == 1 {
                assert(out@ =~= s[0]);
            } else {
                assert(out@ =~= joined(s.drop_last()) + separator() + s.last());
            }
        }
    }
    assert(all.subrange(0, i as int) =~= all);
    string_of(&out)
}

/// `name-today`.
pub fn dated_name(name: &str, today: &str) -> (r: String)
    ensures
        r@ == name@ + seq!['-'] + today@,
{
    let mut out = chars_of(name);
    out.push('-');
    push_chars(&mut out, &chars_of(today));
    assert(out@ =~= name@ + seq!['-'] + today@);
    string_of(&out)
}

/// The directory a clone goes into: the given name, or else the
/// repository's name from the URL followed by the date; `None` when the URL
/// names no repository.
pub fn clone_dir_name(url: &str, name: Option<String>, today: &str) -> (r: Option<String>)
    ensures
        match name {
            Some(n) => r == Some(n),
            None => match repo_name_of(url@) {
                Some(repo) => r matches Some(d) && d@ == repo + seq!['-'] + today@,
                None => r is None,
            },
        },
{
    match name {
        Some(n) => Some(n),
        None => match repo_name(url) {
            Some(repo) => Some(dated_name(repo.as_str(), today)),
            None => None,
        },
    }
}

/// The rest of a path that starts with `~/`, to be read under the home
/// directory; `None` for any other path.
pub fn home_relative(path: &str) -> (r: Option<String>)
    ensures
        path@.len() >= 2 && path@[0] == '~' && path@[1] == '/' ==> (r matches Some(rest) && rest@
            == path@.subrange(2, path@.len() as int)),
        !(path@.len() >= 2 && path@[0] == '~' && path@[1] == '/') ==> r is None,
{
    let p = chars_of(path);
    if p.len() >= 2 && p[0] == '~' && p[1] == '/' {
        let mut rest: Vec<char> = Vec::new();
        let mut i: usize = 2;
        while i < p.len()
            invariant
                2 <= i <= p@.len(),
                rest@ == p@.subrange(2, i as int),
            decreases p@.len() - i,
        {
            rest.push(p[i]);
            i = i + 1;
            assert(rest@ =~= p@.subrange(2, i as int));
        }
        Some(string_of(&rest))
    } else {
        None
    }
}

/// `q` starts with `p`.
pub open spec fn starts_with(q: Seq<char>, p: Seq<char>) -> bool {
    q.len() >= p.len() && q.subrange(0, p.len() as int) == p
}

/// Whether a query given on the command line is a repository to clone: it
/// starts with `http` or `git@`.
pub fn is_clone_url(query: &str) -> (r: bool)
    ensures
        r == (starts_with(query@, seq!['h', 't', 't', 'p']) || starts_with(query@, seq!['g', 'i', 't', '@'])),
{
    let q = chars_of(query);
    let http = q.len() >= 4 && q[0] == 'h' && q[1] == 't' && q[2] == 't' && q[3] == 'p';
    let git = q.len() >= 4 && q[0] == 'g' && q[1] == 'i' && q[2] == 't' && q[3] == '@';
    proof {
        if q@.len() >= 4 {
            assert(http == (q@.subrange(0, 4) =~= seq!['h', 't', 't', 'p']));
            assert(git == (q@.subrange(0, 4) =~= seq!['g', 'i', 't', '@']));
        }
    }
    http || git
}

} // verus!
