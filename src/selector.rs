use vstd::prelude::*;
use crate::text::{lower_of, lowercase_chars, string_of};
use crate::matching::{ScoreTerms, score_terms};

verus! {

/// Where the candidates come from: the subdirectories of a base directory,
/// or a list of workspace paths, oldest first.
pub enum Mode {
    Scan(String),
    History(Vec<String>),
}

/// One candidate: its display name and the lowercased form that matching
/// uses, its location, and when it was last modified (milliseconds since the
/// Unix epoch).
pub struct Entry {
    pub name: Vec<char>,
    pub name_lower: Vec<char>,
    pub location: String,
    pub modified_ms: u64,
}

impl Entry {
    pub open spec fn describes(&self, name: Seq<char>, location: Seq<char>, modified_ms: u64) -> bool {
        &&& self.name@ == name
        &&& self.name_lower@ == lower_of(name)
        &&& self.location@ == location
        &&& self.modified_ms == modified_ms
    }

    pub fn new(name: &str, location: String, modified_ms: u64) -> (r: Entry)
        ensures
            r.describes(name@, location@, modified_ms),
    {
        Entry {
            name: crate::text::chars_of(name),
            name_lower: lowercase_chars(name),
            location,
            modified_ms,
        }
    }
}

/// Whether a candidate with this rank is listed under this query: every
/// candidate is listed under the empty query, else only those that scored.
pub open spec fn listed(query: Seq<char>, rank: u64) -> bool {
    query.len() == 0 || rank > 0
}

/// Candidate `a` comes before candidate `b`: a higher rank first, and among
/// equal ranks the order in which the candidates were loaded.
pub open spec fn precedes(ranks: Seq<u64>, a: int, b: int) -> bool {
    ranks[a] > ranks[b] || (ranks[a] == ranks[b] && a < b)
}

/// `v` lists, as indices into the candidates, exactly the listed candidates,
/// best first.
pub open spec fn is_view(v: Seq<usize>, ranks: Seq<u64>, query: Seq<char>) -> bool {
    &&& forall|k: int| 0 <= k < v.len() ==> #[trigger] v[k] < ranks.len() && listed(query, ranks[v[k] as int])
    &&& forall|i: int| 0 <= i < ranks.len() && listed(query, ranks[i]) ==> #[trigger] v.contains(i as usize)
    &&& forall|k: int, l: int| 0 <= k < l < v.len() ==> precedes(ranks, #[trigger] v[k] as int, #[trigger] v[l] as int)
}

/// The listed candidates, best first.
pub fn build_view(ranks: &Vec<u64>, query_empty: bool) -> (v: Vec<usize>)
    ensures
        v@.len() <= ranks@.len(),
        forall|q: Seq<char>| (q.len() == 0) == query_empty ==> is_view(v@, ranks@, q),
{
    let mut v: Vec<usize> = Vec::new();
    let mut i: usize = 0;
    while i < ranks.len()
        invariant
            i <= ranks@.len(),
            v@.len() <= i,
            forall|k: int| 0 <= k < v@.len() ==> #[trigger] v@[k] < i && (query_empty || ranks@[v@[k] as int] > 0),
            forall|j: int| 0 <= j < i && (query_empty || ranks@[j] > 0) ==> #[trigger] v@.contains(j as usize),
            forall|k: int, l: int| 0 <= k < l < v@.len() ==> precedes(ranks@, #[trigger] v@[k] as int, #[trigger] v@[l] as int),
        decreases ranks@.len() - i,
    {
        if query_empty || ranks[i] > 0 {
            let r = ranks[i];
            let mut p: usize = 0;
            while p < v.len() && ranks[v[p]] >= r
                invariant
                    p <= v@.len(),
                    r == ranks@[i as int],
                    i < ranks@.len(),
                    forall|k: int| 0 <= k < v@.len() ==> #[trigger] v@[k] < i,
                    forall|k: int| 0 <= k < p ==> ranks@[#[trigger] v@[k] as int] >= r,
                decreases v@.len() - p,
            {
                p = p + 1;
            }
            let ghost old_v = v@;
            v.insert(p, i);
            proof {
                assert(v@ == old_v.insert(p as int, i));
                assert forall|k: int, l: int| 0 <= k < l < v@.len() implies precedes(ranks@, #[trigger] v@[k] as int, #[trigger] v@[l] as int) by {
                    if k < p && l < p {
                        assert(precedes(ranks@, old_v[k] as int, old_v[l] as int));
                    } else if k < p && l == p {
                        assert(ranks@[old_v[k] as int] >= r);
                    } else if k < p {
                        assert(precedes(ranks@, old_v[k] as int, old_v[l - 1] as int));
                    } else if k == p {
                        assert(ranks@[old_v[p as int] as int] < r);
                        if l - 1 > p {
                            assert(precedes(ranks@, old_v[p as int] as int, old_v[l - 1] as int));
                        }
                    } else {
                        assert(precedes(ranks@, old_v[k - 1] as int, old_v[l - 1] as int));
                    }
                }
                assert forall|j: int| 0 <= j < i + 1 && (query_empty || ranks@[j] > 0) implies #[trigger] v@.contains(j as usize) by {
                    if j < i {
                        assert(old_v.contains(j as usize));
                        let k = choose|k: int| 0 <= k < old_v.len() && old_v[k] == j as usize;
                        if k < p {
                            assert(v@[k] == j as usize);
                        } else {
                            assert(v@[k + 1] == j as usize);
                        }
                    } else {
                        assert(v@[p as int] == i);
                    }
                }
            }
        }
        i = i + 1;
    }
    proof {
        assert forall|q: Seq<char>| (q.len() == 0) == query_empty implies is_view(v@, ranks@, q) by {
            assert forall|i: int| 0 <= i < ranks@.len() && listed(q, ranks@[i]) implies #[trigger] v@.contains(i as usize) by {
                assert(v@.contains(i as usize));
            }
        }
    }
    v
}

/// What the footer reports after a batch delete.
#[derive(Clone, Copy, Debug, PartialEq, Eq)]
pub enum Status {
    Deleted(usize),
    Cancelled,
}

/// What a selection commits to.
pub enum Action {
    ChangeDirectory(String),
    CreateAndEnter { base: String, name: String },
    SelectWorkspace(String),
}

/// One input event. `Char` carries whether Control was held.
#[derive(Clone, Copy, Debug, PartialEq, Eq)]
pub enum Input {
    Char { c: char, ctrl: bool },
    Up,
    Down,
    Enter,
    Escape,
    Backspace,
    Delete,
    Resize { width: u16, height: u16 },
    Other,
}

/// What the caller does after an event.
pub enum Outcome {
    /// Nothing changed.
    Idle,
    /// Paint the frame again.
    Redraw,
    /// The query changed: score the candidates again, then paint.
    Rescore,
    /// The terminal changed size: clear it, then paint.
    Repaint,
    /// Ask for the literal confirmation of the marked deletions.
    ConfirmDelete,
    /// Leave the selector, with the committed action or cancelled.
    Exit(Option<Action>),
}

/// The selector's whole state.
pub struct Selector {
    pub mode: Mode,
    pub workspace: String,
    pub query: Vec<char>,
    pub cursor: usize,
    pub scroll: usize,
    pub entries: Vec<Entry>,
    pub ranks: Vec<u64>,
    pub view: Vec<usize>,
    pub marked: Vec<String>,
    pub delete_mode: bool,
    pub status: Option<Status>,
    pub width: u16,
    pub height: u16,
}

/// Rows of the list area for a terminal this high.
pub open spec fn max_rows(height: u16) -> int {
    if height >= 11 {
        height - 8
    } else {
        3
    }
}

/// The first visible row once the cursor is brought into view.
pub open spec fn scrolled(scroll: int, cursor: int, rows: int) -> int {
    if cursor < scroll {
        cursor
    } else if cursor >= scroll + rows {
        cursor + 1 - rows
    } else {
        scroll
    }
}

/// A cursor kept inside a list of `count` rows.
pub open spec fn clamped(cursor: int, count: int) -> int {
    if count == 0 {
        0
    } else if cursor < count {
        cursor
    } else {
        count - 1
    }
}

/// Some candidate is at `loc`.
pub open spec fn is_location(entries: Seq<Entry>, loc: Seq<char>) -> bool {
    exists|i: int| 0 <= i < entries.len() && entries[i].location@ == loc
}

pub open spec fn locations(s: Seq<String>) -> Seq<Seq<char>> {
    s.map_values(|x: String| x@)
}

/// Typed characters that go into the query.
pub open spec fn accepts(c: char) -> bool {
    crate::text::alnum_of(c) || c == '-' || c == '_' || c == '.' || c == ' '
}

/// The query with spaces turned into hyphens.
pub open spec fn hyphenated(q: Seq<char>) -> Seq<char> {
    q.map_values(|c: char| if c == ' ' { '-' } else { c })
}

/// The name of a directory created from a query on a given day.
pub open spec fn new_dir_name(q: Seq<char>, today: Seq<char>) -> Seq<char> {
    hyphenated(q) + seq!['-'] + today
}

impl Selector {
    /// The virtual "create new" row follows the list.
    pub open spec fn create_row(&self) -> bool {
        self.query@.len() > 0 && self.mode is Scan
    }

    pub open spec fn row_count(&self) -> int {
        self.view@.len() + if self.create_row() {
            1int
        } else {
            0int
        }
    }

    /// The marked locations.
    pub open spec fn marks(&self) -> Set<Seq<char>> {
        locations(self.marked@).to_set()
    }

    /// The location under the cursor, where the cursor is on a candidate.
    pub open spec fn target(&self) -> Option<Seq<char>> {
        if self.cursor < self.view@.len() {
            Some(self.entries@[self.view@[self.cursor as int] as int].location@)
        } else {
            None
        }
    }

    /// The cursor is on a row, and the row is on screen.
    pub open spec fn cursor_ok(&self) -> bool {
        &&& (self.row_count() == 0 ==> self.cursor == 0)
        &&& (self.row_count() > 0 ==> self.cursor < self.row_count())
        &&& self.scroll <= self.cursor < self.scroll + max_rows(self.height)
    }

    pub open spec fn wf(&self) -> bool {
        &&& self.ranks@.len() == self.entries@.len()
        &&& self.entries@.len() < usize::MAX
        &&& self.view@.len() <= self.entries@.len()
        &&& is_view(self.view@, self.ranks@, self.query@)
        &&& self.cursor_ok()
        &&& self.delete_mode == (self.marked@.len() > 0)
        &&& locations(self.marked@).no_duplicates()
        &&& forall|k: int| 0 <= k < self.marked@.len() ==> is_location(self.entries@, #[trigger] self.marked@[k]@)
    }

    /// A new selector with no candidates yet; spaces in the search term
    /// become hyphens.
    pub fn new(mode: Mode, search_term: &str, workspace: String, width: u16, height: u16) -> (r: Selector)
        ensures
            r.wf(),
            r.mode == mode,
            r.workspace == workspace,
            r.query@ == hyphenated(search_term@),
            r.entries@.len() == 0,
            r.ranks@.len() == 0,
            r.view@.len() == 0,
            !r.delete_mode,
            r.marked@.len() == 0,
            r.cursor == 0,
            r.scroll == 0,
            r.status is None,
            r.width == width,
            r.height == height,
    {
        let term = crate::text::chars_of(search_term);
        let mut query: Vec<char> = Vec::new();
        let mut i: usize = 0;
        while i < term.len()
            invariant
                i <= term@.len(),
                query@ == hyphenated(term@.subrange(0, i as int)),
            decreases term@.len() - i,
        {
            let c = term[i];
            query.push(if c == ' ' { '-' } else { c });
            i = i + 1;
            assert(query@ =~= hyphenated(term@.subrange(0, i as int)));
        }
        assert(term@.subrange(0, i as int) =~= term@);
        let r = Selector {
            mode,
            workspace,
            query,
            cursor: 0,
            scroll: 0,
            entries: Vec::new(),
            ranks: Vec::new(),
            view: Vec::new(),
            marked: Vec::new(),
            delete_mode: false,
            status: None,
            width,
            height,
        };
        assert(locations(r.marked@) =~= Seq::<Seq<char>>::empty());
        r
    }

    /// Number of rows the list has: the listed candidates and the virtual row.
    pub fn visible_count(&self) -> (r: usize)
        requires
            self.wf(),
        ensures
            r == self.row_count(),
    {
        self.visible_count_unchecked()
    }

    /// The list scrolled so that the cursor row shows.
    fn bring_cursor_into_view(&mut self)
        ensures
            *final(self) == (Selector {
                scroll: scrolled(old(self).scroll as int, old(self).cursor as int, max_rows(old(self).height)) as usize,
                ..*old(self)
            }),
    {
        let rows: usize = if self.height >= 11 { (self.height - 8) as usize } else { 3 };
        if self.cursor < self.scroll {
            self.scroll = self.cursor;
        } else if self.cursor - self.scroll >= rows {
            self.scroll = self.cursor - rows + 1;
        }
    }

    /// Moves the cursor one row down (or up), never past either end.
    pub fn move_cursor(&mut self, down: bool) -> (changed: bool)
        requires
            old(self).wf(),
        ensures
            *final(self) == moved(*old(self), down),
            final(self).wf(),
            changed == (final(self).cursor != old(self).cursor),
    {
        let count = self.visible_count();
        let before = self.cursor;
        if down {
            if count > 0 && self.cursor < count - 1 {
                self.cursor = self.cursor + 1;
            }
        } else if self.cursor > 0 {
            self.cursor = self.cursor - 1;
        }
        self.bring_cursor_into_view();
        proof {
            lemma_moved_wf(*old(self), down);
        }
        self.cursor != before
    }
}

/// The state after one cursor move down (or up).
pub open spec fn moved(s: Selector, down: bool) -> Selector {
    let c = if down {
        if s.cursor + 1 < s.row_count() {
            s.cursor + 1
        } else {
            s.cursor as int
        }
    } else if s.cursor > 0 {
        s.cursor - 1
    } else {
        s.cursor as int
    };
    Selector { cursor: c as usize, scroll: scrolled(s.scroll as int, c, max_rows(s.height)) as usize, ..s }
}

/// The state after each move of `downs` in turn (`true`: down).
pub open spec fn after_moves(s: Selector, downs: Seq<bool>) -> Selector
    decreases downs.len(),
{
    if downs.len() == 0 {
        s
    } else {
        after_moves(moved(s, downs[0]), downs.drop_first())
    }
}

/// A move keeps the selector well formed.
pub proof fn lemma_moved_wf(s: Selector, down: bool)
    requires
        s.wf(),
    ensures
        moved(s, down).wf(),
{
    let n = moved(s, down);
    assert(n.marked == s.marked && n.entries == s.entries && n.view == s.view && n.ranks == s.ranks);
    assert(n.row_count() == s.row_count());
    assert(n.cursor_ok());
    assert(is_view(n.view@, n.ranks@, n.query@));
    assert(n.delete_mode == (n.marked@.len() > 0));
    assert(locations(n.marked@).no_duplicates());
}

/// The marks after toggling the location under the cursor, and nothing
/// else changed: a marked location is unmarked, an unmarked one marked; on
/// the virtual row nothing happens. Delete mode is on exactly while marks remain.
pub open spec fn toggle_post(s: Selector, n: Selector) -> bool {
    &&& n == (Selector { marked: n.marked, delete_mode: n.delete_mode, ..s })
    &&& n.delete_mode == (n.marked@.len() > 0)
    &&& match s.target() {
        None => n.marked@ == s.marked@,
        Some(loc) => if s.marks().contains(loc) {
            n.marks() == s.marks().remove(loc)
        } else {
            n.marks() == s.marks().insert(loc)
        },
    }
}

proof fn lemma_locations_remove(m: Seq<String>, idx: int)
    requires
        0 <= idx < m.len(),
        locations(m).no_duplicates(),
    ensures
        locations(m.remove(idx)) == locations(m).remove(idx),
        locations(m.remove(idx)).no_duplicates(),
        locations(m.remove(idx)).to_set() == locations(m).to_set().remove(m[idx]@),
{
    let l = locations(m);
    let r = locations(m.remove(idx));
    assert(r =~= l.remove(idx));
    assert(r.to_set() =~= l.to_set().remove(m[idx]@)) by {
        assert forall|x: Seq<char>| r.to_set().contains(x) <==> l.to_set().contains(x) && x != m[idx]@ by {
            assert(l[idx] == m[idx]@);
            if r.contains(x) {
                let j = choose|j: int| 0 <= j < r.len() && r[j] == x;
                if j < idx {
                    assert(l[j] == x);
                    assert(l[j] != l[idx]);
                } else {
                    assert(l[j + 1] == x);
                    assert(l[j + 1] != l[idx]);
                }
            }
            if l.contains(x) && x != m[idx]@ {
                let j = choose|j: int| 0 <= j < l.len() && l[j] == x;
                if j < idx {
                    assert(r[j] == x);
                } else {
                    assert(j != idx);
                    assert(r[j - 1] == x);
                }
            }
        }
    }
}

proof fn lemma_locations_push(m: Seq<String>, x: String)
    requires
        locations(m).no_duplicates(),
        !locations(m).contains(x@),
    ensures
        locations(m.push(x)) == locations(m).push(x@),
        locations(m.push(x)).no_duplicates(),
        locations(m.push(x)).to_set() == locations(m).to_set().insert(x@),
{
    let l = locations(m);
    let r = locations(m.push(x));
    assert(r =~= l.push(x@));
    assert(r.to_set() =~= l.to_set().insert(x@)) by {
        assert forall|y: Seq<char>| r.to_set().contains(y) <==> l.to_set().contains(y) || y == x@ by {
            if r.contains(y) {
                let j = choose|j: int| 0 <= j < r.len() && r[j] == y;
                if j < l.len() {
                    assert(l[j] == y);
                }
            }
            if l.contains(y) {
                let j = choose|j: int| 0 <= j < l.len() && l[j] == y;
                assert(r[j] == y);
            }
            if y == x@ {
                assert(r[l.len() as int] == y);
            }
        }
    }
}

impl Selector {
    /// Where `loc` stands among the marks.
    pub(crate) fn find_mark(&self, loc: &String) -> (r: Option<usize>)
        ensures
            r matches Some(k) ==> k < self.marked@.len() && self.marked@[k as int]@ == loc@,
            r is None ==> !locations(self.marked@).contains(loc@),
    {
        let mut k: usize = 0;
        while k < self.marked.len()
            invariant
                k <= self.marked@.len(),
                forall|j: int| 0 <= j < k ==> self.marked@[j]@ != loc@,
            decreases self.marked@.len() - k,
        {
            if self.marked[k] == *loc {
                return Some(k);
            }
            k = k + 1;
        }
        proof {
            if locations(self.marked@).contains(loc@) {
                let j = choose|j: int| 0 <= j < self.marked@.len() && locations(self.marked@)[j] == loc@;
                assert(self.marked@[j]@ == loc@);
            }
        }
        None
    }

    /// Marks the location under the cursor for deletion, or unmarks it.
    pub fn toggle_delete_mark(&mut self)
        requires
            old(self).wf(),
        ensures
            final(self).wf(),
            toggle_post(*old(self), *final(self)),
    {
        if self.cursor < self.view.len() {
            let i = self.view[self.cursor];
            let loc = self.entries[i].location.clone();
            let ghost m = self.marked@;
            match self.find_mark(&loc) {
                Some(k) => {
                    proof {
                        lemma_locations_remove(m, k as int);
                        assert(locations(m)[k as int] == loc@);
                        assert(locations(m).to_set().contains(loc@));
                    }
                    self.marked.remove(k);
                    assert(self.marked@ == m.remove(k as int));
                    proof {
                        assert forall|j: int| 0 <= j < self.marked@.len() implies is_location(self.entries@, #[trigger] self.marked@[j]@) by {
                            if j < k {
                                assert(self.marked@[j] == m[j]);
                            } else {
                                assert(self.marked@[j] == m[j + 1]);
                            }
                        }
                    }
                },
                None => {
                    proof {
                        lemma_locations_push(m, loc);
                        assert(is_location(self.entries@, loc@));
                    }
                    self.marked.push(loc);
                    self.delete_mode = true;
                    proof {
                        assert forall|j: int| 0 <= j < self.marked@.len() implies is_location(self.entries@, #[trigger] self.marked@[j]@) by {
                            if j < m.len() {
                                assert(self.marked@[j] == m[j]);
                            }
                        }
                    }
                },
            }
            if self.marked.len() == 0 {
                self.delete_mode = false;
            }
        }
    }
}

/// Marking a location and toggling it again gives back the marks and the
/// delete mode that were there before.
pub proof fn lemma_toggle_round_trip(s1: Selector, s2: Selector, s3: Selector)
    requires
        s1.wf(),
        toggle_post(s1, s2),
        toggle_post(s2, s3),
    ensures
        s3.marks() == s1.marks(),
        s3.delete_mode == s1.delete_mode,
{
    assert(s2.target() == s1.target());
    assert(s1.marked@.len() > 0 ==> s1.marks().contains(s1.marked@[0]@)) by {
        if s1.marked@.len() > 0 {
            assert(locations(s1.marked@)[0] == s1.marked@[0]@);
        }
    }
    assert(s3.marked@.len() > 0 ==> s3.marks().contains(s3.marked@[0]@)) by {
        if s3.marked@.len() > 0 {
            assert(locations(s3.marked@)[0] == s3.marked@[0]@);
        }
    }
    match s1.target() {
        None => {},
        Some(loc) => {
            if s1.marks().contains(loc) {
                assert(s3.marks() =~= s1.marks());
            } else {
                assert(s3.marks() =~= s1.marks());
            }
        },
    }
    if s1.marked@.len() == 0 && s3.marked@.len() > 0 {
        assert(s1.marks().contains(s3.marked@[0]@));
        let j = choose|j: int| 0 <= j < locations(s1.marked@).len() && locations(s1.marked@)[j] == s3.marked@[0]@;
    }
    if s3.marked@.len() == 0 && s1.marked@.len() > 0 {
        assert(s3.marks().contains(s1.marked@[0]@));
        let j = choose|j: int| 0 <= j < locations(s3.marked@).len() && locations(s3.marked@)[j] == s1.marked@[0]@;
    }
}

/// `a` is what Enter commits to: the candidate under the cursor (change
/// directory when scanning, select the workspace in history mode), or on the
/// virtual row a new directory named after the query and the day; nothing
/// when the list is empty.
pub open spec fn selects(s: Selector, today: Seq<char>, a: Option<Action>) -> bool {
    if s.cursor < s.view@.len() {
        let loc = s.entries@[s.view@[s.cursor as int] as int].location;
        match s.mode {
            Mode::Scan(_) => a == Some(Action::ChangeDirectory(loc)),
            Mode::History(_) => a == Some(Action::SelectWorkspace(loc)),
        }
    } else if s.create_row() && s.cursor == s.view@.len() {
        match a {
            Some(Action::CreateAndEnter { base, name }) => s.mode == Mode::Scan(base) && name@ == new_dir_name(
                s.query@,
                today,
            ),
            _ => false,
        }
    } else {
        a is None
    }
}

impl Selector {
    /// Installs the ranks of the candidates (in load order), lists the
    /// listed ones best first, and keeps the cursor on a row and in view.
    pub fn refresh(&mut self, ranks: Vec<u64>)
        requires
            old(self).wf(),
            ranks@.len() == old(self).entries@.len(),
        ensures
            final(self).wf(),
            final(self).ranks@ == ranks@,
            is_view(final(self).view@, ranks@, old(self).query@),
            forall|k: int, l: int| 0 <= k < l < final(self).view@.len() ==> ranks@[#[trigger] final(self).view@[k] as int]
                >= ranks@[#[trigger] final(self).view@[l] as int],
            *final(self) == (Selector {
                ranks: final(self).ranks,
                view: final(self).view,
                cursor: final(self).cursor,
                scroll: final(self).scroll,
                ..*old(self)
            }),
            final(self).cursor == clamped(old(self).cursor as int, final(self).row_count()),
            final(self).scroll == scrolled(old(self).scroll as int, final(self).cursor as int, max_rows(old(self).height)) as usize,
    {
        self.ranks = ranks;
        self.view = build_view(&self.ranks, self.query.len() == 0);
        self.clamp_cursor();
    }

    fn clamp_cursor(&mut self)
        requires
            old(self).ranks@.len() == old(self).entries@.len(),
            old(self).entries@.len() < usize::MAX,
            old(self).view@.len() <= old(self).entries@.len(),
        ensures
            *final(self) == (Selector {
                cursor: clamped(old(self).cursor as int, old(self).row_count()) as usize,
                scroll: scrolled(
                    old(self).scroll as int,
                    clamped(old(self).cursor as int, old(self).row_count()),
                    max_rows(old(self).height),
                ) as usize,
                ..*old(self)
            }),
            final(self).cursor_ok(),
    {
        let count = self.visible_count_unchecked();
        if count == 0 {
            self.cursor = 0;
        } else if self.cursor >= count {
            self.cursor = count - 1;
        }
        self.bring_cursor_into_view();
    }

    fn visible_count_unchecked(&self) -> (r: usize)
        requires
            self.entries@.len() < usize::MAX,
            self.view@.len() <= self.entries@.len(),
        ensures
            r == self.row_count(),
    {
        let extra: usize = if self.query.len() > 0 && matches!(self.mode, Mode::Scan(_)) { 1 } else { 0 };
        self.view.len() + extra
    }

    /// Replaces the candidates wholesale (unranked until the next refresh)
    /// and clears the marks.
    pub fn load(&mut self, entries: Vec<Entry>)
        requires
            old(self).wf(),
            entries@.len() < usize::MAX,
        ensures
            final(self).wf(),
            final(self).entries@ == entries@,
            final(self).ranks@ == Seq::new(entries@.len(), |i: int| 0u64),
            final(self).marked@.len() == 0,
            !final(self).delete_mode,
            *final(self) == (Selector {
                entries: final(self).entries,
                ranks: final(self).ranks,
                view: final(self).view,
                marked: final(self).marked,
                delete_mode: false,
                cursor: final(self).cursor,
                scroll: final(self).scroll,
                ..*old(self)
            }),
            final(self).cursor == clamped(old(self).cursor as int, final(self).row_count()),
            final(self).scroll == scrolled(old(self).scroll as int, final(self).cursor as int, max_rows(old(self).height)) as usize,
    {
        let mut ranks: Vec<u64> = Vec::new();
        let mut i: usize = 0;
        while i < entries.len()
            invariant
                i <= entries@.len(),
                ranks@ == Seq::new(i as nat, |j: int| 0u64),
            decreases entries@.len() - i,
        {
            ranks.push(0);
            i = i + 1;
            assert(ranks@ =~= Seq::new(i as nat, |j: int| 0u64));
        }
        self.entries = entries;
        self.ranks = ranks;
        self.marked = Vec::new();
        self.delete_mode = false;
        self.view = build_view(&self.ranks, self.query.len() == 0);
        self.clamp_cursor();
        assert(locations(self.marked@) =~= Seq::<Seq<char>>::empty());
    }

    /// The query lowercased, as matching uses it.
    pub fn query_lower(&self) -> (r: Vec<char>)
        ensures
            r@ == lower_of(self.query@),
    {
        let q = string_of(&self.query);
        lowercase_chars(q.as_str())
    }

    /// The terms of each candidate's score against the current query, in
    /// load order.
    pub fn terms(&self) -> (r: Vec<ScoreTerms>)
        ensures
            r@.len() == self.entries@.len(),
            forall|i: int| 0 <= i < r@.len() ==> crate::matching::terms_spec(
                #[trigger] r@[i],
                self.entries@[i].name@,
                self.entries@[i].name_lower@,
                lower_of(self.query@),
            ),
    {
        let q = self.query_lower();
        let mut r: Vec<ScoreTerms> = Vec::new();
        let mut i: usize = 0;
        while i < self.entries.len()
            invariant
                i <= self.entries@.len(),
                q@ == lower_of(self.query@),
                r@.len() == i,
                forall|j: int| 0 <= j < i ==> crate::matching::terms_spec(
                    #[trigger] r@[j],
                    self.entries@[j].name@,
                    self.entries@[j].name_lower@,
                    q@,
                ),
            decreases self.entries@.len() - i,
        {
            let e = &self.entries[i];
            r.push(score_terms(&e.name, &e.name_lower, &q));
            i = i + 1;
        }
        r
    }

    /// What Enter commits to, `today` being the date that names a new directory.
    pub fn select(&self, today: &str) -> (r: Option<Action>)
        requires
            self.wf(),
        ensures
            selects(*self, today@, r),
    {
        if self.cursor < self.view.len() {
            let loc = self.entries[self.view[self.cursor]].location.clone();
            match &self.mode {
                Mode::Scan(_) => Some(Action::ChangeDirectory(loc)),
                Mode::History(_) => Some(Action::SelectWorkspace(loc)),
            }
        } else if self.cursor == self.view.len() && self.query.len() > 0 {
            match &self.mode {
                Mode::Scan(base) => {
                    let day = crate::text::chars_of(today);
                    let mut name: Vec<char> = Vec::new();
                    let mut i: usize = 0;
                    while i < self.query.len()
                        invariant
                            i <= self.query@.len(),
                            name@ == hyphenated(self.query@.subrange(0, i as int)),
                        decreases self.query@.len() - i,
                    {
                        let c = self.query[i];
                        name.push(if c == ' ' { '-' } else { c });
                        i = i + 1;
                        assert(name@ =~= hyphenated(self.query@.subrange(0, i as int)));
                    }
                    assert(self.query@.subrange(0, i as int) =~= self.query@);
                    name.push('-');
                    let mut j: usize = 0;
                    while j < day.len()
                        invariant
                            j <= day@.len(),
                            name@ == hyphenated(self.query@) + seq!['-'] + day@.subrange(0, j as int),
                        decreases day@.len() - j,
                    {
                        name.push(day[j]);
                        j = j + 1;
                        assert(name@ =~= hyphenated(self.query@) + seq!['-'] + day@.subrange(0, j as int));
                    }
                    assert(day@.subrange(0, j as int) =~= day@);
                    Some(Action::CreateAndEnter { base: base.clone(), name: string_of(&name) })
                },
                Mode::History(_) => None,
            }
        } else {
            None
        }
    }
}

/// Escape or Control-C: the first one clears the marks, otherwise the
/// selector exits cancelled.
pub open spec fn cancel_post(s: Selector, n: Selector, r: Outcome) -> bool {
    if s.delete_mode {
        &&& n == (Selector { marked: n.marked, delete_mode: false, ..s })
        &&& n.marked@.len() == 0
        &&& r is Redraw
    } else {
        n == s && r == Outcome::Exit(None)
    }
}

/// A cursor move, painted again only when the cursor moved.
pub open spec fn move_post(s: Selector, down: bool, n: Selector, r: Outcome) -> bool {
    &&& n == moved(s, down)
    &&& if n.cursor != s.cursor {
        r is Redraw
    } else {
        r is Idle
    }
}

/// The query becomes `q`, the cursor goes to the first row, and the list is
/// rebuilt from the current ranks until the caller scores again.
pub open spec fn edit_post(s: Selector, q: Seq<char>, n: Selector, r: Outcome) -> bool {
    &&& n == (Selector { query: n.query, view: n.view, cursor: 0, scroll: 0, ..s })
    &&& n.query@ == q
    &&& is_view(n.view@, s.ranks@, q)
    &&& r is Rescore
}

/// Enter: with marks it asks for confirmation, otherwise it commits to what
/// is under the cursor (if anything).
pub open spec fn enter_post(s: Selector, today: Seq<char>, n: Selector, r: Outcome) -> bool {
    &&& n == s
    &&& if s.delete_mode {
        r is ConfirmDelete
    } else {
        match r {
            Outcome::Exit(a) => a is Some && selects(s, today, a),
            Outcome::Idle => selects(s, today, None),
            _ => false,
        }
    }
}

/// The state and the outcome after one input.
pub open spec fn step_post(s: Selector, input: Input, today: Seq<char>, n: Selector, r: Outcome) -> bool {
    match input {
        Input::Char { c, ctrl } => if ctrl && c == 'c' {
            cancel_post(s, n, r)
        } else if ctrl && c == 'p' {
            move_post(s, false, n, r)
        } else if ctrl && c == 'n' {
            move_post(s, true, n, r)
        } else if accepts(c) {
            edit_post(s, s.query@.push(c), n, r)
        } else {
            n == s && r is Idle
        },
        Input::Escape => cancel_post(s, n, r),
        Input::Enter => enter_post(s, today, n, r),
        Input::Up => move_post(s, false, n, r),
        Input::Down => move_post(s, true, n, r),
        Input::Backspace => edit_post(
            s,
            if s.query@.len() > 0 {
                s.query@.drop_last()
            } else {
                s.query@
            },
            n,
            r,
        ),
        Input::Delete => toggle_post(s, n) && r is Redraw,
        Input::Resize { width, height } => {
            &&& n == (Selector {
                width,
                height,
                scroll: scrolled(s.scroll as int, s.cursor as int, max_rows(height)) as usize,
                ..s
            })
            &&& r is Repaint
        },
        Input::Other => n == s && r is Idle,
    }
}

impl Selector {
    fn cancel(&mut self) -> (r: Outcome)
        requires
            old(self).wf(),
        ensures
            final(self).wf(),
            cancel_post(*old(self), *final(self), r),
    {
        if self.delete_mode {
            self.delete_mode = false;
            self.marked.clear();
            assert(locations(self.marked@) =~= Seq::<Seq<char>>::empty());
            Outcome::Redraw
        } else {
            Outcome::Exit(None)
        }
    }

    fn step_cursor(&mut self, down: bool) -> (r: Outcome)
        requires
            old(self).wf(),
        ensures
            final(self).wf(),
            move_post(*old(self), down, *final(self), r),
    {
        if self.move_cursor(down) {
            Outcome::Redraw
        } else {
            Outcome::Idle
        }
    }

    fn edit_query(&mut self, push: Option<char>) -> (r: Outcome)
        requires
            old(self).wf(),
        ensures
            final(self).wf(),
            edit_post(
                *old(self),
                match push {
                    Some(c) => old(self).query@.push(c),
                    None => if old(self).query@.len() > 0 {
                        old(self).query@.drop_last()
                    } else {
                        old(self).query@
                    },
                },
                *final(self),
                r,
            ),
    {
        match push {
            Some(c) => {
                self.query.push(c);
            },
            None => {
                self.query.pop();
            },
        }
        self.view = build_view(&self.ranks, self.query.len() == 0);
        self.cursor = 0;
        self.scroll = 0;
        Outcome::Rescore
    }

    /// Applies one input. `today` names a directory created by Enter on the
    /// virtual row.
    pub fn step(&mut self, input: Input, today: &str) -> (r: Outcome)
        requires
            old(self).wf(),
        ensures
            final(self).wf(),
            step_post(*old(self), input, today@, *final(self), r),
    {
        match input {
            Input::Char { c, ctrl } => {
                if ctrl && c == 'c' {
                    self.cancel()
                } else if ctrl && c == 'p' {
                    self.step_cursor(false)
                } else if ctrl && c == 'n' {
                    self.step_cursor(true)
                } else if crate::text::is_alnum(c) || c == '-' || c == '_' || c == '.' || c == ' ' {
                    self.edit_query(Some(c))
                } else {
                    Outcome::Idle
                }
            },
            Input::Escape => self.cancel(),
            Input::Enter => {
                if self.delete_mode {
                    Outcome::ConfirmDelete
                } else {
                    match self.select(today) {
                        Some(a) => Outcome::Exit(Some(a)),
                        None => Outcome::Idle,
                    }
                }
            },
            Input::Up => self.step_cursor(false),
            Input::Down => self.step_cursor(true),
            Input::Backspace => self.edit_query(None),
            Input::Delete => {
                self.toggle_delete_mark();
                Outcome::Redraw
            },
            Input::Resize { width, height } => {
                self.width = width;
                self.height = height;
                self.bring_cursor_into_view();
                Outcome::Repaint
            },
            Input::Other => Outcome::Idle,
        }
    }

    /// Applies one input, taking today's local date (`%Y-%m-%d`) for a
    /// directory that Enter creates.
    pub fn step_today(&mut self, input: Input) -> (r: Outcome)
        requires
            old(self).wf(),
        ensures
            final(self).wf(),
            exists|y: int, m: nat, d: nat|
                1 <= m <= 12 && 1 <= d <= 31 && step_post(*old(self), input, crate::date::iso_date(y, m, d), *final(self), r),
    {
        let today = crate::date::today();
        self.step(input, today.as_str())
    }
}

/// The confirmation line after one key: Enter submits, Escape clears and
/// submits, Backspace removes the last character, any character is typed.
pub open spec fn confirm_post(typed: Seq<char>, input: Input, n: Seq<char>, done: bool) -> bool {
    match input {
        Input::Enter => n == typed && done,
        Input::Escape => n.len() == 0 && done,
        Input::Char { c, .. } => n == typed.push(c) && !done,
        Input::Backspace => n == (if typed.len() > 0 {
            typed.drop_last()
        } else {
            typed
        }) && !done,
        _ => n == typed && !done,
    }
}

/// Feeds one key to the confirmation line; returns whether it was submitted.
pub fn confirm_key(typed: &mut Vec<char>, input: Input) -> (done: bool)
    ensures
        confirm_post(old(typed)@, input, final(typed)@, done),
{
    match input {
        Input::Enter => true,
        Input::Escape => {
            typed.clear();
            true
        },
        Input::Char { c, .. } => {
            typed.push(c);
            false
        },
        Input::Backspace => {
            typed.pop();
            false
        },
        _ => false,
    }
}

/// Whether the confirmation line authorizes deletion.
pub open spec fn authorizes(typed: Seq<char>) -> bool {
    typed == seq!['Y', 'E', 'S']
}

impl Selector {
    /// Ends a delete confirmation. On exactly `YES` it returns the marked
    /// locations for the caller to remove and reports how many; on anything
    /// else it returns none and reports the cancellation. Either way the marks
    /// are cleared.
    pub fn finish_delete(&mut self, typed: &Vec<char>) -> (doomed: Vec<String>)
        requires
            old(self).wf(),
        ensures
            final(self).wf(),
            *final(self) == (Selector {
                marked: final(self).marked,
                delete_mode: false,
                status: final(self).status,
                ..*old(self)
            }),
            final(self).marked@.len() == 0,
            authorizes(typed@) ==> doomed@ == old(self).marked@ && final(self).status == Some(
                Status::Deleted(old(self).marked@.len() as usize),
            ),
            !authorizes(typed@) ==> doomed@.len() == 0 && final(self).status == Some(Status::Cancelled),
    {
        let yes = typed.len() == 3 && typed[0] == 'Y' && typed[1] == 'E' && typed[2] == 'S';
        assert(yes == authorizes(typed@)) by {
            if yes {
                assert(typed@ =~= seq!['Y', 'E', 'S']);
            }
        }
        let mut doomed: Vec<String> = Vec::new();
        if yes {
            self.status = Some(Status::Deleted(self.marked.len()));
            std::mem::swap(&mut doomed, &mut self.marked);
        } else {
            self.status = Some(Status::Cancelled);
            self.marked.clear();
        }
        self.delete_mode = false;
        assert(locations(self.marked@) =~= Seq::<Seq<char>>::empty());
        doomed
    }
}

/// Under the empty query there is no virtual "create new" row: the list is
/// exactly the candidates.
pub proof fn lemma_empty_query_no_create_row(s: Selector)
    requires
        s.query@.len() == 0,
    ensures
        !s.create_row(),
        s.row_count() == s.view@.len(),
{
}

/// In the list, a candidate with a higher rank comes before one with a
/// lower rank.
pub proof fn lemma_higher_rank_first(s: Selector, k: int, l: int)
    requires
        s.wf(),
        0 <= k < s.view@.len(),
        0 <= l < s.view@.len(),
        s.ranks@[s.view@[k] as int] > s.ranks@[s.view@[l] as int],
    ensures
        k < l,
{
    if l < k {
        assert(precedes(s.ranks@, s.view@[l] as int, s.view@[k] as int));
    }
}

/// After any sequence of cursor moves the cursor is on a row (or at zero on
/// an empty list) and inside the scrolled window.
pub proof fn lemma_moves_keep_cursor_in_view(s: Selector, downs: Seq<bool>)
    requires
        s.wf(),
    ensures
        after_moves(s, downs).wf(),
        after_moves(s, downs).row_count() > 0 ==> after_moves(s, downs).cursor < after_moves(s, downs).row_count(),
        after_moves(s, downs).row_count() == 0 ==> after_moves(s, downs).cursor == 0,
        after_moves(s, downs).scroll <= after_moves(s, downs).cursor < after_moves(s, downs).scroll + max_rows(
            after_moves(s, downs).height,
        ),
    decreases downs.len(),
{
    if downs.len() > 0 {
        lemma_moved_wf(s, downs[0]);
        lemma_moves_keep_cursor_in_view(moved(s, downs[0]), downs.drop_first());
    }
}

} // verus!
