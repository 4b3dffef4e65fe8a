use vstd::prelude::*;
use crate::matching::{greedy_marks, highlight_marks};
use crate::selector::{Selector, Status, max_rows};
use crate::text::{chars_of, lower_of, lowercase_chars};

verus! {

/// How a name splits into the part before a trailing `-YYYY-MM-DD` and that
/// date, as the date pattern captures it.
pub uninterp spec fn dated_parts_of(s: Seq<char>) -> Option<(Seq<char>, Seq<char>)>;

/// Relies on regex's `Regex::captures` with the pattern
/// `^(.+)-(\d{4}-\d{2}-\d{2})$`: a name that ends in a dash and a date splits
/// into the non-empty part before the dash and the ten characters of the date,
/// which hold dashes at their fifth and eighth places.
#[verifier::external_body]
fn split_dated(name: &str) -> (r: Option<(String, String)>)
    ensures
        match r {
            Some((a, b)) => {
                &&& dated_parts_of(name@) == Some((a@, b@))
                &&& name@ == a@ + seq!['-'] + b@
                &&& a@.len() > 0
                &&& b@.len() == 10
                &&& b@[4] == '-'
                &&& b@[7] == '-'
            },
            None => dated_parts_of(name@) is None,
        },
{
    let re = regex::Regex::new(r"^(.+)-(\d{4}-\d{2}-\d{2})$").unwrap();
    re.captures(name).map(|c| (c[1].to_string(), c[2].to_string()))
}

/// What a list row shows.
pub enum RowBody {
    /// A candidate: its index among the loaded ones, whether it is marked for
    /// deletion, its name (without a date suffix), which characters of the
    /// name to highlight, and the date suffix if there is one.
    Candidate { entry: usize, marked: bool, name: Vec<char>, highlight: Vec<bool>, date: Option<String> },
    /// The virtual "create new" row.
    CreateNew,
}

pub struct Row {
    pub selected: bool,
    pub body: RowBody,
}

/// What the last line says.
#[derive(Clone, Copy, Debug, PartialEq, Eq)]
pub enum Footer {
    /// The outcome of the last batch delete.
    Status(Status),
    /// Delete mode, with the number of marks.
    Deleting(usize),
    /// The key hints.
    Hint,
}

/// One frame: the visible list rows from the first scrolled row on, how
/// many empty rows fill the list area below them, whether the dash before a
/// date is highlighted (the query holds a dash), and the footer.
pub struct Frame {
    pub rows: Vec<Row>,
    pub blank_rows: usize,
    pub dash_lit: bool,
    pub footer: Footer,
}

/// Row `i` of the list, as `row` shows it.
pub open spec fn row_spec(s: Selector, i: int, row: Row) -> bool {
    &&& row.selected == (i == s.cursor)
    &&& if i < s.view@.len() {
        let e = s.entries@[s.view@[i] as int];
        match row.body {
            RowBody::Candidate { entry, marked, name, highlight, date } => {
                &&& entry == s.view@[i]
                &&& marked == s.marks().contains(e.location@)
                &&& match dated_parts_of(e.name@) {
                    Some((a, b)) => name@ == a && (date matches Some(d) && d@ == b),
                    None => name@ == e.name@ && date is None,
                }
                &&& highlight@ == greedy_marks(lower_of(name@), lower_of(s.query@))
            },
            RowBody::CreateNew => false,
        }
    } else {
        row.body is CreateNew
    }
}

/// The last row shown: the window of `max_rows` rows from the scroll offset,
/// cut at the end of the list.
pub open spec fn window_end(s: Selector) -> int {
    if s.row_count() - s.scroll > max_rows(s.height) {
        s.scroll + max_rows(s.height)
    } else {
        s.row_count()
    }
}

pub open spec fn frame_spec(s: Selector, f: Frame) -> bool {
    &&& f.rows@.len() == window_end(s) - s.scroll
    &&& forall|k: int| 0 <= k < f.rows@.len() ==> row_spec(s, s.scroll + k, #[trigger] f.rows@[k])
    &&& f.blank_rows == max_rows(s.height) - f.rows@.len()
    &&& f.dash_lit == s.query@.contains('-')
    &&& f.footer == match s.status {
        Some(st) => Footer::Status(st),
        None => if s.delete_mode {
            Footer::Deleting(s.marked@.len() as usize)
        } else {
            Footer::Hint
        },
    }
}

impl Selector {
    fn row(&self, i: usize, query_lower: &Vec<char>) -> (r: Row)
        requires
            self.wf(),
            i < self.row_count(),
            query_lower@ == lower_of(self.query@),
        ensures
            row_spec(*self, i as int, r),
    {
        let selected = i == self.cursor;
        if i < self.view.len() {
            let entry = self.view[i];
            let e = &self.entries[entry];
            let found = self.find_mark(&e.location);
            let marked = found.is_some();
            proof {
                if let Some(k) = found {
                    assert(crate::selector::locations(self.marked@)[k as int] == e.location@);
                }
                if self.marks().contains(e.location@) {
                    let j = choose|j: int| 0 <= j < self.marked@.len() && crate::selector::locations(self.marked@)[j] == e.location@;
                    assert(self.marked@[j]@ == e.location@);
                }
            }
            let full = crate::text::string_of(&e.name);
            let (name, date) = match split_dated(full.as_str()) {
                Some((a, b)) => (chars_of(a.as_str()), Some(b)),
                None => (chars_of(full.as_str()), None),
            };
            let lowered = lowercase_chars(crate::text::string_of(&name).as_str());
            let highlight = highlight_marks(&lowered, query_lower);
            Row { selected, body: RowBody::Candidate { entry, marked, name, highlight, date } }
        } else {
            Row { selected, body: RowBody::CreateNew }
        }
    }

    /// The frame that paints the current state.
    pub fn frame(&self) -> (f: Frame)
        requires
            self.wf(),
        ensures
            frame_spec(*self, f),
    {
        let rows_max: usize = if self.height >= 11 { (self.height - 8) as usize } else { 3 };
        let count = self.visible_count();
        let end = if count - self.scroll > rows_max { self.scroll + rows_max } else { count };
        let q = self.query_lower();
        let mut rows: Vec<Row> = Vec::new();
        let mut i = self.scroll;
        while i < end
            invariant
                self.wf(),
                q@ == lower_of(self.query@),
                end == window_end(*self),
                end <= self.row_count(),
                self.scroll <= i <= end,
                rows@.len() == i - self.scroll,
                forall|k: int| 0 <= k < rows@.len() ==> row_spec(*self, self.scroll + k, #[trigger] rows@[k]),
            decreases end - i,
        {
            rows.push(self.row(i, &q));
            i = i + 1;
        }
        let mut dash_lit = false;
        let mut j: usize = 0;
        while j < self.query.len()
            invariant
                j <= self.query@.len(),
                dash_lit == self.query@.subrange(0, j as int).contains('-'),
            decreases self.query@.len() - j,
        {
            proof {
                let p = self.query@.subrange(0, j as int);
                let p1 = self.query@.subrange(0, j + 1);
                assert(p1 =~= p.push(self.query@[j as int]));
                if p1.contains('-') {
                    let t = choose|t: int| 0 <= t < p1.len() && p1[t] == '-';
                    if t < j {
                        assert(p[t] == '-');
                    }
                }
                if p.contains('-') {
                    let t = choose|t: int| 0 <= t < p.len() && p[t] == '-';
                    assert(p1[t] == '-');
                }
                if self.query@[j as int] == '-' {
                    assert(p1[j as int] == '-');
                }
            }
            if self.query[j] == '-' {
                dash_lit = true;
            }
            j = j + 1;
        }
        assert(self.query@.subrange(0, j as int) =~= self.query@);
        let footer = match self.status {
            Some(st) => Footer::Status(st),
            None => if self.delete_mode {
                Footer::Deleting(self.marked.len())
            } else {
                Footer::Hint
            },
        };
        Frame { rows, blank_rows: rows_max - (end - self.scroll), dash_lit, footer }
    }
}

} // verus!
