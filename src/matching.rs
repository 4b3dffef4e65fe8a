use vstd::prelude::*;
use crate::text::{alnum_of, is_alnum};

verus! {

/// `f` places each character of `q`, in order, at strictly increasing
/// positions of `t` that hold that character.
pub open spec fn is_embedding(f: Seq<int>, q: Seq<char>, t: Seq<char>) -> bool {
    &&& f.len() == q.len()
    &&& forall|k: int| 0 <= k < f.len() ==> 0 <= #[trigger] f[k] < t.len() && t[f[k]] == q[k]
    &&& forall|k: int| 0 < k < f.len() ==> f[k - 1] < #[trigger] f[k]
}

/// `q` is a (not necessarily contiguous) subsequence of `t`.
pub open spec fn is_subsequence(q: Seq<char>, t: Seq<char>) -> bool {
    exists|f: Seq<int>| is_embedding(f, q, t)
}

/// The embedding that a left-to-right greedy walk finds: each character of
/// `q` takes the first matching position after the one taken before it.
pub open spec fn is_greedy_embedding(f: Seq<int>, q: Seq<char>, t: Seq<char>) -> bool {
    &&& is_embedding(f, q, t)
    &&& forall|k: int, j: int|
        0 <= k < f.len() && 0 <= j < f[k] && (k == 0 || f[k - 1] < j) ==> #[trigger] t[j]
            != #[trigger] q[k]
}

/// Positions as integers.
pub open spec fn as_ints(p: Seq<usize>) -> Seq<int> {
    p.map_values(|x: usize| x as int)
}

/// Position `i` of `t` starts a word: it is the first character, or the one
/// before it is not alphanumeric.
pub open spec fn starts_word(t: Seq<char>, i: int) -> bool {
    i == 0 || !alnum_of(t[i - 1])
}

/// Walks `text` and `query` left to right, taking each query character at the
/// first matching text position after the previous match. Returns the matched
/// positions, or `None` when the query is not a subsequence of the text.
pub fn match_positions(text: &Vec<char>, query: &Vec<char>) -> (r: Option<Vec<usize>>)
    ensures
        r is Some <==> is_subsequence(query@, text@),
        r matches Some(p) ==> is_greedy_embedding(as_ints(p@), query@, text@),
{
    let mut pos: Vec<usize> = Vec::new();
    let mut qi: usize = 0;
    let mut i: usize = 0;
    while i < text.len() && qi < query.len()
        invariant
            qi <= query@.len(),
            i <= text@.len(),
            pos@.len() == qi,
            forall|k: int| 0 <= k < qi ==> #[trigger] pos@[k] < i,
            is_embedding(as_ints(pos@), query@.subrange(0, qi as int), text@),
            forall|k: int, j: int|
                0 <= k < qi && 0 <= j < pos@[k] && (k == 0 || pos@[k - 1] < j) ==> #[trigger] text@[j]
                    != #[trigger] query@[k],
            forall|j: int| qi < query@.len() && (qi == 0 || pos@[qi - 1] < j) && 0 <= j < i
                ==> #[trigger] text@[j] != query@[qi as int],
            forall|g: Seq<int>| #[trigger] is_embedding(g, query@, text@) && qi < query@.len() ==> g[qi as int] >= i,
        decreases text@.len() - i,
    {
        if text[i] == query[qi] {
            let ghost old_pos = pos@;
            pos.push(i);
            proof {
                assert(as_ints(pos@) =~= as_ints(old_pos).push(i as int));
                assert forall|g: Seq<int>| #[trigger] is_embedding(g, query@, text@) && qi + 1 < query@.len() implies g[qi + 1] >= i + 1 by {
                    assert(g[qi as int] >= i);
                    assert(g[qi as int] < g[qi + 1]);
                }
            }
            qi = qi + 1;
        } else {
            proof {
                assert forall|g: Seq<int>| #[trigger] is_embedding(g, query@, text@) && qi < query@.len() implies g[qi as int] >= i + 1 by {
                    assert(g[qi as int] >= i);
                    assert(text@[g[qi as int]] == query@[qi as int]);
                }
            }
        }
        i = i + 1;
    }
    if qi < query.len() {
        proof {
            if is_subsequence(query@, text@) {
                let g = choose|g: Seq<int>| is_embedding(g, query@, text@);
                assert(g[qi as int] >= i);
                assert(g[qi as int] < text@.len());
            }
        }
        None
    } else {
        proof {
            assert(query@.subrange(0, qi as int) =~= query@);
            assert(is_embedding(as_ints(pos@), query@, text@));
        }
        Some(pos)
    }
}

/// Whether position `i` of `text` starts a word.
pub fn is_word_start(text: &Vec<char>, i: usize) -> (r: bool)
    requires
        i < text@.len(),
    ensures
        r == starts_word(text@, i as int),
{
    if i == 0 {
        true
    } else {
        !is_alnum(text[i - 1])
    }
}

/// One matched query character: where it matched in the lowercased name,
/// whether that position starts a word, and how many name characters were
/// skipped since the previous match (`None` for the first match).
#[derive(Clone, Copy, Debug, PartialEq, Eq)]
pub struct Hit {
    pub index: usize,
    pub word_start: bool,
    pub gap: Option<usize>,
}

/// What the score of a name against a query is made of: whether the name
/// ends in a numeric character, and the greedy matches of the query in the
/// lowercased name (`None`: the query is not a subsequence, a hard reject).
#[derive(Debug)]
pub struct ScoreTerms {
    pub numeric_suffix: bool,
    pub hits: Option<Vec<Hit>>,
}

pub open spec fn hit_indices(h: Seq<Hit>) -> Seq<int> {
    h.map_values(|x: Hit| x.index as int)
}

/// `h` describes the greedy walk of `q` over `t`, hit by hit.
pub open spec fn describes_walk(h: Seq<Hit>, q: Seq<char>, t: Seq<char>) -> bool {
    &&& is_greedy_embedding(hit_indices(h), q, t)
    &&& forall|k: int| 0 <= k < h.len() ==> (#[trigger] h[k]).word_start == starts_word(t, h[k].index as int)
    &&& forall|k: int| 0 <= k < h.len() ==> (#[trigger] h[k]).gap == (if k == 0 {
            None::<usize>
        } else {
            Some((h[k].index - h[k - 1].index - 1) as usize)
        })
}

/// `r` holds the terms of the score of `name` (lowercased: `name_lower`)
/// against the lowercased query `q`.
pub open spec fn terms_spec(r: ScoreTerms, name: Seq<char>, name_lower: Seq<char>, q: Seq<char>) -> bool {
    &&& r.numeric_suffix == (name.len() > 0 && crate::text::numeric_of(name.last()))
    &&& (r.hits is Some <==> is_subsequence(q, name_lower))
    &&& (r.hits matches Some(h) ==> describes_walk(h@, q, name_lower))
    &&& (q.len() == 0 ==> (r.hits matches Some(h) && h@.len() == 0))
}

/// The terms of the score of `name` (lowercased: `name_lower`) against the
/// lowercased query. An empty query has no hits and is never rejected.
pub fn score_terms(name: &Vec<char>, name_lower: &Vec<char>, query_lower: &Vec<char>) -> (r: ScoreTerms)
    ensures
        terms_spec(r, name@, name_lower@, query_lower@),
{
    let numeric_suffix = crate::text::ends_with_numeric(name);
    proof {
        assert(is_embedding(Seq::<int>::empty(), Seq::<char>::empty(), name_lower@));
        if query_lower@.len() == 0 {
            assert(query_lower@ =~= Seq::<char>::empty());
        }
    }
    match match_positions(name_lower, query_lower) {
        None => ScoreTerms { numeric_suffix, hits: None },
        Some(p) => {
            proof {
                assert forall|m: int| 0 <= m < p@.len() implies #[trigger] p@[m] < name_lower@.len() by {
                    assert(as_ints(p@)[m] == p@[m] as int);
                }
                assert forall|m: int| 0 < m < p@.len() implies p@[m - 1] < #[trigger] p@[m] by {
                    assert(as_ints(p@)[m] == p@[m] as int);
                    assert(as_ints(p@)[m - 1] == p@[m - 1] as int);
                }
            }
            let mut hits: Vec<Hit> = Vec::new();
            let mut k: usize = 0;
            while k < p.len()
                invariant
                    k <= p@.len(),
                    hits@.len() == k,
                    forall|m: int| 0 <= m < p@.len() ==> #[trigger] p@[m] < name_lower@.len(),
                    forall|m: int| 0 < m < p@.len() ==> p@[m - 1] < #[trigger] p@[m],
                    forall|m: int| 0 <= m < k ==> (#[trigger] hits@[m]).index == p@[m],
                    forall|m: int| 0 <= m < k ==> (#[trigger] hits@[m]).word_start == starts_word(name_lower@, p@[m] as int),
                    forall|m: int| 0 <= m < k ==> (#[trigger] hits@[m]).gap == (if m == 0 {
                            None::<usize>
                        } else {
                            Some((p@[m] - p@[m - 1] - 1) as usize)
                        }),
                decreases p@.len() - k,
            {
                let idx = p[k];
                let word_start = is_word_start(name_lower, idx);
                let gap = if k == 0 {
                    None
                } else {
                    Some(idx - p[k - 1] - 1)
                };
                hits.push(Hit { index: idx, word_start, gap });
                k = k + 1;
            }
            assert(hit_indices(hits@) =~= as_ints(p@));
            ScoreTerms { numeric_suffix, hits: Some(hits) }
        },
    }
}

/// Which characters of `t` the greedy walk of `q` takes, a query character
/// being taken by the first position that matches it after the previous take.
/// Characters of the query left over at the end take nothing.
pub open spec fn greedy_marks(t: Seq<char>, q: Seq<char>) -> Seq<bool>
    decreases t.len(),
{
    if t.len() == 0 {
        Seq::empty()
    } else if q.len() > 0 && t[0] == q[0] {
        seq![true] + greedy_marks(t.drop_first(), q.drop_first())
    } else {
        seq![false] + greedy_marks(t.drop_first(), q)
    }
}

proof fn lemma_greedy_marks_step(t: Seq<char>, q: Seq<char>, i: int, qi: int)
    requires
        0 <= i < t.len(),
        0 <= qi <= q.len(),
    ensures
        greedy_marks(t.subrange(i, t.len() as int), q.subrange(qi, q.len() as int)) == if qi < q.len()
            && t[i] == q[qi] {
            seq![true] + greedy_marks(t.subrange(i + 1, t.len() as int), q.subrange(qi + 1, q.len() as int))
        } else {
            seq![false] + greedy_marks(t.subrange(i + 1, t.len() as int), q.subrange(qi, q.len() as int))
        },
{
    let ts = t.subrange(i, t.len() as int);
    let qs = q.subrange(qi, q.len() as int);
    assert(ts.drop_first() =~= t.subrange(i + 1, t.len() as int));
    if qi < q.len() {
        assert(qs.drop_first() =~= q.subrange(qi + 1, q.len() as int));
    }
}

/// For each character of `text_lower`, whether the greedy walk of the query
/// over it takes that character: the characters to highlight.
pub fn highlight_marks(text_lower: &Vec<char>, query_lower: &Vec<char>) -> (r: Vec<bool>)
    ensures
        r@ == greedy_marks(text_lower@, query_lower@),
{
    let ghost t = text_lower@;
    let ghost q = query_lower@;
    let mut r: Vec<bool> = Vec::new();
    let mut qi: usize = 0;
    let mut i: usize = 0;
    assert(t.subrange(0, t.len() as int) =~= t);
    assert(q.subrange(0, q.len() as int) =~= q);
    while i < text_lower.len()
        invariant
            t == text_lower@,
            q == query_lower@,
            i <= t.len(),
            qi <= q.len(),
            r@ + greedy_marks(t.subrange(i as int, t.len() as int), q.subrange(qi as int, q.len() as int))
                == greedy_marks(t, q),
        decreases t.len() - i,
    {
        proof {
            lemma_greedy_marks_step(t, q, i as int, qi as int);
        }
        let ghost before = r@;
        if qi < query_lower.len() && text_lower[i] == query_lower[qi] {
            r.push(true);
            qi = qi + 1;
            assert(r@ + greedy_marks(t.subrange(i + 1, t.len() as int), q.subrange(qi as int, q.len() as int))
                =~= before + (seq![true] + greedy_marks(t.subrange(i + 1, t.len() as int), q.subrange(qi as int, q.len() as int))));
        } else {
            r.push(false);
            assert(r@ + greedy_marks(t.subrange(i + 1, t.len() as int), q.subrange(qi as int, q.len() as int))
                =~= before + (seq![false] + greedy_marks(t.subrange(i + 1, t.len() as int), q.subrange(qi as int, q.len() as int))));
        }
        i = i + 1;
    }
    assert(t.subrange(i as int, t.len() as int) =~= Seq::<char>::empty());
    assert(r@ + Seq::<bool>::empty() =~= r@);
    r
}

/// A query that is not a subsequence of the lowercased name is rejected
/// outright: there are no hits to score.
pub proof fn lemma_non_subsequence_rejected(r: ScoreTerms, name: Seq<char>, name_lower: Seq<char>, q: Seq<char>)
    requires
        terms_spec(r, name, name_lower, q),
        !is_subsequence(q, name_lower),
    ensures
        r.hits is None,
{
}

/// Under the empty query nothing is matched: the only term left is the
/// numeric-suffix bonus (the caller adds recency).
pub proof fn lemma_empty_query_only_suffix(r: ScoreTerms, name: Seq<char>, name_lower: Seq<char>, q: Seq<char>)
    requires
        terms_spec(r, name, name_lower, q),
        q.len() == 0,
    ensures
        r.hits matches Some(h) && h@.len() == 0,
        r.numeric_suffix == (name.len() > 0 && crate::text::numeric_of(name.last())),
{
}

} // verus!
