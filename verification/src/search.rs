//! Post search for the rendering pipeline: filter the public posts,
//! match their titles case-insensitively against an optional query,
//! and return their paths ordered newest first.
//!
//! The index of posts itself lives with the caller; the search works
//! on a plain list of post records handed in.
use vstd::prelude::*;

verus! {

use vstd::multiset::Multiset;
use vstd::seq_lib::group_to_multiset_ensures;

/// What one post contributes to search: its path, title, a date
/// stamp that orders chronologically, and whether it is public.
pub struct PostMeta {
    /// Path the post is served under.
    pub path: String,
    /// Title shown and searched.
    pub title: String,
    /// Date stamp; greater is newer.
    pub date: u64,
    /// Only public posts are searchable.
    pub public: bool,
}

/// Orders a search can ask for.
#[derive(Clone, Copy, Debug, PartialEq, Eq, Structural)]
pub enum SortBy {
    /// Newest post first.
    Newest,
}

/// A search request: an optional title needle and an optional order.
pub struct SearchQuery {
    title: Option<String>,
    sort_by: Option<SortBy>,
}

impl SearchQuery {
    /// The title needle asked for, if any.
    pub closed spec fn title_view(&self) -> Option<Seq<char>> {
        match self.title {
            Some(ref t) => Some(t@),
            None => None,
        }
    }

    /// A query that matches every public post.
    pub fn empty() -> (r: SearchQuery)
        ensures
            r.title_view() == None::<Seq<char>>,
    {
        SearchQuery { title: None, sort_by: None }
    }

    /// A query with the given title needle and order.
    pub fn new(title: Option<String>, sort_by: Option<SortBy>) -> (r: SearchQuery)
        ensures
            r.title_view() == match title {
                Some(ref t) => Some(t@),
                None => None::<Seq<char>>,
            },
    {
        SearchQuery { title, sort_by }
    }
}

/// What str::to_lowercase returns: a function of the characters
/// alone.
pub uninterp spec fn lower_of(s: Seq<char>) -> Seq<char>;

/// Whether `q` occurs in `t` as a contiguous run of characters.
pub open spec fn contains_seq(t: Seq<char>, q: Seq<char>) -> bool {
    exists|i: int| 0 <= i && i + q.len() <= t.len() && #[trigger] t.subrange(i, i + q.len()) == q
}

/// Relies on str::to_lowercase: the result depends on the characters
/// alone.
#[verifier::external_body]
fn to_lowercase(s: &str) -> (r: String)
    ensures
        r@ == lower_of(s@),
{
    s.to_lowercase()
}

/// Relies on str::contains with a &str pattern: true exactly when
/// the pattern occurs as a contiguous substring.
#[verifier::external_body]
fn str_contains(t: &str, q: &str) -> (r: bool)
    ensures
        r == contains_seq(t@, q@),
{
    t.contains(q)
}

/// Whether a post answers a query: it is public, and the lowercased
/// needle, if one was given, occurs in its lowercased title.
pub open spec fn matches_query(p: PostMeta, qt: Option<Seq<char>>) -> bool {
    &&& p.public
    &&& match qt {
        Some(t) => contains_seq(lower_of(p.title@), lower_of(t)),
        None => true,
    }
}

/// Whether `idx` picks out exactly the posts answering the query,
/// each once.
pub open spec fn selects_matching(
    posts: Seq<PostMeta>,
    qt: Option<Seq<char>>,
    idx: Seq<usize>,
) -> bool {
    &&& idx.no_duplicates()
    &&& forall|k: int|
        0 <= k < idx.len() ==> ((#[trigger] idx[k]) as int) < posts.len() && matches_query(
            posts[idx[k] as int],
            qt,
        )
    &&& forall|j: int|
        0 <= j < posts.len() && matches_query(#[trigger] posts[j], qt) ==> idx.contains(j as usize)
}

/// Whether `idx` lists posts newest first.
pub open spec fn sorted_by_date_desc(posts: Seq<PostMeta>, idx: Seq<usize>) -> bool {
    forall|a: int, b: int|
        0 <= a < b < idx.len() ==> posts[idx[a] as int].date >= posts[idx[b] as int].date
}

/// Search the given posts: the paths of exactly the public posts
/// whose titles answer the query, each once, newest first. Posts of
/// equal date may come in either order.
pub fn search_posts(posts: &Vec<PostMeta>, query: &SearchQuery) -> (r: Vec<String>)
    ensures
        exists|idx: Seq<usize>|
            {
                &&& #[trigger] selects_matching(posts@, query.title_view(), idx)
                &&& sorted_by_date_desc(posts@, idx)
                &&& r@.len() == idx.len()
                &&& forall|k: int| 0 <= k < idx.len() ==> r@[k]@ == posts@[idx[k] as int].path@
            },
{
    broadcast use group_to_multiset_ensures;

    let ghost qt = query.title_view();
    let query_lower: Option<String> = match &query.title {
        Some(t) => Some(to_lowercase(t.as_str())),
        None => None,
    };

    let mut sel: Vec<usize> = Vec::new();
    let mut i: usize = 0;
    while i < posts.len()
        invariant
            i <= posts@.len(),
            qt == query.title_view(),
            match qt {
                Some(t) => query_lower matches Some(l) && l@ == lower_of(t),
                None => query_lower is None,
            },
            forall|k: int|
                0 <= k < sel@.len() ==> ((#[trigger] sel@[k]) as int) < i as int && matches_query(
                    posts@[sel@[k] as int],
                    qt,
                ),
            forall|a: int, b: int| 0 <= a < b < sel@.len() ==> sel@[a] < sel@[b],
            forall|j: int|
                0 <= j < i && matches_query(#[trigger] posts@[j], qt) ==> sel@.contains(
                    j as usize,
                ),
        decreases posts@.len() - i,
    {
        let post = &posts[i];
        let is_match = if post.public {
            match &query_lower {
                Some(l) => {
                    let title_lower = to_lowercase(post.title.as_str());
                    str_contains(title_lower.as_str(), l.as_str())
                },
                None => true,
            }
        } else {
            false
        };
        if is_match {
            let ghost sel_prev = sel@;
            sel.push(i);
            proof {
                assert(sel@ == sel_prev.push(i as usize));
                assert forall|j: int|
                    0 <= j < i + 1 && matches_query(#[trigger] posts@[j], qt) implies sel@
                    .contains(j as usize) by {
                    if j < i {
                        assert(sel_prev.contains(j as usize));
                        let w = choose|w: int|
                            0 <= w < sel_prev.len() && sel_prev[w] == j as usize;
                        assert(sel@[w] == j as usize);
                    } else {
                        assert(sel@.last() == i as usize);
                    }
                }
            }
        }
        i += 1;
    }

    proof {
        assert(sel@.no_duplicates()) by {
            assert forall|a: int, b: int|
                0 <= a < sel@.len() && 0 <= b < sel@.len() && a != b implies sel@[a] != sel@[b] by {
                if a < b {
                    assert(sel@[a] < sel@[b]);
                } else {
                    assert(sel@[b] < sel@[a]);
                }
            }
        }
        assert(selects_matching(posts@, qt, sel@));
    }

    let ghost sel0 = sel@;
    let mut out: Vec<usize> = Vec::new();
    while sel.len() > 0
        invariant
            qt == query.title_view(),
            out@.to_multiset().add(sel@.to_multiset()) == sel0.to_multiset(),
            forall|k: int|
                0 <= k < out@.len() ==> ((#[trigger] out@[k]) as int) < posts@.len()
                    && matches_query(posts@[out@[k] as int], qt),
            forall|k: int|
                0 <= k < sel@.len() ==> ((#[trigger] sel@[k]) as int) < posts@.len()
                    && matches_query(posts@[sel@[k] as int], qt),
            sorted_by_date_desc(posts@, out@),
            forall|a: int, b: int|
                0 <= a < out@.len() && 0 <= b < sel@.len() ==> posts@[out@[a] as int].date
                    >= posts@[sel@[b] as int].date,
        decreases sel@.len(),
    {
        let mut best: usize = 0;
        let mut m: usize = 1;
        while m < sel.len()
            invariant
                (best as int) < sel@.len(),
                m <= sel@.len(),
                forall|k: int|
                    0 <= k < sel@.len() ==> ((#[trigger] sel@[k]) as int) < posts@.len(),
                forall|k: int|
                    0 <= k < m ==> posts@[(#[trigger] sel@[k]) as int].date <= posts@[sel@[
                        best as int
                    ] as int].date,
            decreases sel@.len() - m,
        {
            if posts[sel[m]].date > posts[sel[best]].date {
                best = m;
            }
            m += 1;
        }
        let ghost sel_before = sel@;
        let ghost out_before = out@;
        let picked = sel.remove(best);
        out.push(picked);
        proof {
            assert(sel@ == sel_before.remove(best as int));
            assert(out@ == out_before.push(picked));
            assert(sel_before.contains(picked)) by {
                assert(sel_before[best as int] == picked);
            }
            vstd::seq_lib::to_multiset_contains(sel_before, picked);
            vstd::seq_lib::to_multiset_build(out_before, picked);
            vstd::seq_lib::to_multiset_remove(sel_before, best as int);
            assert(out@.to_multiset() =~= out_before.to_multiset().insert(picked));
            assert(sel@.to_multiset() =~= sel_before.to_multiset().remove(picked));
            assert(out@.to_multiset().add(sel@.to_multiset()) =~= out_before.to_multiset().add(
                sel_before.to_multiset(),
            ));
            assert forall|k: int| 0 <= k < sel@.len() implies posts@[out@.last() as int].date
                >= posts@[(#[trigger] sel@[k]) as int].date by {
                if k < best as int {
                    assert(sel@[k] == sel_before[k]);
                } else {
                    assert(sel@[k] == sel_before[k + 1]);
                }
            }
        }
    }

    proof {
        assert(sel@.to_multiset() =~= Multiset::<usize>::empty());
        assert(out@.to_multiset() =~= sel0.to_multiset());
        sel0.lemma_multiset_has_no_duplicates();
        out@.lemma_multiset_has_no_duplicates_conv();
        assert forall|j: int|
            0 <= j < posts@.len() && matches_query(#[trigger] posts@[j], qt) implies out@.contains(
            j as usize,
        ) by {
            assert(sel0.contains(j as usize));
            assert(sel0.to_multiset().count(j as usize) > 0);
        }
        assert(selects_matching(posts@, qt, out@));
    }

    let mut result: Vec<String> = Vec::new();
    let mut k: usize = 0;
    while k < out.len()
        invariant
            k <= out@.len(),
            result@.len() == k as int,
            forall|j: int|
                0 <= j < out@.len() ==> ((#[trigger] out@[j]) as int) < posts@.len(),
            forall|j: int| 0 <= j < k ==> (#[trigger] result@[j])@ == posts@[out@[j] as int].path@,
        decreases out@.len() - k,
    {
        let p = &posts[out[k]];
        result.push(p.path.clone());
        k += 1;
    }

    proof {
        let idx = out@;
        assert(selects_matching(posts@, query.title_view(), idx));
    }
    result
}

} // verus!
