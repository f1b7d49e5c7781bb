//! Pagination of the post listing and its navigation targets.
use vstd::prelude::*;
use crate::store::{Post, PostStore, PostView};
use crate::text::{decimal, decimal_text};

verus! {

/// How many posts one page of the listing shows.
pub const POSTS_PER_PAGE: usize = 10;

/// Which posts of a listing of `total` posts page `page` shows.
pub struct PageWindow {
    pub start: usize,
    pub end: usize,
    pub has_next: bool,
}

pub open spec fn min(a: int, b: int) -> int {
    if a < b { a } else { b }
}

/// Where page `page` (one-based) begins, before clamping.
pub open spec fn page_start(page: int) -> int {
    (page - 1) * POSTS_PER_PAGE
}

/// Where page `page` ends, before clamping.
pub open spec fn page_end(page: int) -> int {
    page_start(page) + POSTS_PER_PAGE
}

/// The one-based page that a `page` query parameter asks for: absent or zero
/// means the first page.
pub open spec fn requested_page(query: Option<usize>) -> int {
    match query {
        Some(p) => if p == 0 { 1 } else { p as int },
        None => 1,
    }
}

/// The target of the "prev" link of page `page`: none on the first page, the
/// root path for the second.
pub open spec fn prev_target(page: int) -> Option<Seq<char>> {
    if page <= 1 {
        None
    } else if page == 2 {
        Some(seq!['/'])
    } else {
        Some(seq!['/', '?', 'p', 'a', 'g', 'e', '='] + decimal((page - 1) as nat))
    }
}

/// The target of the "next" link of page `page`.
pub open spec fn next_target(page: int, has_next: bool) -> Option<Seq<char>> {
    if has_next {
        Some(seq!['/', '?', 'p', 'a', 'g', 'e', '='] + decimal((page + 1) as nat))
    } else {
        None
    }
}

pub fn requested_page_of(query: Option<usize>) -> (r: usize)
    ensures
        r == requested_page(query),
        r >= 1,
{
    match query {
        Some(p) => if p == 0 { 1 } else { p },
        None => 1,
    }
}

/// The window of page `page` over `total` posts: both ends clamped to
/// `total`, and whether a later page holds posts.
pub fn page_window(page: usize, total: usize) -> (r: PageWindow)
    requires
        page >= 1,
    ensures
        r.start == min(page_start(page as int), total as int),
        r.end == min(page_end(page as int), total as int),
        r.has_next == (page_end(page as int) < total),
        r.start <= r.end <= total,
        r.end - r.start <= POSTS_PER_PAGE,
{
    let start: u128 = (page as u128 - 1) * (POSTS_PER_PAGE as u128);
    let end: u128 = start + POSTS_PER_PAGE as u128;
    let has_next = end < total as u128;
    let s: usize = if start < total as u128 { start as usize } else { total };
    let e: usize = if end < total as u128 { end as usize } else { total };
    PageWindow { start: s, end: e, has_next }
}

fn page_query(n: usize) -> (r: String)
    ensures
        r@ == seq!['/', '?', 'p', 'a', 'g', 'e', '='] + decimal(n as nat),
{
    let r = String::from_str("/?page=");
    proof { reveal_strlit("/?page="); }
    r.concat(decimal_text(n as u64).as_str())
}

/// The target of the "prev" link of page `page`.
pub fn prev_href(page: usize) -> (r: Option<String>)
    ensures
        match r {
            Some(s) => prev_target(page as int) == Some(s@),
            None => prev_target(page as int) is None,
        },
{
    if page <= 1 {
        None
    } else if page == 2 {
        proof { reveal_strlit("/"); }
        Some(String::from_str("/"))
    } else {
        Some(page_query(page - 1))
    }
}

/// The target of the "next" link of page `page`.
pub fn next_href(page: usize, has_next: bool) -> (r: Option<String>)
    requires
        has_next ==> page < usize::MAX,
    ensures
        match r {
            Some(s) => next_target(page as int, has_next) == Some(s@),
            None => next_target(page as int, has_next) is None,
        },
{
    if has_next {
        Some(page_query(page + 1))
    } else {
        None
    }
}

/// One page of the listing.
pub struct Listing {
    pub page: usize,
    pub posts: Vec<Post>,
    pub has_next: bool,
    pub prev: Option<String>,
    pub next: Option<String>,
    /// The first page addressed without a query shows the about text.
    pub show_about: bool,
}

/// The posts that page `page` of `all` shows.
pub open spec fn page_posts(all: Seq<PostView>, page: int) -> Seq<PostView> {
    all.subrange(min(page_start(page), all.len() as int), min(page_end(page), all.len() as int))
}

/// Page `query` of the posts in `store`, with its navigation targets.
pub fn list_posts(store: &PostStore, query: Option<usize>) -> (r: Listing)
    requires
        store.wf(),
    ensures
        r.page == requested_page(query),
        r.posts@.map_values(|p: Post| p@) == page_posts(store@, r.page as int),
        r.has_next == (page_end(r.page as int) < store@.len()),
        r.show_about == (query is None),
        match r.prev {
            Some(s) => prev_target(r.page as int) == Some(s@),
            None => prev_target(r.page as int) is None,
        },
        match r.next {
            Some(s) => next_target(r.page as int, r.has_next) == Some(s@),
            None => next_target(r.page as int, r.has_next) is None,
        },
{
    let page = requested_page_of(query);
    let w = page_window(page, store.count());
    let mut posts: Vec<Post> = Vec::new();
    let mut i: usize = w.start;
    while i < w.end
        invariant
            w.start <= i <= w.end <= store@.len(),
            posts@.len() == i - w.start,
            posts@.map_values(|p: Post| p@) == store@.subrange(w.start as int, i as int),
        decreases w.end - i,
    {
        let p = store.nth(i);
        let ghost before = posts@;
        posts.push(p);
        proof {
            assert(posts@ == before.push(p));
            assert forall|k: int| 0 <= k < before.len() implies #[trigger] posts@[k]@ == store@[w.start + k] by {
                assert(before.map_values(|p: Post| p@)[k] == store@.subrange(w.start as int, i as int)[k]);
            }
            assert(posts@.map_values(|p: Post| p@) =~= store@.subrange(w.start as int, i + 1));
        }
        i = i + 1;
    }
    proof {
        if w.has_next {
            assert(page_end(page as int) < store@.len());
        }
    }
    Listing {
        page,
        posts,
        has_next: w.has_next,
        prev: prev_href(page),
        next: next_href(page, w.has_next),
        show_about: query.is_none(),
    }
}

/// A page shows at most `POSTS_PER_PAGE` posts, and a later page holds posts
/// exactly when some post lies beyond this page's window.
pub proof fn lemma_page_bounds(all: Seq<PostView>, page: int)
    requires
        page >= 1,
    ensures
        page_posts(all, page).len() <= POSTS_PER_PAGE,
        (page_end(page) < all.len()) <==> (page_posts(all, page + 1).len() > 0),
{
    assert(page_start(page + 1) == page_end(page)) by (nonlinear_arith);
    assert(page_start(page) >= 0) by (nonlinear_arith) requires page >= 1;
}

/// The first page is the same whether it is asked for with no query or with
/// `page=1`, and neither has a "prev" link.
pub proof fn lemma_first_page_canonical()
    ensures
        requested_page(None) == requested_page(Some(1usize)),
        requested_page(None) == 1,
        prev_target(requested_page(None)) is None,
        prev_target(requested_page(Some(1usize))) is None,
{
}

} // verus!
