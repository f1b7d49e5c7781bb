//! What the page of a post announces about it, and response headers.
use vstd::prelude::*;
use crate::config::{ServerContext, base_url_of};
use crate::store::Post;
use crate::text::{decimal, decimal_text};
use crate::workflow::{post_path, post_path_of};

verus! {

/// The time `secs` seconds after the Unix epoch in the form
/// `YYYY-MM-DDTHH:MM:SSZ`, or `None` outside the representable range.
pub uninterp spec fn iso8601_of(secs: int) -> Option<Seq<char>>;

/// Relies on `chrono::DateTime::from_timestamp` and its `format` with
/// `%Y-%m-%dT%H:%M:%SZ`: a function of the seconds alone.
#[verifier::external_body]
fn iso8601(secs: i64) -> (r: Option<String>)
    ensures
        iso8601_of(secs as int) == match r {
            Some(s) => Some(s@),
            None => None::<Seq<char>>,
        },
{
    match chrono::DateTime::from_timestamp(secs, 0) {
        Some(dt) => Some(dt.format("%Y-%m-%dT%H:%M:%SZ").to_string()),
        None => None,
    }
}

/// The canonical URL of the post with identity `id`.
pub open spec fn canonical_of(domain: Seq<char>, id: int) -> Seq<char> {
    base_url_of(domain) + post_path(id)
}

/// What the page of a stored post announces: its canonical URL and its
/// creation and update times.
pub struct PostMeta {
    pub canonical: String,
    pub created: Option<String>,
    pub updated: Option<String>,
}

pub open spec fn same_text(a: Option<String>, b: Option<Seq<char>>) -> bool {
    match a {
        Some(s) => b == Some(s@),
        None => b is None,
    }
}

/// The canonical URL of post `id` under the configured domain.
pub fn canonical_url(ctx: &ServerContext, id: i64) -> (r: String)
    ensures
        r@ == canonical_of(ctx.args.domain@, id as int),
{
    ctx.base_url().concat(post_path_of(id).as_str())
}

/// The announcements of the page of `post`.
pub fn post_meta(ctx: &ServerContext, post: &Post) -> (r: PostMeta)
    ensures
        r.canonical@ == canonical_of(ctx.args.domain@, post.id as int),
        same_text(r.created, iso8601_of(post.created as int)),
        same_text(r.updated, iso8601_of(post.updated as int)),
{
    PostMeta {
        canonical: canonical_url(ctx, post.id),
        created: iso8601(post.created),
        updated: iso8601(post.updated),
    }
}

pub open spec fn cache_control_of(max_age: nat) -> Seq<char> {
    seq!['p', 'u', 'b', 'l', 'i', 'c', ',', ' ', 'm', 'a', 'x', '-', 'a', 'g', 'e', '=']
        + decimal(max_age)
        + seq![',', ' ', 'm', 'u', 's', 't', '-', 'r', 'e', 'v', 'a', 'l', 'i', 'd', 'a', 't', 'e']
}

/// The `Cache-Control` value that lets clients keep a response for
/// `max_age` seconds, revalidating once it is stale.
pub fn cache_control(max_age: u32) -> (r: String)
    ensures
        r@ == cache_control_of(max_age as nat),
{
    let head = String::from_str("public, max-age=");
    proof {
        reveal_strlit("public, max-age=");
        reveal_strlit(", must-revalidate");
    }
    let r = head.concat(decimal_text(max_age as u64).as_str());
    let r = r.concat(", must-revalidate");
    assert(r@ =~= cache_control_of(max_age as nat));
    r
}

pub open spec fn hsts_value() -> Seq<char> {
    seq!['m', 'a', 'x', '-', 'a', 'g', 'e', '=', '6', '0', '4', '8', '0', '0', ';', ' ', 'p', 'r', 'e', 'l', 'o', 'a', 'd']
}

/// The `Strict-Transport-Security` value that every response carries in
/// production (one week, preload), and none outside it.
pub fn transport_security(production: bool) -> (r: Option<&'static str>)
    ensures
        match r {
            Some(s) => production && s@ == hsts_value(),
            None => !production,
        },
{
    if production {
        let v = "max-age=604800; preload";
        proof { reveal_strlit("max-age=604800; preload"); }
        assert(v@ =~= hsts_value());
        Some(v)
    } else {
        None
    }
}

} // verus!
