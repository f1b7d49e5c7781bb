//! The publish workflow: what each post request does to the store, what it
//! answers, and whether it fires the backup trigger.
use vstd::prelude::*;
use crate::form::{AddPostForm, EditPostForm, content_of, form_pairs, is_publish, publish_marker};
use crate::store::{Post, PostStore, PostView, index_of, lookup, has_id, lemma_index_of_unique, lemma_remove_keeps_others, lemma_update_keeps_others};
use crate::text::{contains, parse_i64, parse_i64_text, signed_decimal, signed_decimal_text, trim, trim_newline_suffix};

verus! {

/// The answer to a request, before rendering.
pub enum Reply {
    /// The not-found page.
    NotFound,
    /// An explicit unauthorized response.
    Unauthorized,
    /// A server-error page with a message.
    ServerError(String),
    /// A 303 redirect to a location, after a write.
    SeeOther(String),
    /// A permanent redirect to a post's canonical path.
    PermanentRedirect(String),
    /// An unsaved post, rendered as a stored one would be.
    Preview(Post),
    /// A stored post.
    Show(Post),
    /// The confirmation page for deleting a stored post.
    ConfirmDelete(Post),
    /// The edit form for a stored post.
    EditForm(Post),
}

/// A reply and whether the backup trigger is to fire for it.
pub struct Outcome {
    pub reply: Reply,
    pub backup: bool,
}

/// Where the listing is addressed after a new post, with its forms cleared.
pub open spec fn after_add_location() -> Seq<char> {
    seq!['/', '?', 'r', 'e', 's', 'e', 't', '_', 'f', 'o', 'r', 'm', 's', '=', 't', 'r', 'u', 'e']
}

pub open spec fn posts_prefix() -> Seq<char> {
    seq!['/', 'p', 'o', 's', 't', 's', '/']
}

/// The canonical path of the post with identity `id`.
pub open spec fn post_path(id: int) -> Seq<char> {
    posts_prefix() + signed_decimal(id)
}

/// Content as it is stored: trimmed, with one trailing newline.
pub open spec fn normalized(c: Seq<char>) -> Seq<char> {
    trim(c).push('\n')
}

/// Whether `r` redirects after a write to `loc`.
pub open spec fn is_see_other(r: Reply, loc: Seq<char>) -> bool {
    r matches Reply::SeeOther(s) && s@ == loc
}

/// Whether `r` previews an unsaved post with this content and time.
pub open spec fn is_preview(r: Reply, content: Seq<char>, now: int) -> bool {
    r matches Reply::Preview(p) && p@ == (PostView { id: 0, created: now, updated: now, content })
}

pub open spec fn max(a: int, b: int) -> int {
    if a < b { b } else { a }
}

/// The canonical path of the post with identity `id`.
pub fn post_path_of(id: i64) -> (r: String)
    ensures
        r@ == post_path(id as int),
{
    let p = String::from_str("/posts/");
    proof { reveal_strlit("/posts/"); }
    p.concat(signed_decimal_text(id).as_str())
}

fn server_error(msg: &str) -> (r: Reply)
    ensures
        r is ServerError,
{
    Reply::ServerError(String::from_str(msg))
}

/// A submission to the create endpoint. Only the administrator may submit;
/// with the publish marker the normalized content is stored as a new post and
/// the backup fires; without it nothing is stored and the content is
/// previewed.
pub fn post_add(store: &mut PostStore, logged_in: bool, body: &str, now: i64) -> (r: Outcome)
    requires
        old(store).wf(),
    ensures
        final(store).wf(),
        r.backup <==> r.reply is SeeOther,
        !(r.reply is SeeOther) ==> final(store)@ == old(store)@,
        !contains(body@, publish_marker()) ==> !r.backup && final(store)@ == old(store)@,
        r.reply is SeeOther ==> final(store)@.len() == old(store)@.len() + 1,
        !logged_in ==> r.reply is NotFound,
        logged_in && content_of(form_pairs(body@)) is None ==> r.reply is ServerError,
        logged_in ==> match content_of(form_pairs(body@)) {
            Some(c) => if !contains(body@, publish_marker()) {
                is_preview(r.reply, c, now as int)
            } else if old(store).has_room() {
                &&& is_see_other(r.reply, after_add_location())
                &&& exists|id: int| 0 < id && !has_id(old(store)@, id)
                    && final(store)@ == seq![PostView { id, created: now as int, updated: now as int, content: normalized(c) }] + old(store)@
            } else {
                r.reply is ServerError
            },
            None => true,
        },
{
    if !logged_in {
        return Outcome { reply: Reply::NotFound, backup: false };
    }
    let form = match AddPostForm::parse(body) {
        Some(f) => f,
        None => return Outcome { reply: server_error("Failed to read the submitted form"), backup: false },
    };
    if is_publish(body) {
        let content = trim_newline_suffix(form.content.as_str());
        let ghost before = store@;
        let ghost stored = content@;
        match store.insert(now, now, content) {
            Ok(id) => {
                assert(0 < id && !has_id(before, id as int)
                    && store@ == seq![PostView { id: id as int, created: now as int, updated: now as int, content: stored }] + before);
                let loc = String::from_str("/?reset_forms=true");
                proof { reveal_strlit("/?reset_forms=true"); }
                assert(loc@ =~= after_add_location());
                Outcome { reply: Reply::SeeOther(loc), backup: true }
            },
            Err(_) => Outcome { reply: server_error("Failed to insert post"), backup: false },
        }
    } else {
        let post = Post { id: 0, created: now, updated: now, content: form.content };
        Outcome { reply: Reply::Preview(post), backup: false }
    }
}

/// The post that an edit submission describes: identity `id`, creation time
/// kept from the stored post (or `now` if there is none), updated `now` (but
/// never before it was created), and normalized content.
pub open spec fn edited(old_post: Option<PostView>, id: int, content: Seq<char>, now: int) -> PostView {
    let created = match old_post {
        Some(p) => p.created,
        None => now,
    };
    PostView { id, created, updated: max(now, created), content: normalized(content) }
}

/// A submission to the edit endpoint of post `id`. Only the administrator may
/// submit; with the publish marker the stored post is replaced and the backup
/// fires; without it nothing is stored and the edited content is previewed.
pub fn post_edit(store: &mut PostStore, logged_in: bool, id: i64, body: &str, now: i64) -> (r: Outcome)
    requires
        old(store).wf(),
    ensures
        final(store).wf(),
        final(store).has_room() == old(store).has_room(),
        r.backup <==> r.reply is SeeOther,
        !(r.reply is SeeOther) ==> final(store)@ == old(store)@,
        !contains(body@, publish_marker()) ==> !r.backup && final(store)@ == old(store)@,
        r.reply is SeeOther ==> {
            &&& final(store)@.len() == old(store)@.len()
            &&& lookup(old(store)@, id as int) matches Some(p0)
            &&& lookup(final(store)@, id as int) matches Some(p1)
            &&& p1.created == p0.created
            &&& p1.updated == max(now as int, p0.created)
            &&& forall|other: int| other != id ==> lookup(#[trigger] final(store)@, other) == lookup(old(store)@, other)
        },
        !logged_in ==> r.reply is NotFound,
        logged_in && content_of(form_pairs(body@)) is None ==> r.reply is ServerError,
        logged_in ==> match content_of(form_pairs(body@)) {
            Some(c) => {
                let p = edited(lookup(old(store)@, id as int), id as int, c, now as int);
                if !contains(body@, publish_marker()) {
                    r.reply matches Reply::Preview(q) && q@ == (PostView { id: 0, ..p })
                } else {
                    match index_of(old(store)@, id as int) {
                        Some(i) => is_see_other(r.reply, post_path(id as int))
                            && final(store)@ == old(store)@.update(i, p),
                        None => r.reply is ServerError,
                    }
                }
            },
            None => true,
        },
{
    if !logged_in {
        return Outcome { reply: Reply::NotFound, backup: false };
    }
    let form = match EditPostForm::parse(body) {
        Some(f) => f,
        None => return Outcome { reply: server_error("Failed to read the submitted form"), backup: false },
    };
    let created = match store.get(id) {
        Some(p) => p.created,
        None => now,
    };
    let updated = if now < created { created } else { now };
    let content = trim_newline_suffix(form.content.as_str());
    if is_publish(body) {
        let post = Post { id, created, updated, content };
        let ghost before = store@;
        let ghost pv = post@;
        let ghost bound = store.next_bound();
        proof { store.lemma_wf_rows(); }
        match store.update(post) {
            Ok(()) => {
                proof {
                    store.lemma_wf_rows();
                    let i = index_of(before, id as int)->0;
                    lemma_index_of_unique(before, bound, i);
                    assert forall|other: int| other != id implies lookup(store@, other) == lookup(before, other) by {
                        lemma_update_keeps_others(before, bound, store.next_bound(), i, pv, other);
                    }
                    lemma_update_keeps_others(before, bound, store.next_bound(), i, pv, 0);
                }
                Outcome { reply: Reply::SeeOther(post_path_of(id)), backup: true }
            },
            Err(_) => Outcome { reply: server_error("Failed to update post"), backup: false },
        }
    } else {
        let post = Post { id: 0, created, updated, content };
        Outcome { reply: Reply::Preview(post), backup: false }
    }
}

/// The confirmation page for deleting post `id`: not found unless the
/// administrator asks and the post exists.
pub fn get_delete(store: &PostStore, logged_in: bool, id: i64) -> (r: Reply)
    requires
        store.wf(),
    ensures
        match r {
            Reply::ConfirmDelete(p) => logged_in && lookup(store@, id as int) == Some(p@),
            Reply::NotFound => !logged_in || lookup(store@, id as int) is None,
            _ => false,
        },
{
    if !logged_in {
        return Reply::NotFound;
    }
    match store.get(id) {
        Some(p) => Reply::ConfirmDelete(p),
        None => Reply::NotFound,
    }
}

/// The delete action for post `id`. Without a session it is refused and
/// nothing changes; otherwise the post, if any, is removed, every other post
/// stays as it was, the backup fires, and the client is sent to the listing.
pub fn post_delete(store: &mut PostStore, logged_in: bool, id: i64) -> (r: Outcome)
    requires
        old(store).wf(),
    ensures
        final(store).wf(),
        final(store).has_room() == old(store).has_room(),
        r.backup <==> r.reply is SeeOther,
        !logged_in ==> r.reply is Unauthorized && final(store)@ == old(store)@,
        logged_in ==> is_see_other(r.reply, seq!['/']),
        logged_in ==> match index_of(old(store)@, id as int) {
            Some(i) => final(store)@ == old(store)@.remove(i),
            None => final(store)@ == old(store)@,
        },
        logged_in ==> lookup(final(store)@, id as int) is None,
        forall|other: int| other != id ==> lookup(#[trigger] final(store)@, other) == lookup(old(store)@, other),
{
    if !logged_in {
        return Outcome { reply: Reply::Unauthorized, backup: false };
    }
    let ghost before = store@;
    let ghost bound = store.next_bound();
    proof { store.lemma_wf_rows(); }
    let _ = store.delete(id);
    proof {
        match index_of(before, id as int) {
            Some(i) => {
                assert(before[i].id == id);
                assert forall|other: int| other != id implies lookup(store@, other) == lookup(before, other) by {
                    lemma_remove_keeps_others(before, bound, i, other);
                }
                lemma_remove_keeps_others(before, bound, i, 0);
            },
            None => {},
        }
    }
    let loc = String::from_str("/");
    proof { reveal_strlit("/"); }
    assert(loc@ =~= seq!['/']);
    Outcome { reply: Reply::SeeOther(loc), backup: true }
}

/// The edit form for post `id`, or not found.
pub fn get_edit(store: &PostStore, id: i64) -> (r: Reply)
    requires
        store.wf(),
    ensures
        match r {
            Reply::EditForm(p) => lookup(store@, id as int) == Some(p@),
            Reply::NotFound => lookup(store@, id as int) is None,
            _ => false,
        },
{
    match store.get(id) {
        Some(p) => Reply::EditForm(p),
        None => Reply::NotFound,
    }
}

/// The page of the post addressed by the path segment `id_text`: not found
/// when the segment is no `i64` or no post has that identity.
pub fn get_post(store: &PostStore, id_text: &str) -> (r: Reply)
    requires
        store.wf(),
    ensures
        match r {
            Reply::Show(p) => parse_i64(id_text@) matches Some(id) && lookup(store@, id) == Some(p@),
            Reply::NotFound => match parse_i64(id_text@) {
                Some(id) => lookup(store@, id) is None,
                None => true,
            },
            _ => false,
        },
{
    let id = match parse_i64_text(id_text) {
        Some(id) => id,
        None => return Reply::NotFound,
    };
    match store.get(id) {
        Some(p) => Reply::Show(p),
        None => Reply::NotFound,
    }
}

/// A post addressed by identity and slug: a permanent redirect to the
/// identity's path, whatever the slug.
pub fn get_post_with_slug(id: i64, slug: &str) -> (r: Reply)
    ensures
        r matches Reply::PermanentRedirect(s) && s@ == post_path(id as int),
{
    Reply::PermanentRedirect(post_path_of(id))
}

} // verus!
