//! Posts and the store that keeps them.
use vstd::prelude::*;

verus! {

/// A post: identity (0 while it is not stored), creation and last-update
/// times in seconds since the Unix epoch, and raw content.
pub struct Post {
    pub id: i64,
    pub created: i64,
    pub updated: i64,
    pub content: String,
}

/// What a post holds, as mathematical values.
pub struct PostView {
    pub id: int,
    pub created: int,
    pub updated: int,
    pub content: Seq<char>,
}

impl View for Post {
    type V = PostView;

    open spec fn view(&self) -> PostView {
        PostView {
            id: self.id as int,
            created: self.created as int,
            updated: self.updated as int,
            content: self.content@,
        }
    }
}

impl Post {
    /// A post with identical fields.
    pub fn copy(&self) -> (r: Post)
        ensures
            r@ == self@,
    {
        Post { id: self.id, created: self.created, updated: self.updated, content: self.content.clone() }
    }
}

/// Why the store refused a write.
#[derive(PartialEq, Eq, Structural, Debug, Clone, Copy)]
pub enum StoreError {
    /// No post has the identity that an update names.
    Missing,
    /// Every positive `i64` identity has been handed out.
    IdsExhausted,
}

/// The positions of `s` whose post has identity `id`.
pub open spec fn has_id(s: Seq<PostView>, id: int) -> bool {
    exists|i: int| 0 <= i < s.len() && s[i].id == id
}

/// The position of the post with identity `id`, if there is one.
pub open spec fn index_of(s: Seq<PostView>, id: int) -> Option<int> {
    if has_id(s, id) {
        Some(choose|i: int| 0 <= i < s.len() && s[i].id == id)
    } else {
        None
    }
}

/// The post with identity `id`, if there is one.
pub open spec fn lookup(s: Seq<PostView>, id: int) -> Option<PostView> {
    match index_of(s, id) {
        Some(i) => Some(s[i]),
        None => None,
    }
}

/// Stored posts: identities positive, distinct and below `next`; no post
/// updated before it was created.
pub open spec fn rows_wf(s: Seq<PostView>, next: int) -> bool {
    &&& forall|i: int| 0 <= i < s.len() ==> 0 < #[trigger] s[i].id < next
    &&& forall|i: int| 0 <= i < s.len() ==> #[trigger] s[i].created <= s[i].updated
    &&& forall|i: int, j: int| 0 <= i < j < s.len() ==> #[trigger] s[i].id != #[trigger] s[j].id
}

pub proof fn lemma_index_of_unique(s: Seq<PostView>, next: int, i: int)
    requires
        rows_wf(s, next),
        0 <= i < s.len(),
    ensures
        index_of(s, s[i].id) == Some(i),
        lookup(s, s[i].id) == Some(s[i]),
{
    assert(has_id(s, s[i].id));
    let j = choose|j: int| 0 <= j < s.len() && s[j].id == s[i].id;
    if j < i {
        assert(s[j].id != s[i].id);
    } else if i < j {
        assert(s[i].id != s[j].id);
    }
}

/// Removing the post with identity `id` leaves every other post as it was
/// and leaves none with that identity.
pub proof fn lemma_remove_keeps_others(s: Seq<PostView>, next: int, i: int, other: int)
    requires
        rows_wf(s, next),
        0 <= i < s.len(),
    ensures
        rows_wf(s.remove(i), next),
        lookup(s.remove(i), s[i].id) is None,
        other != s[i].id ==> lookup(s.remove(i), other) == lookup(s, other),
{
    let t = s.remove(i);
    assert forall|k: int| 0 <= k < t.len() implies #[trigger] t[k] == s[if k < i { k } else { k + 1 }] by {}
    assert forall|a: int, b: int| 0 <= a < b < t.len() implies #[trigger] t[a].id != #[trigger] t[b].id by {
        let a0 = if a < i { a } else { a + 1 };
        let b0 = if b < i { b } else { b + 1 };
        assert(t[a] == s[a0] && t[b] == s[b0]);
        assert(s[a0].id != s[b0].id);
    }
    assert forall|k: int| 0 <= k < t.len() implies 0 < #[trigger] t[k].id < next && t[k].created <= t[k].updated by {
        assert(t[k] == s[if k < i { k } else { k + 1 }]);
    }
    assert(rows_wf(t, next));
    if has_id(t, s[i].id) {
        let k = choose|k: int| 0 <= k < t.len() && t[k].id == s[i].id;
        let k0 = if k < i { k } else { k + 1 };
        assert(t[k] == s[k0]);
        if k0 < i {
            assert(s[k0].id != s[i].id);
        } else {
            assert(s[i].id != s[k0].id);
        }
    }
    if other != s[i].id {
        if has_id(s, other) {
            let j = choose|j: int| 0 <= j < s.len() && s[j].id == other;
            lemma_index_of_unique(s, next, j);
            let j1 = if j < i { j } else { j - 1 };
            assert(j != i);
            assert(t[j1] == s[j]);
            lemma_index_of_unique(t, next, j1);
        } else if has_id(t, other) {
            let k = choose|k: int| 0 <= k < t.len() && t[k].id == other;
            assert(t[k] == s[if k < i { k } else { k + 1 }]);
        }
    }
}

/// Replacing the post at position `i` by one with the same identity makes
/// that the post found under the identity, and leaves every other post as it
/// was.
pub proof fn lemma_update_keeps_others(s: Seq<PostView>, next: int, next2: int, i: int, p: PostView, other: int)
    requires
        rows_wf(s, next),
        rows_wf(s.update(i, p), next2),
        0 <= i < s.len(),
        s[i].id == p.id,
    ensures
        lookup(s.update(i, p), p.id) == Some(p),
        other != p.id ==> lookup(s.update(i, p), other) == lookup(s, other),
{
    let t = s.update(i, p);
    lemma_index_of_unique(t, next2, i);
    if other != p.id {
        if has_id(s, other) {
            let j = choose|j: int| 0 <= j < s.len() && s[j].id == other;
            lemma_index_of_unique(s, next, j);
            assert(t[j] == s[j]);
            lemma_index_of_unique(t, next2, j);
        } else if has_id(t, other) {
            let k = choose|k: int| 0 <= k < t.len() && t[k].id == other;
            assert(t[k] == s[k]);
        }
    }
}

/// The posts of a blog, newest first.
pub struct PostStore {
    posts: Vec<Post>,
    next_id: i64,
}

impl View for PostStore {
    type V = Seq<PostView>;

    closed spec fn view(&self) -> Seq<PostView> {
        self.posts@.map_values(|p: Post| p@)
    }
}

impl PostStore {
    /// A bound above every stored identity.
    pub closed spec fn next_bound(&self) -> int {
        self.next_id as int
    }

    /// Whether a fresh identity is left for another insert.
    pub closed spec fn has_room(&self) -> bool {
        self.next_id < i64::MAX
    }

    pub closed spec fn wf(&self) -> bool {
        &&& 0 < self.next_id
        &&& rows_wf(self@, self.next_id as int)
    }

    pub proof fn lemma_wf_rows(&self)
        requires
            self.wf(),
        ensures
            rows_wf(self@, self.next_bound()),
    {
    }

    /// An empty store.
    pub fn new() -> (r: PostStore)
        ensures
            r.wf(),
            r.has_room(),
            r@.len() == 0,
    {
        PostStore { posts: Vec::new(), next_id: 1 }
    }

    /// How many posts are stored.
    pub fn count(&self) -> (r: usize)
        ensures
            r == self@.len(),
    {
        self.posts.len()
    }

    /// A copy of the post at position `i` of the listing.
    pub fn nth(&self, i: usize) -> (r: Post)
        requires
            i < self@.len(),
        ensures
            r@ == self@[i as int],
    {
        self.posts[i].copy()
    }

    fn position(&self, id: i64) -> (r: Option<usize>)
        requires
            self.wf(),
        ensures
            match r {
                Some(i) => {
                    &&& i < self@.len()
                    &&& index_of(self@, id as int) == Some(i as int)
                    &&& self@[i as int].id == id
                },
                None => index_of(self@, id as int) is None,
            },
    {
        let mut i: usize = 0;
        while i < self.posts.len()
            invariant
                self.wf(),
                i <= self@.len(),
                forall|k: int| 0 <= k < i ==> self@[k].id != id,
            decreases self@.len() - i,
        {
            if self.posts[i].id == id {
                proof { lemma_index_of_unique(self@, self.next_id as int, i as int); }
                return Some(i);
            }
            i = i + 1;
        }
        None
    }

    /// The stored post with identity `id`.
    pub fn get(&self, id: i64) -> (r: Option<Post>)
        requires
            self.wf(),
        ensures
            match r {
                Some(p) => lookup(self@, id as int) == Some(p@),
                None => lookup(self@, id as int) is None,
            },
    {
        match self.position(id) {
            Some(i) => {
                assert(self@[i as int] == self.posts@[i as int]@);
                Some(self.posts[i].copy())
            },
            None => None,
        }
    }

    /// Stores a new post ahead of all others and returns its fresh identity.
    pub fn insert(&mut self, created: i64, updated: i64, content: String) -> (r: Result<i64, StoreError>)
        requires
            old(self).wf(),
            created <= updated,
        ensures
            final(self).wf(),
            r is Ok <==> old(self).has_room(),
            match r {
                Ok(id) => {
                    &&& 0 < id
                    &&& !has_id(old(self)@, id as int)
                    &&& final(self)@ == seq![PostView { id: id as int, created: created as int, updated: updated as int, content: content@ }] + old(self)@
                },
                Err(e) => e == StoreError::IdsExhausted && final(self)@ == old(self)@,
            },
    {
        if self.next_id == i64::MAX {
            return Err(StoreError::IdsExhausted);
        }
        let id = self.next_id;
        let ghost before = self@;
        let post = Post { id, created, updated, content };
        self.posts.insert(0, post);
        self.next_id = id + 1;
        proof {
            assert(self@ =~= seq![post@] + before);
            assert forall|i: int| 0 <= i < before.len() implies before[i].id != id as int by {
                assert(before[i].id < id);
            }
            assert(!has_id(before, id as int));
            assert forall|i: int, j: int| 0 <= i < j < self@.len() implies #[trigger] self@[i].id != #[trigger] self@[j].id by {
                if i > 0 {
                    assert(self@[i] == before[i - 1]);
                }
                assert(self@[j] == before[j - 1]);
            }
        }
        Ok(id)
    }

    /// Replaces the stored post whose identity is `post.id` by `post`.
    pub fn update(&mut self, post: Post) -> (r: Result<(), StoreError>)
        requires
            old(self).wf(),
            post.created <= post.updated,
        ensures
            final(self).wf(),
            final(self).has_room() == old(self).has_room(),
            match index_of(old(self)@, post.id as int) {
                Some(i) => r is Ok && final(self)@ == old(self)@.update(i, post@),
                None => r == Err::<(), StoreError>(StoreError::Missing) && final(self)@ == old(self)@,
            },
    {
        match self.position(post.id) {
            Some(i) => {
                let ghost before = self@;
                let ghost pv = post@;
                self.posts.set(i, post);
                proof {
                    assert(self@ =~= before.update(i as int, pv));
                    assert forall|a: int, b: int| 0 <= a < b < self@.len() implies #[trigger] self@[a].id != #[trigger] self@[b].id by {
                        assert(before[i as int].id == pv.id);
                        if a != i as int && b != i as int {
                            assert(before[a].id != before[b].id);
                        } else if a == i as int {
                            assert(before[i as int].id != before[b].id);
                        } else {
                            assert(before[a].id != before[i as int].id);
                        }
                    }
                }
                Ok(())
            },
            None => Err(StoreError::Missing),
        }
    }

    /// Removes the post with identity `id`; nothing changes when there is none.
    pub fn delete(&mut self, id: i64) -> (r: Result<(), StoreError>)
        requires
            old(self).wf(),
        ensures
            final(self).wf(),
            final(self).has_room() == old(self).has_room(),
            r is Ok,
            match index_of(old(self)@, id as int) {
                Some(i) => final(self)@ == old(self)@.remove(i),
                None => final(self)@ == old(self)@,
            },
    {
        match self.position(id) {
            Some(i) => {
                let ghost before = self@;
                self.posts.remove(i);
                proof {
                    assert(self@ =~= before.remove(i as int));
                    assert forall|a: int, b: int| 0 <= a < b < self@.len() implies #[trigger] self@[a].id != #[trigger] self@[b].id by {
                        let a0 = if a < i { a } else { a + 1 };
                        let b0 = if b < i { b } else { b + 1 };
                        assert(self@[a] == before[a0]);
                        assert(self@[b] == before[b0]);
                        assert(before[a0].id != before[b0].id);
                    }
                    assert forall|k: int| 0 <= k < self@.len() implies 0 < #[trigger] self@[k].id < self.next_id && self@[k].created <= self@[k].updated by {
                        let k0 = if k < i { k } else { k + 1 };
                        assert(self@[k] == before[k0]);
                    }
                }
                Ok(())
            },
            None => Ok(()),
        }
    }
}

} // verus!
