//! Submitted forms: urlencoded bodies, their fields, and the publish marker.
use vstd::prelude::*;
use crate::text::{chars_of, contains, contains_text};

verus! {

/// The decoded `name=value` pairs of an `application/x-www-form-urlencoded`
/// body, in order, or `None` where the body does not decode.
pub uninterp spec fn form_pairs(body: Seq<char>) -> Option<Seq<(Seq<char>, Seq<char>)>>;

pub open spec fn pairs_view(v: Seq<(String, String)>) -> Seq<(Seq<char>, Seq<char>)> {
    v.map_values(|p: (String, String)| (p.0@, p.1@))
}

/// Relies on `serde_urlencoded::from_str` into `Vec<(String, String)>`: the
/// body's pairs, percent-decoded, in the order they stand.
#[verifier::external_body]
fn decode_pairs(body: &str) -> (r: Option<Vec<(String, String)>>)
    ensures
        form_pairs(body@) == match r {
            Some(v) => Some(pairs_view(v@)),
            None => None::<Seq<(Seq<char>, Seq<char>)>>,
        },
{
    serde_urlencoded::from_str::<Vec<(String, String)>>(body).ok()
}

/// The value of the first pair named `key`.
pub open spec fn first_value(pairs: Seq<(Seq<char>, Seq<char>)>, key: Seq<char>) -> Option<Seq<char>>
    decreases pairs.len(),
{
    if pairs.len() == 0 {
        None
    } else if pairs[0].0 == key {
        Some(pairs[0].1)
    } else {
        first_value(pairs.drop_first(), key)
    }
}

/// The value of the first pair of `pairs` named `key`.
pub fn field_value(pairs: &Vec<(String, String)>, key: &str) -> (r: Option<String>)
    ensures
        match r {
            Some(v) => first_value(pairs_view(pairs@), key@) == Some(v@),
            None => first_value(pairs_view(pairs@), key@) is None,
        },
{
    let k = String::from_str(key);
    let mut i: usize = 0;
    assert(pairs_view(pairs@).subrange(0, pairs@.len() as int) =~= pairs_view(pairs@));
    while i < pairs.len()
        invariant
            k@ == key@,
            i <= pairs@.len(),
            first_value(pairs_view(pairs@), key@) == first_value(pairs_view(pairs@).subrange(i as int, pairs@.len() as int), key@),
        decreases pairs@.len() - i,
    {
        let ghost rest = pairs_view(pairs@).subrange(i as int, pairs@.len() as int);
        assert(rest[0] == (pairs@[i as int].0@, pairs@[i as int].1@));
        if pairs[i].0 == k {
            return Some(pairs[i].1.clone());
        }
        assert(rest.drop_first() =~= pairs_view(pairs@).subrange(i + 1, pairs@.len() as int));
        i = i + 1;
    }
    None
}

/// The marker that a publish submission carries in its raw body.
pub open spec fn publish_marker() -> Seq<char> {
    seq!['p', 'u', 'b', 'l', 'i', 's', 'h', '=', 'P', 'u', 'b', 'l', 'i', 's', 'h']
}

/// Whether a submitted body asks to publish rather than preview.
pub fn is_publish(body: &str) -> (r: bool)
    ensures
        r == contains(body@, publish_marker()),
{
    let marker = "publish=Publish";
    proof { reveal_strlit("publish=Publish"); }
    assert(marker@ =~= publish_marker());
    contains_text(&chars_of(body), &chars_of(marker))
}

pub open spec fn content_key() -> Seq<char> {
    seq!['c', 'o', 'n', 't', 'e', 'n', 't']
}

/// The body of an edit form.
pub struct EditPostForm {
    pub content: String,
}

/// The body of a new-post form.
pub struct AddPostForm {
    pub content: String,
}

/// The body of a login form.
pub struct LoginForm {
    pub username: String,
    pub password: String,
}

/// The `content` field of a decoded form.
pub open spec fn content_of(pairs: Option<Seq<(Seq<char>, Seq<char>)>>) -> Option<Seq<char>> {
    match pairs {
        Some(ps) => first_value(ps, content_key()),
        None => None,
    }
}

fn content_field(pairs: &Vec<(String, String)>) -> (r: Option<String>)
    ensures
        match r {
            Some(v) => first_value(pairs_view(pairs@), content_key()) == Some(v@),
            None => first_value(pairs_view(pairs@), content_key()) is None,
        },
{
    proof { reveal_strlit("content"); }
    assert("content"@ =~= content_key());
    field_value(pairs, "content")
}

impl EditPostForm {
    /// The form held by decoded pairs: the first `content` field.
    pub fn from_pairs(pairs: &Vec<(String, String)>) -> (r: Option<EditPostForm>)
        ensures
            match r {
                Some(f) => first_value(pairs_view(pairs@), content_key()) == Some(f.content@),
                None => first_value(pairs_view(pairs@), content_key()) is None,
            },
    {
        match content_field(pairs) {
            Some(content) => Some(EditPostForm { content }),
            None => None,
        }
    }

    /// The form in an urlencoded body.
    pub fn parse(body: &str) -> (r: Option<EditPostForm>)
        ensures
            match r {
                Some(f) => content_of(form_pairs(body@)) == Some(f.content@),
                None => content_of(form_pairs(body@)) is None,
            },
    {
        match decode_pairs(body) {
            Some(pairs) => EditPostForm::from_pairs(&pairs),
            None => None,
        }
    }
}

impl AddPostForm {
    /// The form held by decoded pairs: the first `content` field.
    pub fn from_pairs(pairs: &Vec<(String, String)>) -> (r: Option<AddPostForm>)
        ensures
            match r {
                Some(f) => first_value(pairs_view(pairs@), content_key()) == Some(f.content@),
                None => first_value(pairs_view(pairs@), content_key()) is None,
            },
    {
        match content_field(pairs) {
            Some(content) => Some(AddPostForm { content }),
            None => None,
        }
    }

    /// The form in an urlencoded body.
    pub fn parse(body: &str) -> (r: Option<AddPostForm>)
        ensures
            match r {
                Some(f) => content_of(form_pairs(body@)) == Some(f.content@),
                None => content_of(form_pairs(body@)) is None,
            },
    {
        match decode_pairs(body) {
            Some(pairs) => AddPostForm::from_pairs(&pairs),
            None => None,
        }
    }
}

pub open spec fn username_key() -> Seq<char> {
    seq!['u', 's', 'e', 'r', 'n', 'a', 'm', 'e']
}

pub open spec fn password_key() -> Seq<char> {
    seq!['p', 'a', 's', 's', 'w', 'o', 'r', 'd']
}

impl LoginForm {
    /// The form held by decoded pairs: the first `username` and `password`
    /// fields, both required.
    pub fn from_pairs(pairs: &Vec<(String, String)>) -> (r: Option<LoginForm>)
        ensures
            match r {
                Some(f) => {
                    &&& first_value(pairs_view(pairs@), username_key()) == Some(f.username@)
                    &&& first_value(pairs_view(pairs@), password_key()) == Some(f.password@)
                },
                None => first_value(pairs_view(pairs@), username_key()) is None
                    || first_value(pairs_view(pairs@), password_key()) is None,
            },
    {
        proof {
            reveal_strlit("username");
            reveal_strlit("password");
        }
        assert("username"@ =~= username_key());
        assert("password"@ =~= password_key());
        match (field_value(pairs, "username"), field_value(pairs, "password")) {
            (Some(username), Some(password)) => Some(LoginForm { username, password }),
            _ => None,
        }
    }

    /// The form in an urlencoded body.
    pub fn parse(body: &str) -> (r: Option<LoginForm>)
        ensures
            match r {
                Some(f) => form_pairs(body@) matches Some(ps) && first_value(ps, username_key()) == Some(f.username@)
                    && first_value(ps, password_key()) == Some(f.password@),
                None => match form_pairs(body@) {
                    Some(ps) => first_value(ps, username_key()) is None || first_value(ps, password_key()) is None,
                    None => true,
                },
            },
    {
        match decode_pairs(body) {
            Some(pairs) => LoginForm::from_pairs(&pairs),
            None => None,
        }
    }
}

} // verus!
