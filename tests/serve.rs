use fx_serve::config::{development_salt, feed_sources, post_login, salt_source, LoginDecision, SaltSource, SALT_LEN};
use fx_serve::feeds::FeedCache;
use fx_serve::form::is_publish;
use fx_serve::listing::{list_posts, next_href, page_window, prev_href, requested_page_of};
use fx_serve::page::{cache_control, canonical_url, post_meta, transport_security};
use fx_serve::store::{Post, PostStore, StoreError};
use fx_serve::text::{parse_i64_text, signed_decimal_text};
use fx_serve::workflow::{
    post_add, post_edit, get_delete, get_edit, get_post, get_post_with_slug, post_delete, post_path_of, Reply,
};
use fx_serve::{is_logged_in, trim_newline_suffix, AddPostForm, EditPostForm, LoginForm, ServeArgs, ServerContext};

fn args(domain: &str, password: Option<&str>, production: bool) -> ServeArgs {
    ServeArgs {
        port: 3000,
        domain: domain.to_string(),
        username: "admin".to_string(),
        password: password.map(|p| p.to_string()),
        production,
        extra_head: String::new(),
    }
}

fn store_with(n: usize) -> PostStore {
    let mut store = PostStore::new();
    for i in 0..n {
        store.insert(i as i64, i as i64, format!("post {i}\n")).unwrap();
    }
    store
}

fn see_other(r: &Reply) -> Option<String> {
    match r {
        Reply::SeeOther(s) => Some(s.clone()),
        _ => None,
    }
}

#[test]
fn trim_newline_suffix_normalizes_whitespace() {
    assert_eq!(trim_newline_suffix("  # Hi \n\n"), "# Hi\n");
    assert_eq!(trim_newline_suffix("# Hi\n"), "# Hi\n");
    assert_eq!(trim_newline_suffix(""), "\n");
    assert_eq!(trim_newline_suffix("\t\r\n a\u{3000}"), "a\n");
}

#[test]
fn page_window_clamps_to_total() {
    let w = page_window(1, 25);
    assert_eq!((w.start, w.end, w.has_next), (0, 10, true));
    let w = page_window(3, 25);
    assert_eq!((w.start, w.end, w.has_next), (20, 25, false));
    let w = page_window(2, 20);
    assert_eq!((w.start, w.end, w.has_next), (10, 20, false));
    let w = page_window(1, 11);
    assert_eq!((w.start, w.end, w.has_next), (0, 10, true));
    let w = page_window(5, 3);
    assert_eq!((w.start, w.end, w.has_next), (3, 3, false));
    let w = page_window(usize::MAX, 5);
    assert_eq!((w.start, w.end, w.has_next), (5, 5, false));
}

#[test]
fn listing_pages_and_links() {
    let store = store_with(11);
    let first = list_posts(&store, None);
    assert_eq!(first.page, 1);
    assert_eq!(first.posts.len(), 10);
    assert!(first.has_next);
    assert!(first.show_about);
    assert_eq!(first.prev, None);
    assert_eq!(first.next.as_deref(), Some("/?page=2"));
    assert_eq!(first.posts[0].content, "post 10\n");

    let explicit = list_posts(&store, Some(1));
    assert_eq!(explicit.page, 1);
    assert!(!explicit.show_about);
    assert_eq!(explicit.prev, first.prev);
    assert_eq!(explicit.next, first.next);

    let second = list_posts(&store, Some(2));
    assert_eq!(second.posts.len(), 1);
    assert!(!second.has_next);
    assert_eq!(second.prev.as_deref(), Some("/"));
    assert_eq!(second.next, None);
    assert_eq!(second.posts[0].content, "post 0\n");

    let far = list_posts(&store, Some(7));
    assert_eq!(far.posts.len(), 0);
    assert_eq!(far.next, None);
    assert_eq!(far.prev.as_deref(), Some("/?page=6"));
}

#[test]
fn listing_of_empty_store() {
    let store = PostStore::new();
    let l = list_posts(&store, None);
    assert_eq!(l.posts.len(), 0);
    assert!(!l.has_next);
    assert_eq!(requested_page_of(Some(0)), 1);
}

#[test]
fn navigation_targets() {
    assert_eq!(prev_href(1), None);
    assert_eq!(prev_href(2).as_deref(), Some("/"));
    assert_eq!(prev_href(12).as_deref(), Some("/?page=11"));
    assert_eq!(next_href(9, true).as_deref(), Some("/?page=10"));
    assert_eq!(next_href(9, false), None);
}

#[test]
fn publish_new_post() {
    let mut store = store_with(2);
    let out = post_add(&mut store, true, "content=%23+Hi%0A&publish=Publish", 50);
    assert!(out.backup);
    assert_eq!(see_other(&out.reply).as_deref(), Some("/?reset_forms=true"));
    assert_eq!(store.count(), 3);
    let p = store.nth(0);
    assert_eq!(p.content, "# Hi\n");
    assert_eq!((p.created, p.updated), (50, 50));
    assert_eq!(p.id, 3);
}

#[test]
fn publish_normalizes_trailing_whitespace() {
    let mut store = PostStore::new();
    let out = post_add(&mut store, true, "content=%23+Hi%0A%0A++&publish=Publish", 7);
    assert!(out.backup);
    assert_eq!(store.nth(0).content, "# Hi\n");
}

#[test]
fn preview_stores_nothing() {
    let mut store = store_with(2);
    let out = post_add(&mut store, true, "content=%23+Draft&preview=Preview", 50);
    assert!(!out.backup);
    assert_eq!(store.count(), 2);
    match out.reply {
        Reply::Preview(p) => {
            assert_eq!(p.id, 0);
            assert_eq!(p.content, "# Draft");
            assert_eq!((p.created, p.updated), (50, 50));
        }
        _ => panic!("expected a preview"),
    }
}

#[test]
fn add_without_session_is_not_found() {
    let mut store = store_with(1);
    let out = post_add(&mut store, false, "content=x&publish=Publish", 1);
    assert!(matches!(out.reply, Reply::NotFound));
    assert!(!out.backup);
    assert_eq!(store.count(), 1);
}

#[test]
fn add_without_content_field_is_server_error() {
    let mut store = store_with(1);
    let out = post_add(&mut store, true, "title=x&publish=Publish", 1);
    assert!(matches!(out.reply, Reply::ServerError(_)));
    assert!(!out.backup);
    assert_eq!(store.count(), 1);
}

#[test]
fn edit_publish_keeps_created() {
    let mut store = store_with(3);
    let out = post_edit(&mut store, true, 2, "content=new+text+&publish=Publish", 100);
    assert!(out.backup);
    assert_eq!(see_other(&out.reply).as_deref(), Some("/posts/2"));
    assert_eq!(store.count(), 3);
    let p = match get_edit(&store, 2) {
        Reply::EditForm(p) => p,
        _ => panic!("expected the edit form"),
    };
    assert_eq!((p.id, p.created, p.updated), (2, 1, 100));
    assert_eq!(p.content, "new text\n");
}

#[test]
fn edit_never_updates_before_creation() {
    let mut store = PostStore::new();
    store.insert(500, 500, "a\n".to_string()).unwrap();
    let out = post_edit(&mut store, true, 1, "content=b&publish=Publish", 100);
    assert!(out.backup);
    let p = store.nth(0);
    assert_eq!((p.created, p.updated), (500, 500));
}

#[test]
fn edit_preview_stores_nothing() {
    let mut store = store_with(3);
    let out = post_edit(&mut store, true, 2, "content=draft", 100);
    assert!(!out.backup);
    match out.reply {
        Reply::Preview(p) => {
            assert_eq!(p.id, 0);
            assert_eq!(p.content, "draft\n");
            assert_eq!(p.created, 1);
        }
        _ => panic!("expected a preview"),
    }
    assert_eq!(store.nth(1).content, "post 1\n");
}

#[test]
fn edit_of_missing_post_fails() {
    let mut store = store_with(1);
    let out = post_edit(&mut store, true, 9, "content=x&publish=Publish", 100);
    assert!(matches!(out.reply, Reply::ServerError(_)));
    assert!(!out.backup);
    assert_eq!(store.count(), 1);
    let out = post_edit(&mut store, false, 1, "content=x&publish=Publish", 100);
    assert!(matches!(out.reply, Reply::NotFound));
}

#[test]
fn delete_removes_only_that_post() {
    let mut store = store_with(3);
    let out = post_delete(&mut store, true, 2);
    assert!(out.backup);
    assert_eq!(see_other(&out.reply).as_deref(), Some("/"));
    assert_eq!(store.count(), 2);
    assert!(store.get(2).is_none());
    assert_eq!(store.get(1).unwrap().content, "post 0\n");
    assert_eq!(store.get(3).unwrap().content, "post 2\n");
}

#[test]
fn delete_of_missing_post_changes_nothing() {
    let mut store = store_with(3);
    let out = post_delete(&mut store, true, 42);
    assert!(out.backup);
    assert_eq!(store.count(), 3);
    for id in 1..=3 {
        assert!(store.get(id).is_some());
    }
}

#[test]
fn delete_without_session() {
    let mut store = store_with(2);
    let out = post_delete(&mut store, false, 1);
    assert!(matches!(out.reply, Reply::Unauthorized));
    assert!(!out.backup);
    assert_eq!(store.count(), 2);
    assert!(matches!(get_delete(&store, false, 1), Reply::NotFound));
    assert!(matches!(get_delete(&store, true, 1), Reply::ConfirmDelete(_)));
    assert!(matches!(get_delete(&store, true, 5), Reply::NotFound));
}

#[test]
fn view_by_path_segment() {
    let store = store_with(2);
    assert!(matches!(get_post(&store, "1"), Reply::Show(p) if p.id == 1));
    assert!(matches!(get_post(&store, "+2"), Reply::Show(p) if p.id == 2));
    assert!(matches!(get_post(&store, "3"), Reply::NotFound));
    assert!(matches!(get_post(&store, "abc"), Reply::NotFound));
    assert!(matches!(get_post(&store, ""), Reply::NotFound));
    assert!(matches!(get_post(&store, "99999999999999999999"), Reply::NotFound));
}

#[test]
fn slug_redirects_to_identity() {
    assert!(matches!(get_post_with_slug(7, "any-title"), Reply::PermanentRedirect(s) if s == "/posts/7"));
    assert_eq!(post_path_of(-3), "/posts/-3");
}

#[test]
fn integer_text() {
    assert_eq!(parse_i64_text("42"), Some(42));
    assert_eq!(parse_i64_text("-42"), Some(-42));
    assert_eq!(parse_i64_text("9223372036854775807"), Some(i64::MAX));
    assert_eq!(parse_i64_text("-9223372036854775808"), Some(i64::MIN));
    assert_eq!(parse_i64_text("9223372036854775808"), None);
    assert_eq!(parse_i64_text("-"), None);
    assert_eq!(parse_i64_text("1 "), None);
    assert_eq!(signed_decimal_text(i64::MIN), "-9223372036854775808");
    assert_eq!(signed_decimal_text(0), "0");
}

#[test]
fn base_url_from_domain() {
    let ctx = ServerContext::new(args("", None, false), vec![]);
    assert_eq!(ctx.base_url(), "");
    let ctx = ServerContext::new(args(" example.com/ ", None, false), vec![]);
    assert_eq!(ctx.base_url(), "https://example.com");
    let ctx = ServerContext::new(args("example.com//", None, false), vec![]);
    assert_eq!(ctx.base_url(), "https://example.com");
    assert_eq!(canonical_url(&ctx, 5), "https://example.com/posts/5");
}

#[test]
fn login_requires_configured_password() {
    let ctx = ServerContext::new(args("", None, false), vec![]);
    assert!(!is_logged_in(&ctx, true));
    assert!(ctx.admin_login().is_none());
    let ctx = ServerContext::new(args("", Some("pw"), false), vec![]);
    assert!(is_logged_in(&ctx, true));
    assert!(!is_logged_in(&ctx, false));
    assert_eq!(ctx.admin_login(), Some(("admin".to_string(), "pw".to_string())));
}

#[test]
fn salt_sources() {
    assert!(matches!(salt_source(false, None), SaltSource::Development));
    assert!(matches!(salt_source(true, None), SaltSource::Generate));
    assert!(matches!(salt_source(true, Some(vec![1; SALT_LEN])), SaltSource::Stored(v) if v == vec![1; SALT_LEN]));
    assert!(matches!(salt_source(true, Some(vec![1; 3])), SaltSource::Corrupt));
    assert_eq!(development_salt(), b"nblVMlxYtvt0rxo3BML3zw".to_vec());
}

#[test]
fn forms_decode() {
    let f = LoginForm::parse("username=ad%20min&password=p%26w").unwrap();
    assert_eq!((f.username.as_str(), f.password.as_str()), ("ad min", "p&w"));
    assert!(LoginForm::parse("username=x").is_none());
    assert_eq!(EditPostForm::parse("content=a+b%0Ac").unwrap().content, "a b\nc");
    assert_eq!(AddPostForm::parse("content=first&content=second").unwrap().content, "first");
    assert!(AddPostForm::parse("other=1").is_none());
    assert!(is_publish("content=x&publish=Publish"));
    assert!(!is_publish("content=publish&publish=Preview"));
}

#[test]
fn post_page_announcements() {
    let ctx = ServerContext::new(args("example.org", None, false), vec![]);
    let post = Post { id: 4, created: 0, updated: 86_400 + 3_661, content: "x\n".to_string() };
    let meta = post_meta(&ctx, &post);
    assert_eq!(meta.canonical, "https://example.org/posts/4");
    assert_eq!(meta.created.as_deref(), Some("1970-01-01T00:00:00Z"));
    assert_eq!(meta.updated.as_deref(), Some("1970-01-02T01:01:01Z"));
}

#[test]
fn response_headers() {
    assert_eq!(cache_control(600), "public, max-age=600, must-revalidate");
    assert_eq!(transport_security(true), Some("max-age=604800; preload"));
    assert_eq!(transport_security(false), None);
}

#[test]
fn store_identities() {
    let mut store = PostStore::new();
    assert_eq!(store.insert(1, 2, "a".to_string()), Ok(1));
    assert_eq!(store.insert(1, 2, "b".to_string()), Ok(2));
    let p = Post { id: 9, created: 0, updated: 0, content: String::new() };
    assert_eq!(store.update(p), Err(StoreError::Missing));
    assert_eq!(store.delete(9), Ok(()));
}

#[test]
fn feed_sources_from_setting() {
    assert_eq!(feed_sources(" https://a.example/feed \r\nhttps://b.example/rss\n"), vec!["https://a.example/feed", "https://b.example/rss"]);
    assert_eq!(feed_sources(""), Vec::<String>::new());
    assert_eq!(feed_sources("a\n\nb"), vec!["a", "", "b"]);
}

#[test]
fn login_decisions() {
    let form = LoginForm { username: "admin".to_string(), password: "pw".to_string() };
    let ctx = ServerContext::new(args("", None, false), vec![]);
    assert_eq!(post_login(&ctx, &form), LoginDecision::NoPassword);
    let ctx = ServerContext::new(args("", Some("pw"), false), vec![]);
    assert_eq!(post_login(&ctx, &form), LoginDecision::Accepted);
    let wrong = LoginForm { username: "admin".to_string(), password: "pW".to_string() };
    assert_eq!(post_login(&ctx, &wrong), LoginDecision::Rejected);
}

#[test]
fn feed_refresh_keeps_content_of_failed_sources() {
    let mut cache = FeedCache::new(vec!["a".to_string(), "b".to_string(), "c".to_string()]);
    assert_eq!(cache.len(), 3);
    assert_eq!(cache.source(1), "b");
    assert_eq!(cache.entry(0), None);
    cache.apply_refresh(vec![Some("a1".to_string()), Some("b1".to_string()), None]);
    cache.apply_refresh(vec![Some("a2".to_string()), None, None]);
    assert_eq!(cache.entry(0).as_deref(), Some("a2"));
    assert_eq!(cache.entry(1).as_deref(), Some("b1"));
    assert_eq!(cache.entry(2), None);
}
