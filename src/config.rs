//! Process configuration, the canonical origin, the login gate and the
//! session-signing secret.
use vstd::prelude::*;
use crate::form::LoginForm;
use crate::text::{trim, trim_end_slashes, trimmed, trimmed_lines, trimmed_lines_of, without_trailing_slashes};

verus! {

/// Settings read once at startup.
pub struct ServeArgs {
    pub port: u16,
    pub domain: String,
    pub username: String,
    pub password: Option<String>,
    pub production: bool,
    pub extra_head: String,
}

/// How many bytes the session-signing secret has.
pub const SALT_LEN: usize = 22;

/// What every request handler and job is handed: the settings and the
/// session-signing secret.
pub struct ServerContext {
    pub args: ServeArgs,
    pub salt: Vec<u8>,
}

pub open spec fn https_prefix() -> Seq<char> {
    seq!['h', 't', 't', 'p', 's', ':', '/', '/']
}

/// The canonical origin for a configured domain: empty when none is set.
pub open spec fn base_url_of(domain: Seq<char>) -> Seq<char> {
    if domain.len() == 0 {
        Seq::empty()
    } else {
        https_prefix() + trim_end_slashes(trim(domain))
    }
}

impl ServerContext {
    pub fn new(args: ServeArgs, salt: Vec<u8>) -> (r: ServerContext)
        ensures
            r.args == args,
            r.salt == salt,
    {
        ServerContext { args, salt }
    }

    /// The canonical HTTPS origin of the server, as in `https://example.com`.
    pub fn base_url(&self) -> (r: String)
        ensures
            r@ == base_url_of(self.args.domain@),
    {
        if self.args.domain.as_str().is_empty() {
            String::new()
        } else {
            let t = trimmed(self.args.domain.as_str());
            let d = without_trailing_slashes(t.as_str());
            let r = String::from_str("https://");
            proof { reveal_strlit("https://"); }
            r.concat(d.as_str())
        }
    }

    /// The administrator's username and password, when a password is set.
    pub fn admin_login(&self) -> (r: Option<(String, String)>)
        ensures
            match r {
                Some(l) => self.args.password matches Some(p) && l.0@ == self.args.username@ && l.1@ == p@,
                None => self.args.password is None,
            },
    {
        match &self.args.password {
            Some(p) => Some((self.args.username.clone(), p.clone())),
            None => None,
        }
    }
}

/// Whether a request is treated as the administrator's: only where a password
/// is configured and the session check for the administrator succeeded.
pub fn is_logged_in(ctx: &ServerContext, session_valid: bool) -> (r: bool)
    ensures
        r == (ctx.args.password is Some && session_valid),
{
    ctx.args.password.is_some() && session_valid
}

/// Where the session-signing secret comes from.
pub enum SaltSource {
    /// The fixed development secret, outside production.
    Development,
    /// The secret kept in the key-value store.
    Stored(Vec<u8>),
    /// A fresh secret, to be generated and then kept.
    Generate,
    /// The kept value has the wrong length.
    Corrupt,
}

/// The fixed secret used outside production, so that logins survive restarts.
pub fn development_salt() -> (r: Vec<u8>)
    ensures
        r@.len() == SALT_LEN,
{
    let b = "nblVMlxYtvt0rxo3BML3zw".as_bytes();
    proof {
        reveal_strlit("nblVMlxYtvt0rxo3BML3zw");
        vstd::string::is_ascii_spec_bytes("nblVMlxYtvt0rxo3BML3zw");
    }
    let mut r: Vec<u8> = Vec::new();
    let mut i: usize = 0;
    while i < b.len()
        invariant
            b@.len() == SALT_LEN,
            i <= b@.len(),
            r@ == b@.subrange(0, i as int),
        decreases b@.len() - i,
    {
        r.push(b[i]);
        i = i + 1;
    }
    r
}

/// Where the secret comes from: the development constant outside production;
/// in production the kept value when there is one of the right length, a
/// fresh one when none is kept.
pub fn salt_source(production: bool, stored: Option<Vec<u8>>) -> (r: SaltSource)
    ensures
        !production ==> r is Development,
        production ==> match stored {
            Some(v) => if v@.len() == SALT_LEN { r == SaltSource::Stored(v) } else { r is Corrupt },
            None => r is Generate,
        },
{
    if !production {
        SaltSource::Development
    } else {
        match stored {
            Some(v) => if v.len() == SALT_LEN { SaltSource::Stored(v) } else { SaltSource::Corrupt },
            None => SaltSource::Generate,
        }
    }
}

/// The feed sources that the stored feed setting names: one per line, each
/// trimmed.
pub fn feed_sources(setting: &str) -> (r: Vec<String>)
    ensures
        r@.map_values(|x: String| x@) == trimmed_lines(setting@),
{
    trimmed_lines_of(setting)
}

/// What a login attempt comes to.
#[derive(PartialEq, Eq, Structural, Debug, Clone, Copy)]
pub enum LoginDecision {
    /// No administrator password is configured: nobody can log in.
    NoPassword,
    /// The submitted credentials are not the administrator's.
    Rejected,
    /// The submitted credentials are the administrator's.
    Accepted,
}

/// Whether a submitted login form holds the administrator's credentials.
pub fn post_login(ctx: &ServerContext, form: &LoginForm) -> (r: LoginDecision)
    ensures
        match ctx.args.password {
            None => r == LoginDecision::NoPassword,
            Some(p) => (r == LoginDecision::Accepted) == (form.username@ == ctx.args.username@ && form.password@ == p@)
                && (r == LoginDecision::Accepted || r == LoginDecision::Rejected),
        },
{
    match &ctx.args.password {
        None => LoginDecision::NoPassword,
        Some(p) => {
            if form.username == ctx.args.username && form.password == *p {
                LoginDecision::Accepted
            } else {
                LoginDecision::Rejected
            }
        },
    }
}

} // verus!
