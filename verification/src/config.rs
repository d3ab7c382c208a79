//! The application's configuration and what is derived from it: the session
//! store URL, the session cookie name, the database connection string and the
//! extra CORS headers.

use crate::text::{
    decimal_string, decimal_text, split_on, split_text, strip_trailing, strip_trailing_text, texts,
    trim_text, trimmed,
};
use vstd::prelude::*;

verus! {

/// Where the HTTP server listens.
#[derive(Debug, Clone)]
pub struct AppServerConfig {
    pub port: u16,
    pub host: String,
}

/// How much is logged.
#[derive(Debug, Clone)]
pub struct LoggingConfig {
    pub level: String,
}

/// How to reach the database and size its pool.
#[derive(Debug, Clone)]
pub struct DatabaseConfig {
    pub host: String,
    pub port: String,
    pub name: String,
    pub username: String,
    pub password: String,
    pub max_connections: u32,
    pub connect_timeout: u64,
    pub acquire_timeout: u64,
    pub idle_timeout: u64,
    pub max_lifetime: u64,
    pub sqlx_logging: bool,
}

/// How to reach the session store's database.
#[derive(Debug, Clone)]
pub struct SessionDatabaseConfig {
    pub host: String,
    pub port: String,
    pub password: String,
    pub username: String,
    pub db: u8,
}

/// How sessions are stored and named.
#[derive(Debug, Clone)]
pub struct SessionConfig {
    pub database: SessionDatabaseConfig,
    pub store_addr: String,
    pub cookie_name: Option<String>,
    pub session_ttl_days: u64,
}

/// Which cross-origin requests are allowed.
#[derive(Debug, Clone)]
pub struct CorsConfig {
    pub allowed_origin: String,
    pub allowed_methods: Vec<String>,
    pub allowed_headers: Vec<String>,
    pub supports_credentials: bool,
    pub max_age: u64,
    pub additional_headers: Option<String>,
}

/// The whole configuration.
#[derive(Debug, Clone)]
pub struct AppConfig {
    pub app: AppServerConfig,
    pub database: DatabaseConfig,
    pub session: SessionConfig,
    pub cors: CorsConfig,
    pub logging: LoggingConfig,
}

/// The session cookie's name when the configuration names none.
pub const USER_SESSION_KEY: &'static str = "navigator_user_session";

/// The session store's address: the configured one, or a `redis://` URL built
/// from the session database settings when none is configured.
pub open spec fn session_store_base(s: SessionConfig) -> Seq<char> {
    if s.store_addr@.len() == 0 {
        "redis://"@ + s.database.username@ + ":"@ + s.database.password@ + "@"@ + s.database.host@
            + ":"@ + s.database.port@
    } else {
        s.store_addr@
    }
}

/// The session store URL: its address without trailing slashes, a slash, and
/// the database number.
pub open spec fn session_store_url(s: SessionConfig) -> Seq<char> {
    strip_trailing(session_store_base(s), '/') + "/"@ + decimal_text(s.database.db as nat)
}

/// The database connection string.
pub open spec fn connection_text(c: DatabaseConfig) -> Seq<char> {
    "postgres://"@ + c.username@ + ":"@ + c.password@ + "@"@ + c.host@ + ":"@ + c.port@ + "/"@
        + c.name@
}

/// The trimmed pieces that are not empty, in order.
pub open spec fn nonempty_trimmed(pieces: Seq<Seq<char>>) -> Seq<Seq<char>>
    decreases pieces.len(),
{
    if pieces.len() == 0 {
        Seq::empty()
    } else {
        let before = nonempty_trimmed(pieces.drop_last());
        let t = trimmed(pieces.last());
        if t.len() == 0 {
            before
        } else {
            before.push(t)
        }
    }
}

impl AppConfig {
    /// The URL of the session store (see `session_store_url`).
    pub fn get_session_store_url(&self) -> (r: String)
        ensures
            r@ == session_store_url(self.session),
    {
        let s = &self.session;
        let base = if s.store_addr.as_str().is_empty() {
            let mut u = String::from_str("redis://");
            u.append(s.database.username.as_str());
            u.append(":");
            u.append(s.database.password.as_str());
            u.append("@");
            u.append(s.database.host.as_str());
            u.append(":");
            u.append(s.database.port.as_str());
            u
        } else {
            s.store_addr.clone()
        };
        let mut url = strip_trailing_text(base.as_str(), '/');
        url.append("/");
        let db = decimal_string(s.database.db as u64);
        url.append(db.as_str());
        url
    }

    /// The session cookie's name: the configured one, or `USER_SESSION_KEY`.
    pub fn get_cookie_name(&self) -> (r: String)
        ensures
            r@ == match self.session.cookie_name {
                Some(n) => n@,
                None => USER_SESSION_KEY@,
            },
    {
        match &self.session.cookie_name {
            Some(n) => n.clone(),
            None => String::from_str(USER_SESSION_KEY),
        }
    }
}

impl DatabaseConfig {
    /// The connection string of the database (see `connection_text`).
    pub fn connection_string(&self) -> (r: String)
        ensures
            r@ == connection_text(*self),
    {
        let mut s = String::from_str("postgres://");
        s.append(self.username.as_str());
        s.append(":");
        s.append(self.password.as_str());
        s.append("@");
        s.append(self.host.as_str());
        s.append(":");
        s.append(self.port.as_str());
        s.append("/");
        s.append(self.name.as_str());
        s
    }
}

impl CorsConfig {
    /// The extra headers to allow: the configured list split on commas, each
    /// piece trimmed, empty pieces dropped.
    pub fn additional_allowed_headers(&self) -> (r: Vec<String>)
        ensures
            texts(r@) == match self.additional_headers {
                Some(h) => nonempty_trimmed(split_on(h@, ',')),
                None => Seq::empty(),
            },
    {
        let mut headers: Vec<String> = Vec::new();
        match &self.additional_headers {
            Some(h) => {
                let pieces = split_text(h.as_str(), ',');
                let ghost ps = texts(pieces@);
                let mut i: usize = 0;
                proof {
                    assert(ps.take(0) =~= Seq::<Seq<char>>::empty());
                    assert(texts(headers@) =~= Seq::<Seq<char>>::empty());
                }
                while i < pieces.len()
                    invariant
                        i <= pieces.len(),
                        ps == texts(pieces@),
                        texts(headers@) == nonempty_trimmed(ps.take(i as int)),
                    decreases pieces.len() - i,
                {
                    let t = trim_text(pieces[i].as_str());
                    proof {
                        assert(ps.take(i + 1).drop_last() =~= ps.take(i as int));
                        assert(ps.take(i + 1).last() == pieces@[i as int]@);
                    }
                    if !t.as_str().is_empty() {
                        let ghost before = texts(headers@);
                        headers.push(t);
                        proof {
                            assert(texts(headers@) =~= before.push(t@));
                        }
                    }
                    i = i + 1;
                }
                proof {
                    assert(ps.take(ps.len() as int) =~= ps);
                }
            },
            None => {
                proof {
                    assert(texts(headers@) =~= Seq::<Seq<char>>::empty());
                }
            },
        }
        headers
    }
}

} // verus!
