//! Bootstrap configuration of the service.
//!
//! Filesystem paths are held as text and read with Unix path rules: a path
//! is absolute when it starts with `/`.
use vstd::prelude::*;

use crate::text::{chars_of, copy_str, is_blank, trim};

verus! {

/// A path is absolute when it starts at the root (`Path::is_absolute` on Unix).
pub open spec fn is_absolute_path(p: Seq<char>) -> bool {
    p.len() > 0 && p[0] == '/'
}

pub fn path_is_absolute(p: &str) -> (r: bool)
    ensures
        r == is_absolute_path(p@),
{
    let v = chars_of(p);
    v.len() > 0 && v[0] == '/'
}

/// Where the SQLite database lives.
#[derive(Clone, Debug, PartialEq, Eq)]
pub enum DatabaseTarget {
    Memory,
    File(String),
}

pub enum DatabaseTargetView {
    Memory,
    File(Seq<char>),
}

impl View for DatabaseTarget {
    type V = DatabaseTargetView;

    open spec fn view(&self) -> DatabaseTargetView {
        match self {
            DatabaseTarget::Memory => DatabaseTargetView::Memory,
            DatabaseTarget::File(p) => DatabaseTargetView::File(p@),
        }
    }
}

/// The database file used when none is configured.
pub open spec fn default_database_path() -> Seq<char> {
    "/data/book-router/book-router.sqlite"@
}

impl DatabaseTarget {
    pub fn memory() -> (r: Self)
        ensures
            r@ == DatabaseTargetView::Memory,
    {
        DatabaseTarget::Memory
    }

    pub fn file(path: &str) -> (r: Self)
        ensures
            r@ == DatabaseTargetView::File(path@),
    {
        DatabaseTarget::File(copy_str(path))
    }

    /// The file named by `DATABASE_PATH`, or the default file.
    pub fn from_env_path(value: Option<String>) -> (r: Self)
        ensures
            r@ == DatabaseTargetView::File(
                match value {
                    Some(v) => v@,
                    None => default_database_path(),
                },
            ),
    {
        match value {
            Some(v) => DatabaseTarget::File(v),
            None => DatabaseTarget::file("/data/book-router/book-router.sqlite"),
        }
    }

    pub fn file_path(&self) -> (r: Option<&str>)
        ensures
            match self@ {
                DatabaseTargetView::Memory => r is None,
                DatabaseTargetView::File(p) => r matches Some(s) && s@ == p,
            },
    {
        match self {
            DatabaseTarget::Memory => None,
            DatabaseTarget::File(path) => Some(path.as_str()),
        }
    }
}

#[derive(Clone, Debug, PartialEq, Eq)]
pub struct QbittorrentConfig {
    pub base_url: String,
    pub username: String,
    pub password: String,
}

#[derive(Clone, Debug)]
pub struct AppConfig {
    pub bind_addr: String,
    pub ebooks_root: String,
    pub audiobooks_root: String,
    pub database: DatabaseTarget,
    pub metadata_base_url: String,
    pub cover_base_url: String,
    pub qbittorrent: Option<QbittorrentConfig>,
    pub enable_fulfillment_workers: bool,
}

/// The first problem with a configuration, if any.
pub open spec fn config_error(c: AppConfig) -> Option<Seq<char>> {
    if !is_absolute_path(c.ebooks_root@) || !is_absolute_path(c.audiobooks_root@) {
        Some("media roots must be absolute paths"@)
    } else if (c.database@ matches DatabaseTargetView::File(p) && !is_absolute_path(p)) {
        Some("sqlite database path must be an absolute path"@)
    } else if trim(c.metadata_base_url@).len() == 0 {
        Some("metadata base url must not be empty"@)
    } else if trim(c.cover_base_url@).len() == 0 {
        Some("cover base url must not be empty"@)
    } else if (c.qbittorrent matches Some(q) && trim(q.base_url@).len() == 0) {
        Some("qbittorrent base url must not be empty"@)
    } else if (c.qbittorrent matches Some(q) && trim(q.username@).len() == 0) {
        Some("qbittorrent username must not be empty"@)
    } else if (c.qbittorrent matches Some(q) && trim(q.password@).len() == 0) {
        Some("qbittorrent password must not be empty"@)
    } else {
        None
    }
}

/// The values the environment gave for the configuration keys.
pub struct EnvValues {
    pub bind_addr: Option<String>,
    pub ebooks_root: Option<String>,
    pub audiobooks_root: Option<String>,
    pub database_path: Option<String>,
    pub metadata_base_url: Option<String>,
    pub cover_base_url: Option<String>,
    pub qbittorrent_base_url: Option<String>,
    pub qbittorrent_username: Option<String>,
    pub qbittorrent_password: Option<String>,
}

pub open spec fn or_default(o: Option<String>, d: Seq<char>) -> Seq<char> {
    match o {
        Some(v) => v@,
        None => d,
    }
}

/// The configuration the environment values describe (before validation).
pub open spec fn config_from_env_matches(env: EnvValues, c: AppConfig) -> bool {
    &&& c.bind_addr@ == or_default(env.bind_addr, "127.0.0.1:3000"@)
    &&& c.ebooks_root@ == or_default(env.ebooks_root, "/ebooks"@)
    &&& c.audiobooks_root@ == or_default(env.audiobooks_root, "/audiobooks"@)
    &&& c.database@ == DatabaseTargetView::File(
        or_default(env.database_path, default_database_path()),
    )
    &&& c.metadata_base_url@ == or_default(env.metadata_base_url, "https://openlibrary.org"@)
    &&& c.cover_base_url@ == or_default(env.cover_base_url, "https://covers.openlibrary.org"@)
    &&& match env.qbittorrent_base_url {
        None => c.qbittorrent is None,
        Some(b) => c.qbittorrent matches Some(q) && q.base_url@ == b@ && q.username@
            == or_default(env.qbittorrent_username, Seq::empty()) && q.password@ == or_default(
            env.qbittorrent_password,
            Seq::empty(),
        ),
    }
    &&& c.enable_fulfillment_workers
}

impl AppConfig {
    pub fn for_tests() -> (r: Self)
        ensures
            r.bind_addr@ == "127.0.0.1:0"@,
            r.ebooks_root@ == "/ebooks"@,
            r.audiobooks_root@ == "/audiobooks"@,
            r.database@ == DatabaseTargetView::Memory,
            r.metadata_base_url@ == "https://openlibrary.org"@,
            r.cover_base_url@ == "https://covers.openlibrary.org"@,
            r.qbittorrent is None,
            !r.enable_fulfillment_workers,
    {
        AppConfig {
            bind_addr: copy_str("127.0.0.1:0"),
            ebooks_root: copy_str("/ebooks"),
            audiobooks_root: copy_str("/audiobooks"),
            database: DatabaseTarget::memory(),
            metadata_base_url: copy_str("https://openlibrary.org"),
            cover_base_url: copy_str("https://covers.openlibrary.org"),
            qbittorrent: None,
            enable_fulfillment_workers: false,
        }
    }

    pub fn for_tests_with_database_path(path: &str) -> (r: Self)
        ensures
            r.bind_addr@ == "127.0.0.1:0"@,
            r.ebooks_root@ == "/ebooks"@,
            r.audiobooks_root@ == "/audiobooks"@,
            r.database@ == DatabaseTargetView::File(path@),
            r.metadata_base_url@ == "https://openlibrary.org"@,
            r.cover_base_url@ == "https://covers.openlibrary.org"@,
            r.qbittorrent is None,
            !r.enable_fulfillment_workers,
    {
        AppConfig { database: DatabaseTarget::file(path), ..Self::for_tests() }
    }

    /// Reads the configuration through `get`, fills in defaults and validates it.
    pub fn from_env_with<F: Fn(&str) -> Option<String>>(get: F) -> (r: Result<Self, String>)
        requires
            forall|key: &str| call_requires(get, (key,)),
        ensures
            exists|env: EnvValues|
                {
                    &&& call_ensures(get, ("BIND_ADDR",), env.bind_addr)
                    &&& call_ensures(get, ("EBOOKS_ROOT",), env.ebooks_root)
                    &&& call_ensures(get, ("AUDIOBOOKS_ROOT",), env.audiobooks_root)
                    &&& call_ensures(get, ("DATABASE_PATH",), env.database_path)
                    &&& call_ensures(get, ("METADATA_BASE_URL",), env.metadata_base_url)
                    &&& call_ensures(get, ("COVER_BASE_URL",), env.cover_base_url)
                    &&& call_ensures(get, ("QBITTORRENT_BASE_URL",), env.qbittorrent_base_url)
                    &&& env.qbittorrent_base_url is Some ==> call_ensures(
                        get,
                        ("QBITTORRENT_USERNAME",),
                        env.qbittorrent_username,
                    ) && call_ensures(get, ("QBITTORRENT_PASSWORD",), env.qbittorrent_password)
                    &&& Self::from_env_values_result(env, r)
                },
    {
        let bind_addr = get("BIND_ADDR");
        let ebooks_root = get("EBOOKS_ROOT");
        let audiobooks_root = get("AUDIOBOOKS_ROOT");
        let database_path = get("DATABASE_PATH");
        let metadata_base_url = get("METADATA_BASE_URL");
        let cover_base_url = get("COVER_BASE_URL");
        let qbittorrent_base_url = get("QBITTORRENT_BASE_URL");
        let (qbittorrent_username, qbittorrent_password) = if qbittorrent_base_url.is_some() {
            (get("QBITTORRENT_USERNAME"), get("QBITTORRENT_PASSWORD"))
        } else {
            (None, None)
        };
        let env = EnvValues {
            bind_addr,
            ebooks_root,
            audiobooks_root,
            database_path,
            metadata_base_url,
            cover_base_url,
            qbittorrent_base_url,
            qbittorrent_username,
            qbittorrent_password,
        };
        let ghost env_copy = env;
        let r = Self::from_env_values(env);
        assert(Self::from_env_values_result(env_copy, r));
        r
    }

    /// What `from_env_values` gives for `env`: the described configuration
    /// when it is valid, else the first problem with it.
    pub open spec fn from_env_values_result(env: EnvValues, r: Result<Self, String>) -> bool {
        match r {
            Ok(c) => config_from_env_matches(env, c) && config_error(c) is None,
            Err(msg) => exists|c: AppConfig|
                config_from_env_matches(env, c) && config_error(c) == Some(msg@),
        }
    }

    /// The configuration that environment values describe, validated.
    pub fn from_env_values(env: EnvValues) -> (r: Result<Self, String>)
        ensures
            Self::from_env_values_result(env, r),
    {
        let ghost env0 = env;
        let bind_addr = match env.bind_addr {
            Some(v) => v,
            None => copy_str("127.0.0.1:3000"),
        };
        let ebooks_root = match env.ebooks_root {
            Some(v) => v,
            None => copy_str("/ebooks"),
        };
        let audiobooks_root = match env.audiobooks_root {
            Some(v) => v,
            None => copy_str("/audiobooks"),
        };
        let database = DatabaseTarget::from_env_path(env.database_path);
        let metadata_base_url = match env.metadata_base_url {
            Some(v) => v,
            None => copy_str("https://openlibrary.org"),
        };
        let cover_base_url = match env.cover_base_url {
            Some(v) => v,
            None => copy_str("https://covers.openlibrary.org"),
        };
        let qbittorrent = qbittorrent_from_values(
            env.qbittorrent_base_url,
            env.qbittorrent_username,
            env.qbittorrent_password,
        );
        let config = AppConfig {
            bind_addr,
            ebooks_root,
            audiobooks_root,
            database,
            metadata_base_url,
            cover_base_url,
            qbittorrent,
            enable_fulfillment_workers: true,
        };
        assert(config_from_env_matches(env0, config));
        match config.validate() {
            Ok(()) => Ok(config),
            Err(msg) => Err(msg),
        }
    }

    /// Checks the configuration; the error names the first problem found.
    pub fn validate(&self) -> (r: Result<(), String>)
        ensures
            r is Ok <==> config_error(*self) is None,
            r matches Err(msg) ==> config_error(*self) == Some(msg@),
    {
        if !path_is_absolute(self.ebooks_root.as_str()) || !path_is_absolute(
            self.audiobooks_root.as_str(),
        ) {
            return Err(copy_str("media roots must be absolute paths"));
        }
        match self.database.file_path() {
            Some(path) => {
                if !path_is_absolute(path) {
                    return Err(copy_str("sqlite database path must be an absolute path"));
                }
            },
            None => {},
        }
        if is_blank(self.metadata_base_url.as_str()) {
            return Err(copy_str("metadata base url must not be empty"));
        }
        if is_blank(self.cover_base_url.as_str()) {
            return Err(copy_str("cover base url must not be empty"));
        }
        match &self.qbittorrent {
            Some(q) => {
                if is_blank(q.base_url.as_str()) {
                    return Err(copy_str("qbittorrent base url must not be empty"));
                }
                if is_blank(q.username.as_str()) {
                    return Err(copy_str("qbittorrent username must not be empty"));
                }
                if is_blank(q.password.as_str()) {
                    return Err(copy_str("qbittorrent password must not be empty"));
                }
            },
            None => {},
        }
        Ok(())
    }

    pub fn with_metadata_base_url(self, value: &str) -> (r: Self)
        ensures
            r.metadata_base_url@ == value@,
            r.bind_addr == self.bind_addr,
            r.ebooks_root == self.ebooks_root,
            r.audiobooks_root == self.audiobooks_root,
            r.database == self.database,
            r.cover_base_url == self.cover_base_url,
            r.qbittorrent == self.qbittorrent,
            r.enable_fulfillment_workers == self.enable_fulfillment_workers,
    {
        AppConfig { metadata_base_url: copy_str(value), ..self }
    }

    pub fn with_cover_base_url(self, value: &str) -> (r: Self)
        ensures
            r.cover_base_url@ == value@,
            r.bind_addr == self.bind_addr,
            r.ebooks_root == self.ebooks_root,
            r.audiobooks_root == self.audiobooks_root,
            r.database == self.database,
            r.metadata_base_url == self.metadata_base_url,
            r.qbittorrent == self.qbittorrent,
            r.enable_fulfillment_workers == self.enable_fulfillment_workers,
    {
        AppConfig { cover_base_url: copy_str(value), ..self }
    }

    pub fn with_fulfillment_workers_enabled(self, value: bool) -> (r: Self)
        ensures
            r == (AppConfig { enable_fulfillment_workers: value, ..self }),
    {
        AppConfig { enable_fulfillment_workers: value, ..self }
    }
}

/// qBittorrent is configured when its base url is given; missing credentials
/// are empty.
pub fn qbittorrent_from_values(
    base_url: Option<String>,
    username: Option<String>,
    password: Option<String>,
) -> (r: Option<QbittorrentConfig>)
    ensures
        match base_url {
            None => r is None,
            Some(b) => r matches Some(q) && q.base_url@ == b@ && q.username@ == or_default(
                username,
                Seq::empty(),
            ) && q.password@ == or_default(password, Seq::empty()),
        },
{
    let base_url = match base_url {
        Some(b) => b,
        None => {
            return None;
        },
    };
    let username = match username {
        Some(u) => u,
        None => String::new(),
    };
    let password = match password {
        Some(p) => p,
        None => String::new(),
    };
    Some(QbittorrentConfig { base_url, username, password })
}

} // verus!
