use vstd::prelude::*;

use crate::config::{copy_text, last_match, RemoteFsConfig, RemoteFsHost};
use crate::error::RemoteFsError;

verus! {

/// Where the private key for a host's sessions is kept.
#[derive(Debug, Clone)]
pub struct ConnectorSshKeyStorage {
    pub key_path: String,
}

impl ConnectorSshKeyStorage {
    /// Key storage that hands out the key file at `private_key_path`.
    pub fn from_path(private_key_path: &str) -> (r: Self)
        ensures
            r.key_path@ == private_key_path@,
    {
        ConnectorSshKeyStorage { key_path: String::from_str(private_key_path) }
    }

    /// The key file for any host and user: always the stored one.
    pub fn resolve(&self, _host: &str, _username: &str) -> (r: Option<String>)
        ensures
            r matches Some(p) && p@ == self.key_path@,
    {
        Some(self.key_path.clone())
    }
}

/// What opening a session to one host takes.
#[derive(Debug, Clone)]
pub struct ConnectParams {
    pub hostname: String,
    pub username: String,
    pub port: u16,
    pub key_storage: ConnectorSshKeyStorage,
    pub ssh_config_path: Option<String>,
    /// The configuration these parameters were read from; a session opened
    /// with them is accepted only while it is still current.
    pub generation: u64,
}

impl ConnectParams {
    /// These are the parameters of `host`, reached as `hostname`.
    pub open spec fn of_host(&self, hostname: Seq<char>, host: RemoteFsHost) -> bool {
        &&& self.hostname@ == hostname
        &&& self.username == host.username
        &&& self.port == host.port
        &&& self.key_storage.key_path@ == host.ssh_private_key_path@
        &&& self.ssh_config_path == host.ssh_config_path
    }
}

/// What `acquire` asks of its caller.
#[derive(Debug)]
pub enum Acquire {
    /// Use the cached session at this index.
    Cached(usize),
    /// Open a session with these parameters, then hand it to `insert_session`.
    Connect(ConnectParams),
}

/// How a request for a host's session is met.
pub enum AcquireKind {
    Cached,
    Connect,
    UnknownHost,
}

/// The current configuration and the sessions opened under it, one per
/// host name, each shared by every operation on that host. `generation`
/// changes at every reload.
pub struct SessionCache<S> {
    pub config: RemoteFsConfig,
    pub sessions: Vec<(String, S)>,
    pub generation: u64,
}

impl<S> SessionCache<S> {
    /// The index of the session cached for host `h`.
    pub open spec fn session_index(&self, h: Seq<char>) -> Option<int> {
        last_match(self.sessions@, |e: (String, S)| e.0@ == h)
    }

    /// A cached session is reused; otherwise a configured host gets a new
    /// one; any other host is unknown.
    pub open spec fn acquire_kind(&self, h: Seq<char>) -> AcquireKind {
        if self.session_index(h) is Some {
            AcquireKind::Cached
        } else if self.config.has_host(h) {
            AcquireKind::Connect
        } else {
            AcquireKind::UnknownHost
        }
    }

    /// The state right after `config` was loaded: no session survives.
    pub open spec fn is_reload_of(&self, config: RemoteFsConfig) -> bool {
        self.config == config && self.sessions@.len() == 0
    }

    /// A cache for `config`, with no session yet.
    pub fn new(config: RemoteFsConfig) -> (r: Self)
        ensures
            r.is_reload_of(config),
    {
        SessionCache { config, sessions: Vec::new(), generation: 0 }
    }

    /// Replaces the configuration and drops every cached session, in one
    /// step; parameters handed out before it no longer count.
    pub fn reload(&mut self, config: RemoteFsConfig)
        ensures
            final(self).is_reload_of(config),
            final(self).generation != old(self).generation,
    {
        self.config = config;
        self.sessions = Vec::new();
        self.generation = if self.generation == u64::MAX {
            0
        } else {
            self.generation + 1
        };
    }

    /// The index of the session cached for `hostname`, if any.
    fn find_session(&self, hostname: &str) -> (r: Option<usize>)
        ensures
            match r {
                Some(i) => self.session_index(hostname@) == Some(i as int) && i
                    < self.sessions@.len(),
                None => self.session_index(hostname@) is None,
            },
    {
        let ghost f = |e: (String, S)| e.0@ == hostname@;
        let mut i: usize = self.sessions.len();
        assert(self.sessions@.subrange(0, i as int) =~= self.sessions@);
        while i > 0
            invariant
                i <= self.sessions@.len(),
                f == (|e: (String, S)| e.0@ == hostname@),
                last_match(self.sessions@.subrange(0, i as int), f) == self.session_index(
                    hostname@,
                ),
            decreases i,
        {
            proof {
                crate::config::lemma_last_match_step(self.sessions@, f, i as int);
            }
            if crate::config::same_text(self.sessions[i - 1].0.as_str(), hostname) {
                return Some(i - 1);
            }
            i = i - 1;
        }
        None
    }

    /// The session for `hostname`: the cached one, or the parameters to open
    /// one; a host outside the configuration is a configuration error.
    pub fn acquire(&self, hostname: &str) -> (r: Result<Acquire, RemoteFsError>)
        ensures
            match r {
                Ok(Acquire::Cached(i)) => self.acquire_kind(hostname@) is Cached
                    && self.session_index(hostname@) == Some(i as int) && i
                    < self.sessions@.len(),
                Ok(Acquire::Connect(p)) => self.acquire_kind(hostname@) is Connect && p.of_host(
                    hostname@,
                    self.config.host_view(hostname@),
                ) && p.generation == self.generation,
                Err(e) => self.acquire_kind(hostname@) is UnknownHost && e
                    == RemoteFsError::ConfigError,
            },
    {
        if let Some(i) = self.find_session(hostname) {
            return Ok(Acquire::Cached(i));
        }
        match self.config.find_host(hostname) {
            Some(k) => {
                let host = &self.config.hosts[k].1;
                Ok(
                    Acquire::Connect(
                        ConnectParams {
                            hostname: String::from_str(hostname),
                            username: host.username.clone(),
                            port: host.port,
                            key_storage: ConnectorSshKeyStorage::from_path(
                                host.ssh_private_key_path.as_str(),
                            ),
                            ssh_config_path: copy_text(&host.ssh_config_path),
                            generation: self.generation,
                        },
                    ),
                )
            },
            None => Err(RemoteFsError::ConfigError),
        }
    }

    /// Caches a session opened for `hostname` with parameters of
    /// `generation`, and returns the index of the host's session: one host
    /// keeps one session, so where one is already cached (another caller
    /// connected first) that one stays and the new session is dropped.
    /// Refused, and the session dropped, where a reload came in between or
    /// the host is not in the current configuration.
    pub fn insert_session(&mut self, hostname: String, generation: u64, session: S) -> (r:
        Result<usize, RemoteFsError>)
        ensures
            match r {
                Ok(i) => {
                    &&& generation == old(self).generation
                    &&& old(self).config.has_host(hostname@)
                    &&& final(self).session_index(hostname@) == Some(i as int)
                    &&& i < final(self).sessions@.len()
                    &&& match old(self).session_index(hostname@) {
                        Some(k) => i == k && *final(self) == *old(self),
                        None => final(self).config == old(self).config && final(self).generation
                            == old(self).generation && final(self).sessions@ == old(
                            self,
                        ).sessions@.push((hostname, session)) && i == old(self).sessions@.len(),
                    }
                },
                Err(e) => (generation != old(self).generation || !old(self).config.has_host(
                    hostname@,
                )) && e == RemoteFsError::ConfigError && *final(self) == *old(self),
            },
    {
        if generation != self.generation || self.config.find_host(hostname.as_str()).is_none() {
            return Err(RemoteFsError::ConfigError);
        }
        if let Some(k) = self.find_session(hostname.as_str()) {
            return Ok(k);
        }
        let i = self.sessions.len();
        let ghost before = self.sessions@;
        self.sessions.push((hostname, session));
        assert(self.sessions@.drop_last() =~= before);
        Ok(i)
    }

    /// The cached session at index `i`.
    pub fn session(&self, i: usize) -> (r: &S)
        requires
            i < self.sessions@.len(),
        ensures
            *r == self.sessions@[i as int].1,
    {
        &self.sessions[i].1
    }
}

/// After a reload no session from before it is reused, and a host that the
/// new configuration lacks is unknown. (`insert_session` refuses sessions
/// opened with parameters from before the reload.)
pub proof fn lemma_reload_isolation<S>(
    cache: SessionCache<S>,
    config: RemoteFsConfig,
    h: Seq<char>,
)
    requires
        cache.is_reload_of(config),
    ensures
        !(cache.acquire_kind(h) is Cached),
        !config.has_host(h) ==> cache.acquire_kind(h) is UnknownHost,
{
}

} // verus!
