//! The proxy's configuration: listener settings, the named upstreams and the
//! optional default upstream, with the checks made once at startup.
use vstd::prelude::*;

verus! {

/// Listener settings. Only `host` and `port` are used; the others are
/// reserved for dual-stack binding, TLS and authentication.
#[derive(Clone, Debug)]
pub struct ServerConfig {
    pub host: String,
    pub port: u16,
    pub host_v6: Option<String>,
    pub port_v6: Option<u16>,
    pub api_key: Option<String>,
    pub ssl_cert: Option<String>,
    pub ssl_key: Option<String>,
}

/// A named backend service and the base URL requests to it are sent to.
#[derive(Clone, Debug)]
pub struct Upstream {
    pub name: String,
    pub base_url: String,
}

#[derive(Clone, Debug)]
pub struct Config {
    pub server: ServerConfig,
    pub upstreams: Vec<Upstream>,
    pub default_upstream: Option<String>,
}

/// Why a configuration cannot be served.
#[derive(Clone, Debug, PartialEq, Eq)]
pub enum ConfigError {
    NoUpstreams,
    DuplicateUpstream(String),
    MissingDefault,
    UnknownDefault(String),
}

pub open spec fn opt_text(o: Option<String>) -> Option<Seq<char>> {
    match o {
        Some(s) => Some(s@),
        None => None,
    }
}

impl Config {
    /// The upstream names, in configuration order.
    pub open spec fn names(&self) -> Seq<Seq<char>> {
        self.upstreams@.map_values(|u: Upstream| u.name@)
    }

    pub open spec fn has_upstream(&self, name: Seq<char>) -> bool {
        self.names().contains(name)
    }

    pub open spec fn names_unique(&self) -> bool {
        forall|i: int, j: int|
            0 <= i < j < self.upstreams@.len() ==> self.upstreams@[i].name@
                != self.upstreams@[j].name@
    }

    /// A configuration the proxy can serve: at least one upstream, names
    /// unique, and with several upstreams a default that is one of them.
    pub open spec fn valid(&self) -> bool {
        &&& self.upstreams@.len() > 0
        &&& self.names_unique()
        &&& self.upstreams@.len() > 1 ==> match self.default_upstream {
            Some(d) => self.has_upstream(d@),
            None => false,
        }
    }

    /// The upstream chosen when the path names none: the only one, or the default.
    pub open spec fn fallback(&self) -> Option<Seq<char>> {
        if self.upstreams@.len() > 1 {
            opt_text(self.default_upstream)
        } else {
            Some(self.upstreams@[0].name@)
        }
    }

    /// The base URL of the first upstream with this name.
    pub open spec fn base_url_of(&self, name: Seq<char>) -> Option<Seq<char>> {
        if self.has_upstream(name) {
            let i = choose|i: int|
                0 <= i < self.upstreams@.len() && self.upstreams@[i].name@ == name && forall|
                    j: int,
                | 0 <= j < i ==> self.upstreams@[j].name@ != name;
            Some(self.upstreams@[i].base_url@)
        } else {
            None
        }
    }

    /// Position of the first upstream with this name, if any.
    pub fn find(&self, name: &String) -> (r: Option<usize>)
        ensures
            match r {
                Some(i) => {
                    &&& i < self.upstreams@.len()
                    &&& self.upstreams@[i as int].name@ == name@
                    &&& forall|j: int| 0 <= j < i ==> self.upstreams@[j].name@ != name@
                },
                None => !self.has_upstream(name@),
            },
    {
        let mut i: usize = 0;
        while i < self.upstreams.len()
            invariant
                i <= self.upstreams@.len(),
                forall|j: int| 0 <= j < i ==> self.upstreams@[j].name@ != name@,
            decreases self.upstreams.len() - i,
        {
            if self.upstreams[i].name == *name {
                return Some(i);
            }
            i = i + 1;
        }
        proof {
            if self.has_upstream(name@) {
                let k = choose|k: int| 0 <= k < self.names().len() && self.names()[k] == name@;
                assert(self.upstreams@[k].name@ == name@);
            }
        }
        None
    }

    /// Whether an upstream of this name is configured.
    pub fn contains_upstream(&self, name: &String) -> (r: bool)
        ensures
            r == self.has_upstream(name@),
    {
        match self.find(name) {
            Some(i) => {
                assert(self.names()[i as int] == name@);
                true
            },
            None => false,
        }
    }

    /// The base URL configured for `name`.
    pub fn base_url(&self, name: &String) -> (r: Option<String>)
        ensures
            opt_text(r) == self.base_url_of(name@),
    {
        match self.find(name) {
            Some(i) => {
                assert(self.names()[i as int] == name@);
                let ghost k = choose|k: int|
                    0 <= k < self.upstreams@.len() && self.upstreams@[k].name@ == name@ && forall|
                        j: int,
                    | 0 <= j < k ==> self.upstreams@[j].name@ != name@;
                assert(k == i as int) by {
                    if k < i as int {
                    } else if k > i as int {
                    }
                }
                Some(self.upstreams[i].base_url.clone())
            },
            None => None,
        }
    }

    /// The startup checks: the configuration is served only if they pass.
    pub fn validate(&self) -> (r: Result<(), ConfigError>)
        ensures
            r is Ok <==> self.valid(),
            r == Err::<(), ConfigError>(ConfigError::NoUpstreams) <==> self.upstreams@.len() == 0,
            r matches Err(ConfigError::DuplicateUpstream(n)) ==> self.upstreams@.len() > 0
                && !self.names_unique() && self.has_upstream(n@),
            (self.upstreams@.len() > 0 && !self.names_unique()) ==> r is Err && r->Err_0 is DuplicateUpstream,
            r == Err::<(), ConfigError>(ConfigError::MissingDefault) <==> (self.upstreams@.len()
                > 1 && self.names_unique() && self.default_upstream is None),
            (r is Err && r->Err_0 is UnknownDefault) <==> (self.upstreams@.len() > 1
                && self.names_unique() && self.default_upstream is Some
                && !self.has_upstream(self.default_upstream->0@)),
            r matches Err(ConfigError::UnknownDefault(n)) ==> self.default_upstream == Some(n),
    {
        let n = self.upstreams.len();
        if n == 0 {
            return Err(ConfigError::NoUpstreams);
        }
        let mut i: usize = 0;
        while i < n
            invariant
                n == self.upstreams@.len(),
                i <= n,
                forall|a: int, b: int|
                    0 <= a < b < n && a < i ==> self.upstreams@[a].name@ != self.upstreams@[b].name@,
            decreases n - i,
        {
            let mut j: usize = i + 1;
            while j < n
                invariant
                    n == self.upstreams@.len(),
                    i < j <= n,
                    forall|a: int, b: int|
                        0 <= a < b < n && a < i ==> self.upstreams@[a].name@ != self.upstreams@[b].name@,
                    forall|b: int| i < b < j ==> self.upstreams@[i as int].name@ != self.upstreams@[b].name@,
                decreases n - j,
            {
                if self.upstreams[i].name == self.upstreams[j].name {
                    assert(self.names()[i as int] == self.upstreams@[i as int].name@);
                    return Err(ConfigError::DuplicateUpstream(self.upstreams[i].name.clone()));
                }
                j = j + 1;
            }
            i = i + 1;
        }
        if n > 1 {
            match &self.default_upstream {
                None => {
                    return Err(ConfigError::MissingDefault);
                },
                Some(d) => {
                    if !self.contains_upstream(d) {
                        return Err(ConfigError::UnknownDefault(d.clone()));
                    }
                },
            }
        }
        Ok(())
    }
}

} // verus!
