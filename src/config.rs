//! Startup configuration: the values are read once (from the environment, by
//! the program) and checked and parsed here.
use vstd::prelude::*;
use vstd::string::*;
use crate::command::port_of;
use crate::text::{same_text, split_of, split_on, texts, trim_text, trimmed};

verus! {

#[derive(Debug)]
pub struct ServerConfig {
    pub host: String,
    pub port1: u16,
    pub port2: u16,
    pub request_methods: Vec<String>,
}

pub struct DbConfig {
    pub host: String,
    pub port: u16,
    pub user: String,
    pub password: String,
    pub database: String,
}

pub struct BaseConfig {
    pub http_protocol: String,
}

pub struct AssetsConfig {
    pub html_base_path: String,
    pub log_dir: String,
    pub log_path: String,
}

pub struct AppConfig {
    pub base: BaseConfig,
    pub server: ServerConfig,
    pub database: DbConfig,
    pub assets: AssetsConfig,
}

/// Why a configuration value is refused.
#[derive(PartialEq, Eq, Structural, Clone, Copy, Debug)]
pub enum ConfigError {
    /// A port is not a number from 0 to 65535.
    BadPort,
}

/// Reads a port as written in the configuration, white space around it aside.
pub fn config_port(s: &str) -> (r: Result<u16, ConfigError>)
    ensures
        match port_of(trimmed(s@)) {
            Some(p) => r == Ok::<u16, ConfigError>(p),
            None => r == Err::<u16, ConfigError>(ConfigError::BadPort),
        },
{
    let t = trim_text(s);
    match crate::command::parse_port(t.as_str()) {
        Some(p) => Ok(p),
        None => Err(ConfigError::BadPort),
    }
}

/// The interface names the server listens on, in order of preference.
pub open spec fn preferred_interface(name: Seq<char>) -> bool {
    name == "enp0s3"@ || name == "eth0"@
}

/// The address of the first interface with a preferred name, or nothing.
pub open spec fn host_of(ifaces: Seq<(Seq<char>, Seq<char>)>) -> Seq<char>
    decreases ifaces.len(),
{
    if ifaces.len() == 0 {
        Seq::empty()
    } else if preferred_interface(ifaces[0].0) {
        ifaces[0].1
    } else {
        host_of(ifaces.drop_first())
    }
}

/// The address of the first interface named `enp0s3` or `eth0`; empty where
/// there is none.
pub fn pick_host(ifaces: &Vec<(String, String)>) -> (r: String)
    ensures
        r@ == host_of(crate::response::pair_texts(ifaces@)),
{
    let ghost ps = crate::response::pair_texts(ifaces@);
    let mut i: usize = 0;
    assert(ps.skip(0) =~= ps);
    while i < ifaces.len()
        invariant
            i <= ifaces@.len(),
            ps == crate::response::pair_texts(ifaces@),
            host_of(ps) == host_of(ps.skip(i as int)),
        decreases ifaces@.len() - i,
    {
        let ghost rest = ps.skip(i as int);
        assert(rest[0] == (ifaces@[i as int].0@, ifaces@[i as int].1@));
        assert(rest.drop_first() =~= ps.skip(i + 1));
        let name = ifaces[i].0.as_str();
        if same_text(name, "enp0s3") || same_text(name, "eth0") {
            return ifaces[i].1.clone();
        }
        i = i + 1;
    }
    String::new()
}

impl ServerConfig {
    /// The server's settings from the configured host, the two candidate
    /// ports and the comma-separated allowed methods.
    pub fn new_cfg(host: String, port1: &str, port2: &str, request_methods: &str) -> (r: Result<
        ServerConfig,
        ConfigError,
    >)
        ensures
            r is Ok <==> port_of(trimmed(port1@)) is Some && port_of(trimmed(port2@)) is Some,
            r matches Ok(c) ==> {
                &&& c.host@ == host@
                &&& Some(c.port1) == port_of(trimmed(port1@))
                &&& Some(c.port2) == port_of(trimmed(port2@))
                &&& texts(c.request_methods@) == split_of(request_methods@, ',')
            },
    {
        let p1 = match config_port(port1) {
            Ok(p) => p,
            Err(e) => {
                return Err(e);
            },
        };
        let p2 = match config_port(port2) {
            Ok(p) => p,
            Err(e) => {
                return Err(e);
            },
        };
        let methods = split_on(request_methods, ',');
        Ok(ServerConfig { host, port1: p1, port2: p2, request_methods: methods })
    }
}

impl DbConfig {
    /// The database settings; the port is read as the server's are.
    pub fn new_cfg(host: String, port: &str, user: String, password: String, database: String) -> (r:
        Result<DbConfig, ConfigError>)
        ensures
            r is Ok <==> port_of(trimmed(port@)) is Some,
            r matches Ok(c) ==> {
                &&& c.host == host
                &&& Some(c.port) == port_of(trimmed(port@))
                &&& c.user == user
                &&& c.password == password
                &&& c.database == database
            },
    {
        let p = match config_port(port) {
            Ok(p) => p,
            Err(e) => {
                return Err(e);
            },
        };
        Ok(DbConfig { host, port: p, user, password, database })
    }
}

impl BaseConfig {
    pub fn new_cfg(http_protocol: String) -> (r: BaseConfig)
        ensures
            r.http_protocol == http_protocol,
    {
        BaseConfig { http_protocol }
    }
}

impl AssetsConfig {
    pub fn new_cfg(html_base_path: String, log_dir: String, log_path: String) -> (r: AssetsConfig)
        ensures
            r.html_base_path == html_base_path,
            r.log_dir == log_dir,
            r.log_path == log_path,
    {
        AssetsConfig { html_base_path, log_dir, log_path }
    }

    /// The log file: the file name under the log directory.
    pub fn log_file(&self) -> (r: String)
        ensures
            r@ == self.log_dir@ + "/"@ + self.log_path@,
    {
        let mut r = self.log_dir.clone();
        r.append("/");
        r.append(self.log_path.as_str());
        r
    }
}

impl AppConfig {
    pub fn new_cfg(base: BaseConfig, server: ServerConfig, database: DbConfig, assets: AssetsConfig) -> (r:
        AppConfig)
        ensures
            r.base == base,
            r.server == server,
            r.database == database,
            r.assets == assets,
    {
        AppConfig { server, database, base, assets }
    }
}

} // verus!
