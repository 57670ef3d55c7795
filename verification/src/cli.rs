//! How the server is configured.

use vstd::prelude::*;

verus! {

/// The text of an optional string.
pub open spec fn optional_text(s: Option<String>) -> Option<Seq<char>> {
    match s {
        Some(s) => Some(s@),
        None => None,
    }
}

/// The server's settings: where its database is, where it listens, where it
/// logs and how many workers it runs.
#[derive(Clone, Debug)]
pub struct ServerConfig {
    database_path: String,
    url: String,
    port: u16,
    log_path: Option<String>,
    num_workers: Option<usize>,
}

impl ServerConfig {
    pub fn new(
        database_path: String,
        url: String,
        port: u16,
        log_path: Option<String>,
        num_workers: Option<usize>,
    ) -> (r: Self)
        ensures
            r.database_path_spec() == database_path@,
            r.url_spec() == url@,
            r.port_spec() == port,
            r.log_path_spec() == optional_text(log_path),
            r.num_workers_spec() == num_workers,
    {
        ServerConfig { database_path, url, port, log_path, num_workers }
    }

    pub closed spec fn database_path_spec(&self) -> Seq<char> {
        self.database_path@
    }

    pub closed spec fn url_spec(&self) -> Seq<char> {
        self.url@
    }

    pub closed spec fn port_spec(&self) -> u16 {
        self.port
    }

    pub closed spec fn log_path_spec(&self) -> Option<Seq<char>> {
        optional_text(self.log_path)
    }

    pub closed spec fn num_workers_spec(&self) -> Option<usize> {
        self.num_workers
    }

    pub fn database_path(&self) -> (r: &str)
        ensures
            r@ == self.database_path_spec(),
    {
        self.database_path.as_str()
    }

    pub fn url(&self) -> (r: &str)
        ensures
            r@ == self.url_spec(),
    {
        self.url.as_str()
    }

    pub fn port(&self) -> (r: u16)
        ensures
            r == self.port_spec(),
    {
        self.port
    }

    pub fn log_path(&self) -> (r: Option<&str>)
        ensures
            r matches Some(p) ==> self.log_path_spec() == Some(p@),
            r is None ==> self.log_path_spec() is None,
    {
        match &self.log_path {
            Some(p) => Some(p.as_str()),
            None => None,
        }
    }

    pub fn num_workers(&self) -> (r: Option<usize>)
        ensures
            r == self.num_workers_spec(),
    {
        self.num_workers
    }
}

/// What the graph conversion tool is given: the graph file to read and,
/// optionally, the file to write the converted graph to.
#[derive(Clone, Debug)]
pub struct Config {
    pub directory: String,
    pub destination: Option<String>,
}

} // verus!
