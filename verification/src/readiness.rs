//! Which parts of the server have come up.
use vstd::prelude::*;

verus! {

/// The parts that have to be up before the server is ready.
#[derive(Debug)]
pub struct Readiness {
    pub db: bool,
    pub config: bool,
    pub quic: bool,
    pub http: bool,
}

impl Readiness {
    /// Nothing is up yet.
    pub fn new() -> (r: Readiness)
        ensures
            r == (Readiness { db: false, config: false, quic: false, http: false }),
    {
        Readiness { db: false, config: false, quic: false, http: false }
    }

    /// Everything is up.
    pub fn ready() -> (r: Readiness)
        ensures
            r == (Readiness { db: true, config: true, quic: true, http: true }),
    {
        Readiness { db: true, config: true, quic: true, http: true }
    }

    /// The database is connected.
    pub fn mark_db(&mut self)
        ensures
            *final(self) == (Readiness { db: true, ..*old(self) }),
    {
        self.db = true;
    }

    /// The configuration is loaded.
    pub fn mark_config(&mut self)
        ensures
            *final(self) == (Readiness { config: true, ..*old(self) }),
    {
        self.config = true;
    }

    /// The QUIC listener is up.
    pub fn mark_quic(&mut self)
        ensures
            *final(self) == (Readiness { quic: true, ..*old(self) }),
    {
        self.quic = true;
    }

    /// The HTTP listener is up.
    pub fn mark_http(&mut self)
        ensures
            *final(self) == (Readiness { http: true, ..*old(self) }),
    {
        self.http = true;
    }

    pub fn db_ready(&self) -> (r: bool)
        ensures
            r == self.db,
    {
        self.db
    }

    pub fn config_ready(&self) -> (r: bool)
        ensures
            r == self.config,
    {
        self.config
    }

    pub fn quic_ready(&self) -> (r: bool)
        ensures
            r == self.quic,
    {
        self.quic
    }

    pub fn http_ready(&self) -> (r: bool)
        ensures
            r == self.http,
    {
        self.http
    }

    /// All four parts are up.
    pub open spec fn complete(self) -> bool {
        self.db && self.config && self.quic && self.http
    }

    /// Whether all four parts are up.
    pub fn all_ready(&self) -> (r: bool)
        ensures
            r == self.complete(),
    {
        self.db_ready() && self.config_ready() && self.quic_ready() && self.http_ready()
    }
}

impl Default for Readiness {
    fn default() -> (r: Readiness)
        ensures
            r == (Readiness { db: false, config: false, quic: false, http: false }),
    {
        Readiness::new()
    }
}

/// The server is ready exactly where the database, the configuration and both listeners are up.
pub proof fn ready_means_all_four(r: Readiness)
    ensures
        r.complete() <==> r.db && r.config && r.quic && r.http,
{
}

} // verus!
