//! Whether the server is alive and ready.
use crate::readiness::Readiness;
use vstd::prelude::*;

verus! {

/// The answer to the question whether the server is ready.
#[derive(Debug)]
pub struct ReadyReport {
    /// The HTTP status: 200 where everything is up, else 503.
    pub status: u16,
    pub state: &'static str,
    pub database: bool,
    pub configuration: bool,
    pub quic: bool,
    pub http: bool,
}

/// The server is alive as long as it answers: 200 and `ok`.
pub fn health() -> (r: (u16, &'static str))
    ensures
        r.0 == 200,
        r.1@ == "ok"@,
{
    (200, "ok")
}

/// Whether the server is ready, where `db_ping` is whether the database answered just now.
pub fn ready(readiness: &Readiness, db_ping: bool) -> (r: ReadyReport)
    ensures
        r.database == (db_ping && readiness.db),
        r.configuration == readiness.config,
        r.quic == readiness.quic,
        r.http == readiness.http,
        r.status == (if db_ping && readiness.complete() {
            200
        } else {
            503int
        }),
        r.state@ == (if db_ping && readiness.complete() {
            "ready"@
        } else {
            "not_ready"@
        }),
{
    let database = db_ping && readiness.db_ready();
    let configuration = readiness.config_ready();
    let quic = readiness.quic_ready();
    let http = readiness.http_ready();
    let all = database && configuration && quic && http;
    ReadyReport {
        status: if all {
            200
        } else {
            503
        },
        state: if all {
            "ready"
        } else {
            "not_ready"
        },
        database,
        configuration,
        quic,
        http,
    }
}

} // verus!
