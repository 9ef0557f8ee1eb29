use vstd::prelude::*;

verus! {

/// How the server runs: its thread counts, port and store.
pub struct ServerConfig {
    pub async_threads: usize,
    pub blocking_threads: usize,
    pub auth_threads: usize,
    pub port: u16,
    pub db_conn: String,
}

impl Default for ServerConfig {
    fn default() -> (r: ServerConfig)
        ensures
            r.async_threads == 2,
            r.blocking_threads == 128,
            r.auth_threads == 4,
            r.port == 5000,
            r.db_conn@ == "sqlite::memory:"@,
    {
        ServerConfig {
            async_threads: 2,
            blocking_threads: 128,
            auth_threads: 4,
            port: 5000,
            db_conn: String::from_str("sqlite::memory:"),
        }
    }
}

/// What the `add` command adds.
pub enum AddConfig {
    User { db_url: String, username: String, password: String },
}

} // verus!
