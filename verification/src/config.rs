//! Server, logging and CORS configuration shapes with their defaults.
//! Reading the environment stays outside the library; it fills these
//! structures and falls back to the defaults below.

use vstd::prelude::*;

verus! {

/// Where the server binds.
#[derive(Clone, Debug)]
pub struct ServerConfig {
    pub host: String,
    pub port: u16,
}

impl Default for ServerConfig {
    /// Loopback on the conventional development port.
    fn default() -> (r: Self)
        ensures
            r.host@ == "127.0.0.1"@,
            r.port == 3000,
    {
        ServerConfig { host: "127.0.0.1".to_owned(), port: 3000 }
    }
}

/// How logs are emitted.
#[derive(Clone, Debug)]
pub struct LoggingConfig {
    pub level: String,
    pub format: String,
}

impl Default for LoggingConfig {
    /// Informational JSON logs.
    fn default() -> (r: Self)
        ensures
            r.level@ == "info"@,
            r.format@ == "json"@,
    {
        LoggingConfig { level: "info".to_owned(), format: "json".to_owned() }
    }
}

/// Which cross-origin requests are admitted.
#[derive(Clone, Debug)]
pub struct CorsConfig {
    pub allowed_origins: Vec<String>,
    pub allowed_methods: Vec<String>,
    pub allowed_headers: Vec<String>,
}

impl Default for CorsConfig {
    /// Local origins, the usual verbs, and the content-type and
    /// authorization headers.
    fn default() -> (r: Self)
        ensures
            r.allowed_origins.deep_view() == seq![
                "http://localhost:3000"@,
                "http://127.0.0.1:3000"@,
            ],
            r.allowed_methods.deep_view() == seq!["GET"@, "POST"@, "PUT"@, "DELETE"@, "OPTIONS"@],
            r.allowed_headers.deep_view() == seq!["content-type"@, "authorization"@],
    {
        let mut allowed_origins: Vec<String> = Vec::new();
        allowed_origins.push("http://localhost:3000".to_owned());
        allowed_origins.push("http://127.0.0.1:3000".to_owned());
        let mut allowed_methods: Vec<String> = Vec::new();
        allowed_methods.push("GET".to_owned());
        allowed_methods.push("POST".to_owned());
        allowed_methods.push("PUT".to_owned());
        allowed_methods.push("DELETE".to_owned());
        allowed_methods.push("OPTIONS".to_owned());
        let mut allowed_headers: Vec<String> = Vec::new();
        allowed_headers.push("content-type".to_owned());
        allowed_headers.push("authorization".to_owned());
        let r = CorsConfig { allowed_origins, allowed_methods, allowed_headers };
        proof {
            assert(r.allowed_origins.deep_view() =~= seq![
                "http://localhost:3000"@,
                "http://127.0.0.1:3000"@,
            ]);
            assert(r.allowed_methods.deep_view() =~= seq![
                "GET"@,
                "POST"@,
                "PUT"@,
                "DELETE"@,
                "OPTIONS"@,
            ]);
            assert(r.allowed_headers.deep_view() =~= seq!["content-type"@, "authorization"@]);
        }
        r
    }
}

} // verus!
