//! Server settings and their defaults.
use vstd::prelude::*;

use crate::text::{append_chars, chars_of, decimal, decimal_exec, string_of};

verus! {

/// Where the HTTP server listens.
pub struct ServerConfig {
    pub host: String,
    pub port: u16,
}

impl Default for ServerConfig {
    /// The loopback interface, port 8080.
    fn default() -> (r: Self)
        ensures
            r.host@ == "127.0.0.1"@,
            r.port == 8080,
    {
        ServerConfig { host: "127.0.0.1".to_owned(), port: 8080 }
    }
}

impl ServerConfig {
    /// The address to bind: `host:port`.
    pub open spec fn address(&self) -> Seq<char> {
        self.host@ + ":"@ + decimal(self.port as nat)
    }

    /// The address to bind: `host:port`.
    pub fn listen_address(&self) -> (r: String)
        ensures
            r@ == self.address(),
    {
        let mut a = chars_of(self.host.as_str());
        let colon = chars_of(":");
        append_chars(&mut a, &colon);
        let p = decimal_exec(self.port as u128);
        append_chars(&mut a, &p);
        string_of(&a)
    }
}

/// Where the SQLite database lives.
pub struct DbConfig {
    pub path: String,
}

impl Default for DbConfig {
    fn default() -> (r: Self)
        ensures
            r.path@ == "~/.local/share/lite-llm/lite-llm.db"@,
    {
        DbConfig { path: "~/.local/share/lite-llm/lite-llm.db".to_owned() }
    }
}

/// Whether long-term memory is on.
pub struct MemoryConfig {
    pub enabled: bool,
}

impl Default for MemoryConfig {
    /// Memory is off unless enabled.
    fn default() -> (r: Self)
        ensures
            !r.enabled,
    {
        MemoryConfig { enabled: false }
    }
}

/// Context window, in tokens, when none is configured.
pub fn default_context_size() -> (n: u32)
    ensures
        n == 8192,
{
    8192
}

/// Top-k sampling cut-off when none is configured.
pub fn default_top_k() -> (k: i32)
    ensures
        k == 40,
{
    40
}

/// Layers offloaded to the GPU when none is configured: all of them, in
/// practice.
pub fn default_gpu_layers() -> (n: u32)
    ensures
        n == 99,
{
    99
}

} // verus!
