//! What the start-up sequence is told from outside, with the value that
//! stands in for each setting that is not given.

use vstd::prelude::*;
use vstd::string::*;

verus! {

/// Environment variable that holds the discovery store's address.
pub const CONSUL_ADDRESS_VAR: &'static str = "APP_CONSUL_ADDRESS";

/// Environment variable that holds this process's address.
pub const POD_IP_VAR: &'static str = "POD_IP";

/// Environment variable that holds the service's name.
pub const SERVER_NAME_VAR: &'static str = "SERVER_NAME";

/// Environment variable that holds the port this process listens on.
pub const PORT_VAR: &'static str = "PORT";

/// Environment variable that holds the secret store's token.
pub const VAULT_TOKEN_VAR: &'static str = "APP_VAULT_TOKEN";

/// Address of the discovery store where none is given.
pub const DEFAULT_CONSUL_ADDRESS: &'static str = "127.0.0.1:8500";

/// Address of this process where none is given.
pub const DEFAULT_POD_IP: &'static str = "127.0.0.1";

/// Name of the service where none is given.
pub const DEFAULT_SERVER_NAME: &'static str = "text-embeddings-inference-server";

/// Port this process listens on where none is given.
pub const DEFAULT_PORT: &'static str = "8080";

/// Token for the secret store where none is given.
pub const DEFAULT_VAULT_TOKEN: &'static str = "";

/// The settings of one start-up run.
#[derive(Debug, PartialEq, Eq)]
pub struct Settings {
    /// Address of the discovery store, as `host:port`.
    pub consul_address: String,
    /// Address under which this process is reached.
    pub pod_ip: String,
    /// Name of the service; also the namespace of its configuration and
    /// of its secrets.
    pub server_name: String,
    /// Port this process listens on.
    pub port: String,
    /// Token for the secret store; empty where none was given.
    pub vault_token: String,
}

/// What a [`Settings`] holds, as contracts speak of it.
pub struct SettingsView {
    pub consul_address: Seq<char>,
    pub pod_ip: Seq<char>,
    pub server_name: Seq<char>,
    pub port: Seq<char>,
    pub vault_token: Seq<char>,
}

impl View for Settings {
    type V = SettingsView;

    open spec fn view(&self) -> SettingsView {
        SettingsView {
            consul_address: self.consul_address@,
            pod_ip: self.pod_ip@,
            server_name: self.server_name@,
            port: self.port@,
            vault_token: self.vault_token@,
        }
    }
}

/// The value given, or `default` where none was.
pub open spec fn given_or(given: Option<String>, default: Seq<char>) -> Seq<char> {
    match given {
        Some(value) => value@,
        None => default,
    }
}

/// The value given, or `default` where none was.
pub fn value_or(given: Option<String>, default: &str) -> (r: String)
    ensures
        r@ == given_or(given, default@),
{
    match given {
        Some(value) => value,
        None => String::from_str(default),
    }
}

impl Settings {
    /// The settings from what was found outside: each one as given, or
    /// its default where it was not.
    pub fn new(
        consul_address: Option<String>,
        pod_ip: Option<String>,
        server_name: Option<String>,
        port: Option<String>,
        vault_token: Option<String>,
    ) -> (r: Settings)
        ensures
            r@ == (SettingsView {
                consul_address: given_or(consul_address, DEFAULT_CONSUL_ADDRESS@),
                pod_ip: given_or(pod_ip, DEFAULT_POD_IP@),
                server_name: given_or(server_name, DEFAULT_SERVER_NAME@),
                port: given_or(port, DEFAULT_PORT@),
                vault_token: given_or(vault_token, DEFAULT_VAULT_TOKEN@),
            }),
    {
        Settings {
            consul_address: value_or(consul_address, DEFAULT_CONSUL_ADDRESS),
            pod_ip: value_or(pod_ip, DEFAULT_POD_IP),
            server_name: value_or(server_name, DEFAULT_SERVER_NAME),
            port: value_or(port, DEFAULT_PORT),
            vault_token: value_or(vault_token, DEFAULT_VAULT_TOKEN),
        }
    }
}

} // verus!
