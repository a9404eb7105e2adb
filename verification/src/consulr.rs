//! Clients of the discovery store and of the secret store: which requests
//! they make, and what they make of the replies. Sending a request and
//! reading its reply happen outside; a reply comes in as an [`HttpReply`].

use crate::config_map::{pairs_map, ConfigMap};
use crate::settings::{Settings, SettingsView};
use crate::text::{
    decimal_string, decimal_text, join2, join3, lemma_numeral_of_decimal_text,
    lemma_split_joined, lemma_split_needs_separator, numeral, numeral_within, parse_numeral,
    split_first, split_once, strip_prefix, without_prefix,
};
use crate::codec::{
    base64_decode, base64_decoded, base64_error_text, header_error_text, header_text,
    header_value, utf8_decode, utf8_failure_text,
};
use aws_smithy_types::base64::DecodeError;
use vstd::prelude::*;
use vstd::string::*;
use vstd::utf8::{decode_utf8, valid_utf8};

verus! {

/// The kinds of failure that the clients report.
#[derive(Debug, Clone, Copy, PartialEq, Eq, Structural)]
pub enum ErrorKind {
    /// A request failed, or its reply was not of the expected form.
    Transport,
    /// A configuration value was not base64, or not UTF-8 under it.
    Decode,
    /// The token cannot be sent as a header value.
    Auth,
    /// The discovery store's address is no `host:port`.
    Config,
}

/// A failure of one of the clients.
#[derive(Debug, PartialEq, Eq)]
pub struct ConsulError {
    kind: ErrorKind,
    message: String,
}

/// What a [`ConsulError`] holds, as contracts speak of it.
pub struct ConsulErrorView {
    pub kind: ErrorKind,
    pub message: Seq<char>,
}

impl View for ConsulError {
    type V = ConsulErrorView;

    closed spec fn view(&self) -> ConsulErrorView {
        ConsulErrorView { kind: self.kind, message: self.message@ }
    }
}

impl ConsulError {
    pub fn new(kind: ErrorKind, message: String) -> (r: ConsulError)
        ensures
            r@ == (ConsulErrorView { kind, message: message@ }),
    {
        ConsulError { kind, message }
    }

    pub fn kind(&self) -> (r: ErrorKind)
        ensures
            r == self@.kind,
    {
        self.kind
    }

    pub fn message(&self) -> (r: &str)
        ensures
            r@ == self@.message,
    {
        self.message.as_str()
    }
}

/// What came back for a request.
#[derive(Debug)]
pub enum HttpReply<T> {
    /// The request could not be sent, or no reply came.
    Unreachable { cause: String },
    /// A reply came, but not of the expected form.
    Malformed { cause: String },
    /// The reply, read into its form.
    Body { body: T },
}

/// The error that stands for a reply which brought no body.
pub open spec fn transport_error<T>(reply: HttpReply<T>) -> Option<ConsulErrorView> {
    match reply {
        HttpReply::Unreachable { cause } => Some(
            ConsulErrorView { kind: ErrorKind::Transport, message: "Error getting object: "@ + cause@ },
        ),
        HttpReply::Malformed { cause } => Some(
            ConsulErrorView { kind: ErrorKind::Transport, message: "Error parsing json: "@ + cause@ },
        ),
        HttpReply::Body { body } => None,
    }
}

/// The body of a reply, or the transport error that stands for its lack.
pub fn reply_body<T>(reply: HttpReply<T>) -> (r: Result<T, ConsulError>)
    ensures
        match r {
            Ok(body) => reply == (HttpReply::Body { body }),
            Err(e) => transport_error(reply) == Some(e@),
        },
{
    match reply {
        HttpReply::Unreachable { cause } => Err(
            ConsulError::new(ErrorKind::Transport, join2("Error getting object: ", cause.as_str())),
        ),
        HttpReply::Malformed { cause } => Err(
            ConsulError::new(ErrorKind::Transport, join2("Error parsing json: ", cause.as_str())),
        ),
        HttpReply::Body { body } => Ok(body),
    }
}

/// Largest number of a port.
pub const MAX_PORT: u32 = 65535;

/// Host and port of a discovery store's address: the text before the first
/// `:`, and the number that the text after it denotes, with or without a
/// sign, from 0 to [`MAX_PORT`].
pub open spec fn consul_endpoint(address: Seq<char>) -> Option<(Seq<char>, int)> {
    match split_first(address, ':') {
        Some((host, port)) => match numeral_within(port, true, MAX_PORT as int) {
            Some(number) => Some((host, number)),
            None => None,
        },
        None => None,
    }
}

/// Why an address is no discovery store's address.
pub open spec fn address_failure(address: Seq<char>) -> Seq<char> {
    if split_first(address, ':') is None {
        "Invalid CONSUL_ADDRESS format"@
    } else {
        "Invalid port"@
    }
}

/// The address of a request: the scheme, the endpoint as `host:port`, then
/// the path.
pub open spec fn request_url(host: Seq<char>, port: int, path: Seq<char>) -> Seq<char> {
    "https://"@ + host + ":"@ + decimal_text(port as nat) + path
}

/// The address of a request to `host` and `port` for `path`.
fn build_url(host: &str, port: u16, path: &str) -> (r: String)
    ensures
        r@ == request_url(host@, port as int, path@),
{
    let number = decimal_string(port as u64);
    let mut r = join3("https://", host, ":");
    r.append(number.as_str());
    r.append(path);
    r
}

/// A health check that the discovery store runs against a service.
#[derive(Debug, PartialEq, Eq)]
pub struct AgentServiceCheck {
    pub id: String,
    pub name: String,
    pub interval: String,
    pub timeout: String,
    pub ttl: String,
    pub deregister_critical_service_after: String,
    pub http: Option<String>,
    pub tcp: Option<String>,
}

/// What a [`AgentServiceCheck`] holds, as contracts speak of it.
pub struct AgentServiceCheckView {
    pub id: Seq<char>,
    pub name: Seq<char>,
    pub interval: Seq<char>,
    pub timeout: Seq<char>,
    pub ttl: Seq<char>,
    pub deregister_critical_service_after: Seq<char>,
    pub http: Option<Seq<char>>,
    pub tcp: Option<Seq<char>>,
}

impl View for AgentServiceCheck {
    type V = AgentServiceCheckView;

    open spec fn view(&self) -> AgentServiceCheckView {
        AgentServiceCheckView {
            id: self.id@,
            name: self.name@,
            interval: self.interval@,
            timeout: self.timeout@,
            ttl: self.ttl@,
            deregister_critical_service_after: self.deregister_critical_service_after@,
            http: self.http.deep_view(),
            tcp: self.tcp.deep_view(),
        }
    }
}

/// The check of the service `server_name` that runs at `pod_ip` and
/// listens on `port`: a TCP check of that address, every 5 s.
pub open spec fn service_check(
    server_name: Seq<char>,
    pod_ip: Seq<char>,
    port: Seq<char>,
) -> AgentServiceCheckView {
    AgentServiceCheckView {
        id: server_name + "_"@ + pod_ip,
        name: server_name,
        interval: "5s"@,
        timeout: "5s"@,
        ttl: "10s"@,
        deregister_critical_service_after: "20s"@,
        http: None,
        tcp: Some(pod_ip + ":"@ + port),
    }
}

/// The registration of this process: where to `PUT` it, and the check to send.
#[derive(Debug, PartialEq, Eq)]
pub struct Registration {
    pub url: String,
    pub check: AgentServiceCheck,
}

/// One entry of the discovery store's key/value listing: the value is
/// base64 text.
#[derive(Debug, PartialEq, Eq)]
pub struct ConsulKV {
    pub key: String,
    pub value: String,
}

/// What a [`ConsulKV`] holds, as contracts speak of it.
pub struct ConsulKVView {
    pub key: Seq<char>,
    pub value: Seq<char>,
}

impl View for ConsulKV {
    type V = ConsulKVView;

    open spec fn view(&self) -> ConsulKVView {
        ConsulKVView { key: self.key@, value: self.value@ }
    }
}

impl DeepView for ConsulKV {
    type V = ConsulKVView;

    open spec fn deep_view(&self) -> ConsulKVView {
        self@
    }
}

/// One healthy instance of a service, as the discovery store lists it.
#[derive(Debug, PartialEq, Eq)]
pub struct ServiceEntry {
    pub address: String,
    pub port: u16,
}

/// The text of a configuration value from what its base64 form decoded
/// to: the bytes read as UTF-8.
pub open spec fn decoded_text(decoded: Option<Seq<u8>>) -> Result<Seq<char>, Seq<char>> {
    match decoded {
        None => Err("Error decoding base64: failed to decode base64"@),
        Some(bytes) => if valid_utf8(bytes) {
            Ok(decode_utf8(bytes))
        } else {
            Err("Error decoding utf8: "@ + utf8_failure_text(bytes))
        },
    }
}

/// The text that bytes stand for, given what reading them as UTF-8 came
/// to: the text, or a `Decode` error with the cause.
pub fn utf8_text(read: Result<String, String>) -> (r: Result<String, ConsulError>)
    ensures
        match (read, r) {
            (Ok(text), Ok(same)) => same@ == text@,
            (Err(cause), Err(e)) => e@ == (ConsulErrorView {
                kind: ErrorKind::Decode,
                message: "Error decoding utf8: "@ + cause@,
            }),
            _ => false,
        },
{
    match read {
        Ok(text) => Ok(text),
        Err(cause) => Err(
            ConsulError::new(ErrorKind::Decode, join2("Error decoding utf8: ", cause.as_str())),
        ),
    }
}

/// The text of a configuration value, given what decoding its base64 form
/// came to: a `Decode` error where that failed, or where the bytes are
/// not UTF-8.
pub fn value_text(decoded: Result<Vec<u8>, DecodeError>) -> (r: Result<String, ConsulError>)
    ensures
        match (r, decoded) {
            (Ok(text), Ok(bytes)) => decoded_text(Some(bytes@)) == Ok::<Seq<char>, Seq<char>>(
                text@,
            ),
            (Err(e), Ok(bytes)) => e@.kind == ErrorKind::Decode && decoded_text(Some(bytes@))
                == Err::<Seq<char>, Seq<char>>(e@.message),
            (Err(e), Err(_)) => e@.kind == ErrorKind::Decode && decoded_text(None)
                == Err::<Seq<char>, Seq<char>>(e@.message),
            (Ok(_), Err(_)) => false,
        },
{
    match decoded {
        Err(error) => {
            let cause = base64_error_text(&error);
            let message = join2("Error decoding base64: ", cause.as_str());
            proof {
                reveal_strlit("Error decoding base64: ");
                reveal_strlit("failed to decode base64");
                reveal_strlit("Error decoding base64: failed to decode base64");
                assert(message@ =~= "Error decoding base64: failed to decode base64"@);
            }
            Err(ConsulError::new(ErrorKind::Decode, message))
        },
        Ok(bytes) => utf8_text(utf8_decode(bytes)),
    }
}

/// The namespace of a service's configuration: its keys begin with it.
pub open spec fn config_namespace(server_name: Seq<char>) -> Seq<char> {
    "config/"@ + server_name + "/"@
}

/// The configuration that a listing holds: each entry's key without the
/// namespace in front of it, with the text of its value, written in the
/// listing's order; or the message of the first entry whose value has no
/// text.
pub open spec fn listed_config(entries: Seq<ConsulKVView>, namespace: Seq<char>) -> Result<
    Map<Seq<char>, Seq<char>>,
    Seq<char>,
>
    decreases entries.len(),
{
    if entries.len() == 0 {
        Ok(Map::empty())
    } else {
        match listed_config(entries.drop_last(), namespace) {
            Err(message) => Err(message),
            Ok(map) => match decoded_text(base64_decoded(entries.last().value)) {
                Err(message) => Err(message),
                Ok(text) => Ok(map.insert(without_prefix(entries.last().key, namespace), text)),
            },
        }
    }
}

/// The addresses of the listed instances, as `host:port`, in their order.
pub open spec fn service_addresses(entries: Seq<ServiceEntry>) -> Seq<Seq<char>> {
    Seq::new(
        entries.len(),
        |i: int| entries[i].address@ + ":"@ + decimal_text(entries[i].port as nat),
    )
}

/// What a reply to the request for a service's configuration comes to:
/// the configuration it lists; a `Decode` error with the message of the
/// first value that has no text; a `Transport` error for a reply without
/// a body.
pub open spec fn kv_outcome(server_name: Seq<char>, reply: HttpReply<Vec<ConsulKV>>) -> Result<
    Map<Seq<char>, Seq<char>>,
    ConsulErrorView,
> {
    match reply {
        HttpReply::Body { body } => match listed_config(
            body.deep_view(),
            config_namespace(server_name),
        ) {
            Ok(map) => Ok(map),
            Err(message) => Err(ConsulErrorView { kind: ErrorKind::Decode, message }),
        },
        _ => Err(transport_error(reply)->0),
    }
}

/// What a reply to the request for a service's instances comes to: their
/// addresses, or a `Transport` error for a reply without a body.
pub open spec fn service_outcome(reply: HttpReply<Vec<ServiceEntry>>) -> Result<
    Seq<Seq<char>>,
    ConsulErrorView,
> {
    match reply {
        HttpReply::Body { body } => Ok(service_addresses(body@)),
        _ => Err(transport_error(reply)->0),
    }
}

/// What a reply to the request for a service's secrets comes to: its
/// pairs, or a `Transport` error for a reply without a body.
pub open spec fn secret_outcome(reply: HttpReply<Vec<(String, String)>>) -> Result<
    Map<Seq<char>, Seq<char>>,
    ConsulErrorView,
> {
    match reply {
        HttpReply::Body { body } => Ok(pairs_map(body.deep_view())),
        _ => Err(transport_error(reply)->0),
    }
}

/// The error for a token that cannot stand in a header value.
pub open spec fn token_error() -> ConsulErrorView {
    ConsulErrorView {
        kind: ErrorKind::Auth,
        message: "Error parsing token: failed to parse header value"@,
    }
}

/// A client of the discovery store, for the service it was made for.
#[derive(Debug)]
pub struct ConsulClient {
    consul_host: String,
    consul_port: u16,
    pod_ip: String,
    server_name: String,
    port: String,
}

/// What a [`ConsulClient`] holds, as contracts speak of it.
pub struct ConsulClientView {
    pub host: Seq<char>,
    pub port: int,
    pub pod_ip: Seq<char>,
    pub server_name: Seq<char>,
    pub listen_port: Seq<char>,
}

impl View for ConsulClient {
    type V = ConsulClientView;

    closed spec fn view(&self) -> ConsulClientView {
        ConsulClientView {
            host: self.consul_host@,
            port: self.consul_port as int,
            pod_ip: self.pod_ip@,
            server_name: self.server_name@,
            listen_port: self.port@,
        }
    }
}

/// The client that the settings lead to, if their address is one.
pub open spec fn consul_client(settings: SettingsView) -> Option<ConsulClientView> {
    match consul_endpoint(settings.consul_address) {
        Some((host, port)) => Some(
            ConsulClientView {
                host,
                port,
                pod_ip: settings.pod_ip,
                server_name: settings.server_name,
                listen_port: settings.port,
            },
        ),
        None => None,
    }
}

impl ConsulClient {
    /// A client of the discovery store at the address in `settings`.
    /// An address without `:`, or with a port that is no number from 0 to
    /// [`MAX_PORT`], is a `Config` error.
    pub fn new(settings: &Settings) -> (r: Result<ConsulClient, ConsulError>)
        ensures
            match r {
                Ok(client) => consul_client(settings@) == Some(client@),
                Err(e) => consul_client(settings@) is None && e@ == (ConsulErrorView {
                    kind: ErrorKind::Config,
                    message: address_failure(settings@.consul_address),
                }),
            },
    {
        match split_once(settings.consul_address.as_str(), ':') {
            None => Err(
                ConsulError::new(
                    ErrorKind::Config,
                    String::from_str("Invalid CONSUL_ADDRESS format"),
                ),
            ),
            Some((host, port)) => match parse_numeral(port.as_str(), true, MAX_PORT) {
                None => Err(ConsulError::new(ErrorKind::Config, String::from_str("Invalid port"))),
                Some(number) => Ok(
                    ConsulClient {
                        consul_host: host,
                        consul_port: number as u16,
                        pod_ip: settings.pod_ip.clone(),
                        server_name: settings.server_name.clone(),
                        port: settings.port.clone(),
                    },
                ),
            },
        }
    }

    pub fn host(&self) -> (r: &str)
        ensures
            r@ == self@.host,
    {
        self.consul_host.as_str()
    }

    pub fn port(&self) -> (r: u16)
        ensures
            r == self@.port,
    {
        self.consul_port
    }

    /// The health check that describes this process.
    pub fn gen_check(&self) -> (check: AgentServiceCheck)
        ensures
            check@ == service_check(self@.server_name, self@.pod_ip, self@.listen_port),
    {
        AgentServiceCheck {
            id: join3(self.server_name.as_str(), "_", self.pod_ip.as_str()),
            name: self.server_name.clone(),
            interval: String::from_str("5s"),
            timeout: String::from_str("5s"),
            ttl: String::from_str("10s"),
            deregister_critical_service_after: String::from_str("20s"),
            http: None,
            tcp: Some(join3(self.pod_ip.as_str(), ":", self.port.as_str())),
        }
    }

    /// What registers this process: its check, and where to `PUT` it.
    pub fn register(&self) -> (r: Registration)
        ensures
            r.url@ == request_url(self@.host, self@.port, "/v1/agent/check/register"@),
            r.check@ == service_check(self@.server_name, self@.pod_ip, self@.listen_port),
    {
        let url = build_url(
            self.consul_host.as_str(),
            self.consul_port,
            "/v1/agent/check/register",
        );
        Registration { url, check: self.gen_check() }
    }

    /// Where to `GET` the configuration of this service.
    pub fn kv_url(&self) -> (url: String)
        ensures
            url@ == request_url(
                self@.host,
                self@.port,
                "/v1/kv/config/"@ + self@.server_name + "?recurse=true"@,
            ),
    {
        let path = join3("/v1/kv/config/", self.server_name.as_str(), "?recurse=true");
        build_url(self.consul_host.as_str(), self.consul_port, path.as_str())
    }

    /// The configuration of this service, from the reply to the request
    /// for it. One value that is not base64 text, or not UTF-8 under it,
    /// makes the whole listing a `Decode` error; a reply without a body
    /// is a `Transport` error.
    pub fn kv(&self, reply: HttpReply<Vec<ConsulKV>>) -> (r: Result<ConfigMap, ConsulError>)
        ensures
            match r {
                Ok(config) => kv_outcome(self@.server_name, reply) == Ok::<
                    Map<Seq<char>, Seq<char>>,
                    ConsulErrorView,
                >(config@),
                Err(e) => kv_outcome(self@.server_name, reply) == Err::<
                    Map<Seq<char>, Seq<char>>,
                    ConsulErrorView,
                >(e@),
            },
    {
        let entries = match reply_body(reply) {
            Ok(entries) => entries,
            Err(e) => {
                return Err(e);
            },
        };
        let namespace = join3("config/", self.server_name.as_str(), "/");
        let mut map = ConfigMap::new();
        let ghost listing = entries.deep_view();
        let mut i: usize = 0;
        while i < entries.len()
            invariant
                i <= entries.len(),
                reply == (HttpReply::Body { body: entries }),
                listing == entries.deep_view(),
                namespace@ == config_namespace(self@.server_name),
                listed_config(listing.subrange(0, i as int), namespace@) == Ok::<
                    Map<Seq<char>, Seq<char>>,
                    Seq<char>,
                >(map@),
            decreases entries.len() - i,
        {
            let entry = &entries[i];
            let ghost read = listing.subrange(0, i + 1);
            assert(read.drop_last() =~= listing.subrange(0, i as int));
            let key = strip_prefix(entry.key.as_str(), namespace.as_str());
            match value_text(base64_decode(entry.value.as_str())) {
                Ok(text) => {
                    map.insert(key, text);
                },
                Err(e) => {
                    proof {
                        lemma_listed_config_fails(listing, namespace@, i + 1);
                    }
                    return Err(e);
                },
            }
            i = i + 1;
        }
        assert(listing.subrange(0, listing.len() as int) =~= listing);
        Ok(map)
    }

    /// Where to `GET` the healthy instances of the service `service_name`.
    pub fn get_service_url(&self, service_name: &str) -> (url: String)
        ensures
            url@ == request_url(self@.host, self@.port, "/v1/health/checks/"@ + service_name@),
    {
        let path = join2("/v1/health/checks/", service_name);
        build_url(self.consul_host.as_str(), self.consul_port, path.as_str())
    }

    /// The addresses of a service's healthy instances, from the reply to
    /// the request for them: one `host:port` for each, in the store's
    /// order, none where the store lists none. A reply without a body is
    /// a `Transport` error.
    pub fn get_service(&self, reply: HttpReply<Vec<ServiceEntry>>) -> (r: Result<
        Vec<String>,
        ConsulError,
    >)
        ensures
            match r {
                Ok(addresses) => service_outcome(reply) == Ok::<Seq<Seq<char>>, ConsulErrorView>(
                    addresses.deep_view(),
                ),
                Err(e) => service_outcome(reply) == Err::<Seq<Seq<char>>, ConsulErrorView>(e@),
            },
    {
        let entries = match reply_body(reply) {
            Ok(entries) => entries,
            Err(e) => {
                return Err(e);
            },
        };
        let mut addresses: Vec<String> = Vec::new();
        let mut i: usize = 0;
        while i < entries.len()
            invariant
                i <= entries.len(),
                addresses.len() == i,
                forall|j: int|
                    0 <= j < i ==> (#[trigger] addresses[j])@ == service_addresses(entries@)[j],
            decreases entries.len() - i,
        {
            let entry = &entries[i];
            let number = decimal_string(entry.port as u64);
            addresses.push(join3(entry.address.as_str(), ":", number.as_str()));
            i = i + 1;
        }
        assert(addresses.deep_view() =~= service_addresses(entries@));
        Ok(addresses)
    }
}

/// A listing whose beginning fails, fails as its beginning does.
proof fn lemma_listed_config_fails(entries: Seq<ConsulKVView>, namespace: Seq<char>, k: int)
    requires
        0 <= k <= entries.len(),
        listed_config(entries.subrange(0, k), namespace) is Err,
    ensures
        listed_config(entries, namespace) == listed_config(entries.subrange(0, k), namespace),
    decreases entries.len() - k,
{
    if k == entries.len() {
        assert(entries.subrange(0, k) =~= entries);
    } else {
        assert(entries.subrange(0, k + 1).drop_last() =~= entries.subrange(0, k));
        lemma_listed_config_fails(entries, namespace, k + 1);
    }
}

/// Name of the header that carries the token to the secret store.
pub const TOKEN_HEADER: &'static str = "X-Vault-Token";

/// A text that can name a header: not empty, and made of ASCII letters,
/// digits and hyphens.
pub open spec fn plain_header_name(text: Seq<char>) -> bool {
    &&& text.len() > 0
    &&& forall|i: int|
        0 <= i < text.len() ==> {
            let c = #[trigger] text[i];
            ('a' <= c <= 'z') || ('A' <= c <= 'Z') || ('0' <= c <= '9') || c == '-'
        }
}

/// The header of the token has a name that can name a header.
pub proof fn lemma_token_header_is_a_name()
    ensures
        plain_header_name(TOKEN_HEADER@),
{
    reveal_strlit("X-Vault-Token");
}

/// A request for the secrets of a service: where to `GET` them, and the
/// authentication header to send, by its name and the token that is its
/// value.
#[derive(Debug, PartialEq, Eq)]
pub struct SecretRequest {
    pub url: String,
    pub header: String,
    pub token: String,
}

/// A client of the secret store, for the service it was made for.
#[derive(Debug)]
pub struct VaultClient {
    vault_host: String,
    vault_port: u16,
    token: String,
    server_name: String,
}

/// What a [`VaultClient`] holds, as contracts speak of it.
pub struct VaultClientView {
    pub host: Seq<char>,
    pub port: int,
    pub token: Seq<char>,
    pub server_name: Seq<char>,
}

impl View for VaultClient {
    type V = VaultClientView;

    closed spec fn view(&self) -> VaultClientView {
        VaultClientView {
            host: self.vault_host@,
            port: self.vault_port as int,
            token: self.token@,
            server_name: self.server_name@,
        }
    }
}

impl VaultClient {
    /// A client of the secret store at `host` and `port`, with the token
    /// and the service name of `settings`. Any token is taken, the empty
    /// one too: whether it can be sent shows when a request is made.
    pub fn new(host: String, port: u16, settings: &Settings) -> (r: VaultClient)
        ensures
            r@ == (VaultClientView {
                host: host@,
                port: port as int,
                token: settings@.vault_token,
                server_name: settings@.server_name,
            }),
    {
        VaultClient {
            vault_host: host,
            vault_port: port,
            token: settings.vault_token.clone(),
            server_name: settings.server_name.clone(),
        }
    }

    /// The request for this service's secrets, with the token as the
    /// value of the header [`TOKEN_HEADER`]. A token that cannot stand in
    /// a header value is an `Auth` error, and no request is made.
    pub fn secret_request(&self) -> (r: Result<SecretRequest, ConsulError>)
        ensures
            match r {
                Ok(request) => header_text(self@.token) && request.token@ == self@.token
                    && request.header@ == TOKEN_HEADER@ && request.url@ == request_url(
                    self@.host,
                    self@.port,
                    "/v1/secret/"@ + self@.server_name,
                ),
                Err(e) => !header_text(self@.token) && e@ == token_error(),
            },
    {
        let path = join2("/v1/secret/", self.server_name.as_str());
        let url = build_url(self.vault_host.as_str(), self.vault_port, path.as_str());
        match header_value(self.token.as_str()) {
            Ok(_) => Ok(
                SecretRequest {
                    url,
                    header: String::from_str(TOKEN_HEADER),
                    token: self.token.clone(),
                },
            ),
            Err(error) => {
                let cause = header_error_text(&error);
                let message = join2("Error parsing token: ", cause.as_str());
                proof {
                    reveal_strlit("Error parsing token: ");
                    reveal_strlit("failed to parse header value");
                    reveal_strlit("Error parsing token: failed to parse header value");
                    assert(message@ =~= "Error parsing token: failed to parse header value"@);
                }
                Err(ConsulError::new(ErrorKind::Auth, message))
            },
        }
    }

    /// The secrets of this service, from the reply to the request for
    /// them: the pairs of the reply, as they are. A reply without a body
    /// is a `Transport` error.
    pub fn secret(&self, reply: HttpReply<Vec<(String, String)>>) -> (r: Result<
        ConfigMap,
        ConsulError,
    >)
        ensures
            match r {
                Ok(secrets) => secret_outcome(reply) == Ok::<
                    Map<Seq<char>, Seq<char>>,
                    ConsulErrorView,
                >(secrets@),
                Err(e) => secret_outcome(reply) == Err::<
                    Map<Seq<char>, Seq<char>>,
                    ConsulErrorView,
                >(e@),
            },
    {
        match reply_body(reply) {
            Ok(pairs) => Ok(ConfigMap::from_pairs(pairs)),
            Err(e) => Err(e),
        }
    }
}

/// An address written as a host without `:`, a `:` and a port up to
/// [`MAX_PORT`] in decimal digits reads back as that host and port.
pub proof fn lemma_written_address_reads_back(host: Seq<char>, port: nat)
    requires
        !host.contains(':'),
        port <= MAX_PORT,
    ensures
        consul_endpoint(host + ":"@ + decimal_text(port)) == Some((host, port as int)),
{
    reveal_strlit(":");
    assert(":"@ =~= seq![':']);
    lemma_split_joined(host, ':', decimal_text(port));
    lemma_numeral_of_decimal_text(port, true);
}

/// An address without `:` is none, and neither is one whose text after
/// the first `:` is no numeral.
pub proof fn lemma_malformed_address_is_rejected(address: Seq<char>)
    ensures
        !address.contains(':') ==> consul_endpoint(address) is None,
        split_first(address, ':') matches Some((host, port)) && numeral(port, true) is None
            ==> consul_endpoint(address) is None,
{
    if !address.contains(':') {
        lemma_split_needs_separator(address, ':');
    }
}

/// One entry whose value has no text makes the whole listing fail: no
/// part of the configuration is returned.
pub proof fn lemma_bad_entry_fails_listing(
    entries: Seq<ConsulKVView>,
    namespace: Seq<char>,
    at: int,
)
    requires
        0 <= at < entries.len(),
        decoded_text(base64_decoded(entries[at].value)) is Err,
    ensures
        listed_config(entries, namespace) is Err,
    decreases entries.len(),
{
    if at < entries.len() - 1 {
        lemma_bad_entry_fails_listing(entries.drop_last(), namespace, at);
    }
}

/// Every entry of a listing that is read has its key, without the
/// namespace, in the configuration; the value under it is the text of the
/// entry, unless a later entry comes to the same key.
pub proof fn lemma_listed_key_is_stripped(
    entries: Seq<ConsulKVView>,
    namespace: Seq<char>,
    at: int,
)
    requires
        0 <= at < entries.len(),
        listed_config(entries, namespace) is Ok,
    ensures
        listed_config(entries, namespace)->Ok_0.contains_key(
            without_prefix(entries[at].key, namespace),
        ),
        (forall|later: int|
            at < later < entries.len() ==> without_prefix(
                (#[trigger] entries[later]).key,
                namespace,
            ) != without_prefix(entries[at].key, namespace)) ==> Ok::<Seq<char>, Seq<char>>(
            listed_config(entries, namespace)->Ok_0[without_prefix(entries[at].key, namespace)],
        ) == decoded_text(base64_decoded(entries[at].value)),
    decreases entries.len(),
{
    if at < entries.len() - 1 {
        let before = entries.drop_last();
        lemma_listed_key_is_stripped(before, namespace, at);
        if forall|later: int|
            at < later < entries.len() ==> without_prefix(
                (#[trigger] entries[later]).key,
                namespace,
            ) != without_prefix(entries[at].key, namespace) {
            assert forall|later: int| at < later < before.len() implies without_prefix(
                (#[trigger] before[later]).key,
                namespace,
            ) != without_prefix(before[at].key, namespace) by {}
        }
    }
}

} // verus!
