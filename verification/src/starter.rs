//! The start-up sequence: configuration, secrets, model download,
//! registration. Each stage asks for one thing from outside; whatever the
//! answer, the sequence goes on, and it ends with the local path of the
//! model. Only a discovery store's address that is no address keeps it
//! from starting.

use crate::config_map::{pairs_map, value_or_empty, ConfigMap};
use crate::codec::header_text;
use crate::consulr::{
    address_failure, consul_client, kv_outcome, request_url, secret_outcome,
    service_check, service_outcome, token_error, AgentServiceCheckView, ConsulClient,
    ConsulClientView, ConsulError, ConsulErrorView, ConsulKV, ErrorKind, HttpReply, Registration,
    SecretRequest, ServiceEntry, VaultClient, VaultClientView, MAX_PORT, TOKEN_HEADER,
};
use crate::s3_download::{
    walk_start, with_separator, S3Downloader, S3DownloaderView, S3Err, S3ErrView, LOCAL_ROOT,
};
use crate::settings::{Settings, SettingsView};
use crate::text::{
    decimal_text, join2, join3, lemma_decimal_text_lacks, lemma_numeral_of_decimal_text,
    lemma_split_joined, lemma_split_needs_separator, numeral_within, parse_numeral,
    split_first, split_once,
};
use vstd::prelude::*;
use vstd::string::*;

verus! {

/// Name under which the secret store is listed in the discovery store.
pub const VAULT_SERVICE: &'static str = "vault";

/// Root prefix of the models in the object store.
pub const MODEL_NAMESPACE: &'static str = "huggingface";

/// Revision that is downloaded where none is asked for.
pub const DEFAULT_REVISION: &'static str = "main";

/// Key of the object store's access key in the configuration.
pub const ACCESS_KEY: &'static str = "accessKeyID";

/// Key of the object store's secret key in the configuration.
pub const SECRET_KEY: &'static str = "secretAccessKey";

/// Key of the object store's region in the configuration.
pub const REGION_KEY: &'static str = "region";

/// Key of the bucket that holds the models in the configuration.
pub const BUCKET_KEY: &'static str = "bucket";

/// Host and port of a listed address: the text before the first `:`, and
/// the number, from 0 to [`MAX_PORT`] and without a `-`, that the
/// text between the first and the second `:` denotes (up to the end where
/// there is no second one).
pub open spec fn vault_endpoint(address: Seq<char>) -> Option<(Seq<char>, int)> {
    match split_first(address, ':') {
        None => None,
        Some((host, rest)) => {
            let port = match split_first(rest, ':') {
                Some((port, _)) => port,
                None => rest,
            };
            match numeral_within(port, false, MAX_PORT as int) {
                Some(number) => Some((host, number)),
                None => None,
            }
        },
    }
}

/// Reads a listed address as host and port.
pub fn parse_vault_address(address: &str) -> (r: Option<(String, u16)>)
    ensures
        match r {
            Some((host, port)) => vault_endpoint(address@) == Some((host@, port as int)),
            None => vault_endpoint(address@) is None,
        },
{
    match split_once(address, ':') {
        None => None,
        Some((host, rest)) => {
            let port = match split_once(rest.as_str(), ':') {
                Some((port, _)) => port,
                None => rest,
            };
            match parse_numeral(port.as_str(), false, MAX_PORT) {
                Some(number) => Some((host, number as u16)),
                None => None,
            }
        },
    }
}

/// The revision to download: the one asked for, or the default where
/// none is.
pub open spec fn revision_or_default(model_revision: Seq<char>) -> Seq<char> {
    if model_revision.len() == 0 {
        DEFAULT_REVISION@
    } else {
        model_revision
    }
}

/// Where a start-up run stands.
pub enum Stage {
    /// The configuration is awaited.
    Init,
    /// The configuration is settled. Without a client, the listing of
    /// the secret stores is awaited; with one, the secrets from it.
    KvFetched { vault: Option<VaultClient> },
    /// The secrets are settled. The download of the model is awaited.
    SecretResolved,
    /// The download is over. The registration is awaited.
    Downloaded,
    /// The run is over.
    Registered,
}

/// What a [`Stage`] holds, as contracts speak of it.
pub enum StageView {
    Init,
    KvFetched { vault: Option<VaultClientView> },
    SecretResolved,
    Downloaded,
    Registered,
}

impl View for Stage {
    type V = StageView;

    open spec fn view(&self) -> StageView {
        match self {
            Stage::Init => StageView::Init,
            Stage::KvFetched { vault } => StageView::KvFetched {
                vault: match vault {
                    Some(client) => Some(client@),
                    None => None,
                },
            },
            Stage::SecretResolved => StageView::SecretResolved,
            Stage::Downloaded => StageView::Downloaded,
            Stage::Registered => StageView::Registered,
        }
    }
}

/// What a start-up run asks for next, or the path it ends with.
#[derive(Debug, PartialEq, Eq)]
pub enum BootAction {
    /// `GET` the configuration of the service.
    FetchConfig { url: String },
    /// `GET` the healthy instances of the secret store.
    FindVault { url: String },
    /// `GET` the secrets of the service.
    FetchSecret { request: SecretRequest },
    /// Download the model.
    Download { downloader: S3Downloader },
    /// `PUT` the registration of this process.
    Register { registration: Registration },
    /// Nothing more: the model's tree is under `path`, as far as the
    /// download got.
    Done { path: String },
}

/// What a [`BootAction`] holds, as contracts speak of it.
pub enum BootActionView {
    FetchConfig { url: Seq<char> },
    FindVault { url: Seq<char> },
    FetchSecret { url: Seq<char>, header: Seq<char>, token: Seq<char> },
    Download { downloader: S3DownloaderView },
    Register { url: Seq<char>, check: AgentServiceCheckView },
    Done { path: Seq<char> },
}

impl View for BootAction {
    type V = BootActionView;

    open spec fn view(&self) -> BootActionView {
        match self {
            BootAction::FetchConfig { url } => BootActionView::FetchConfig { url: url@ },
            BootAction::FindVault { url } => BootActionView::FindVault { url: url@ },
            BootAction::FetchSecret { request } => BootActionView::FetchSecret {
                url: request.url@,
                header: request.header@,
                token: request.token@,
            },
            BootAction::Download { downloader } => BootActionView::Download {
                downloader: downloader@,
            },
            BootAction::Register { registration } => BootActionView::Register {
                url: registration.url@,
                check: registration.check@,
            },
            BootAction::Done { path } => BootActionView::Done { path: path@ },
        }
    }
}

/// What came of the last action.
#[derive(Debug)]
pub enum BootEvent {
    /// The reply to the request for the configuration.
    Config { listing: HttpReply<Vec<ConsulKV>> },
    /// The reply to the request for the secret store's instances.
    Vault { instances: HttpReply<Vec<ServiceEntry>> },
    /// The reply to the request for the secrets.
    Secret { secrets: HttpReply<Vec<(String, String)>> },
    /// How the download ended.
    Downloaded { result: Result<(), S3Err> },
    /// The registration was sent; whether it arrived does not matter.
    Registered,
}

/// A failure that a run took note of, and went on from.
#[derive(Debug, PartialEq, Eq)]
pub enum BootWarning {
    /// The configuration could not be had; the run goes on without any.
    Config { error: ConsulError },
    /// The secret store could not be found; the run goes on without secrets.
    Vault { error: ConsulError },
    /// The secrets could not be had; the run goes on without them.
    Secret { error: ConsulError },
    /// The model could not be downloaded; the run goes on to register.
    Download { failure: S3Err },
}

/// What a [`BootWarning`] holds, as contracts speak of it.
pub enum BootWarningView {
    Config { error: ConsulErrorView },
    Vault { error: ConsulErrorView },
    Secret { error: ConsulErrorView },
    Download { failure: S3ErrView },
}

impl View for BootWarning {
    type V = BootWarningView;

    open spec fn view(&self) -> BootWarningView {
        match self {
            BootWarning::Config { error } => BootWarningView::Config { error: error@ },
            BootWarning::Vault { error } => BootWarningView::Vault { error: error@ },
            BootWarning::Secret { error } => BootWarningView::Secret { error: error@ },
            BootWarning::Download { failure } => BootWarningView::Download {
                failure: failure@,
            },
        }
    }
}

impl DeepView for BootWarning {
    type V = BootWarningView;

    open spec fn deep_view(&self) -> BootWarningView {
        self@
    }
}

/// A start-up run at one moment.
pub struct BootView {
    pub consul: ConsulClientView,
    pub settings: SettingsView,
    pub model_id: Seq<char>,
    pub model_revision: Seq<char>,
    pub config: Map<Seq<char>, Seq<char>>,
    pub stage: StageView,
}

/// The beginning of a run for the given model, at a discovery store.
pub open spec fn boot_start(
    consul: ConsulClientView,
    settings: SettingsView,
    model_id: Seq<char>,
    model_revision: Seq<char>,
) -> BootView {
    BootView {
        consul,
        settings,
        model_id,
        model_revision: revision_or_default(model_revision),
        config: Map::empty(),
        stage: StageView::Init,
    }
}

/// The sub-prefix of the model in the object store, and below the local
/// root: the model's name, then its revision.
pub open spec fn model_path(model_id: Seq<char>, model_revision: Seq<char>) -> Seq<char> {
    model_id + "/"@ + model_revision
}

/// The downloader that a configuration leads to: a credential or a place
/// that the configuration lacks is empty.
pub open spec fn model_downloader(
    config: Map<Seq<char>, Seq<char>>,
    model_id: Seq<char>,
    model_revision: Seq<char>,
) -> S3DownloaderView {
    S3DownloaderView {
        access_key: value_or_empty(config, ACCESS_KEY@),
        secret_key: value_or_empty(config, SECRET_KEY@),
        region: value_or_empty(config, REGION_KEY@),
        bucket: value_or_empty(config, BUCKET_KEY@),
        root_prefix: with_separator(MODEL_NAMESPACE@),
        sub_prefix: model_path(model_id, model_revision),
    }
}

/// What a run asks for at each stage.
pub open spec fn boot_action(run: BootView) -> BootActionView {
    match run.stage {
        StageView::Init => BootActionView::FetchConfig {
            url: request_url(
                run.consul.host,
                run.consul.port,
                "/v1/kv/config/"@ + run.consul.server_name + "?recurse=true"@,
            ),
        },
        StageView::KvFetched { vault: None } => BootActionView::FindVault {
            url: request_url(
                run.consul.host,
                run.consul.port,
                "/v1/health/checks/"@ + VAULT_SERVICE@,
            ),
        },
        StageView::KvFetched { vault: Some(vault) } => BootActionView::FetchSecret {
            url: request_url(vault.host, vault.port, "/v1/secret/"@ + vault.server_name),
            header: TOKEN_HEADER@,
            token: vault.token,
        },
        StageView::SecretResolved => BootActionView::Download {
            downloader: model_downloader(run.config, run.model_id, run.model_revision),
        },
        StageView::Downloaded => BootActionView::Register {
            url: request_url(run.consul.host, run.consul.port, "/v1/agent/check/register"@),
            check: service_check(
                run.consul.server_name,
                run.consul.pod_ip,
                run.consul.listen_port,
            ),
        },
        StageView::Registered => BootActionView::Done {
            path: LOCAL_ROOT@ + model_path(run.model_id, run.model_revision),
        },
    }
}

/// The configuration that a reply brings: what it lists, or nothing where
/// the reply or one of its values is bad.
pub open spec fn fetched_config(
    server_name: Seq<char>,
    reply: HttpReply<Vec<ConsulKV>>,
) -> Map<Seq<char>, Seq<char>> {
    match kv_outcome(server_name, reply) {
        Ok(map) => map,
        Err(_) => Map::empty(),
    }
}

/// The error for a listed address that cannot be read.
pub open spec fn vault_address_error(address: Seq<char>) -> ConsulErrorView {
    ConsulErrorView { kind: ErrorKind::Config, message: "Invalid vault address: "@ + address }
}

/// What the reply that lists the secret store's instances comes to: the
/// first listed instance as the store to ask, or no store where none is
/// listed; a warning where the reply has no body, where the first address
/// cannot be read, or where the token cannot be sent.
pub open spec fn vault_outcome(settings: SettingsView, reply: HttpReply<Vec<ServiceEntry>>) -> Result<
    Option<VaultClientView>,
    BootWarningView,
> {
    match service_outcome(reply) {
        Err(error) => Err(BootWarningView::Vault { error }),
        Ok(addresses) => if addresses.len() == 0 {
            Ok(None)
        } else {
            match vault_endpoint(addresses[0]) {
                None => Err(BootWarningView::Vault { error: vault_address_error(addresses[0]) }),
                Some((host, port)) => if header_text(settings.vault_token) {
                    Ok(
                        Some(
                            VaultClientView {
                                host,
                                port,
                                token: settings.vault_token,
                                server_name: settings.server_name,
                            },
                        ),
                    )
                } else {
                    Err(BootWarningView::Secret { error: token_error() })
                },
            }
        },
    }
}

/// The secret store to ask after the reply that lists its instances, if any.
pub open spec fn found_vault(
    settings: SettingsView,
    reply: HttpReply<Vec<ServiceEntry>>,
) -> Option<VaultClientView> {
    match vault_outcome(settings, reply) {
        Ok(vault) => vault,
        Err(_) => None,
    }
}

/// The configuration after the secrets' reply: the secrets written over
/// it, or the configuration as it was where the reply brought none.
pub open spec fn with_secrets(
    config: Map<Seq<char>, Seq<char>>,
    reply: HttpReply<Vec<(String, String)>>,
) -> Map<Seq<char>, Seq<char>> {
    match secret_outcome(reply) {
        Ok(secrets) => config.union_prefer_right(secrets),
        Err(_) => config,
    }
}

/// One step of a run. The answer that a stage awaits moves the run to the
/// next stage, whether it brings what was asked for or a failure; any
/// other answer changes nothing.
pub open spec fn boot_step(run: BootView, event: BootEvent) -> BootView {
    match (run.stage, event) {
        (StageView::Init, BootEvent::Config { listing }) => BootView {
            config: fetched_config(run.consul.server_name, listing),
            stage: StageView::KvFetched { vault: None },
            ..run
        },
        (StageView::KvFetched { vault: None }, BootEvent::Vault { instances }) => match found_vault(
            run.settings,
            instances,
        ) {
            Some(vault) => BootView { stage: StageView::KvFetched { vault: Some(vault) }, ..run },
            None => BootView { stage: StageView::SecretResolved, ..run },
        },
        (StageView::KvFetched { vault: Some(_) }, BootEvent::Secret { secrets }) => BootView {
            config: with_secrets(run.config, secrets),
            stage: StageView::SecretResolved,
            ..run
        },
        (StageView::SecretResolved, BootEvent::Downloaded { result }) => BootView {
            stage: StageView::Downloaded,
            ..run
        },
        (StageView::Downloaded, BootEvent::Registered) => BootView {
            stage: StageView::Registered,
            ..run
        },
        _ => run,
    }
}

/// The failure that a step takes note of: the one that the awaited answer
/// brought, if it brought one. No failure stops the run.
pub open spec fn boot_warning(run: BootView, event: BootEvent) -> Option<BootWarningView> {
    match (run.stage, event) {
        (StageView::Init, BootEvent::Config { listing }) => match kv_outcome(
            run.consul.server_name,
            listing,
        ) {
            Ok(_) => None,
            Err(error) => Some(BootWarningView::Config { error }),
        },
        (StageView::KvFetched { vault: None }, BootEvent::Vault { instances }) => match vault_outcome(
            run.settings,
            instances,
        ) {
            Ok(_) => None,
            Err(warning) => Some(warning),
        },
        (StageView::KvFetched { vault: Some(_) }, BootEvent::Secret { secrets }) => {
            match secret_outcome(secrets) {
                Ok(_) => None,
                Err(error) => Some(BootWarningView::Secret { error }),
            }
        },
        (StageView::SecretResolved, BootEvent::Downloaded { result }) => match result {
            Ok(_) => None,
            Err(failure) => Some(BootWarningView::Download { failure: failure@ }),
        },
        _ => None,
    }
}

/// What holds of every run: a secret store that is asked has a token that
/// can be sent.
pub open spec fn boot_sound(run: BootView) -> bool {
    run.stage matches StageView::KvFetched { vault: Some(vault) } ==> header_text(vault.token)
}

/// A start-up run.
pub struct Bootstrap {
    consul: ConsulClient,
    settings: Settings,
    model_id: String,
    model_revision: String,
    config: ConfigMap,
    stage: Stage,
}

impl View for Bootstrap {
    type V = BootView;

    closed spec fn view(&self) -> BootView {
        BootView {
            consul: self.consul@,
            settings: self.settings@,
            model_id: self.model_id@,
            model_revision: self.model_revision@,
            config: self.config@,
            stage: self.stage@,
        }
    }
}

/// Begins the start-up run for the model `model_id` at `model_revision`
/// (the default revision where that is empty). The run awaits the
/// configuration. A discovery store's address that is none is a
/// `Config` error, the only way for a run to fail.
pub fn start_app(settings: Settings, model_id: String, model_revision: String) -> (r: Result<
    Bootstrap,
    ConsulError,
>)
    ensures
        match r {
            Ok(run) => consul_client(settings@) is Some && run@ == boot_start(
                consul_client(settings@)->0,
                settings@,
                model_id@,
                model_revision@,
            ),
            Err(e) => consul_client(settings@) is None && e@ == (ConsulErrorView {
                kind: ErrorKind::Config,
                message: address_failure(settings@.consul_address),
            }),
        },
{
    let consul = match ConsulClient::new(&settings) {
        Ok(consul) => consul,
        Err(e) => {
            return Err(e);
        },
    };
    let model_revision = if model_revision.as_str().is_empty() {
        String::from_str(DEFAULT_REVISION)
    } else {
        model_revision
    };
    Ok(
        Bootstrap {
            consul,
            settings,
            model_id,
            model_revision,
            config: ConfigMap::new(),
            stage: Stage::Init,
        },
    )
}

impl Bootstrap {
    #[verifier::type_invariant]
    spec fn sound(&self) -> bool {
        boot_sound(self@)
    }

    /// What the run asks for now: see [`boot_action`].
    pub fn action(&self) -> (action: BootAction)
        ensures
            action@ == boot_action(self@),
            boot_sound(self@),
    {
        proof {
            use_type_invariant(self);
        }
        match &self.stage {
            Stage::Init => BootAction::FetchConfig { url: self.consul.kv_url() },
            Stage::KvFetched { vault: None } => BootAction::FindVault {
                url: self.consul.get_service_url(VAULT_SERVICE),
            },
            Stage::KvFetched { vault: Some(vault) } => match vault.secret_request() {
                Ok(request) => BootAction::FetchSecret { request },
                Err(_) => vstd::pervasive::unreached(),
            },
            Stage::SecretResolved => {
                let sub_prefix = join3(self.model_id.as_str(), "/", self.model_revision.as_str());
                BootAction::Download {
                    downloader: S3Downloader::new(
                        self.config.get_or_empty(ACCESS_KEY),
                        self.config.get_or_empty(SECRET_KEY),
                        self.config.get_or_empty(REGION_KEY),
                        self.config.get_or_empty(BUCKET_KEY),
                        String::from_str(MODEL_NAMESPACE),
                        sub_prefix,
                    ),
                }
            },
            Stage::Downloaded => BootAction::Register { registration: self.consul.register() },
            Stage::Registered => {
                let sub_prefix = join3(self.model_id.as_str(), "/", self.model_revision.as_str());
                BootAction::Done { path: join2(LOCAL_ROOT, sub_prefix.as_str()) }
            },
        }
    }

    /// Whether the run is over.
    pub fn is_done(&self) -> (r: bool)
        ensures
            r == (self@.stage is Registered),
    {
        match &self.stage {
            Stage::Registered => true,
            _ => false,
        }
    }

    /// What the reply that lists the secret store's instances comes to:
    /// see [`vault_outcome`].
    fn find_vault(
        consul: &ConsulClient,
        settings: &Settings,
        reply: HttpReply<Vec<ServiceEntry>>,
    ) -> (r: Result<Option<VaultClient>, BootWarning>)
        ensures
            match r {
                Ok(Some(vault)) => vault_outcome(settings@, reply) == Ok::<
                    Option<VaultClientView>,
                    BootWarningView,
                >(Some(vault@)),
                Ok(None) => vault_outcome(settings@, reply) == Ok::<
                    Option<VaultClientView>,
                    BootWarningView,
                >(None),
                Err(warning) => vault_outcome(settings@, reply) == Err::<
                    Option<VaultClientView>,
                    BootWarningView,
                >(warning@),
            },
    {
        let addresses = match consul.get_service(reply) {
            Ok(addresses) => addresses,
            Err(error) => {
                return Err(BootWarning::Vault { error });
            },
        };
        if addresses.len() == 0 {
            return Ok(None);
        }
        match parse_vault_address(addresses[0].as_str()) {
            None => Err(
                BootWarning::Vault {
                    error: ConsulError::new(
                        ErrorKind::Config,
                        join2("Invalid vault address: ", addresses[0].as_str()),
                    ),
                },
            ),
            Some((host, port)) => {
                let vault = VaultClient::new(host, port, settings);
                match vault.secret_request() {
                    Ok(_) => Ok(Some(vault)),
                    Err(error) => Err(BootWarning::Secret { error }),
                }
            },
        }
    }

    /// Hands the run the answer to its action. Returns the run that
    /// follows (see [`boot_step`]) and the failure that the answer
    /// brought, if any (see [`boot_warning`]).
    pub fn step(self, event: BootEvent) -> (next: (Bootstrap, Option<BootWarning>))
        ensures
            next.0@ == boot_step(self@, event),
            next.1.deep_view() == boot_warning(self@, event),
    {
        proof {
            use_type_invariant(&self);
        }
        let Bootstrap { consul, settings, model_id, model_revision, config, stage } = self;
        match (stage, event) {
            (Stage::Init, BootEvent::Config { listing }) => {
                let (config, warning) = match consul.kv(listing) {
                    Ok(config) => (config, None),
                    Err(error) => (ConfigMap::new(), Some(BootWarning::Config { error })),
                };
                (
                    Bootstrap {
                        consul,
                        settings,
                        model_id,
                        model_revision,
                        config,
                        stage: Stage::KvFetched { vault: None },
                    },
                    warning,
                )
            },
            (Stage::KvFetched { vault: None }, BootEvent::Vault { instances }) => {
                let (stage, warning) = match Bootstrap::find_vault(&consul, &settings, instances) {
                    Ok(Some(vault)) => (Stage::KvFetched { vault: Some(vault) }, None),
                    Ok(None) => (Stage::SecretResolved, None),
                    Err(warning) => (Stage::SecretResolved, Some(warning)),
                };
                (Bootstrap { consul, settings, model_id, model_revision, config, stage }, warning)
            },
            (Stage::KvFetched { vault: Some(vault) }, BootEvent::Secret { secrets }) => {
                let mut config = config;
                let warning = match vault.secret(secrets) {
                    Ok(secrets) => {
                        config.merge(secrets);
                        None
                    },
                    Err(error) => Some(BootWarning::Secret { error }),
                };
                (
                    Bootstrap {
                        consul,
                        settings,
                        model_id,
                        model_revision,
                        config,
                        stage: Stage::SecretResolved,
                    },
                    warning,
                )
            },
            (Stage::SecretResolved, BootEvent::Downloaded { result }) => {
                let warning = match result {
                    Ok(_) => None,
                    Err(failure) => Some(BootWarning::Download { failure }),
                };
                (
                    Bootstrap {
                        consul,
                        settings,
                        model_id,
                        model_revision,
                        config,
                        stage: Stage::Downloaded,
                    },
                    warning,
                )
            },
            (Stage::Downloaded, BootEvent::Registered) => (
                Bootstrap {
                    consul,
                    settings,
                    model_id,
                    model_revision,
                    config,
                    stage: Stage::Registered,
                },
                None,
            ),
            (stage, _) => (
                Bootstrap { consul, settings, model_id, model_revision, config, stage },
                None,
            ),
        }
    }
}

/// The address that the discovery store's client writes for an instance
/// reads back as the instance's host and port, if the host holds no `:`.
pub proof fn lemma_listed_address_reads_back(host: Seq<char>, port: nat)
    requires
        !host.contains(':'),
        port <= MAX_PORT,
    ensures
        vault_endpoint(host + ":"@ + decimal_text(port)) == Some((host, port as int)),
{
    reveal_strlit(":");
    assert(":"@ =~= seq![':']);
    lemma_split_joined(host, ':', decimal_text(port));
    lemma_decimal_text_lacks(port, ':');
    lemma_split_needs_separator(decimal_text(port), ':');
    lemma_numeral_of_decimal_text(port, false);
}

/// A run begins sound, and every step keeps it so.
pub proof fn lemma_step_sound(run: BootView, event: BootEvent)
    requires
        boot_sound(run),
    ensures
        boot_sound(boot_step(run, event)),
{
}

/// A step changes neither the model, nor the settings, nor the discovery
/// store that a run works with.
pub proof fn lemma_step_keeps_target(run: BootView, event: BootEvent)
    ensures
        boot_step(run, event).consul == run.consul,
        boot_step(run, event).settings == run.settings,
        boot_step(run, event).model_id == run.model_id,
        boot_step(run, event).model_revision == run.model_revision,
{
}

/// Secrets win: after the secrets' reply, a key that the secret store
/// holds has the secret store's value, whatever the discovery store said
/// of it; every other key is as the discovery store gave it.
pub proof fn lemma_secret_wins(
    run: BootView,
    secrets: Vec<(String, String)>,
    key: Seq<char>,
)
    requires
        run.stage matches StageView::KvFetched { vault: Some(_) },
    ensures
        ({
            let held = pairs_map(secrets.deep_view());
            let after = boot_step(
                run,
                BootEvent::Secret { secrets: HttpReply::Body { body: secrets } },
            ).config;
            &&& held.contains_key(key) ==> after.contains_key(key) && after[key] == held[key]
            &&& !held.contains_key(key) ==> (after.contains_key(key) <==> run.config.contains_key(
                key,
            ))
            &&& !held.contains_key(key) && run.config.contains_key(key) ==> after[key]
                == run.config[key]
        }),
{
}

/// The five answers of a run, failures or not, lead from its beginning to
/// its end, and the end names the model's local path: the local root,
/// the model's name and the revision. The secrets' answer is passed over
/// where no secret store was asked.
pub proof fn lemma_run_ends_with_path(
    start: BootView,
    config: HttpReply<Vec<ConsulKV>>,
    vault: HttpReply<Vec<ServiceEntry>>,
    secret: HttpReply<Vec<(String, String)>>,
    download: Result<(), S3Err>,
)
    requires
        start.stage is Init,
    ensures
        ({
            let configured = boot_step(start, BootEvent::Config { listing: config });
            let looked_up = boot_step(configured, BootEvent::Vault { instances: vault });
            let resolved = boot_step(looked_up, BootEvent::Secret { secrets: secret });
            let downloaded = boot_step(resolved, BootEvent::Downloaded { result: download });
            let registered = boot_step(downloaded, BootEvent::Registered);
            &&& configured.stage is KvFetched
            &&& resolved.stage is SecretResolved
            &&& downloaded.stage is Downloaded
            &&& registered.stage is Registered
            &&& boot_action(registered) == (BootActionView::Done {
                path: LOCAL_ROOT@ + start.model_id + "/"@ + start.model_revision,
            })
        }),
{
    let path = LOCAL_ROOT@ + start.model_id + "/"@ + start.model_revision;
    assert(path =~= LOCAL_ROOT@ + model_path(start.model_id, start.model_revision));
}

/// Where the configuration cannot be had and no secret store is listed,
/// the download is asked for with empty credentials and an empty place.
pub proof fn lemma_run_without_stores(
    start: BootView,
    config: HttpReply<Vec<ConsulKV>>,
    vault: HttpReply<Vec<ServiceEntry>>,
)
    requires
        start.stage is Init,
        !(config is Body),
        !(vault is Body),
    ensures
        ({
            let looked_up = boot_step(
                boot_step(start, BootEvent::Config { listing: config }),
                BootEvent::Vault { instances: vault },
            );
            boot_action(looked_up) == (BootActionView::Download {
                downloader: S3DownloaderView {
                    access_key: Seq::empty(),
                    secret_key: Seq::empty(),
                    region: Seq::empty(),
                    bucket: Seq::empty(),
                    root_prefix: with_separator(MODEL_NAMESPACE@),
                    sub_prefix: model_path(start.model_id, start.model_revision),
                },
            })
        }),
{
}

/// The download that a run asks for begins by listing the model's
/// prefix: the models' namespace, the model's name and the revision,
/// each followed by the separator but the last.
pub proof fn lemma_download_lists_the_model(run: BootView)
    requires
        run.stage is SecretResolved,
    ensures
        ({
            let downloader = boot_action(run)->downloader;
            walk_start(downloader.root_prefix, downloader.root_prefix + downloader.sub_prefix)
                == walk_start(
                "huggingface/"@,
                "huggingface/"@ + run.model_id + "/"@ + run.model_revision,
            )
        }),
{
    reveal_strlit("huggingface");
    reveal_strlit("huggingface/");
    assert(with_separator(MODEL_NAMESPACE@) =~= "huggingface/"@);
    assert("huggingface/"@ + model_path(run.model_id, run.model_revision) =~= "huggingface/"@
        + run.model_id + "/"@ + run.model_revision);
}

} // verus!
