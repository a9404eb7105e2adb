use router::consulr::{ConsulKV, ErrorKind, HttpReply, ServiceEntry};
use router::s3_download::{S3Downloader, S3Err, WalkAction};
use router::settings::Settings;
use router::starter::{
    parse_vault_address, start_app, BootAction, BootEvent, BootWarning, Bootstrap,
};

trait Quietly {
    fn go(self, event: BootEvent) -> Bootstrap;
}

impl Quietly for Bootstrap {
    fn go(self, event: BootEvent) -> Bootstrap {
        self.step(event).0
    }
}

fn settings() -> Settings {
    Settings::new(
        Some("consul.local:8500".to_string()),
        Some("10.1.2.3".to_string()),
        Some("svc".to_string()),
        Some("9000".to_string()),
        Some("tok".to_string()),
    )
}

fn begin(model_id: &str, model_revision: &str) -> Bootstrap {
    match start_app(settings(), model_id.to_string(), model_revision.to_string()) {
        Ok(run) => run,
        Err(e) => panic!("the run should start: {:?}", e),
    }
}

fn unreachable<T>() -> HttpReply<T> {
    HttpReply::Unreachable { cause: "connection refused".to_string() }
}

fn config_of(entries: &[(&str, &str)]) -> BootEvent {
    BootEvent::Config {
        listing: HttpReply::Body {
            body: entries
                .iter()
                .map(|(key, value)| ConsulKV {
                    key: format!("config/svc/{}", key),
                    value: value.to_string(),
                })
                .collect(),
        },
    }
}

fn vault_at(address: &str, port: u16) -> BootEvent {
    BootEvent::Vault {
        instances: HttpReply::Body {
            body: vec![
                ServiceEntry { address: address.to_string(), port },
                ServiceEntry { address: "second".to_string(), port: 1 },
            ],
        },
    }
}

fn secrets_of(pairs: &[(&str, &str)]) -> BootEvent {
    BootEvent::Secret {
        secrets: HttpReply::Body {
            body: pairs.iter().map(|(key, value)| (key.to_string(), value.to_string())).collect(),
        },
    }
}

fn downloader_of(action: BootAction) -> S3Downloader {
    match action {
        BootAction::Download { downloader } => downloader,
        other => panic!("a download was expected, not {:?}", other),
    }
}

#[test]
fn start_app_fails_only_on_a_bad_address() {
    for address in ["nowhere", "host:port", "host:", ""] {
        let bad = Settings::new(Some(address.to_string()), None, None, None, None);
        match start_app(bad, "m".to_string(), "main".to_string()) {
            Ok(_) => panic!("the run should not start"),
            Err(e) => assert_eq!(e.kind(), ErrorKind::Config),
        }
    }
    assert!(start_app(Settings::new(None, None, None, None, None), "".to_string(), "".to_string())
        .is_ok());
}

#[test]
fn start_app_asks_for_the_configuration() {
    let run = begin("m", "main");
    assert!(!run.is_done());
    assert_eq!(
        run.action(),
        BootAction::FetchConfig {
            url: "https://consul.local:8500/v1/kv/config/svc?recurse=true".to_string()
        }
    );
}

#[test]
fn run_ends_with_the_path_when_everything_fails() {
    let run = begin("intfloat/e5", "9f78");
    let run = run.go(BootEvent::Config { listing: unreachable() });
    assert_eq!(
        run.action(),
        BootAction::FindVault { url: "https://consul.local:8500/v1/health/checks/vault".to_string() }
    );
    let run = run.go(BootEvent::Vault { instances: HttpReply::Body { body: vec![] } });
    let downloader = downloader_of(run.action());
    assert_eq!(downloader.access_key(), "");
    assert_eq!(downloader.secret_key(), "");
    assert_eq!(downloader.region(), "");
    assert_eq!(downloader.bucket(), "");
    assert_eq!(downloader.root_prefix(), "huggingface/");
    assert_eq!(downloader.sub_prefix(), "intfloat/e5/9f78");
    let run = run.go(BootEvent::Downloaded {
        result: Err(S3Err { key: "huggingface/intfloat/e5/9f78".to_string(), message: "x".to_string() }),
    });
    match run.action() {
        BootAction::Register { registration } => {
            assert_eq!(registration.url, "https://consul.local:8500/v1/agent/check/register");
            assert_eq!(registration.check.id, "svc_10.1.2.3");
            assert_eq!(registration.check.tcp, Some("10.1.2.3:9000".to_string()));
        }
        other => panic!("a registration was expected, not {:?}", other),
    }
    assert!(!run.is_done());
    let run = run.go(BootEvent::Registered);
    assert!(run.is_done());
    assert_eq!(run.action(), BootAction::Done { path: "/tmp/intfloat/e5/9f78".to_string() });
}

#[test]
fn run_takes_the_default_revision() {
    let run = begin("m", "");
    let run = run.go(BootEvent::Config { listing: unreachable() });
    let run = run.go(BootEvent::Vault { instances: unreachable() });
    assert_eq!(downloader_of(run.action()).sub_prefix(), "m/main");
    let run = run.go(BootEvent::Downloaded { result: Ok(()) }).go(BootEvent::Registered);
    assert_eq!(run.action(), BootAction::Done { path: "/tmp/m/main".to_string() });
}

#[test]
fn run_downloads_with_the_discovered_configuration() {
    let run = begin("m", "v1").go(config_of(&[
        ("accessKeyID", "QUtJRA=="),
        ("secretAccessKey", "c2VjcmV0"),
        ("region", "Y24tbm9ydGgtMQ=="),
        ("bucket", "bW9kZWxz"),
    ]));
    let run = run.go(BootEvent::Vault { instances: unreachable() });
    let downloader = downloader_of(run.action());
    assert_eq!(downloader.access_key(), "AKID");
    assert_eq!(downloader.secret_key(), "secret");
    assert_eq!(downloader.region(), "cn-north-1");
    assert_eq!(downloader.bucket(), "models");
    assert_eq!(
        downloader.download().action(),
        WalkAction::List { prefix: "huggingface/m/v1".to_string(), token: None }
    );
}

#[test]
fn run_drops_a_configuration_with_a_bad_value() {
    let run = begin("m", "v1").go(config_of(&[("region", "Y24="), ("bucket", "***")]));
    let run = run.go(BootEvent::Vault { instances: HttpReply::Malformed { cause: "x".to_string() } });
    let downloader = downloader_of(run.action());
    assert_eq!(downloader.region(), "");
    assert_eq!(downloader.bucket(), "");
}

#[test]
fn run_asks_the_first_listed_secret_store() {
    let run = begin("m", "v1").go(config_of(&[])).go(vault_at("10.9.9.9", 8200));
    match run.action() {
        BootAction::FetchSecret { request } => {
            assert_eq!(request.url, "https://10.9.9.9:8200/v1/secret/svc");
            assert_eq!(request.header, "X-Vault-Token");
            assert_eq!(request.token, "tok");
        }
        other => panic!("a request for secrets was expected, not {:?}", other),
    }
}

#[test]
fn secrets_override_the_discovered_configuration() {
    let run = begin("m", "v1").go(config_of(&[("region", "b2xk"), ("bucket", "a2VwdA==")]));
    let run = run.go(vault_at("10.9.9.9", 8200));
    let run = run.go(secrets_of(&[("region", "new"), ("accessKeyID", "AK")]));
    let downloader = downloader_of(run.action());
    assert_eq!(downloader.region(), "new");
    assert_eq!(downloader.bucket(), "kept");
    assert_eq!(downloader.access_key(), "AK");
    assert_eq!(downloader.secret_key(), "");
}

#[test]
fn failed_secrets_keep_the_configuration() {
    let run = begin("m", "v1").go(config_of(&[("region", "b2xk")]));
    let run = run.go(vault_at("10.9.9.9", 8200));
    let run = run.go(BootEvent::Secret { secrets: unreachable() });
    assert_eq!(downloader_of(run.action()).region(), "old");
}

#[test]
fn run_skips_the_secrets_when_the_address_cannot_be_read() {
    let run = begin("m", "v1").go(config_of(&[("region", "b2xk")]));
    let run = run.go(vault_at("fe80::1", 8200));
    assert_eq!(downloader_of(run.action()).region(), "old");
}

#[test]
fn run_skips_the_secrets_when_the_token_cannot_be_sent() {
    let settings = Settings::new(None, None, None, None, Some("bad\ntoken".to_string()));
    let run = start_app(settings, "m".to_string(), "r".to_string()).ok().unwrap();
    let run = run.go(BootEvent::Config { listing: unreachable() });
    let run = run.go(vault_at("10.9.9.9", 8200));
    assert_eq!(downloader_of(run.action()).sub_prefix(), "m/r");
}

#[test]
fn run_passes_over_an_answer_it_did_not_await() {
    let run = begin("m", "v1");
    let run = run.go(BootEvent::Registered);
    let run = run.go(BootEvent::Downloaded { result: Ok(()) });
    let run = run.go(secrets_of(&[("region", "x")]));
    let run = run.go(vault_at("10.9.9.9", 8200));
    assert!(matches!(run.action(), BootAction::FetchConfig { .. }));
    let run = run.go(config_of(&[]));
    let run = run.go(config_of(&[("region", "b2xk")]));
    assert!(matches!(run.action(), BootAction::FindVault { .. }));
    let run = run.go(BootEvent::Vault { instances: unreachable() });
    assert_eq!(downloader_of(run.action()).region(), "");
    let run = run.go(secrets_of(&[("region", "x")]));
    assert_eq!(downloader_of(run.action()).region(), "");
}

#[test]
fn run_stays_done() {
    let run = begin("m", "v1")
        .go(BootEvent::Config { listing: unreachable() })
        .go(BootEvent::Vault { instances: unreachable() })
        .go(BootEvent::Downloaded { result: Ok(()) })
        .go(BootEvent::Registered);
    let run = run.go(BootEvent::Registered).go(config_of(&[]));
    assert!(run.is_done());
    assert_eq!(run.action(), BootAction::Done { path: "/tmp/m/v1".to_string() });
}

#[test]
fn vault_address_is_read_by_its_first_two_parts() {
    assert_eq!(parse_vault_address("10.0.0.1:8200"), Some(("10.0.0.1".to_string(), 8200)));
    assert_eq!(parse_vault_address("vault:65535"), Some(("vault".to_string(), 65535)));
    assert_eq!(parse_vault_address("vault:8200:rest"), Some(("vault".to_string(), 8200)));
    assert_eq!(parse_vault_address(":+7"), Some(("".to_string(), 7)));
    assert_eq!(parse_vault_address("vault:0"), Some(("vault".to_string(), 0)));
}

#[test]
fn vault_address_needs_a_port() {
    for address in ["", "vault", "vault:", "vault::8200", "vault:65536", "vault:-1", "vault:-0", "vault:http", "::1:8200"] {
        assert_eq!(parse_vault_address(address), None);
    }
}

#[test]
fn run_takes_note_of_each_failure() {
    let run = begin("m", "v1");
    let (run, warning) = run.step(BootEvent::Config { listing: unreachable() });
    match warning {
        Some(BootWarning::Config { error }) => {
            assert_eq!(error.kind(), ErrorKind::Transport);
            assert_eq!(error.message(), "Error getting object: connection refused");
        }
        other => panic!("a warning about the configuration was expected, not {:?}", other),
    }
    let (run, warning) =
        run.step(BootEvent::Vault { instances: HttpReply::Malformed { cause: "eof".to_string() } });
    match warning {
        Some(BootWarning::Vault { error }) => {
            assert_eq!(error.kind(), ErrorKind::Transport);
            assert_eq!(error.message(), "Error parsing json: eof");
        }
        other => panic!("a warning about the secret store was expected, not {:?}", other),
    }
    let failure = S3Err { key: "huggingface/m/v1".to_string(), message: "Error listing objects: x".to_string() };
    let (run, warning) = run.step(BootEvent::Downloaded {
        result: Err(S3Err {
            key: "huggingface/m/v1".to_string(),
            message: "Error listing objects: x".to_string(),
        }),
    });
    assert_eq!(warning, Some(BootWarning::Download { failure }));
    let (run, warning) = run.step(BootEvent::Registered);
    assert_eq!(warning, None);
    assert!(run.is_done());
}

#[test]
fn run_takes_note_of_a_bad_configuration_value() {
    let (_, warning) = begin("m", "v1").step(config_of(&[("region", "%%%")]));
    match warning {
        Some(BootWarning::Config { error }) => {
            assert_eq!(error.kind(), ErrorKind::Decode);
            assert_eq!(error.message(), "Error decoding base64: failed to decode base64");
        }
        other => panic!("a warning about the configuration was expected, not {:?}", other),
    }
}

#[test]
fn run_takes_note_of_failed_secrets() {
    let run = begin("m", "v1").go(config_of(&[])).go(vault_at("10.9.9.9", 8200));
    let (_, warning) = run.step(BootEvent::Secret { secrets: unreachable() });
    match warning {
        Some(BootWarning::Secret { error }) => {
            assert_eq!(error.kind(), ErrorKind::Transport);
            assert_eq!(error.message(), "Error getting object: connection refused");
        }
        other => panic!("a warning about the secrets was expected, not {:?}", other),
    }
}

#[test]
fn run_takes_note_of_an_address_it_cannot_read() {
    let run = begin("m", "v1").go(config_of(&[]));
    let (_, warning) = run.step(vault_at("fe80::1", 8200));
    match warning {
        Some(BootWarning::Vault { error }) => {
            assert_eq!(error.kind(), ErrorKind::Config);
            assert_eq!(error.message(), "Invalid vault address: fe80::1:8200");
        }
        other => panic!("a warning about the secret store was expected, not {:?}", other),
    }
}

#[test]
fn run_takes_note_of_a_token_it_cannot_send() {
    let settings = Settings::new(None, None, None, None, Some("bad\ntoken".to_string()));
    let run = start_app(settings, "m".to_string(), "r".to_string()).ok().unwrap();
    let run = run.go(BootEvent::Config { listing: unreachable() });
    let (_, warning) = run.step(vault_at("10.9.9.9", 8200));
    match warning {
        Some(BootWarning::Secret { error }) => {
            assert_eq!(error.kind(), ErrorKind::Auth);
            assert_eq!(error.message(), "Error parsing token: failed to parse header value");
        }
        other => panic!("a warning about the secrets was expected, not {:?}", other),
    }
}

#[test]
fn run_is_quiet_when_all_goes_well() {
    let (run, warning) = begin("m", "v1").step(config_of(&[("region", "b2xk")]));
    assert_eq!(warning, None);
    let (run, warning) = run.step(vault_at("10.9.9.9", 8200));
    assert_eq!(warning, None);
    let (run, warning) = run.step(secrets_of(&[("bucket", "b")]));
    assert_eq!(warning, None);
    let (run, warning) = run.step(BootEvent::Downloaded { result: Ok(()) });
    assert_eq!(warning, None);
    let (run, warning) = run.step(BootEvent::Registered);
    assert_eq!(warning, None);
    assert!(run.is_done());
}

#[test]
fn run_is_quiet_when_no_secret_store_is_listed() {
    let run = begin("m", "v1").go(config_of(&[]));
    let (run, warning) = run.step(BootEvent::Vault { instances: HttpReply::Body { body: vec![] } });
    assert_eq!(warning, None);
    assert!(matches!(run.action(), BootAction::Download { .. }));
}

#[test]
fn run_is_quiet_about_an_answer_it_did_not_await() {
    let (run, warning) = begin("m", "v1").step(BootEvent::Downloaded {
        result: Err(S3Err { key: "k".to_string(), message: "m".to_string() }),
    });
    assert_eq!(warning, None);
    assert!(matches!(run.action(), BootAction::FetchConfig { .. }));
}
