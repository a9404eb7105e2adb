use router::config_map::ConfigMap;
use router::settings::{
    value_or, Settings, CONSUL_ADDRESS_VAR, DEFAULT_CONSUL_ADDRESS, DEFAULT_POD_IP, DEFAULT_PORT,
    DEFAULT_SERVER_NAME, DEFAULT_VAULT_TOKEN, POD_IP_VAR, PORT_VAR, SERVER_NAME_VAR,
    VAULT_TOKEN_VAR,
};

fn pair(key: &str, value: &str) -> (String, String) {
    (key.to_string(), value.to_string())
}

#[test]
fn settings_default_to_the_local_stores() {
    let settings = Settings::new(None, None, None, None, None);
    assert_eq!(settings.consul_address, "127.0.0.1:8500");
    assert_eq!(settings.pod_ip, "127.0.0.1");
    assert_eq!(settings.server_name, "text-embeddings-inference-server");
    assert_eq!(settings.port, "8080");
    assert_eq!(settings.vault_token, "");
    assert_eq!(DEFAULT_CONSUL_ADDRESS, "127.0.0.1:8500");
    assert_eq!(DEFAULT_POD_IP, "127.0.0.1");
    assert_eq!(DEFAULT_SERVER_NAME, "text-embeddings-inference-server");
    assert_eq!(DEFAULT_PORT, "8080");
    assert_eq!(DEFAULT_VAULT_TOKEN, "");
}

#[test]
fn settings_keep_what_is_given() {
    let settings = Settings::new(
        Some("c:1".to_string()),
        Some("p".to_string()),
        Some("s".to_string()),
        Some("2".to_string()),
        Some("t".to_string()),
    );
    assert_eq!(
        settings,
        Settings {
            consul_address: "c:1".to_string(),
            pod_ip: "p".to_string(),
            server_name: "s".to_string(),
            port: "2".to_string(),
            vault_token: "t".to_string(),
        }
    );
    assert_eq!(Settings::new(None, Some("".to_string()), None, None, None).pod_ip, "");
}

#[test]
fn value_or_takes_the_default_for_nothing() {
    assert_eq!(value_or(None, "d"), "d");
    assert_eq!(value_or(Some("v".to_string()), "d"), "v");
    assert_eq!(value_or(Some("".to_string()), "d"), "");
}

#[test]
fn settings_name_their_variables() {
    assert_eq!(CONSUL_ADDRESS_VAR, "APP_CONSUL_ADDRESS");
    assert_eq!(POD_IP_VAR, "POD_IP");
    assert_eq!(SERVER_NAME_VAR, "SERVER_NAME");
    assert_eq!(PORT_VAR, "PORT");
    assert_eq!(VAULT_TOKEN_VAR, "APP_VAULT_TOKEN");
}

#[test]
fn config_map_keeps_one_value_for_a_key() {
    let mut map = ConfigMap::new();
    assert_eq!(map.len(), 0);
    assert_eq!(map.get("k"), None);
    assert!(!map.contains_key("k"));
    map.insert("k".to_string(), "1".to_string());
    map.insert("k".to_string(), "2".to_string());
    map.insert("other".to_string(), "3".to_string());
    assert_eq!(map.len(), 2);
    assert!(map.contains_key("k"));
    assert_eq!(map.get("k"), Some("2".to_string()));
    assert_eq!(map.get_or_empty("k"), "2");
    assert_eq!(map.get_or_empty("missing"), "");
}

#[test]
fn config_map_from_pairs_keeps_the_later_pair() {
    let map = ConfigMap::from_pairs(vec![pair("a", "1"), pair("b", "2"), pair("a", "3")]);
    assert_eq!(map.len(), 2);
    assert_eq!(map.get("a"), Some("3".to_string()));
    assert_eq!(map.get("b"), Some("2".to_string()));
    assert_eq!(ConfigMap::from_pairs(vec![]).len(), 0);
}

#[test]
fn merge_prefers_the_second_map() {
    let mut discovered = ConfigMap::from_pairs(vec![pair("region", "old"), pair("bucket", "b")]);
    let secrets = ConfigMap::from_pairs(vec![pair("region", "new"), pair("accessKeyID", "AK")]);
    discovered.merge(secrets);
    assert_eq!(discovered.len(), 3);
    assert_eq!(discovered.get("region"), Some("new".to_string()));
    assert_eq!(discovered.get("bucket"), Some("b".to_string()));
    assert_eq!(discovered.get("accessKeyID"), Some("AK".to_string()));
}

#[test]
fn merge_with_an_empty_map_changes_nothing() {
    let mut map = ConfigMap::from_pairs(vec![pair("a", "1")]);
    map.merge(ConfigMap::new());
    assert_eq!(map.len(), 1);
    assert_eq!(map.get("a"), Some("1".to_string()));
    let mut empty = ConfigMap::new();
    empty.merge(ConfigMap::from_pairs(vec![pair("a", "1")]));
    assert_eq!(empty.get("a"), Some("1".to_string()));
}
