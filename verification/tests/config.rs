use codex_cli_voice_bridge_rust::json::JsonValue;
use codex_cli_voice_bridge_rust::config::{
    default_credentials_candidates, default_credentials_path, first_nonempty, resolve_credentials,
    resolve_path, mai_credentials_from_json, resolve_mai_credentials, MaiCredentials,
    DEFAULT_MAI_CREDENTIALS_FILENAME, ENV_MAI_ENDPOINT, ENV_MAI_KEY,
    ConfigError, Credentials, DEFAULT_CREDENTIALS_FILENAME, ENV_ACCESS_TOKEN, ENV_APP_ID,
};

fn parse(text: &str) -> JsonValue {
    from_serde(&serde_json::from_str(text).unwrap())
}

fn from_serde(value: &serde_json::Value) -> JsonValue {
    match value {
        serde_json::Value::Null => JsonValue::Null,
        serde_json::Value::Bool(b) => JsonValue::Bool(*b),
        serde_json::Value::Number(n) => JsonValue::Number(n.to_string()),
        serde_json::Value::String(s) => JsonValue::Str(s.clone()),
        serde_json::Value::Array(items) => JsonValue::Array(items.iter().map(from_serde).collect()),
        serde_json::Value::Object(map) => {
            JsonValue::Object(map.iter().map(|(k, v)| (k.clone(), from_serde(v))).collect())
        }
    }
}

fn creds(app_id: &str, access_token: &str) -> Credentials {
    Credentials { app_id: app_id.to_owned(), access_token: access_token.to_owned() }
}

#[test]
fn names_of_the_credential_sources() {
    assert_eq!(DEFAULT_CREDENTIALS_FILENAME, "doubao_credentials.json");
    assert_eq!(ENV_APP_ID, "DOUBAO_ASR_APP_ID");
    assert_eq!(ENV_ACCESS_TOKEN, "DOUBAO_ASR_ACCESS_TOKEN");
}

#[test]
fn credentials_are_trimmed_and_validated() {
    let c = creds("  id ", "\ttok\n").normalized();
    assert_eq!(c.app_id, "id");
    assert_eq!(c.access_token, "tok");
    assert!(c.validate().is_ok());
    assert!(matches!(creds(" ", "tok").validate(), Err(ConfigError::MissingAppId)));
    assert!(matches!(creds("id", "").validate(), Err(ConfigError::MissingAccessToken)));
    let d = Credentials::default();
    assert!(d.app_id.is_empty() && d.access_token.is_empty());
    let e = c.clone();
    assert_eq!(e.app_id, "id");
}

#[test]
fn the_first_non_blank_value_wins() {
    assert_eq!(first_nonempty(&["", "  ", " b ", "c"]), "b");
    assert_eq!(first_nonempty(&["", " "]), "");
    assert_eq!(first_nonempty(&[]), "");
}

#[test]
fn explicit_values_beat_the_environment_and_the_file() {
    let file = creds("file-id", "file-token");
    let c = resolve_credentials(Some(" cli-id "), None, "", "env-token", &file).ok().unwrap();
    assert_eq!(c.app_id, "cli-id");
    assert_eq!(c.access_token, "env-token");
    let c = resolve_credentials(None, Some(" "), " ", "", &file).ok().unwrap();
    assert_eq!(c.app_id, "file-id");
    assert_eq!(c.access_token, "file-token");
}

#[test]
fn missing_credentials_are_incomplete() {
    let file = creds("file-id", "  ");
    assert!(matches!(resolve_credentials(None, None, "", "", &file), Err(ConfigError::Incomplete)));
    let empty = Credentials::default();
    assert!(matches!(resolve_credentials(None, Some("tok"), "", "", &empty), Err(ConfigError::Incomplete)));
}

#[test]
fn the_default_path_is_the_first_existing_candidate() {
    let same = default_credentials_candidates("a/x.json".to_owned(), "a/x.json".to_owned());
    assert_eq!(same, vec!["a/x.json".to_owned()]);
    let both = default_credentials_candidates("bin/x.json".to_owned(), "proj/x.json".to_owned());
    assert_eq!(both, vec!["bin/x.json".to_owned(), "proj/x.json".to_owned()]);
    assert_eq!(default_credentials_path(&both, &vec![false, true], "f".to_owned()), "proj/x.json");
    assert_eq!(default_credentials_path(&both, &vec![true, true], "f".to_owned()), "bin/x.json");
    assert_eq!(default_credentials_path(&both, &vec![false, false], "f".to_owned()), "f");
}

#[test]
fn a_configured_path_wins_over_the_default() {
    assert_eq!(resolve_path("  ", "default.json".to_owned()), "default.json");
    assert_eq!(resolve_path(" ./mine.json ", "default.json".to_owned()), "./mine.json");
}

#[test]
fn mai_credentials_read_flat_or_azure_resource_json() {
    assert_eq!(DEFAULT_MAI_CREDENTIALS_FILENAME, "mai_credentials.json");
    assert_eq!(ENV_MAI_ENDPOINT, "AZURE_SPEECH_ENDPOINT");
    assert_eq!(ENV_MAI_KEY, "AZURE_SPEECH_KEY");
    let flat = parse(r#"{"endpoint":" https://a.example.com ","key":"k1"}"#);
    let c = mai_credentials_from_json(&flat);
    assert_eq!(c.endpoint, "https://a.example.com");
    assert_eq!(c.key, "k1");
    let nested = parse(
        r#"{"endpoint":"","endpoints":{"resource_endpoint":"https://b.example.com"},"credentials":{"primary_key":"k2"}}"#,
    );
    let c = mai_credentials_from_json(&nested);
    assert_eq!(c.endpoint, "https://b.example.com");
    assert_eq!(c.key, "k2");
    let c = mai_credentials_from_json(&parse("[]"));
    assert!(c.endpoint.is_empty() && c.key.is_empty());
}

#[test]
fn mai_credentials_resolve_cli_then_environment_then_file() {
    let file = MaiCredentials { endpoint: "https://file".to_owned(), key: "file-key".to_owned() };
    let c = resolve_mai_credentials(Some(" https://cli "), None, "https://env", "", &file).ok().unwrap();
    assert_eq!(c.endpoint, "https://cli");
    assert_eq!(c.key, "file-key");
    let c = resolve_mai_credentials(None, Some(""), "", "env-key", &file).ok().unwrap();
    assert_eq!(c.endpoint, "https://file");
    assert_eq!(c.key, "env-key");
    let empty = MaiCredentials { endpoint: String::new(), key: " ".to_owned() };
    assert!(matches!(resolve_mai_credentials(None, None, "https://env", "", &empty), Err(ConfigError::Incomplete)));
    let n = MaiCredentials { endpoint: " e ".to_owned(), key: " k ".to_owned() }.normalized();
    assert_eq!((n.endpoint.as_str(), n.key.as_str()), ("e", "k"));
}
