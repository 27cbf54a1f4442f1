use agent_framework::calendar::{civil_from_days, format_http_date, format_timestamp};
use agent_framework::cosmos::{
    auth_payload_of, generate_auth_token, read_answer, read_document, rfc7231_date, token_for_signature,
    CosmosCheckpointStorage, CosmosConfig, CosmosHistoryProvider, DEFAULT_CONNECT_TIMEOUT, DEFAULT_REQUEST_TIMEOUT,
};
use agent_framework::error::AgentError;
use agent_framework::json::Json;
use agent_framework::secret::SecretString;
use agent_framework::types::Message;
use agent_framework::urlencoding::encode;

fn config(endpoint: &str, key: &str, database: &str, container: &str) -> CosmosConfig {
    CosmosConfig {
        endpoint: endpoint.into(),
        key: SecretString::new(key),
        database: database.into(),
        container: container.into(),
        request_timeout: DEFAULT_REQUEST_TIMEOUT,
        connect_timeout: DEFAULT_CONNECT_TIMEOUT,
    }
}

#[test]
fn config_from_env() {
    let err = CosmosConfig::from_env(None, None, None, None).err().unwrap();
    assert!(err.to_text().contains("COSMOS_ENDPOINT"));
    let config = CosmosConfig::from_env(
        Some("https://test.documents.azure.com".into()),
        Some("dGVzdGtleQ==".into()),
        Some("testdb".into()),
        Some("testcontainer".into()),
    )
    .ok()
    .unwrap();
    assert_eq!(config.endpoint, "https://test.documents.azure.com");
    assert_eq!(config.key.expose(), "dGVzdGtleQ==");
    assert_eq!(config.database, "testdb");
    assert_eq!(config.container, "testcontainer");
}

#[test]
fn config_debug_redacts_key() {
    let debug = config("https://test.documents.azure.com", "super-secret", "db", "coll").debug_text();
    assert!(!debug.contains("super-secret"));
    assert!(debug.contains("REDACTED"));
}

#[test]
fn generate_auth_token_produces_expected_format() {
    let key = SecretString::new("dGVzdGtleQ==");
    let token =
        generate_auth_token(&key, "get", "docs", "dbs/db/colls/coll/docs/id1", "Mon, 01 Jan 2024 00:00:00 GMT")
            .unwrap();
    assert!(token.starts_with("type%3Dmaster%26ver%3D1.0%26sig%3D"), "Got: {token}");
}

#[test]
fn tokens_depend_on_key_and_payload() {
    let sign = |key: &str, verb: &str| generate_auth_token(&SecretString::new(key), verb, "docs", "l", "d").unwrap();
    let token = sign("dGVzdGtleQ==", "get");
    assert_eq!(token, sign("dGVzdGtleQ==", "GET"));
    assert_ne!(token, sign("dGVzdGtleQ==", "post"));
    assert_ne!(token, sign("b3RoZXJrZXk=", "get"));
    let error = generate_auth_token(&SecretString::new("%%%"), "get", "docs", "l", "d").unwrap_err();
    assert!(matches!(error, AgentError::InvalidRequest(_)));
    assert_eq!(auth_payload_of("GET", "Docs", "dbs/X", "Mon"), "get\ndocs\ndbs/x\nMon\n\n");
    assert_eq!(token_for_signature(&vec![255, 0]), "type%3Dmaster%26ver%3D1.0%26sig%3D%2FwA%3D");
}

#[test]
fn rfc7231_date_has_correct_format() {
    let date = rfc7231_date();
    assert!(date.ends_with(" GMT"), "Date should end with GMT: {date}");
    assert!(date.len() > 20, "Date too short: {date}");
}

#[test]
fn format_http_date_known_epoch() {
    let date = format_http_date(1_704_067_200);
    assert_eq!(date, "Mon, 01 Jan 2024 00:00:00 GMT");
}

#[test]
fn dates_follow_the_calendar() {
    assert_eq!(format_http_date(0), "Thu, 01 Jan 1970 00:00:00 GMT");
    assert_eq!(format_http_date(951_782_400), "Tue, 29 Feb 2000 00:00:00 GMT");
    assert_eq!(format_timestamp(4_107_542_399), "2100-02-28T23:59:59Z");
    assert_eq!(civil_from_days(-1), (1969, 12, 31));
    assert_eq!(civil_from_days(-719_468), (0, 3, 1));
    assert_eq!(civil_from_days(19_723), (2024, 1, 1));
}

#[test]
fn docs_url_formation() {
    let provider =
        CosmosHistoryProvider::new(config("https://myaccount.documents.azure.com", "dGVzdA==", "mydb", "mycoll"));
    assert_eq!(provider.docs_url(), "https://myaccount.documents.azure.com/dbs/mydb/colls/mycoll/docs");
    assert_eq!(provider.doc_resource_link("session-1"), "dbs/mydb/colls/mycoll/docs/session-1");
}

#[test]
fn histories_grow_by_what_is_saved() {
    let saved = CosmosHistoryProvider::history_to_save(
        "s1",
        Ok(vec![Message::user("hello")]),
        &vec![Message::assistant("hi")],
    );
    assert_eq!(saved.id, "s1");
    assert_eq!(saved.messages.len(), 2);
    let fresh = CosmosHistoryProvider::history_to_save(
        "s1",
        Err(AgentError::Other("gone".into())),
        &vec![Message::user("x")],
    );
    assert_eq!(fresh.messages.len(), 1);
    let checkpoint = CosmosCheckpointStorage::checkpoint_to_save("cp-1", Json::parse("{\"step\":3}").unwrap());
    assert_eq!(checkpoint.id, "cp-1");
    assert!(checkpoint.data.get("step").unwrap().same(&Json::Unsigned(3)));
}

#[test]
fn answers_are_read_by_their_status() {
    assert_eq!(read_answer("200 OK", 200, &b"{}".to_vec()).unwrap(), "{}");
    let error = read_answer("500 Internal Server Error", 500, &b"boom".to_vec()).unwrap_err();
    assert!(error.to_text().contains("boom"));
    assert!(read_document("404 Not Found", 404, &b"x".to_vec()).unwrap().is_none());
    assert_eq!(read_document("200 OK", 200, &b"d".to_vec()).unwrap().as_deref(), Some("d"));
}

#[test]
fn requests_carry_date_and_token() {
    let config = config("https://e", "dGVzdA==", "db", "c");
    let headers = config.build_headers("GET", "docs", "dbs/db/colls/c/docs/1", 1_704_067_200).unwrap();
    let get = |name: &str| headers.iter().find(|h| h.name == name).unwrap();
    assert_eq!(get("x-ms-date").value, "Mon, 01 Jan 2024 00:00:00 GMT");
    assert!(get("authorization").value.starts_with("type%3Dmaster"));
    let upsert = config.build_upsert_headers(1_704_067_200).unwrap();
    assert!(upsert.len() > headers.len());
}

#[test]
fn text_is_percent_encoded() {
    assert_eq!(encode("a b/ä"), "a%20b%2F%C3%A4");
    assert_eq!(encode("A-Z_0.9~"), "A-Z_0.9~");
}

#[test]
fn documents_have_their_urls() {
    let config = config("https://acct.documents.azure.com/", "a2V5", "db", "c");
    assert_eq!(config.doc_url("s1"), "https://acct.documents.azure.com/dbs/db/colls/c/docs/s1");
}
