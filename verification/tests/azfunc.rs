use agent_framework::azfunc::{
    health_body, invalid_body, parse_port, respond, AzureFunctionsConfig, AzureFunctionsResponse,
};
use agent_framework::error::AgentError;

#[test]
fn config_from_env_uses_env_var() {
    let config = AzureFunctionsConfig::from_env(Some("12345".to_string()));
    assert_eq!(config.port, 12345);
    let default_config = AzureFunctionsConfig::from_env(None);
    assert_eq!(default_config.port, 8080);
}

#[test]
fn default_config_falls_back_without_env() {
    let config = AzureFunctionsConfig::from_env(None);
    assert_eq!(config.port, 8080);
}

#[test]
fn ports_are_numbers_of_sixteen_bits() {
    assert_eq!(parse_port("0"), Some(0));
    assert_eq!(parse_port("+80"), Some(80));
    assert_eq!(parse_port("65535"), Some(65535));
    assert_eq!(parse_port("65536"), None);
    assert_eq!(parse_port(""), None);
    assert_eq!(parse_port("-1"), None);
    assert_eq!(parse_port("8o"), None);
    assert_eq!(AzureFunctionsConfig::from_env(Some("x".to_string())).port, 8080);
}

#[test]
fn ok_responses_are_json() {
    let response = AzureFunctionsResponse::ok_json("{\"text\":\"hi\"}");
    assert_eq!(response.outputs.res.status_code, "200");
    assert_eq!(response.outputs.res.body, "{\"text\":\"hi\"}");
    assert_eq!(response.outputs.res.headers.get("Content-Type").unwrap(), "application/json");
}

#[test]
fn error_response_contains_status_and_message() {
    let response = AzureFunctionsResponse::error(400, "bad request");
    assert_eq!(response.outputs.res.status_code, "400");
    assert!(response.outputs.res.body.contains("bad request"));
}

#[test]
fn outcomes_become_responses() {
    assert_eq!(respond(Ok("{}".to_string())).outputs.res.status_code, "200");
    let failed = respond(Err(AgentError::Other("boom".to_string())));
    assert_eq!(failed.outputs.res.status_code, "500");
    assert!(failed.outputs.res.body.contains("boom"));
    assert_eq!(invalid_body("eof").outputs.res.status_code, "400");
    assert!(health_body().to_text().contains("status"));
}
