use cuuri::records::{set_openai_api_key, Config};

#[test]
fn empty_api_key_is_refused() {
    let mut config = Config {
        openai_api_key: "old".to_string(),
        default_model: Some("gpt-3.5-turbo".to_string()),
    };
    let r = set_openai_api_key(&mut config, String::new());
    assert_eq!(r, Err("API key cannot be empty".to_string()));
    assert_eq!(config.openai_api_key, "old");
}

#[test]
fn api_key_is_replaced() {
    let mut config = Config { openai_api_key: String::new(), default_model: None };
    assert_eq!(set_openai_api_key(&mut config, "SECRET-REDACTED".to_string()), Ok(()));
    assert_eq!(config.openai_api_key, "SECRET-REDACTED");
    assert_eq!(config.default_model, None);
}
