use tlsn_langchain::config::{
    Config, ModelApiSettings, ModelSettings, NotarySettings, Notarizer, PrivacySettings,
    SERVER_PORT,
};

#[test]
fn api_settings_point_at_the_model_api() {
    let settings = ModelApiSettings::new("sk-test".to_string());
    assert_eq!(settings.server_domain, "api.red-pill.ai");
    assert_eq!(settings.inference_route, "/v1/chat/completions");
    assert_eq!(settings.model_list_route, "/v1/models");
    assert_eq!(settings.api_key, "sk-test");
}

#[test]
fn default_api_settings_are_empty() {
    let settings = ModelApiSettings::default();
    assert_eq!(settings.server_domain, "");
    assert_eq!(settings.inference_route, "");
    assert_eq!(settings.model_list_route, "");
    assert_eq!(settings.api_key, "");
}

#[test]
fn default_notary_is_the_local_one() {
    let settings = NotarySettings::default();
    assert!(settings.dummy_notary);
    assert_eq!(settings.host, "notary.pse.dev");
    assert_eq!(settings.port, 443);
    assert_eq!(settings.path, "v0.1.0-alpha.6");
    assert!(matches!(settings.notarizer(), Notarizer::Local));
}

#[test]
fn a_remote_notary_is_selected_with_its_address() {
    let settings = NotarySettings { dummy_notary: false, host: "notary.example", port: 7047, path: "v1" };
    match settings.notarizer() {
        Notarizer::Remote { host, port, path } => {
            assert_eq!(host, "notary.example");
            assert_eq!(port, 7047);
            assert_eq!(path, "v1");
        }
        Notarizer::Local => panic!("the remote notary was asked for"),
    }
}

#[test]
fn default_censor_lists() {
    let settings = PrivacySettings::default();
    assert_eq!(settings.request_topics_to_censor, &["authorization"]);
    assert_eq!(
        settings.response_topics_to_censor,
        &[
            "anthropic-ratelimit-requests-reset",
            "anthropic-ratelimit-tokens-reset",
            "request-id",
            "x-kong-request-id",
            "cf-ray",
            "server-timing",
            "report-to",
        ]
    );
    for topic in settings.request_topics_to_censor {
        assert!(!settings.response_topics_to_censor.contains(topic));
    }
}

#[test]
fn model_settings_and_config_take_what_they_are_given() {
    let model = ModelSettings::new("gpt-4o".to_string(), ModelApiSettings::new("k".to_string()));
    assert_eq!(model.id, "gpt-4o");
    assert_eq!(model.api_settings.api_key, "k");
    assert_eq!(
        model.setup_prompt,
        "Model Prompt: YOU ARE GOING TO BE ACTING AS A HELPFUL ASSISTANT"
    );
    let config = Config::new(model);
    assert_eq!(config.model_settings.id, "gpt-4o");
    assert_eq!(config.privacy_settings.request_topics_to_censor, &["authorization"]);
    assert_eq!(config.privacy_settings.response_topics_to_censor.len(), 7);
    assert!(config.notary_settings.dummy_notary);
    assert_eq!(config.notary_settings.port, 443);
}

#[test]
fn a_local_session_is_named_after_the_model() {
    let model = ModelSettings::new("gpt-4o".to_string(), ModelApiSettings::new("k".to_string()));
    assert_eq!(model.connection_id(), "gpt-4o_conversation");
    assert_eq!(SERVER_PORT, 443);
}
