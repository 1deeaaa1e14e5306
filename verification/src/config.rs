//! The configuration of one pipeline run: where the model API lives, which
//! header topics are censored in each direction, and which notary is used.
//!
//! A configuration is built once and handed on by reference; nothing here is
//! process-wide state.

use crate::bytes::names_of;
use vstd::prelude::*;
use vstd::string::StringExecFns;

verus! {

/// Host of the model API.
pub const SERVER_DOMAIN: &'static str = "api.red-pill.ai";

/// Route of the chat completion endpoint.
pub const INFERENCE_ROUTE: &'static str = "/v1/chat/completions";

/// Route of the model list endpoint.
pub const MODEL_LIST_ROUTE: &'static str = "/v1/models";

/// The prompt that sets the model up.
pub const SETUP_PROMPT: &'static str =
    "Model Prompt: YOU ARE GOING TO BE ACTING AS A HELPFUL ASSISTANT";

/// Port on which the model API is reached.
pub const SERVER_PORT: u16 = 443;

/// What follows the model's name in the name of a locally notarized session.
pub const CONNECTION_SUFFIX: &'static str = "_conversation";

/// Host of the remote notary.
pub const NOTARY_HOST: &'static str = "notary.pse.dev";

/// Port of the remote notary.
pub const NOTARY_PORT: u16 = 443;

/// Path prefix of the remote notary.
pub const NOTARY_PATH: &'static str = "v0.1.0-alpha.6";

/// Endpoints of the model API and the key that opens them.
#[derive(Debug)]
pub struct ModelApiSettings {
    pub server_domain: &'static str,
    pub inference_route: &'static str,
    pub model_list_route: &'static str,
    pub api_key: String,
}

impl ModelApiSettings {
    /// The settings of the model API for the given key.
    pub fn new(api_key: String) -> (settings: Self)
        ensures
            settings.server_domain@ == SERVER_DOMAIN@,
            settings.inference_route@ == INFERENCE_ROUTE@,
            settings.model_list_route@ == MODEL_LIST_ROUTE@,
            settings.api_key == api_key,
    {
        Self {
            server_domain: SERVER_DOMAIN,
            inference_route: INFERENCE_ROUTE,
            model_list_route: MODEL_LIST_ROUTE,
            api_key,
        }
    }
}

impl Default for ModelApiSettings {
    /// Settings that name no endpoint and hold no key.
    fn default() -> (settings: Self)
        ensures
            settings.server_domain@.len() == 0,
            settings.inference_route@.len() == 0,
            settings.model_list_route@.len() == 0,
            settings.api_key@.len() == 0,
    {
        proof {
            reveal_strlit("");
        }
        Self { server_domain: "", inference_route: "", model_list_route: "", api_key: String::new() }
    }
}

/// Which notary attests the session.
#[derive(Debug)]
pub enum Notarizer {
    /// A minimal notary run in this process.
    Local,
    /// A notarization service reached over the network.
    Remote { host: &'static str, port: u16, path: &'static str },
}

/// Where the notary is found, and whether a local one stands in for it.
#[derive(Debug)]
pub struct NotarySettings {
    pub dummy_notary: bool,
    pub host: &'static str,
    pub port: u16,
    pub path: &'static str,
}

impl NotarySettings {
    /// The notary these settings select: the local one where `dummy_notary`
    /// is set, else the remote one at `host`, `port` and `path`.
    pub fn notarizer(&self) -> (notarizer: Notarizer)
        ensures
            self.dummy_notary ==> notarizer is Local,
            !self.dummy_notary ==> notarizer == (Notarizer::Remote {
                host: self.host,
                port: self.port,
                path: self.path,
            }),
    {
        if self.dummy_notary {
            Notarizer::Local
        } else {
            Notarizer::Remote { host: self.host, port: self.port, path: self.path }
        }
    }
}

impl Default for NotarySettings {
    /// The local notary, with the remote one's address filled in.
    fn default() -> (settings: Self)
        ensures
            settings.dummy_notary,
            settings.host@ == NOTARY_HOST@,
            settings.port == NOTARY_PORT,
            settings.path@ == NOTARY_PATH@,
    {
        NotarySettings { dummy_notary: true, host: NOTARY_HOST, port: NOTARY_PORT, path: NOTARY_PATH }
    }
}

/// The header topics whose values stay private, for each direction.
#[derive(Clone, Copy, Debug)]
pub struct PrivacySettings {
    pub request_topics_to_censor: &'static [&'static str],
    pub response_topics_to_censor: &'static [&'static str],
}

/// The topics censored in requests.
pub open spec fn request_topics() -> Seq<Seq<char>> {
    seq!["authorization"@]
}

/// The topics censored in responses.
pub open spec fn response_topics() -> Seq<Seq<char>> {
    seq![
        "anthropic-ratelimit-requests-reset"@,
        "anthropic-ratelimit-tokens-reset"@,
        "request-id"@,
        "x-kong-request-id"@,
        "cf-ray"@,
        "server-timing"@,
        "report-to"@,
    ]
}

impl Default for PrivacySettings {
    /// The censor lists of the model API: the authorization header on the way
    /// out, rate-limit and request identifiers on the way back.
    fn default() -> (settings: Self)
        ensures
            names_of(settings.request_topics_to_censor@) == request_topics(),
            names_of(settings.response_topics_to_censor@) == response_topics(),
    {
        let request: &'static [&'static str] = &["authorization"];
        let response: &'static [&'static str] = &[
            "anthropic-ratelimit-requests-reset",
            "anthropic-ratelimit-tokens-reset",
            "request-id",
            "x-kong-request-id",
            "cf-ray",
            "server-timing",
            "report-to",
        ];
        assert(names_of(request@) =~= request_topics());
        assert(names_of(response@) =~= response_topics());
        Self { request_topics_to_censor: request, response_topics_to_censor: response }
    }
}

/// The model that is asked, and how it is reached.
#[derive(Debug)]
pub struct ModelSettings {
    pub api_settings: ModelApiSettings,
    pub id: String,
    pub setup_prompt: &'static str,
}

impl ModelSettings {
    /// The settings of model `model_id` behind the given API.
    pub fn new(model_id: String, api_settings: ModelApiSettings) -> (settings: Self)
        ensures
            settings.api_settings == api_settings,
            settings.id == model_id,
            settings.setup_prompt@ == SETUP_PROMPT@,
    {
        Self { api_settings, id: model_id, setup_prompt: SETUP_PROMPT }
    }

    /// The name under which prover and local notary know the session: the
    /// model's name followed by `CONNECTION_SUFFIX`.
    pub fn connection_id(&self) -> (id: String)
        ensures
            id@ == self.id@ + CONNECTION_SUFFIX@,
    {
        self.id.clone().concat(CONNECTION_SUFFIX)
    }
}

/// Everything one pipeline run is parameterized by.
#[derive(Debug)]
pub struct Config {
    pub model_settings: ModelSettings,
    pub privacy_settings: PrivacySettings,
    pub notary_settings: NotarySettings,
}

impl Config {
    /// The configuration for the given model, with the censor lists and the
    /// notary of `PrivacySettings::default` and `NotarySettings::default`.
    pub fn new(model_settings: ModelSettings) -> (config: Self)
        ensures
            config.model_settings == model_settings,
            names_of(config.privacy_settings.request_topics_to_censor@) == request_topics(),
            names_of(config.privacy_settings.response_topics_to_censor@) == response_topics(),
            config.notary_settings.dummy_notary,
            config.notary_settings.host@ == NOTARY_HOST@,
            config.notary_settings.port == NOTARY_PORT,
            config.notary_settings.path@ == NOTARY_PATH@,
    {
        Self {
            model_settings,
            privacy_settings: PrivacySettings::default(),
            notary_settings: NotarySettings::default(),
        }
    }
}

} // verus!
