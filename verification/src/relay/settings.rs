//! The settings, as the browser reads and changes them.

use serde_json::Value;
use vstd::prelude::*;
use vstd::string::*;

use crate::config::{
    base_url, config_from, default_config, or, provider_name, provider_named, ready, AppConfig,
    ConfigView, Provider,
};
use crate::json::{field, flag, json_view, object, put, put_text, JsonView};
use super::{failed, failure, Answer, AnswerView};
use crate::text::{string_view, trim, trim_end_char, trimmed, without_trailing};

verus! {

pub open spec fn health_json(configured: bool) -> JsonView {
    JsonView::Object(
        map!["status"@ => JsonView::Text("ok"@), "configured"@ => JsonView::Bool(configured)],
    )
}

/// Says that the relay is up, and whether a session could be opened.
pub fn healthz(cfg: Option<&AppConfig>) -> (r: Value)
    ensures
        json_view(r) == health_json(
            match cfg {
                Some(c) => ready(c@),
                None => false,
            },
        ),
{
    let configured = match cfg {
        Some(c) => c.is_complete(),
        None => false,
    };
    let mut m = serde_json::Map::new();
    put_text(&mut m, "status", "ok");
    put(&mut m, "configured", flag(configured));
    object(m)
}

/// The settings that count: those that are set, or those of a new installation.
pub open spec fn current(cfg: Option<&AppConfig>) -> ConfigView {
    match cfg {
        Some(c) => c@,
        None => default_config(),
    }
}

fn current_config(cfg: Option<&AppConfig>) -> (r: AppConfig)
    ensures
        r@ == current(cfg),
{
    match cfg {
        Some(c) => c.clone(),
        None => AppConfig::default(),
    }
}

/// What the browser is shown of the settings: of the key, only whether there is one.
pub open spec fn config_json(c: ConfigView) -> JsonView {
    JsonView::Object(
        map![
            "configured"@ => JsonView::Bool(ready(c)),
            "provider"@ => JsonView::Text(provider_name(c.provider)),
            "openai_base_url"@ => JsonView::Text(c.openai_base_url),
            "azure_endpoint"@ => JsonView::Text(c.azure_endpoint),
            "azure_api_version"@ => JsonView::Text(c.azure_api_version),
            "image_api_version"@ => JsonView::Text(c.image_api_version),
            "realtime_model"@ => JsonView::Text(c.realtime_model),
            "slide_model"@ => JsonView::Text(c.slide_model),
            "image_model"@ => JsonView::Text(c.image_model),
            "voice"@ => JsonView::Text(c.voice),
            "reasoning_effort"@ => JsonView::Text(c.reasoning_effort),
            "api_key_set"@ => JsonView::Bool(c.api_key.len() > 0),
        ],
    )
}

/// Shows the settings.
pub fn get_config(cfg: Option<&AppConfig>) -> (r: Value)
    ensures
        json_view(r) == config_json(current(cfg)),
{
    let c = current_config(cfg);
    let mut m = serde_json::Map::new();
    put(&mut m, "configured", flag(c.is_complete()));
    put_text(&mut m, "provider", c.provider.as_str());
    put_text(&mut m, "openai_base_url", c.openai_base_url.as_str());
    put_text(&mut m, "azure_endpoint", c.azure_endpoint.as_str());
    put_text(&mut m, "azure_api_version", c.azure_api_version.as_str());
    put_text(&mut m, "image_api_version", c.image_api_version.as_str());
    put_text(&mut m, "realtime_model", c.realtime_model.as_str());
    put_text(&mut m, "slide_model", c.slide_model.as_str());
    put_text(&mut m, "image_model", c.image_model.as_str());
    put_text(&mut m, "voice", c.voice.as_str());
    put_text(&mut m, "reasoning_effort", c.reasoning_effort.as_str());
    put(&mut m, "api_key_set", flag(!c.api_key.as_str().is_empty()));
    object(m)
}

/// A change of the settings: what is left out stays. A blank key leaves the one that is
/// saved.
pub struct ConfigPost {
    pub provider: Option<String>,
    pub api_key: Option<String>,
    pub openai_base_url: Option<String>,
    pub azure_endpoint: Option<String>,
    pub azure_api_version: Option<String>,
    pub image_api_version: Option<String>,
    pub realtime_model: Option<String>,
    pub slide_model: Option<String>,
    pub image_model: Option<String>,
    pub voice: Option<String>,
    pub reasoning_effort: Option<String>,
}

pub struct ConfigPostView {
    pub provider: Option<Seq<char>>,
    pub api_key: Option<Seq<char>>,
    pub openai_base_url: Option<Seq<char>>,
    pub azure_endpoint: Option<Seq<char>>,
    pub azure_api_version: Option<Seq<char>>,
    pub image_api_version: Option<Seq<char>>,
    pub realtime_model: Option<Seq<char>>,
    pub slide_model: Option<Seq<char>>,
    pub image_model: Option<Seq<char>>,
    pub voice: Option<Seq<char>>,
    pub reasoning_effort: Option<Seq<char>>,
}

impl View for ConfigPost {
    type V = ConfigPostView;

    open spec fn view(&self) -> ConfigPostView {
        ConfigPostView {
            provider: string_view(self.provider),
            api_key: string_view(self.api_key),
            openai_base_url: string_view(self.openai_base_url),
            azure_endpoint: string_view(self.azure_endpoint),
            azure_api_version: string_view(self.azure_api_version),
            image_api_version: string_view(self.image_api_version),
            realtime_model: string_view(self.realtime_model),
            slide_model: string_view(self.slide_model),
            image_model: string_view(self.image_model),
            voice: string_view(self.voice),
            reasoning_effort: string_view(self.reasoning_effort),
        }
    }
}

/// The settings after a change. A blank base address goes back to the public service.
pub open spec fn changed(c: ConfigView, p: ConfigPostView) -> ConfigView {
    ConfigView {
        provider: match p.provider {
            Some(v) => provider_named(v),
            None => c.provider,
        },
        api_key: match p.api_key {
            Some(v) => if trimmed(v).len() > 0 {
                trimmed(v)
            } else {
                c.api_key
            },
            None => c.api_key,
        },
        openai_base_url: match p.openai_base_url {
            Some(v) => base_url(v, "https://api.openai.com/v1"@),
            None => c.openai_base_url,
        },
        azure_endpoint: match p.azure_endpoint {
            Some(v) => without_trailing(trimmed(v), '/'),
            None => c.azure_endpoint,
        },
        azure_api_version: or(p.azure_api_version, c.azure_api_version),
        image_api_version: or(p.image_api_version, c.image_api_version),
        realtime_model: or(p.realtime_model, c.realtime_model),
        slide_model: or(p.slide_model, c.slide_model),
        image_model: or(p.image_model, c.image_model),
        voice: or(p.voice, c.voice),
        reasoning_effort: or(p.reasoning_effort, c.reasoning_effort),
    }
}

fn given_or(v: Option<String>, other: String) -> (r: String)
    ensures
        r@ == or(string_view(v), other@),
{
    match v {
        Some(t) => t,
        None => other,
    }
}

/// The settings after a change.
pub fn change_config(cfg: Option<&AppConfig>, body: ConfigPost) -> (r: AppConfig)
    ensures
        r@ == changed(current(cfg), body@),
{
    let c = current_config(cfg);
    let provider = match body.provider {
        Some(v) => Provider::parse(v.as_str()),
        None => c.provider,
    };
    let api_key = match body.api_key {
        Some(v) => {
            let t = trim(v.as_str());
            if t.is_empty() {
                c.api_key
            } else {
                t.to_string()
            }
        },
        None => c.api_key,
    };
    let openai_base_url = match body.openai_base_url {
        Some(v) => {
            let t = trim_end_char(trim(v.as_str()), '/');
            if t.is_empty() {
                "https://api.openai.com/v1".to_string()
            } else {
                t.to_string()
            }
        },
        None => c.openai_base_url,
    };
    let azure_endpoint = match body.azure_endpoint {
        Some(v) => trim_end_char(trim(v.as_str()), '/').to_string(),
        None => c.azure_endpoint,
    };
    AppConfig {
        provider,
        api_key,
        openai_base_url,
        azure_endpoint,
        azure_api_version: given_or(body.azure_api_version, c.azure_api_version),
        image_api_version: given_or(body.image_api_version, c.image_api_version),
        realtime_model: given_or(body.realtime_model, c.realtime_model),
        slide_model: given_or(body.slide_model, c.slide_model),
        image_model: given_or(body.image_model, c.image_model),
        voice: given_or(body.voice, c.voice),
        reasoning_effort: given_or(body.reasoning_effort, c.reasoning_effort),
    }
}

pub open spec fn saved_view(saved: Result<(), String>) -> Option<Seq<char>> {
    match saved {
        Ok(_) => None,
        Err(e) => Some(e@),
    }
}

/// The answer to a change of the settings; `error` is why they could not be saved.
pub open spec fn config_answer(c: ConfigView, error: Option<Seq<char>>) -> AnswerView {
    match error {
        Some(e) => failure(500, e),
        None => AnswerView {
            status: 200,
            body: JsonView::Object(
                map!["ok"@ => JsonView::Bool(true), "configured"@ => JsonView::Bool(ready(c))],
            ),
        },
    }
}

/// The settings that count after an attempt to save `next`, and the answer: they are
/// `next` only where that was saved.
pub fn post_config(cfg: Option<AppConfig>, next: AppConfig, saved: Result<(), String>) -> (r: (
    Option<AppConfig>,
    Answer,
))
    ensures
        r.1@ == config_answer(next@, saved_view(saved)),
        saved is Ok ==> r.0 == Some(next),
        saved is Err ==> r.0 == cfg,
{
    match saved {
        Err(e) => (cfg, failed(500, e.as_str())),
        Ok(_) => {
            let mut m = serde_json::Map::new();
            put(&mut m, "ok", flag(true));
            put(&mut m, "configured", flag(next.is_complete()));
            (Some(next), Answer { status: 200, body: object(m) })
        },
    }
}

// ---- Laws --------------------------------------------------------------

/// The browser is never shown the key: settings that differ in it alone look the same, as
/// long as there is one.
pub proof fn law_key_is_never_shown(c: ConfigView, key: Seq<char>)
    requires
        c.api_key.len() > 0,
        key.len() > 0,
    ensures
        config_json((ConfigView { api_key: key, ..c })) == config_json(c),
{
}

/// A change that leaves the key out, or blank, leaves the key as it is; and one that says
/// nothing leaves all settings as they are.
pub proof fn law_blank_key_keeps_key(c: ConfigView, p: ConfigPostView)
    requires
        p.api_key matches Some(v) ==> trimmed(v).len() == 0,
    ensures
        changed(c, p).api_key == c.api_key,
        p == (ConfigPostView {
            provider: None,
            api_key: None,
            openai_base_url: None,
            azure_endpoint: None,
            azure_api_version: None,
            image_api_version: None,
            realtime_model: None,
            slide_model: None,
            image_model: None,
            voice: None,
            reasoning_effort: None,
        }) ==> changed(c, p) == c,
{
}

/// What the browser is shown of the settings, each under its own name.
pub proof fn law_settings_are_shown(c: ConfigView, configured: bool)
    ensures
        field(config_json(c), "configured"@) == Some(JsonView::Bool(ready(c))),
        field(config_json(c), "provider"@) == Some(JsonView::Text(provider_name(c.provider))),
        field(config_json(c), "openai_base_url"@) == Some(JsonView::Text(c.openai_base_url)),
        field(config_json(c), "azure_endpoint"@) == Some(JsonView::Text(c.azure_endpoint)),
        field(config_json(c), "azure_api_version"@) == Some(JsonView::Text(c.azure_api_version)),
        field(config_json(c), "image_api_version"@) == Some(JsonView::Text(c.image_api_version)),
        field(config_json(c), "realtime_model"@) == Some(JsonView::Text(c.realtime_model)),
        field(config_json(c), "slide_model"@) == Some(JsonView::Text(c.slide_model)),
        field(config_json(c), "image_model"@) == Some(JsonView::Text(c.image_model)),
        field(config_json(c), "voice"@) == Some(JsonView::Text(c.voice)),
        field(config_json(c), "reasoning_effort"@) == Some(JsonView::Text(c.reasoning_effort)),
        field(config_json(c), "api_key_set"@) == Some(JsonView::Bool(c.api_key.len() > 0)),
        field(health_json(configured), "status"@) == Some(JsonView::Text("ok"@)),
        field(health_json(configured), "configured"@) == Some(JsonView::Bool(configured)),
{
    reveal_strlit("configured");
    reveal_strlit("provider");
    reveal_strlit("openai_base_url");
    reveal_strlit("azure_endpoint");
    reveal_strlit("azure_api_version");
    reveal_strlit("image_api_version");
    reveal_strlit("realtime_model");
    reveal_strlit("slide_model");
    reveal_strlit("image_model");
    reveal_strlit("voice");
    reveal_strlit("reasoning_effort");
    reveal_strlit("api_key_set");
    reveal_strlit("status");
    assert("configured"@.len() == 10 && "provider"@.len() == 8 && "openai_base_url"@.len() == 15);
    assert("azure_endpoint"@.len() == 14 && "azure_api_version"@.len() == 17);
    assert("image_api_version"@.len() == 17 && "realtime_model"@.len() == 14);
    assert("slide_model"@.len() == 11 && "image_model"@.len() == 11 && "voice"@.len() == 5);
    assert("reasoning_effort"@.len() == 16 && "api_key_set"@.len() == 11 && "status"@.len() == 6);
    assert("azure_endpoint"@[0] == 'a' && "realtime_model"@[0] == 'r');
    assert("azure_api_version"@[0] == 'a' && "image_api_version"@[0] == 'i');
    assert("slide_model"@[0] == 's' && "image_model"@[0] == 'i' && "api_key_set"@[0] == 'a');
}

/// A change gives each setting that it carries its new value and leaves every other as it
/// is, whatever else it carries. Addresses lose the white space around them and the slashes
/// at their end, and a blank base address is that of the public service.
pub proof fn law_each_setting_changes_by_itself(c: ConfigView, p: ConfigPostView)
    ensures
        p.provider matches Some(v) ==> changed(c, p).provider == provider_named(v),
        p.provider is None ==> changed(c, p).provider == c.provider,
        p.api_key matches Some(v) ==> (trimmed(v).len() > 0 ==> changed(c, p).api_key == trimmed(v)),
        p.openai_base_url matches Some(v) ==> {
            let t = without_trailing(trimmed(v), '/');
            changed(c, p).openai_base_url == if t.len() > 0 {
                t
            } else {
                "https://api.openai.com/v1"@
            }
        },
        p.openai_base_url is None ==> changed(c, p).openai_base_url == c.openai_base_url,
        p.azure_endpoint matches Some(v) ==> changed(c, p).azure_endpoint == without_trailing(
            trimmed(v),
            '/',
        ),
        p.azure_endpoint is None ==> changed(c, p).azure_endpoint == c.azure_endpoint,
        p.azure_api_version matches Some(v) ==> changed(c, p).azure_api_version == v,
        p.azure_api_version is None ==> changed(c, p).azure_api_version == c.azure_api_version,
        p.image_api_version matches Some(v) ==> changed(c, p).image_api_version == v,
        p.image_api_version is None ==> changed(c, p).image_api_version == c.image_api_version,
        p.realtime_model matches Some(v) ==> changed(c, p).realtime_model == v,
        p.realtime_model is None ==> changed(c, p).realtime_model == c.realtime_model,
        p.slide_model matches Some(v) ==> changed(c, p).slide_model == v,
        p.slide_model is None ==> changed(c, p).slide_model == c.slide_model,
        p.image_model matches Some(v) ==> changed(c, p).image_model == v,
        p.image_model is None ==> changed(c, p).image_model == c.image_model,
        p.voice matches Some(v) ==> changed(c, p).voice == v,
        p.voice is None ==> changed(c, p).voice == c.voice,
        p.reasoning_effort matches Some(v) ==> changed(c, p).reasoning_effort == v,
        p.reasoning_effort is None ==> changed(c, p).reasoning_effort == c.reasoning_effort,
{
}

/// A change that was saved is answered with whether the settings are now complete, and one
/// that was not with the reason.
pub proof fn law_change_is_answered(c: ConfigView, error: Seq<char>)
    ensures
        config_answer(c, None).status == 200,
        field(config_answer(c, None).body, "ok"@) == Some(JsonView::Bool(true)),
        field(config_answer(c, None).body, "configured"@) == Some(JsonView::Bool(ready(c))),
        config_answer(c, Some(error)).status == 500,
        field(config_answer(c, Some(error)).body, "ok"@) == Some(JsonView::Bool(false)),
        field(config_answer(c, Some(error)).body, "error"@) == Some(JsonView::Text(error)),
{
    reveal_strlit("ok");
    reveal_strlit("configured");
    reveal_strlit("error");
    assert("ok"@.len() == 2 && "configured"@.len() == 10 && "error"@.len() == 5);
}

/// The settings that count are those that are set; where none are, those that are read where
/// nothing is set.
pub proof fn law_settings_that_count(cfg: Option<&AppConfig>)
    ensures
        cfg matches Some(c) ==> current(cfg) == c@,
        cfg is None ==> current(cfg) == config_from(Map::empty()),
{
}

} // verus!
