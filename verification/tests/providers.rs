use slide_creator::config::{
    config_text, kv, parse_dotenv, read_config, AppConfig, Provider,
};
use slide_creator::provider::{
    auth_headers, azure_host, azure_realtime_url, azure_url, body_model, chat_url, host_from,
    image_url, openai_base, realtime_ws, ws_scheme,
};

fn openai_cfg(base: &str) -> AppConfig {
    let mut c = AppConfig::default();
    c.provider = Provider::Openai;
    c.openai_base_url = base.to_string();
    c.realtime_model = "gpt-realtime-2".into();
    c.slide_model = "gpt-5.5".into();
    c.image_model = "gpt-image-2".into();
    c
}

fn azure_cfg(endpoint: &str) -> AppConfig {
    let mut c = AppConfig::default();
    c.provider = Provider::Azure;
    c.api_key = "k".into();
    c.azure_endpoint = endpoint.to_string();
    c.slide_model = "slides".into();
    c.image_model = "pics".into();
    c.realtime_model = "talk".into();
    c
}

#[test]
fn proxy_base_routes_all_endpoints() {
    let c = openai_cfg("https://litellm.stanford.edu/v1");
    assert_eq!(chat_url(&c).unwrap(), "https://litellm.stanford.edu/v1/chat/completions");
    assert_eq!(image_url(&c).unwrap(), "https://litellm.stanford.edu/v1/images/generations");
    let (ws, _) = realtime_ws(&c).unwrap();
    assert_eq!(ws, "wss://litellm.stanford.edu/v1/realtime?model=gpt-realtime-2");
}

#[test]
fn default_base_when_empty() {
    let c = openai_cfg("");
    assert_eq!(chat_url(&c).unwrap(), "https://api.openai.com/v1/chat/completions");
    let (ws, _) = realtime_ws(&c).unwrap();
    assert!(ws.starts_with("wss://api.openai.com/v1/realtime"));
}

#[test]
fn http_proxy_uses_ws() {
    let c = openai_cfg("http://localhost:4000/v1");
    let (ws, _) = realtime_ws(&c).unwrap();
    assert_eq!(ws, "ws://localhost:4000/v1/realtime?model=gpt-realtime-2");
}

#[test]
fn the_base_is_trimmed() {
    assert_eq!(openai_base(&openai_cfg(" https://x/v1// ")), "https://x/v1");
    assert_eq!(ws_scheme("example.com/v1"), "wss://example.com/v1");
}

#[test]
fn azure_endpoints_name_the_deployment() {
    let c = azure_cfg("https://Res.openai.azure.com/some/path");
    assert_eq!(azure_host(&c).unwrap(), "res.openai.azure.com");
    assert_eq!(
        chat_url(&c).unwrap(),
        "https://res.openai.azure.com/openai/deployments/slides/chat/completions?api-version=2024-10-01-preview"
    );
    assert_eq!(
        image_url(&c).unwrap(),
        "https://res.openai.azure.com/openai/deployments/pics/images/generations?api-version=2025-04-01-preview"
    );
    let (ws, headers) = realtime_ws(&c).unwrap();
    assert_eq!(
        ws,
        "wss://res.openai.azure.com/openai/realtime?api-version=2024-10-01-preview&deployment=talk"
    );
    assert_eq!(headers, vec![("api-key", "k".to_string())]);
    assert_eq!(azure_url("h", "d", "/s?v=", "1"), "https://h/openai/deployments/d/s?v=1");
    assert_eq!(
        azure_realtime_url("h", "1", "d"),
        "wss://h/openai/realtime?api-version=1&deployment=d"
    );
}

#[test]
fn a_bad_azure_endpoint_is_told() {
    assert_eq!(
        chat_url(&azure_cfg("nonsense")).unwrap_err(),
        "Azure endpoint parse: relative URL without a base"
    );
    assert_eq!(
        image_url(&azure_cfg("mailto:x@y.z")).unwrap_err(),
        "Azure endpoint missing host"
    );
    assert_eq!(
        realtime_ws(&azure_cfg("")).unwrap_err(),
        "Azure endpoint parse: relative URL without a base"
    );
    assert_eq!(host_from(Ok(Some("h".to_string()))).unwrap(), "h");
    assert_eq!(host_from(Ok(None)).unwrap_err(), "Azure endpoint missing host");
    assert_eq!(host_from(Err("e".to_string())).unwrap_err(), "Azure endpoint parse: e");
}

#[test]
fn sign_in_headers() {
    let mut c = openai_cfg("");
    c.api_key = "sk".into();
    assert_eq!(auth_headers(&c), vec![("Authorization", "Bearer sk".to_string())]);
    let (_, headers) = realtime_ws(&c).unwrap();
    assert_eq!(
        headers,
        vec![
            ("Authorization", "Bearer sk".to_string()),
            ("OpenAI-Beta", "realtime=v1".to_string())
        ]
    );
    assert_eq!(body_model(&c, "m"), Some("m"));
    assert_eq!(body_model(&azure_cfg("x"), "m"), None);
}

#[test]
fn providers_by_name() {
    assert_eq!(Provider::parse(" AZURE\n"), Provider::Azure);
    assert_eq!(Provider::parse("azur"), Provider::Openai);
    assert_eq!(Provider::parse(""), Provider::Openai);
    assert_eq!(Provider::Azure.as_str(), "azure");
    assert_eq!(Provider::default().as_str(), "openai");
}

#[test]
fn completeness() {
    let mut c = AppConfig::default();
    assert!(!c.is_complete());
    c.api_key = "k".into();
    assert!(c.is_complete());
    c.provider = Provider::Azure;
    assert!(!c.is_complete());
    c.azure_endpoint = "https://x".into();
    assert!(c.is_complete());
}

#[test]
fn lines_of_settings() {
    let env = parse_dotenv("# note\n A = \"x y\" \r\nB='z'\nC=a=b\nnothing\n\nD=\"\nA=later\nE='q\"");
    assert_eq!(env.get("A").unwrap(), "later");
    assert_eq!(env.get("B").unwrap(), "z");
    assert_eq!(env.get("C").unwrap(), "a=b");
    assert_eq!(env.get("D").unwrap(), "\"");
    assert_eq!(env.get("E").unwrap(), "'q\"");
    assert!(env.get("nothing").is_none());
    assert!(env.get("# note").is_none());
    assert_eq!(kv("K", "a\nb"), "K=a b\n");
}

#[test]
fn settings_are_read_back() {
    let mut c = azure_cfg("https://res.openai.azure.com");
    c.voice = "verse".into();
    c.reasoning_effort = "low".into();
    c.openai_base_url = "http://localhost:1/v1".into();
    let text = config_text(&c);
    assert!(text.starts_with("PROVIDER=azure\nAPI_KEY=k\nOPENAI_BASE_URL=http://localhost:1/v1\n"));
    let r = read_config(&text);
    assert_eq!(config_text(&r), text);
    assert_eq!(r.provider, Provider::Azure);
    assert_eq!(r.voice, "verse");
}

#[test]
fn settings_fall_back_to_defaults() {
    let r = read_config("OPENAI_BASE_URL= / \nAZURE_OPENAI_ENDPOINT=https://a//\n");
    assert_eq!(r.openai_base_url, "https://api.openai.com/v1");
    assert_eq!(r.azure_endpoint, "https://a");
    assert_eq!(r.slide_model, "gpt-5.5");
    assert_eq!(r.realtime_model, "gpt-realtime-2");
    assert_eq!(r.image_model, "gpt-image-2");
    assert_eq!(r.voice, "alloy");
    assert_eq!(r.azure_api_version, "2024-10-01-preview");
    assert_eq!(r.image_api_version, "2025-04-01-preview");
    assert_eq!(r.reasoning_effort, "");
    assert_eq!(config_text(&read_config("")), config_text(&AppConfig::default()));
}
