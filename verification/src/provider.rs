//! Where the services are and how to sign in to them.
//!
//! OpenAI and Azure offer the same services, but at addresses of different shapes and
//! with different headers.

use vstd::prelude::*;
use vstd::string::*;

use crate::config::{base_url, AppConfig, ConfigView, Provider};
use crate::text::{
    after_prefix, str_view, strip_prefix, trim, trim_end_char, trimmed, without_trailing,
};

verus! {

/// The root of all OpenAI endpoints.
pub open spec fn openai_root(c: ConfigView) -> Seq<char> {
    base_url(c.openai_base_url, "https://api.openai.com/v1"@)
}

/// The root of all OpenAI endpoints: the one that is set, or that of the public service.
pub fn openai_base(cfg: &AppConfig) -> (r: &str)
    ensures
        r@ == openai_root(cfg@),
{
    let b = trim_end_char(trim(cfg.openai_base_url.as_str()), '/');
    if b.is_empty() {
        "https://api.openai.com/v1"
    } else {
        b
    }
}

/// The address of a websocket on the same host.
pub open spec fn ws_address(base: Seq<char>) -> Seq<char> {
    match after_prefix(base, "https://"@) {
        Some(rest) => "wss://"@ + rest,
        None => match after_prefix(base, "http://"@) {
            Some(rest) => "ws://"@ + rest,
            None => "wss://"@ + base,
        },
    }
}

/// The address of a websocket on the same host; a secure one, unless the address says
/// plainly that it is not.
pub fn ws_scheme(base: &str) -> (r: String)
    ensures
        r@ == ws_address(base@),
{
    match strip_prefix(base, "https://") {
        Some(rest) => {
            let mut r = "wss://".to_string();
            r.append(rest);
            r
        },
        None => match strip_prefix(base, "http://") {
            Some(rest) => {
                let mut r = "ws://".to_string();
                r.append(rest);
                r
            },
            None => {
                let mut r = "wss://".to_string();
                r.append(base);
                r
            },
        },
    }
}

// ---- Headers -----------------------------------------------------------

pub open spec fn header_views(h: Seq<(&'static str, String)>) -> Seq<(Seq<char>, Seq<char>)> {
    h.map_values(|p: (&'static str, String)| (p.0@, p.1@))
}

/// The headers that sign a request in.
pub open spec fn sign_in(c: ConfigView) -> Seq<(Seq<char>, Seq<char>)> {
    match c.provider {
        Provider::Openai => seq![("Authorization"@, "Bearer "@ + c.api_key)],
        Provider::Azure => seq![("api-key"@, c.api_key)],
    }
}

/// The headers that open a realtime session.
pub open spec fn realtime_sign_in(c: ConfigView) -> Seq<(Seq<char>, Seq<char>)> {
    match c.provider {
        Provider::Openai => sign_in(c).push(("OpenAI-Beta"@, "realtime=v1"@)),
        Provider::Azure => sign_in(c),
    }
}

/// The headers that sign a request in.
pub fn auth_headers(cfg: &AppConfig) -> (r: Vec<(&'static str, String)>)
    ensures
        header_views(r@) == sign_in(cfg@),
{
    let mut r: Vec<(&'static str, String)> = Vec::new();
    match cfg.provider {
        Provider::Openai => {
            let mut v = "Bearer ".to_string();
            v.append(cfg.api_key.as_str());
            r.push(("Authorization", v));
        },
        Provider::Azure => {
            r.push(("api-key", cfg.api_key.clone()));
        },
    }
    assert(header_views(r@) =~= sign_in(cfg@));
    r
}

// ---- The host of an Azure resource -------------------------------------

/// What the `url` crate makes of a text: the host of the address, an address without
/// one, or the reason why it is no address.
pub uninterp spec fn url_host(text: Seq<char>) -> Result<Option<Seq<char>>, Seq<char>>;

pub open spec fn host_view(r: Result<Option<String>, String>) -> Result<
    Option<Seq<char>>,
    Seq<char>,
> {
    match r {
        Ok(Some(h)) => Ok(Some(h@)),
        Ok(None) => Ok(None),
        Err(e) => Err(e@),
    }
}

/// `url::Url::parse` and then `Url::host_str`; a parse error by the text it shows.
#[verifier::external_body]
pub(crate) fn parse_host(text: &str) -> (r: Result<Option<String>, String>)
    ensures
        host_view(r) == url_host(text@),
{
    match url::Url::parse(text) {
        Ok(u) => match u.host_str() {
            Some(h) => Ok(Some(h.to_string())),
            None => Ok(None),
        },
        Err(e) => Err(e.to_string()),
    }
}

pub open spec fn text_result(r: Result<String, String>) -> Result<Seq<char>, Seq<char>> {
    match r {
        Ok(t) => Ok(t@),
        Err(e) => Err(e@),
    }
}

/// The host, or why there is none.
pub open spec fn host_or_reason(found: Result<Option<Seq<char>>, Seq<char>>) -> Result<
    Seq<char>,
    Seq<char>,
> {
    match found {
        Ok(Some(h)) => Ok(h),
        Ok(None) => Err("Azure endpoint missing host"@),
        Err(e) => Err("Azure endpoint parse: "@ + e),
    }
}

/// The host that was found, or why there is none.
pub fn host_from(found: Result<Option<String>, String>) -> (r: Result<String, String>)
    ensures
        text_result(r) == host_or_reason(host_view(found)),
{
    match found {
        Ok(Some(h)) => Ok(h),
        Ok(None) => Err("Azure endpoint missing host".to_string()),
        Err(e) => {
            let mut t = "Azure endpoint parse: ".to_string();
            t.append(e.as_str());
            Err(t)
        },
    }
}

/// The host of the Azure resource, or why there is none.
pub open spec fn resource_host(c: ConfigView) -> Result<Seq<char>, Seq<char>> {
    host_or_reason(url_host(c.azure_endpoint))
}

/// The host of the Azure resource.
pub fn azure_host(cfg: &AppConfig) -> (r: Result<String, String>)
    ensures
        text_result(r) == resource_host(cfg@),
{
    host_from(parse_host(cfg.azure_endpoint.as_str()))
}

// ---- Addresses ---------------------------------------------------------

/// The address of a service of an Azure deployment.
pub open spec fn deployment_url(
    host: Seq<char>,
    deployment: Seq<char>,
    service: Seq<char>,
    version: Seq<char>,
) -> Seq<char> {
    "https://"@ + host + "/openai/deployments/"@ + deployment + service + version
}

/// The address of a service of an Azure deployment.
pub fn azure_url(host: &str, deployment: &str, service: &str, version: &str) -> (r: String)
    ensures
        r@ == deployment_url(host@, deployment@, service@, version@),
{
    let mut r = "https://".to_string();
    r.append(host);
    r.append("/openai/deployments/");
    r.append(deployment);
    r.append(service);
    r.append(version);
    r
}

/// The address of the realtime service of an Azure resource.
pub open spec fn azure_realtime_address(
    host: Seq<char>,
    version: Seq<char>,
    deployment: Seq<char>,
) -> Seq<char> {
    "wss://"@ + host + "/openai/realtime?api-version="@ + version + "&deployment="@ + deployment
}

/// The address of the realtime service of an Azure resource.
pub fn azure_realtime_url(host: &str, version: &str, deployment: &str) -> (r: String)
    ensures
        r@ == azure_realtime_address(host@, version@, deployment@),
{
    let mut r = "wss://".to_string();
    r.append(host);
    r.append("/openai/realtime?api-version=");
    r.append(version);
    r.append("&deployment=");
    r.append(deployment);
    r
}

/// Where the slide model is; `host` is that of the Azure resource.
pub open spec fn chat_address(c: ConfigView, host: Result<Seq<char>, Seq<char>>) -> Result<
    Seq<char>,
    Seq<char>,
> {
    match c.provider {
        Provider::Openai => Ok(openai_root(c) + "/chat/completions"@),
        Provider::Azure => match host {
            Ok(h) => Ok(
                deployment_url(
                    h,
                    c.slide_model,
                    "/chat/completions?api-version="@,
                    c.azure_api_version,
                ),
            ),
            Err(e) => Err(e),
        },
    }
}

/// Where the image model is; `host` is that of the Azure resource.
pub open spec fn image_address(c: ConfigView, host: Result<Seq<char>, Seq<char>>) -> Result<
    Seq<char>,
    Seq<char>,
> {
    match c.provider {
        Provider::Openai => Ok(openai_root(c) + "/images/generations"@),
        Provider::Azure => match host {
            Ok(h) => Ok(
                deployment_url(
                    h,
                    c.image_model,
                    "/images/generations?api-version="@,
                    c.image_api_version,
                ),
            ),
            Err(e) => Err(e),
        },
    }
}

/// Where the realtime model is; `host` is that of the Azure resource.
pub open spec fn realtime_address(c: ConfigView, host: Result<Seq<char>, Seq<char>>) -> Result<
    Seq<char>,
    Seq<char>,
> {
    match c.provider {
        Provider::Openai => Ok(
            ws_address(openai_root(c)) + "/realtime?model="@ + c.realtime_model,
        ),
        Provider::Azure => match host {
            Ok(h) => Ok(azure_realtime_address(h, c.azure_api_version, c.realtime_model)),
            Err(e) => Err(e),
        },
    }
}

/// Where the slide model is, or why that cannot be said.
pub fn chat_url(cfg: &AppConfig) -> (r: Result<String, String>)
    ensures
        text_result(r) == chat_address(cfg@, resource_host(cfg@)),
{
    match cfg.provider {
        Provider::Openai => {
            let mut r = openai_base(cfg).to_string();
            r.append("/chat/completions");
            Ok(r)
        },
        Provider::Azure => match azure_host(cfg) {
            Ok(h) => Ok(
                azure_url(
                    h.as_str(),
                    cfg.slide_model.as_str(),
                    "/chat/completions?api-version=",
                    cfg.azure_api_version.as_str(),
                ),
            ),
            Err(e) => Err(e),
        },
    }
}

/// Where the image model is, or why that cannot be said.
pub fn image_url(cfg: &AppConfig) -> (r: Result<String, String>)
    ensures
        text_result(r) == image_address(cfg@, resource_host(cfg@)),
{
    match cfg.provider {
        Provider::Openai => {
            let mut r = openai_base(cfg).to_string();
            r.append("/images/generations");
            Ok(r)
        },
        Provider::Azure => match azure_host(cfg) {
            Ok(h) => Ok(
                azure_url(
                    h.as_str(),
                    cfg.image_model.as_str(),
                    "/images/generations?api-version=",
                    cfg.image_api_version.as_str(),
                ),
            ),
            Err(e) => Err(e),
        },
    }
}

pub open spec fn realtime_view(r: Result<(String, Vec<(&'static str, String)>), String>) -> Result<
    (Seq<char>, Seq<(Seq<char>, Seq<char>)>),
    Seq<char>,
> {
    match r {
        Ok(p) => Ok((p.0@, header_views(p.1@))),
        Err(e) => Err(e@),
    }
}

/// Where the realtime model is, and the headers to open a session with.
pub fn realtime_ws(cfg: &AppConfig) -> (r: Result<(String, Vec<(&'static str, String)>), String>)
    ensures
        realtime_view(r) == match realtime_address(cfg@, resource_host(cfg@)) {
            Ok(url) => Ok((url, realtime_sign_in(cfg@))),
            Err(e) => Err(e),
        },
{
    match cfg.provider {
        Provider::Openai => {
            let mut url = ws_scheme(openai_base(cfg));
            url.append("/realtime?model=");
            url.append(cfg.realtime_model.as_str());
            let mut headers = auth_headers(cfg);
            let ghost before = headers@;
            headers.push(("OpenAI-Beta", "realtime=v1".to_string()));
            assert(header_views(headers@) =~= header_views(before).push(
                ("OpenAI-Beta"@, "realtime=v1"@),
            ));
            Ok((url, headers))
        },
        Provider::Azure => match azure_host(cfg) {
            Ok(h) => {
                let url = azure_realtime_url(
                    h.as_str(),
                    cfg.azure_api_version.as_str(),
                    cfg.realtime_model.as_str(),
                );
                Ok((url, auth_headers(cfg)))
            },
            Err(e) => Err(e),
        },
    }
}

/// The model that a request names, where the provider wants it in the request and not
/// in the address.
pub open spec fn named_model(c: ConfigView, model: Seq<char>) -> Option<Seq<char>> {
    match c.provider {
        Provider::Openai => Some(model),
        Provider::Azure => None,
    }
}

pub fn body_model<'a>(cfg: &'a AppConfig, model: &'a str) -> (r: Option<&'a str>)
    ensures
        str_view(r) == named_model(cfg@, model@),
{
    match cfg.provider {
        Provider::Openai => Some(model),
        Provider::Azure => None,
    }
}

// ---- Laws --------------------------------------------------------------

/// With OpenAI, one base address leads to all services; no host is asked for.
pub proof fn law_one_base_routes_all(c: ConfigView, host: Result<Seq<char>, Seq<char>>)
    requires
        c.provider == Provider::Openai,
    ensures
        chat_address(c, host) == Ok::<Seq<char>, Seq<char>>(openai_root(c) + "/chat/completions"@),
        image_address(c, host) == Ok::<Seq<char>, Seq<char>>(
            openai_root(c) + "/images/generations"@,
        ),
        realtime_address(c, host) == Ok::<Seq<char>, Seq<char>>(
            ws_address(openai_root(c)) + "/realtime?model="@ + c.realtime_model,
        ),
{
}

/// A websocket is secure exactly where the address it is made from is, or does not say.
pub proof fn law_websocket_scheme(rest: Seq<char>)
    ensures
        ws_address("https://"@ + rest) == "wss://"@ + rest,
        ws_address("http://"@ + rest) == "ws://"@ + rest,
{
    reveal_strlit("https://");
    reveal_strlit("http://");
    let a = "https://"@ + rest;
    let b = "http://"@ + rest;
    assert("https://"@.is_prefix_of(a));
    assert(a.skip("https://"@.len() as int) =~= rest);
    assert("http://"@.is_prefix_of(b));
    assert(b.skip("http://"@.len() as int) =~= rest);
    assert("https://"@[4] == 's' && b[4] == ':');
    if "https://"@.is_prefix_of(b) {
        assert(b.take(8)[4] == b[4]);
    }
}

/// The model is named in the request exactly where the address does not name it.
pub proof fn law_model_is_named_once(c: ConfigView, host: Result<Seq<char>, Seq<char>>)
    ensures
        named_model(c, c.slide_model) is None ==> chat_address(c, host) == (match host {
            Ok(h) => Ok::<Seq<char>, Seq<char>>(
                deployment_url(
                    h,
                    c.slide_model,
                    "/chat/completions?api-version="@,
                    c.azure_api_version,
                ),
            ),
            Err(e) => Err(e),
        }),
        named_model(c, c.slide_model) is Some ==> chat_address(c, host) == chat_address(
            ConfigView { slide_model: Seq::empty(), ..c },
            host,
        ),
{
}

/// With Azure every request goes to the host of the resource and names the deployment and the
/// version that it is for; without a host it goes nowhere, and the reason is given.
pub proof fn law_azure_addresses(c: ConfigView, host: Seq<char>, reason: Seq<char>)
    requires
        c.provider == Provider::Azure,
    ensures
        chat_address(c, Ok(host)) == Ok::<Seq<char>, Seq<char>>(
            "https://"@ + host + "/openai/deployments/"@ + c.slide_model
                + "/chat/completions?api-version="@ + c.azure_api_version,
        ),
        image_address(c, Ok(host)) == Ok::<Seq<char>, Seq<char>>(
            "https://"@ + host + "/openai/deployments/"@ + c.image_model
                + "/images/generations?api-version="@ + c.image_api_version,
        ),
        realtime_address(c, Ok(host)) == Ok::<Seq<char>, Seq<char>>(
            "wss://"@ + host + "/openai/realtime?api-version="@ + c.azure_api_version
                + "&deployment="@ + c.realtime_model,
        ),
        chat_address(c, Err(reason)) == Err::<Seq<char>, Seq<char>>(reason),
        image_address(c, Err(reason)) == Err::<Seq<char>, Seq<char>>(reason),
        realtime_address(c, Err(reason)) == Err::<Seq<char>, Seq<char>>(reason),
        named_model(c, c.slide_model) is None,
        named_model(c, c.image_model) is None,
{
}

/// With OpenAI the root is the base address that is set, without the white space around it
/// and the slashes at its end, or the public one; the body names the model.
pub proof fn law_openai_root(c: ConfigView, model: Seq<char>)
    ensures
        ({
            let t = without_trailing(trimmed(c.openai_base_url), '/');
            openai_root(c) == if t.len() > 0 {
                t
            } else {
                "https://api.openai.com/v1"@
            }
        }),
        c.provider == Provider::Openai ==> named_model(c, model) == Some(model),
{
}

/// An address without a scheme gets that of a secure socket.
pub proof fn law_socket_without_scheme(base: Seq<char>)
    requires
        !"https://"@.is_prefix_of(base),
        !"http://"@.is_prefix_of(base),
    ensures
        ws_address(base) == "wss://"@ + base,
{
}

/// Each provider is signed in to with the key, in the way that it wants; the realtime service
/// of OpenAI is told which protocol is spoken.
pub proof fn law_signing_in_shows_the_key(c: ConfigView)
    ensures
        c.provider == Provider::Openai ==> sign_in(c).len() == 1 && sign_in(c)[0] == (
            "Authorization"@,
            "Bearer "@ + c.api_key,
        ),
        c.provider == Provider::Azure ==> sign_in(c).len() == 1 && sign_in(c)[0] == (
            "api-key"@,
            c.api_key,
        ),
        c.provider == Provider::Openai ==> realtime_sign_in(c).len() == 2 && realtime_sign_in(c)[0]
            == sign_in(c)[0] && realtime_sign_in(c)[1] == ("OpenAI-Beta"@, "realtime=v1"@),
        c.provider == Provider::Azure ==> realtime_sign_in(c) == sign_in(c),
{
}

/// The host of an endpoint is what its address names; an address without one, or that is
/// none, is explained.
pub proof fn law_host_or_why_not(host: Seq<char>, reason: Seq<char>, c: ConfigView)
    ensures
        host_or_reason(Ok(Some(host))) == Ok::<Seq<char>, Seq<char>>(host),
        host_or_reason(Ok(None)) == Err::<Seq<char>, Seq<char>>("Azure endpoint missing host"@),
        host_or_reason(Err(reason)) == Err::<Seq<char>, Seq<char>>(
            "Azure endpoint parse: "@ + reason,
        ),
        resource_host(c) == host_or_reason(url_host(c.azure_endpoint)),
{
}

} // verus!
