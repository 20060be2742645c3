//! The settings, and the text that they are saved as.

use vstd::hash_map::StringHashMap;
use vstd::prelude::*;
use vstd::string::*;

use crate::text::{
    chars_of, lemma_upto, lower_case, lowered, same, string_of, text_in, texts_of, trim,
    trim_end_char, trimmed, trimmed_end, trimmed_start, upto, white, without_trailing,
};

verus! {

/// Whose service is used.
#[derive(Clone, Copy, Debug, PartialEq, Eq, Structural)]
pub enum Provider {
    Openai,
    Azure,
}

impl Default for Provider {
    fn default() -> (r: Self)
        ensures
            r == Provider::Openai,
    {
        Provider::Openai
    }
}

pub open spec fn provider_name(p: Provider) -> Seq<char> {
    match p {
        Provider::Openai => "openai"@,
        Provider::Azure => "azure"@,
    }
}

/// The provider that a text names: Azure where it says so, in any case and with any
/// white space around it, and OpenAI otherwise.
pub open spec fn provider_named(s: Seq<char>) -> Provider {
    if lowered(trimmed(s)) == "azure"@ {
        Provider::Azure
    } else {
        Provider::Openai
    }
}

impl Provider {
    pub fn as_str(&self) -> (r: &'static str)
        ensures
            r@ == provider_name(*self),
    {
        match self {
            Provider::Openai => "openai",
            Provider::Azure => "azure",
        }
    }

    /// Reads the name of a provider. No letter outside ASCII has one of those in
    /// `azure` as its lower case, so that ASCII case is all there is to fold.
    pub fn parse(s: &str) -> (r: Provider)
        ensures
            r == provider_named(s@),
    {
        if same(lower_case(trim(s)).as_str(), "azure") {
            Provider::Azure
        } else {
            Provider::Openai
        }
    }
}

/// The settings.
#[derive(Debug)]
pub struct AppConfig {
    pub provider: Provider,
    /// The key of the OpenAI account, or of the Azure resource.
    pub api_key: String,
    /// OpenAI only: the root that all its endpoints hang off, up to `/v1`.
    pub openai_base_url: String,
    /// Azure only: the endpoint of the resource.
    pub azure_endpoint: String,
    pub azure_api_version: String,
    pub image_api_version: String,
    /// The names of the models; with Azure, of the deployments.
    pub realtime_model: String,
    pub slide_model: String,
    pub image_model: String,
    pub voice: String,
    /// How hard the realtime model is to think, or nothing to leave that to it.
    pub reasoning_effort: String,
}

pub struct ConfigView {
    pub provider: Provider,
    pub api_key: Seq<char>,
    pub openai_base_url: Seq<char>,
    pub azure_endpoint: Seq<char>,
    pub azure_api_version: Seq<char>,
    pub image_api_version: Seq<char>,
    pub realtime_model: Seq<char>,
    pub slide_model: Seq<char>,
    pub image_model: Seq<char>,
    pub voice: Seq<char>,
    pub reasoning_effort: Seq<char>,
}

impl View for AppConfig {
    type V = ConfigView;

    open spec fn view(&self) -> ConfigView {
        ConfigView {
            provider: self.provider,
            api_key: self.api_key@,
            openai_base_url: self.openai_base_url@,
            azure_endpoint: self.azure_endpoint@,
            azure_api_version: self.azure_api_version@,
            image_api_version: self.image_api_version@,
            realtime_model: self.realtime_model@,
            slide_model: self.slide_model@,
            image_model: self.image_model@,
            voice: self.voice@,
            reasoning_effort: self.reasoning_effort@,
        }
    }
}

impl Clone for AppConfig {
    fn clone(&self) -> (r: Self)
        ensures
            r@ == self@,
    {
        AppConfig {
            provider: self.provider,
            api_key: self.api_key.clone(),
            openai_base_url: self.openai_base_url.clone(),
            azure_endpoint: self.azure_endpoint.clone(),
            azure_api_version: self.azure_api_version.clone(),
            image_api_version: self.image_api_version.clone(),
            realtime_model: self.realtime_model.clone(),
            slide_model: self.slide_model.clone(),
            image_model: self.image_model.clone(),
            voice: self.voice.clone(),
            reasoning_effort: self.reasoning_effort.clone(),
        }
    }
}

/// The settings of a new installation.
pub open spec fn default_config() -> ConfigView {
    ConfigView {
        provider: Provider::Openai,
        api_key: Seq::empty(),
        openai_base_url: "https://api.openai.com/v1"@,
        azure_endpoint: Seq::empty(),
        azure_api_version: "2024-10-01-preview"@,
        image_api_version: "2025-04-01-preview"@,
        realtime_model: "gpt-realtime-2"@,
        slide_model: "gpt-5.5"@,
        image_model: "gpt-image-2"@,
        voice: "alloy"@,
        reasoning_effort: Seq::empty(),
    }
}

impl Default for AppConfig {
    fn default() -> (r: Self)
        ensures
            r@ == default_config(),
    {
        AppConfig {
            provider: Provider::Openai,
            api_key: String::new(),
            openai_base_url: "https://api.openai.com/v1".to_string(),
            azure_endpoint: String::new(),
            azure_api_version: "2024-10-01-preview".to_string(),
            image_api_version: "2025-04-01-preview".to_string(),
            realtime_model: "gpt-realtime-2".to_string(),
            slide_model: "gpt-5.5".to_string(),
            image_model: "gpt-image-2".to_string(),
            voice: "alloy".to_string(),
            reasoning_effort: String::new(),
        }
    }
}

/// Whether enough is set to open a session.
pub open spec fn ready(c: ConfigView) -> bool {
    c.api_key.len() > 0 && (c.provider == Provider::Azure ==> c.azure_endpoint.len() > 0)
}

impl AppConfig {
    /// Whether enough is set to open a session.
    pub fn is_complete(&self) -> (r: bool)
        ensures
            r == ready(self@),
    {
        if self.api_key.as_str().is_empty() {
            return false;
        }
        match self.provider {
            Provider::Openai => true,
            Provider::Azure => !self.azure_endpoint.as_str().is_empty(),
        }
    }
}

// ---- Lines of keys and values ------------------------------------------

/// The lines of a text: what stands before, between and after its line feeds.
pub open spec fn lines_of(s: Seq<char>) -> Seq<Seq<char>>
    decreases s.len(),
{
    if s.len() == 0 {
        seq![Seq::empty()]
    } else {
        let before = lines_of(s.drop_last());
        if s.last() == '\n' {
            before.push(Seq::empty())
        } else {
            before.drop_last().push(before.last().push(s.last()))
        }
    }
}

/// Where a character first occurs.
pub open spec fn first_of(s: Seq<char>, c: char) -> Option<int>
    decreases s.len(),
{
    if s.len() == 0 {
        None
    } else {
        match first_of(s.drop_last(), c) {
            Some(i) => Some(i),
            None => if s.last() == c {
                Some(s.len() - 1)
            } else {
                None
            },
        }
    }
}

/// A value without the quotation marks, double or single, that it stands in.
pub open spec fn unquoted(v: Seq<char>) -> Seq<char> {
    if v.len() >= 2 && (v[0] == '"' && v.last() == '"' || v[0] == '\'' && v.last() == '\'') {
        v.subrange(1, v.len() - 1)
    } else {
        v
    }
}

/// The key and the value of a line, where it has them: no comment, and an equals sign.
pub open spec fn binding(line: Seq<char>) -> Option<(Seq<char>, Seq<char>)> {
    let t = trimmed(line);
    if t.len() == 0 || t[0] == '#' {
        None
    } else {
        match first_of(t, '=') {
            Some(i) => Some((trimmed(t.take(i)), unquoted(trimmed(t.skip(i + 1))))),
            None => None,
        }
    }
}

/// The values of some lines by their keys; of two with the same key, the later counts.
pub open spec fn bindings(lines: Seq<Seq<char>>) -> Map<Seq<char>, Seq<char>>
    decreases lines.len(),
{
    if lines.len() == 0 {
        Map::empty()
    } else {
        let before = bindings(lines.drop_last());
        match binding(lines.last()) {
            Some((k, v)) => before.insert(k, v),
            None => before,
        }
    }
}

pub open spec fn dotenv(raw: Seq<char>) -> Map<Seq<char>, Seq<char>> {
    bindings(lines_of(raw))
}

fn split_lines(raw: &str) -> (r: Vec<String>)
    ensures
        r@.map_values(|t: String| t@) == lines_of(raw@),
{
    let ghost one = |t: String| t@;
    let v = chars_of(raw);
    let mut r: Vec<String> = Vec::new();
    let mut line = String::new();
    let mut i: usize = 0;
    assert(r@.map_values(one).push(line@) =~= lines_of(raw@.take(0)));
    while i < v.len()
        invariant
            v@ == raw@,
            i <= v@.len(),
            one == (|t: String| t@),
            r@.map_values(one).push(line@) =~= lines_of(raw@.take(i as int)),
        decreases v@.len() - i,
    {
        assert(raw@.take(i + 1).drop_last() =~= raw@.take(i as int));
        let ghost before = lines_of(raw@.take(i as int));
        assert(before.drop_last() =~= r@.map_values(one));
        if v[i] == '\n' {
            let ghost old_r = r@;
            let ghost done = line@;
            r.push(line);
            line = String::new();
            assert(r@.map_values(one) =~= old_r.map_values(one).push(done));
        } else {
            line.push(v[i]);
        }
        i = i + 1;
    }
    assert(raw@.take(i as int) =~= raw@);
    let ghost old_r = r@;
    let ghost done = line@;
    r.push(line);
    assert(r@.map_values(one) =~= old_r.map_values(one).push(done));
    r
}

fn index_of_char(v: &Vec<char>, c: char) -> (r: Option<usize>)
    ensures
        match r {
            Some(i) => i < v@.len() && first_of(v@, c) == Some(i as int),
            None => first_of(v@, c) is None,
        },
{
    let ghost s = v@;
    let mut i: usize = 0;
    while i < v.len()
        invariant
            i <= v@.len(),
            s == v@,
            first_of(s.take(i as int), c) is None,
        decreases v@.len() - i,
    {
        assert(s.take(i + 1).drop_last() =~= s.take(i as int));
        if v[i] == c {
            proof {
                lemma_first_of_prefix(s, c, i + 1);
            }
            return Some(i);
        }
        i = i + 1;
    }
    assert(s.take(i as int) =~= s);
    None
}

proof fn lemma_first_of_prefix(s: Seq<char>, c: char, n: int)
    requires
        0 <= n <= s.len(),
        first_of(s.take(n), c) is Some,
    ensures
        first_of(s, c) == first_of(s.take(n), c),
    decreases s.len() - n,
{
    if n == s.len() {
        assert(s.take(n) =~= s);
    } else {
        assert(s.take(n + 1).drop_last() =~= s.take(n));
        lemma_first_of_prefix(s, c, n + 1);
    }
}

fn unquote(s: &str) -> (r: String)
    ensures
        r@ == unquoted(s@),
{
    let n: usize = s.unicode_len();
    if n >= 2 {
        let a = s.get_char(0);
        let z = s.get_char(n - 1);
        if (a == '"' && z == '"') || (a == '\'' && z == '\'') {
            return s.substring_char(1, n - 1).to_string();
        }
    }
    s.to_string()
}

/// Reads lines of keys and values.
pub fn parse_dotenv(raw: &str) -> (r: StringHashMap<String>)
    ensures
        texts_of(r@) == dotenv(raw@),
{
    let ghost one = |t: String| t@;
    let lines = split_lines(raw);
    let ghost all = lines_of(raw@);
    let mut r: StringHashMap<String> = StringHashMap::new();
    let mut i: usize = 0;
    assert(texts_of(r@) =~= bindings(all.take(0)));
    while i < lines.len()
        invariant
            i <= lines@.len(),
            one == (|t: String| t@),
            all == lines@.map_values(one),
            texts_of(r@) =~= bindings(all.take(i as int)),
        decreases lines@.len() - i,
    {
        assert(all.take(i + 1).drop_last() =~= all.take(i as int));
        assert(all[i as int] == lines@[i as int]@);
        let line = trim(lines[i].as_str());
        let v = chars_of(line);
        if v.len() > 0 && v[0] != '#' {
            match index_of_char(&v, '=') {
                Some(j) => {
                    let head = string_of(&v, 0, j);
                    let tail = string_of(&v, j + 1, v.len());
                    assert(head@ =~= line@.take(j as int));
                    assert(tail@ =~= line@.skip(j + 1));
                    let key = trim(head.as_str()).to_string();
                    let value = unquote(trim(tail.as_str()));
                    let ghost before = r@;
                    let ghost kv = (key@, value);
                    r.insert(key, value);
                    assert(texts_of(r@) =~= texts_of(before).insert(kv.0, kv.1@));
                },
                None => {},
            }
        }
        i = i + 1;
    }
    assert(all.take(i as int) =~= all);
    r
}

// ---- The settings as lines ---------------------------------------------

pub open spec fn or(v: Option<Seq<char>>, other: Seq<char>) -> Seq<char> {
    match v {
        Some(t) => t,
        None => other,
    }
}

/// The base URL that a text gives: without white space around it or slashes after it,
/// or `other` where that leaves nothing.
pub open spec fn base_url(v: Seq<char>, other: Seq<char>) -> Seq<char> {
    let b = without_trailing(trimmed(v), '/');
    if b.len() == 0 {
        other
    } else {
        b
    }
}

/// The settings that some keys and values give; what they leave out is as in a new
/// installation.
pub open spec fn config_from(env: Map<Seq<char>, Seq<char>>) -> ConfigView {
    let d = default_config();
    ConfigView {
        provider: match text_in(env, "PROVIDER"@) {
            Some(v) => provider_named(v),
            None => d.provider,
        },
        api_key: or(text_in(env, "API_KEY"@), d.api_key),
        openai_base_url: match text_in(env, "OPENAI_BASE_URL"@) {
            Some(v) => base_url(v, d.openai_base_url),
            None => d.openai_base_url,
        },
        azure_endpoint: match text_in(env, "AZURE_OPENAI_ENDPOINT"@) {
            Some(v) => without_trailing(v, '/'),
            None => d.azure_endpoint,
        },
        azure_api_version: or(text_in(env, "AZURE_OPENAI_API_VERSION"@), d.azure_api_version),
        image_api_version: or(text_in(env, "IMAGE_API_VERSION"@), d.image_api_version),
        realtime_model: or(text_in(env, "REALTIME_MODEL"@), d.realtime_model),
        slide_model: or(text_in(env, "SLIDE_MODEL"@), d.slide_model),
        image_model: or(text_in(env, "IMAGE_MODEL"@), d.image_model),
        voice: or(text_in(env, "VOICE"@), d.voice),
        reasoning_effort: or(text_in(env, "REASONING_EFFORT"@), d.reasoning_effort),
    }
}

fn value_or(m: &StringHashMap<String>, key: &str, other: String) -> (r: String)
    ensures
        r@ == or(text_in(texts_of(m@), key@), other@),
{
    match m.get(key) {
        Some(v) => v.clone(),
        None => other,
    }
}

/// The settings that some keys and values give.
pub fn from_map(m: &StringHashMap<String>) -> (r: AppConfig)
    ensures
        r@ == config_from(texts_of(m@)),
{
    let d = AppConfig::default();
    let provider = match m.get("PROVIDER") {
        Some(v) => Provider::parse(v.as_str()),
        None => d.provider,
    };
    let openai_base_url = match m.get("OPENAI_BASE_URL") {
        Some(v) => {
            let b = trim_end_char(trim(v.as_str()), '/');
            if b.is_empty() {
                d.openai_base_url
            } else {
                b.to_string()
            }
        },
        None => d.openai_base_url,
    };
    let azure_endpoint = match m.get("AZURE_OPENAI_ENDPOINT") {
        Some(v) => trim_end_char(v.as_str(), '/').to_string(),
        None => d.azure_endpoint,
    };
    AppConfig {
        provider,
        api_key: value_or(m, "API_KEY", d.api_key),
        openai_base_url,
        azure_endpoint,
        azure_api_version: value_or(m, "AZURE_OPENAI_API_VERSION", d.azure_api_version),
        image_api_version: value_or(m, "IMAGE_API_VERSION", d.image_api_version),
        realtime_model: value_or(m, "REALTIME_MODEL", d.realtime_model),
        slide_model: value_or(m, "SLIDE_MODEL", d.slide_model),
        image_model: value_or(m, "IMAGE_MODEL", d.image_model),
        voice: value_or(m, "VOICE", d.voice),
        reasoning_effort: value_or(m, "REASONING_EFFORT", d.reasoning_effort),
    }
}

/// The settings that a saved text gives.
pub fn read_config(raw: &str) -> (r: AppConfig)
    ensures
        r@ == config_from(dotenv(raw@)),
{
    from_map(&parse_dotenv(raw))
}

/// A text on one line: with a space in the place of each line feed.
pub open spec fn one_line(v: Seq<char>) -> Seq<char> {
    Seq::new(
        v.len(),
        |i: int|
            if v[i] == '\n' {
                ' '
            } else {
                v[i]
            },
    )
}

/// The line of a key and a value.
pub open spec fn kv_line(k: Seq<char>, v: Seq<char>) -> Seq<char> {
    k + "="@ + one_line(v) + "\n"@
}

/// The line of a key and a value.
pub fn kv(k: &str, v: &str) -> (r: String)
    ensures
        r@ == kv_line(k@, v@),
{
    let c = chars_of(v);
    let mut value = String::new();
    let mut i: usize = 0;
    while i < c.len()
        invariant
            c@ == v@,
            i <= c@.len(),
            value@ =~= one_line(v@).take(i as int),
        decreases c@.len() - i,
    {
        if c[i] == '\n' {
            value.push(' ');
        } else {
            value.push(c[i]);
        }
        i = i + 1;
    }
    assert(one_line(v@).take(i as int) =~= one_line(v@));
    let mut r = k.to_string();
    r.append("=");
    r.append(value.as_str());
    r.append("\n");
    r
}

/// The text that the settings are saved as.
pub open spec fn saved_text(c: ConfigView) -> Seq<char> {
    kv_line("PROVIDER"@, provider_name(c.provider)) + kv_line("API_KEY"@, c.api_key) + kv_line(
        "OPENAI_BASE_URL"@,
        c.openai_base_url,
    ) + kv_line("AZURE_OPENAI_ENDPOINT"@, c.azure_endpoint) + kv_line(
        "AZURE_OPENAI_API_VERSION"@,
        c.azure_api_version,
    ) + kv_line("IMAGE_API_VERSION"@, c.image_api_version) + kv_line(
        "REALTIME_MODEL"@,
        c.realtime_model,
    ) + kv_line("SLIDE_MODEL"@, c.slide_model) + kv_line("IMAGE_MODEL"@, c.image_model) + kv_line(
        "VOICE"@,
        c.voice,
    ) + kv_line("REASONING_EFFORT"@, c.reasoning_effort)
}

/// The text that the settings are saved as.
pub fn config_text(cfg: &AppConfig) -> (r: String)
    ensures
        r@ == saved_text(cfg@),
{
    let mut out = kv("PROVIDER", cfg.provider.as_str());
    out.append(kv("API_KEY", cfg.api_key.as_str()).as_str());
    out.append(kv("OPENAI_BASE_URL", cfg.openai_base_url.as_str()).as_str());
    out.append(kv("AZURE_OPENAI_ENDPOINT", cfg.azure_endpoint.as_str()).as_str());
    out.append(kv("AZURE_OPENAI_API_VERSION", cfg.azure_api_version.as_str()).as_str());
    out.append(kv("IMAGE_API_VERSION", cfg.image_api_version.as_str()).as_str());
    out.append(kv("REALTIME_MODEL", cfg.realtime_model.as_str()).as_str());
    out.append(kv("SLIDE_MODEL", cfg.slide_model.as_str()).as_str());
    out.append(kv("IMAGE_MODEL", cfg.image_model.as_str()).as_str());
    out.append(kv("VOICE", cfg.voice.as_str()).as_str());
    out.append(kv("REASONING_EFFORT", cfg.reasoning_effort.as_str()).as_str());
    out
}

// ---- Laws --------------------------------------------------------------

/// Whether a value can be saved on a line as it is: it has no line feed, no white space
/// around it, and does not stand in quotation marks.
pub open spec fn storable(v: Seq<char>) -> bool {
    &&& forall|i: int| 0 <= i < v.len() ==> #[trigger] v[i] != '\n'
    &&& trimmed(v) == v
    &&& unquoted(v) == v
}

/// Whether the settings can be saved as they are.
pub open spec fn config_storable(c: ConfigView) -> bool {
    &&& storable(c.api_key)
    &&& storable(c.openai_base_url)
    &&& storable(c.azure_endpoint)
    &&& storable(c.azure_api_version)
    &&& storable(c.image_api_version)
    &&& storable(c.realtime_model)
    &&& storable(c.slide_model)
    &&& storable(c.image_model)
    &&& storable(c.voice)
    &&& storable(c.reasoning_effort)
    &&& c.openai_base_url.len() > 0 && c.openai_base_url.last() != '/'
    &&& c.azure_endpoint.len() > 0 ==> c.azure_endpoint.last() != '/'
}

spec fn plain_char(c: char) -> bool {
    c != '=' && c != '#' && !white(c)
}

spec fn plain_key(k: Seq<char>) -> bool {
    k.len() > 0 && forall|i: int| 0 <= i < k.len() ==> plain_char(#[trigger] k[i])
}

proof fn lemma_lines_plain(a: Seq<char>, u: Seq<char>)
    requires
        forall|i: int| 0 <= i < u.len() ==> #[trigger] u[i] != '\n',
    ensures
        lines_of(a).len() > 0,
        lines_of(a + u) == lines_of(a).drop_last().push(lines_of(a).last() + u),
    decreases u.len(),
{
    lemma_lines_some(a);
    if u.len() == 0 {
        assert(a + u =~= a);
        assert(lines_of(a).last() + u =~= lines_of(a).last());
        assert(lines_of(a) =~= lines_of(a).drop_last().push(lines_of(a).last() + u));
    } else {
        let t = u.drop_last();
        assert forall|i: int| 0 <= i < t.len() implies #[trigger] t[i] != '\n' by {
            assert(u[i] != '\n');
        }
        lemma_lines_plain(a, t);
        assert((a + u).drop_last() =~= a + t);
        assert(u[u.len() - 1] != '\n');
        assert((a + u).last() == u.last());
        let before = lines_of(a + t);
        assert(before.drop_last() =~= lines_of(a).drop_last());
        assert(before.last().push(u.last()) =~= lines_of(a).last() + u);
    }
}

proof fn lemma_lines_some(a: Seq<char>)
    ensures
        lines_of(a).len() > 0,
    decreases a.len(),
{
    if a.len() > 0 {
        lemma_lines_some(a.drop_last());
    }
}

proof fn lemma_first_of_at(s: Seq<char>, c: char, i: int)
    requires
        0 <= i < s.len(),
        s[i] == c,
        forall|j: int| 0 <= j < i ==> #[trigger] s[j] != c,
    ensures
        first_of(s, c) == Some(i),
    decreases s.len(),
{
    let t = s.drop_last();
    if i < t.len() {
        assert forall|j: int| 0 <= j < i implies #[trigger] t[j] != c by {
            assert(s[j] != c);
        }
        lemma_first_of_at(t, c, i);
    } else {
        assert forall|j: int| 0 <= j < t.len() implies #[trigger] t[j] != c by {
            assert(s[j] != c);
        }
        lemma_first_of_none(t, c);
    }
}

proof fn lemma_first_of_none(s: Seq<char>, c: char)
    requires
        forall|j: int| 0 <= j < s.len() ==> #[trigger] s[j] != c,
    ensures
        first_of(s, c) is None,
    decreases s.len(),
{
    if s.len() > 0 {
        assert forall|j: int| 0 <= j < s.len() - 1 implies #[trigger] s.drop_last()[j] != c by {
            assert(s[j] != c);
        }
        lemma_first_of_none(s.drop_last(), c);
        assert(s[s.len() - 1] != c);
    }
}

proof fn lemma_trimmed_shrinks(s: Seq<char>)
    ensures
        trimmed_start(s).len() <= s.len(),
        trimmed_end(s).len() <= s.len(),
    decreases s.len(),
{
    if s.len() > 0 {
        lemma_trimmed_shrinks(s.drop_first());
        lemma_trimmed_shrinks(s.drop_last());
    }
}

proof fn lemma_trimmed_ends(s: Seq<char>)
    requires
        s.len() > 0,
    ensures
        trimmed(s) == s <==> !white(s[0]) && !white(s.last()),
{
    lemma_trimmed_shrinks(s.drop_first());
    lemma_trimmed_shrinks(trimmed_start(s));
    lemma_trimmed_shrinks(s.drop_last());
}

/// A line added to a text binds its key to its value, and leaves the text at the start of
/// a line again.
proof fn lemma_line_added(a: Seq<char>, k: Seq<char>, v: Seq<char>)
    requires
        lines_of(a).last().len() == 0,
        plain_key(k),
        storable(v),
    ensures
        lines_of(a + kv_line(k, v)).last().len() == 0,
        dotenv(a + kv_line(k, v)) == dotenv(a).insert(k, v),
{
    reveal_strlit("=");
    reveal_strlit("\n");
    let line = k + "="@ + v;
    let n = k.len() as int;
    assert(one_line(v) =~= v);
    assert("="@.len() == 1 && "="@[0] == '=');
    assert("\n"@.len() == 1 && "\n"@[0] == '\n');
    assert forall|i: int| 0 <= i < line.len() implies #[trigger] line[i] != '\n' by {
        if i < n {
            assert(line[i] == k[i]);
            assert(plain_char(k[i]));
        } else if i > n {
            assert(line[i] == v[i - n - 1]);
        }
    }
    lemma_lines_plain(a, line);
    assert(a + kv_line(k, v) =~= (a + line).push('\n'));
    assert((a + line).push('\n').drop_last() =~= a + line);
    let lines = lines_of(a + line);
    assert(lines_of(a).last() + line =~= line);
    assert(lines_of(a + kv_line(k, v)) == lines.push(Seq::empty()));
    assert(lines.push(Seq::empty()).drop_last() =~= lines);
    assert(lines.drop_last() =~= lines_of(a).drop_last());
    assert(lines_of(a).last() =~= Seq::empty());
    lemma_nothing_binds();
    assert(plain_char(k[0]));
    assert(line[0] == k[0]);
    if v.len() > 0 {
        lemma_trimmed_ends(v);
        assert(line.last() == v.last());
    } else {
        assert(line.last() == '=');
    }
    lemma_trimmed_ends(line);
    assert forall|j: int| 0 <= j < n implies #[trigger] line[j] != '=' by {
        assert(line[j] == k[j]);
        assert(plain_char(k[j]));
    }
    assert(line[n] == '=');
    lemma_first_of_at(line, '=', n);
    assert(line.take(n) =~= k);
    assert(line.skip(n + 1) =~= v);
    assert(plain_char(k[n - 1]));
    lemma_trimmed_ends(k);
    assert(binding(line) == Some((k, v)));
    assert(lines.last() == line);
    assert(bindings(lines) == bindings(lines.drop_last()).insert(k, v));
    assert(bindings(lines_of(a)) == bindings(lines_of(a).drop_last()));
    assert(bindings(lines.push(Seq::empty())) == bindings(lines));
}

proof fn lemma_nothing_binds()
    ensures
        binding(Seq::empty()) is None,
{
    assert(trimmed(Seq::<char>::empty()).len() == 0);
}

proof fn lemma_plain_key(k: Seq<char>)
    requires
        k.len() > 0,
        upto(|i: int| plain_char(k[i]), k.len() as int),
    ensures
        plain_key(k),
{
    let f = |i: int| plain_char(k[i]);
    lemma_upto(f, k.len() as int);
    assert forall|i: int| 0 <= i < k.len() implies plain_char(#[trigger] k[i]) by {
        assert(f(i));
    }
}

/// The keys of the settings are plain, and told apart by their lengths; but for two, by
/// their first letters.
proof fn lemma_keys()
    ensures
        plain_key("PROVIDER"@) && "PROVIDER"@.len() == 8,
        plain_key("API_KEY"@) && "API_KEY"@.len() == 7,
        plain_key("OPENAI_BASE_URL"@) && "OPENAI_BASE_URL"@.len() == 15,
        plain_key("AZURE_OPENAI_ENDPOINT"@) && "AZURE_OPENAI_ENDPOINT"@.len() == 21,
        plain_key("AZURE_OPENAI_API_VERSION"@) && "AZURE_OPENAI_API_VERSION"@.len() == 24,
        plain_key("IMAGE_API_VERSION"@) && "IMAGE_API_VERSION"@.len() == 17,
        plain_key("REALTIME_MODEL"@) && "REALTIME_MODEL"@.len() == 14,
        plain_key("SLIDE_MODEL"@) && "SLIDE_MODEL"@.len() == 11,
        plain_key("IMAGE_MODEL"@) && "IMAGE_MODEL"@.len() == 11,
        plain_key("VOICE"@) && "VOICE"@.len() == 5,
        plain_key("REASONING_EFFORT"@) && "REASONING_EFFORT"@.len() == 16,
        "SLIDE_MODEL"@[0] != "IMAGE_MODEL"@[0],
{
    reveal_with_fuel(upto, 26);
    reveal_strlit("PROVIDER");
    assert("PROVIDER"@.len() == 8);
    lemma_plain_key("PROVIDER"@);
    reveal_strlit("API_KEY");
    assert("API_KEY"@.len() == 7);
    lemma_plain_key("API_KEY"@);
    reveal_strlit("OPENAI_BASE_URL");
    assert("OPENAI_BASE_URL"@.len() == 15);
    lemma_plain_key("OPENAI_BASE_URL"@);
    reveal_strlit("AZURE_OPENAI_ENDPOINT");
    assert("AZURE_OPENAI_ENDPOINT"@.len() == 21);
    lemma_plain_key("AZURE_OPENAI_ENDPOINT"@);
    reveal_strlit("AZURE_OPENAI_API_VERSION");
    assert("AZURE_OPENAI_API_VERSION"@.len() == 24);
    lemma_plain_key("AZURE_OPENAI_API_VERSION"@);
    reveal_strlit("IMAGE_API_VERSION");
    assert("IMAGE_API_VERSION"@.len() == 17);
    lemma_plain_key("IMAGE_API_VERSION"@);
    reveal_strlit("REALTIME_MODEL");
    assert("REALTIME_MODEL"@.len() == 14);
    lemma_plain_key("REALTIME_MODEL"@);
    reveal_strlit("SLIDE_MODEL");
    assert("SLIDE_MODEL"@.len() == 11);
    lemma_plain_key("SLIDE_MODEL"@);
    reveal_strlit("IMAGE_MODEL");
    assert("IMAGE_MODEL"@.len() == 11);
    lemma_plain_key("IMAGE_MODEL"@);
    reveal_strlit("VOICE");
    assert("VOICE"@.len() == 5);
    lemma_plain_key("VOICE"@);
    reveal_strlit("REASONING_EFFORT");
    assert("REASONING_EFFORT"@.len() == 16);
    lemma_plain_key("REASONING_EFFORT"@);
    assert("SLIDE_MODEL"@[0] == 'S' && "IMAGE_MODEL"@[0] == 'I');
}

proof fn lemma_provider_name(p: Provider)
    ensures
        storable(provider_name(p)),
        provider_named(provider_name(p)) == p,
{
    reveal_strlit("openai");
    reveal_strlit("azure");
    let o = "openai"@;
    let a = "azure"@;
    assert(o.len() == 6 && o[0] == 'o' && o[1] == 'p' && o[2] == 'e');
    assert(o[3] == 'n' && o[4] == 'a' && o[5] == 'i');
    assert(a.len() == 5 && a[0] == 'a' && a[1] == 'z' && a[2] == 'u' && a[3] == 'r' && a[4] == 'e');
    lemma_trimmed_ends(o);
    lemma_trimmed_ends(a);
    assert(lowered(a) =~= a);
    assert(lowered(o)[0] == 'o');
}

/// The settings are read back from the text that they are saved as.
pub proof fn law_settings_round_trip(c: ConfigView)
    requires
        config_storable(c),
    ensures
        config_from(dotenv(saved_text(c))) == c,
{
    lemma_keys();
    lemma_provider_name(c.provider);
    let a0 = Seq::<char>::empty();
    assert(lines_of(a0).last().len() == 0);
    let a1 = a0 + kv_line("PROVIDER"@, provider_name(c.provider));
    lemma_line_added(a0, "PROVIDER"@, provider_name(c.provider));
    let a2 = a1 + kv_line("API_KEY"@, c.api_key);
    lemma_line_added(a1, "API_KEY"@, c.api_key);
    let a3 = a2 + kv_line("OPENAI_BASE_URL"@, c.openai_base_url);
    lemma_line_added(a2, "OPENAI_BASE_URL"@, c.openai_base_url);
    let a4 = a3 + kv_line("AZURE_OPENAI_ENDPOINT"@, c.azure_endpoint);
    lemma_line_added(a3, "AZURE_OPENAI_ENDPOINT"@, c.azure_endpoint);
    let a5 = a4 + kv_line("AZURE_OPENAI_API_VERSION"@, c.azure_api_version);
    lemma_line_added(a4, "AZURE_OPENAI_API_VERSION"@, c.azure_api_version);
    let a6 = a5 + kv_line("IMAGE_API_VERSION"@, c.image_api_version);
    lemma_line_added(a5, "IMAGE_API_VERSION"@, c.image_api_version);
    let a7 = a6 + kv_line("REALTIME_MODEL"@, c.realtime_model);
    lemma_line_added(a6, "REALTIME_MODEL"@, c.realtime_model);
    let a8 = a7 + kv_line("SLIDE_MODEL"@, c.slide_model);
    lemma_line_added(a7, "SLIDE_MODEL"@, c.slide_model);
    let a9 = a8 + kv_line("IMAGE_MODEL"@, c.image_model);
    lemma_line_added(a8, "IMAGE_MODEL"@, c.image_model);
    let a10 = a9 + kv_line("VOICE"@, c.voice);
    lemma_line_added(a9, "VOICE"@, c.voice);
    let a11 = a10 + kv_line("REASONING_EFFORT"@, c.reasoning_effort);
    lemma_line_added(a10, "REASONING_EFFORT"@, c.reasoning_effort);
    assert(a11 =~= saved_text(c));
    assert(config_from(dotenv(a11)) == c);
}

/// Each setting is read from its own key, and from no other; one that is not there is that of
/// a new installation. A base address loses the white space around it and the slashes at its
/// end, and a blank one does not count.
pub proof fn law_each_setting_has_its_key(env: Map<Seq<char>, Seq<char>>)
    ensures
        config_from(env).provider == if env.dom().contains("PROVIDER"@) {
            provider_named(env["PROVIDER"@])
        } else {
            Provider::Openai
        },
        config_from(env).api_key == if env.dom().contains("API_KEY"@) {
            env["API_KEY"@]
        } else {
            Seq::empty()
        },
        config_from(env).openai_base_url == if env.dom().contains("OPENAI_BASE_URL"@)
            && without_trailing(trimmed(env["OPENAI_BASE_URL"@]), '/').len() > 0 {
            without_trailing(trimmed(env["OPENAI_BASE_URL"@]), '/')
        } else {
            "https://api.openai.com/v1"@
        },
        config_from(env).azure_endpoint == if env.dom().contains("AZURE_OPENAI_ENDPOINT"@) {
            without_trailing(env["AZURE_OPENAI_ENDPOINT"@], '/')
        } else {
            Seq::empty()
        },
        config_from(env).azure_api_version == if env.dom().contains("AZURE_OPENAI_API_VERSION"@) {
            env["AZURE_OPENAI_API_VERSION"@]
        } else {
            "2024-10-01-preview"@
        },
        config_from(env).image_api_version == if env.dom().contains("IMAGE_API_VERSION"@) {
            env["IMAGE_API_VERSION"@]
        } else {
            "2025-04-01-preview"@
        },
        config_from(env).realtime_model == if env.dom().contains("REALTIME_MODEL"@) {
            env["REALTIME_MODEL"@]
        } else {
            "gpt-realtime-2"@
        },
        config_from(env).slide_model == if env.dom().contains("SLIDE_MODEL"@) {
            env["SLIDE_MODEL"@]
        } else {
            "gpt-5.5"@
        },
        config_from(env).image_model == if env.dom().contains("IMAGE_MODEL"@) {
            env["IMAGE_MODEL"@]
        } else {
            "gpt-image-2"@
        },
        config_from(env).voice == if env.dom().contains("VOICE"@) {
            env["VOICE"@]
        } else {
            "alloy"@
        },
        config_from(env).reasoning_effort == if env.dom().contains("REASONING_EFFORT"@) {
            env["REASONING_EFFORT"@]
        } else {
            Seq::empty()
        },
{
}

/// The settings of a new installation are those that are read where nothing is set.
pub proof fn law_defaults_are_what_nothing_gives()
    ensures
        config_from(Map::empty()) == default_config(),
{
}

/// The settings are enough where there is a key, and with Azure an endpoint as well.
pub proof fn law_what_settings_need(c: ConfigView)
    ensures
        c.api_key.len() == 0 ==> !ready(c),
        c.api_key.len() > 0 && c.provider == Provider::Openai ==> ready(c),
        c.api_key.len() > 0 && c.provider == Provider::Azure ==> (ready(c)
            <==> c.azure_endpoint.len() > 0),
{
}

/// A provider is known by its name, in any case and with white space around it; any other
/// name is that of the usual one.
pub proof fn law_providers_by_name(s: Seq<char>)
    ensures
        lowered(trimmed(s)) == "azure"@ ==> provider_named(s) == Provider::Azure,
        lowered(trimmed(s)) != "azure"@ ==> provider_named(s) == Provider::Openai,
        provider_name(Provider::Openai) == "openai"@,
        provider_name(Provider::Azure) == "azure"@,
{
}

/// One line more sets its own key, in place of what was set before, and no other; a blank
/// line, a comment and a line without an equals sign set nothing.
pub proof fn law_line_sets_its_key(lines: Seq<Seq<char>>, line: Seq<char>)
    ensures
        match binding(line) {
            Some((k, v)) => bindings(lines.push(line)) == bindings(lines).insert(k, v),
            None => bindings(lines.push(line)) == bindings(lines),
        },
        trimmed(line).len() == 0 ==> binding(line) is None,
        trimmed(line).len() > 0 && trimmed(line)[0] == '#' ==> binding(line) is None,
        !trimmed(line).contains('=') ==> binding(line) is None,
        trimmed(line).len() > 0 && trimmed(line)[0] != '#' && trimmed(line).contains('=')
            ==> exists|i: int|
            0 <= i < trimmed(line).len() && #[trigger] trimmed(line)[i] == '=' && !trimmed(
                line,
            ).take(i).contains('=') && binding(line) == Some(
                (trimmed(trimmed(line).take(i)), unquoted(trimmed(trimmed(line).skip(i + 1)))),
            ),
{
    assert(lines.push(line).drop_last() =~= lines);
    let t = trimmed(line);
    lemma_first_of_char(t, '=');
    if let Some(i) = first_of(t, '=') {
        assert(t[i] == '=');
    }
}

proof fn lemma_first_of_char(s: Seq<char>, c: char)
    ensures
        match first_of(s, c) {
            Some(i) => 0 <= i < s.len() && s[i] == c && !s.take(i).contains(c),
            None => !s.contains(c),
        },
    decreases s.len(),
{
    if s.len() > 0 {
        let r = s.drop_last();
        lemma_first_of_char(r, c);
        match first_of(r, c) {
            Some(i) => {
                assert(r.take(i) =~= s.take(i));
            },
            None => {
                if s.last() == c {
                    assert(s.take(s.len() - 1) =~= r);
                } else if s.contains(c) {
                    let j = choose|j: int| 0 <= j < s.len() && s[j] == c;
                    assert(r[j] == c);
                }
            },
        }
    }
}

/// A text falls into lines at its line breaks: without one it is a single line, and one more
/// break begins one more line.
pub proof fn law_text_falls_into_lines(s: Seq<char>, line: Seq<char>)
    requires
        !line.contains('\n'),
    ensures
        lines_of(line) == seq![line],
        lines_of(s.push('\n') + line) == lines_of(s).push(line),
    decreases line.len(),
{
    if line.len() == 0 {
        assert(line =~= Seq::empty());
        assert(s.push('\n') + line =~= s.push('\n'));
        assert(s.push('\n').drop_last() =~= s);
    } else {
        let r = line.drop_last();
        assert(!r.contains('\n')) by {
            if r.contains('\n') {
                let j = choose|j: int| 0 <= j < r.len() && r[j] == '\n';
                assert(line[j] == '\n');
            }
        }
        assert(line[line.len() - 1] != '\n');
        law_text_falls_into_lines(s, r);
        let t = s.push('\n') + line;
        assert(t.drop_last() =~= s.push('\n') + r);
        assert(r.push(line.last()) =~= line);
        assert(lines_of(line) =~= seq![line]);
        assert(lines_of(t) =~= lines_of(s).push(line));
    }
}

/// Quotes around a value are taken off where they match, and only then.
pub proof fn law_quotes_are_taken_off(v: Seq<char>)
    ensures
        unquoted(seq!['"'] + v + seq!['"']) == v,
        unquoted(seq!['\''] + v + seq!['\'']) == v,
        v.len() == 0 || (v[0] != '"' && v[0] != '\'') || v[0] != v.last() ==> unquoted(v) == v,
{
    assert(unquoted(seq!['"'] + v + seq!['"']) =~= v);
    assert(unquoted(seq!['\''] + v + seq!['\'']) =~= v);
}

/// A setting is saved on one line of its own, under its key and as it is, but for line breaks,
/// which become spaces.
pub proof fn law_setting_is_saved_on_one_line(k: Seq<char>, v: Seq<char>, i: int)
    ensures
        kv_line(k, v).len() == k.len() + v.len() + 2,
        k.is_prefix_of(kv_line(k, v)),
        kv_line(k, v)[k.len() as int] == '=',
        kv_line(k, v).last() == '\n',
        0 <= i < v.len() ==> kv_line(k, v)[k.len() + 1 + i] == if v[i] == '\n' {
            ' '
        } else {
            v[i]
        },
{
    reveal_strlit("=");
    reveal_strlit("\n");
    assert("="@.len() == 1 && "="@[0] == '=' && "\n"@.len() == 1 && "\n"@[0] == '\n');
    assert(kv_line(k, v).subrange(0, k.len() as int) =~= k);
}

} // verus!
