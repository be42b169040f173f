//! What a health check of a configured provider instance reaches for.
//!
//! A provider instance's settings are read from its JSON configuration as a
//! whole: when every known setting present has the right kind of value they
//! are taken, each missing one falling back to its default; when any of them
//! does not (or the configuration is no object), every setting takes its
//! default.
use vstd::prelude::*;

use crate::config::Config;
use crate::json::json_get;
use crate::json::JsonView;
use crate::json::lemma_object_view;
use crate::json::law_get_is_lookup;
use crate::json::lookup;
use crate::json::member_index;
use crate::json::JsonValue;
use crate::text::join2;
use crate::text::owned;
use crate::text::parse_unsigned;
use crate::text::parse_unsigned_exec;

verus! {

/// Where and how to ask one provider instance whether it is healthy.
pub struct HealthProbe {
    pub url: String,
    pub api_key: Option<String>,
    pub timeout_secs: u64,
    pub verify_ssl: bool,
}

/// The provider types that can be constructed.
pub open spec fn known_provider_type(t: Seq<char>) -> bool {
    t == "ollama"@ || t == "llamacpp"@
}

/// The base URL a provider type uses when none is configured.
pub open spec fn default_base_url(t: Seq<char>) -> Seq<char> {
    if t == "ollama"@ {
        "http://localhost:11434"@
    } else {
        "http://localhost:8080"@
    }
}

/// The health-check endpoint a provider type uses when none is configured.
pub open spec fn default_health_endpoint(t: Seq<char>) -> Seq<char> {
    if t == "ollama"@ {
        "/api/tags"@
    } else {
        "/health"@
    }
}

/// The setting `key` is absent or holds text.
pub open spec fn text_ok(cfg: JsonValue, key: Seq<char>) -> bool {
    match json_get(cfg, key) {
        None => true,
        Some(JsonValue::Str(_)) => true,
        _ => false,
    }
}

/// The optional setting `key` is absent, null or holds text.
pub open spec fn optional_text_ok(cfg: JsonValue, key: Seq<char>) -> bool {
    match json_get(cfg, key) {
        None => true,
        Some(JsonValue::Null) => true,
        Some(JsonValue::Str(_)) => true,
        _ => false,
    }
}

/// The setting `key` is absent or holds a number that fits in a `u64`.
pub open spec fn count_ok(cfg: JsonValue, key: Seq<char>) -> bool {
    match json_get(cfg, key) {
        None => true,
        Some(JsonValue::Number(n)) => parse_unsigned(n@, u64::MAX as nat) is Some,
        _ => false,
    }
}

/// The setting `key` is absent or holds a boolean.
pub open spec fn flag_ok(cfg: JsonValue, key: Seq<char>) -> bool {
    match json_get(cfg, key) {
        None => true,
        Some(JsonValue::Bool(_)) => true,
        _ => false,
    }
}

/// The configuration is an object whose known settings all have the right kind of value.
pub open spec fn settings_valid(cfg: JsonValue) -> bool {
    &&& cfg is Object
    &&& text_ok(cfg, "base_url"@)
    &&& optional_text_ok(cfg, "api_key"@)
    &&& count_ok(cfg, "timeout_secs"@)
    &&& flag_ok(cfg, "verify_ssl"@)
    &&& text_ok(cfg, "health_check_endpoint"@)
}

/// The text setting `key`, or `default`.
pub open spec fn text_setting(cfg: JsonValue, key: Seq<char>, default: Seq<char>) -> Seq<char> {
    if settings_valid(cfg) {
        match json_get(cfg, key) {
            Some(JsonValue::Str(s)) => s@,
            _ => default,
        }
    } else {
        default
    }
}

/// The API key setting, if one is configured.
pub open spec fn api_key_setting(cfg: JsonValue) -> Option<Seq<char>> {
    if settings_valid(cfg) {
        match json_get(cfg, "api_key"@) {
            Some(JsonValue::Str(s)) => Some(s@),
            _ => None,
        }
    } else {
        None
    }
}

/// The health-check timeout setting in seconds, 10 by default.
pub open spec fn timeout_setting(cfg: JsonValue) -> nat {
    if settings_valid(cfg) {
        match json_get(cfg, "timeout_secs"@) {
            Some(JsonValue::Number(n)) => parse_unsigned(n@, u64::MAX as nat).unwrap(),
            _ => 10,
        }
    } else {
        10
    }
}

/// The certificate-verification setting, on by default.
pub open spec fn verify_ssl_setting(cfg: JsonValue) -> bool {
    if settings_valid(cfg) {
        match json_get(cfg, "verify_ssl"@) {
            Some(JsonValue::Bool(b)) => b,
            _ => true,
        }
    } else {
        true
    }
}

/// The URL a health check of a provider of type `t` configured with `cfg` requests:
/// its base URL followed by its health-check endpoint.
pub open spec fn probe_url(t: Seq<char>, cfg: JsonValue) -> Seq<char> {
    text_setting(cfg, "base_url"@, default_base_url(t)) + text_setting(
        cfg,
        "health_check_endpoint"@,
        default_health_endpoint(t),
    )
}

/// The message for a provider id that is not configured.
pub open spec fn provider_missing_message(id: Seq<char>) -> Seq<char> {
    "Provider '"@ + id + "' not found in configuration"@
}

/// The message for a configured provider whose type cannot be constructed.
pub open spec fn unknown_type_message(t: Seq<char>) -> Seq<char> {
    "Failed to create provider: Unknown instance type: "@ + t
}

fn text_ok_exec(cfg: &JsonValue, key: &str, optional: bool) -> (b: bool)
    ensures
        b == if optional {
            optional_text_ok(*cfg, key@)
        } else {
            text_ok(*cfg, key@)
        },
{
    match cfg.get(key) {
        None => true,
        Some(JsonValue::Str(_)) => true,
        Some(JsonValue::Null) => optional,
        Some(_) => false,
    }
}

fn settings_valid_exec(cfg: &JsonValue) -> (b: bool)
    ensures
        b == settings_valid(*cfg),
{
    match cfg {
        JsonValue::Object(_) => {},
        _ => {
            return false;
        },
    }
    let count = match cfg.get("timeout_secs") {
        None => true,
        Some(JsonValue::Number(n)) => parse_unsigned_exec(n.as_str(), u64::MAX).is_some(),
        Some(_) => false,
    };
    let flag = match cfg.get("verify_ssl") {
        None => true,
        Some(JsonValue::Bool(_)) => true,
        Some(_) => false,
    };
    text_ok_exec(cfg, "base_url", false) && text_ok_exec(cfg, "api_key", true) && count && flag
        && text_ok_exec(cfg, "health_check_endpoint", false)
}

fn text_setting_exec(cfg: &JsonValue, valid: bool, key: &str, default: String) -> (s: String)
    requires
        valid == settings_valid(*cfg),
    ensures
        s@ == text_setting(*cfg, key@, default@),
{
    if valid {
        match cfg.get(key) {
            Some(JsonValue::Str(s)) => owned(s.as_str()),
            _ => default,
        }
    } else {
        default
    }
}

/// Where and how to check the health of the configured provider `provider_id`:
/// an error when it is not configured or its type cannot be constructed.
pub fn health_probe(config: &Config, provider_id: &str) -> (r: Result<HealthProbe, String>)
    ensures
        match r {
            Ok(p) => {
                &&& config.providers@.contains_key(provider_id@)
                &&& known_provider_type(config.providers@[provider_id@].provider_type@)
                &&& p.url@ == probe_url(
                    config.providers@[provider_id@].provider_type@,
                    config.providers@[provider_id@].config,
                )
                &&& match p.api_key {
                    Some(k) => api_key_setting(config.providers@[provider_id@].config) == Some(k@),
                    None => api_key_setting(config.providers@[provider_id@].config) is None,
                }
                &&& p.timeout_secs == timeout_setting(config.providers@[provider_id@].config)
                &&& p.verify_ssl == verify_ssl_setting(config.providers@[provider_id@].config)
            },
            Err(e) => if !config.providers@.contains_key(provider_id@) {
                e@ == provider_missing_message(provider_id@)
            } else {
                &&& !known_provider_type(config.providers@[provider_id@].provider_type@)
                &&& e@ == unknown_type_message(config.providers@[provider_id@].provider_type@)
            },
        },
{
    let pc = match config.get_provider(provider_id) {
        Some(pc) => pc,
        None => {
            let a = join2("Provider '", provider_id);
            return Err(join2(a.as_str(), "' not found in configuration"));
        },
    };
    let t = pc.provider_type.as_str();
    let (default_url, default_endpoint) = if crate::text::str_eq(t, "ollama") {
        (crate::providers::ollama::default_ollama_url(), crate::providers::ollama::default_ollama_health_endpoint())
    } else if crate::text::str_eq(t, "llamacpp") {
        (
            crate::providers::llamacpp::default_llamacpp_url(),
            crate::providers::llamacpp::default_llamacpp_health_endpoint(),
        )
    } else {
        return Err(join2("Failed to create provider: Unknown instance type: ", t));
    };
    proof {
        reveal_strlit("ollama");
        reveal_strlit("llamacpp");
    }
    let cfg = &pc.config;
    let valid = settings_valid_exec(cfg);
    let base = text_setting_exec(cfg, valid, "base_url", default_url);
    let endpoint = text_setting_exec(cfg, valid, "health_check_endpoint", default_endpoint);
    let api_key: Option<String> = if valid {
        match cfg.get("api_key") {
            Some(JsonValue::Str(k)) => Some(owned(k.as_str())),
            _ => None,
        }
    } else {
        None
    };
    let timeout_secs: u64 = if valid {
        match cfg.get("timeout_secs") {
            Some(JsonValue::Number(n)) => match parse_unsigned_exec(n.as_str(), u64::MAX) {
                Some(v) => v,
                None => 10,
            },
            _ => 10,
        }
    } else {
        10
    };
    let verify_ssl: bool = if valid {
        match cfg.get("verify_ssl") {
            Some(JsonValue::Bool(b)) => *b,
            _ => true,
        }
    } else {
        true
    };
    Ok(HealthProbe { url: join2(base.as_str(), endpoint.as_str()), api_key, timeout_secs, verify_ssl })
}

/// The settings a new instance of provider type `t` starts from: every
/// setting at its default, the API key null.
pub open spec fn default_settings(t: Seq<char>) -> JsonView {
    JsonView::Object(default_members(t))
}

/// The default settings of provider type `t`, if it is one that can be constructed.
pub fn default_provider_settings(t: &str) -> (r: Option<JsonValue>)
    ensures
        match r {
            Some(v) => known_provider_type(t@) && v@ == default_settings(t@),
            None => !known_provider_type(t@),
        },
{
    proof {
        reveal_strlit("ollama");
        reveal_strlit("llamacpp");
    }
    let (url, endpoint) = if crate::text::str_eq(t, "ollama") {
        (crate::providers::ollama::default_ollama_url(), crate::providers::ollama::default_ollama_health_endpoint())
    } else if crate::text::str_eq(t, "llamacpp") {
        (
            crate::providers::llamacpp::default_llamacpp_url(),
            crate::providers::llamacpp::default_llamacpp_health_endpoint(),
        )
    } else {
        return None;
    };
    let members: Vec<(String, JsonValue)> = vec![
        ("base_url".to_string(), JsonValue::Str(url)),
        ("api_key".to_string(), JsonValue::Null),
        ("timeout_secs".to_string(), JsonValue::Number("10".to_string())),
        ("verify_ssl".to_string(), JsonValue::Bool(true)),
        ("health_check_endpoint".to_string(), JsonValue::Str(endpoint)),
    ];
    proof {
        lemma_object_view(members);
        assert(crate::json::members_view(members@) =~= seq![
            ("base_url"@, JsonView::Str(default_base_url(t@))),
            ("api_key"@, JsonView::Null),
            ("timeout_secs"@, JsonView::Number("10"@)),
            ("verify_ssl"@, JsonView::Bool(true)),
            ("health_check_endpoint"@, JsonView::Str(default_health_endpoint(t@))),
        ]);
    }
    let v = JsonValue::Object(members);
    assert(v@ == default_settings(t@));
    Some(v)
}

} // verus!

verus! {

/// The members of the default settings of provider type `t`.
pub open spec fn default_members(t: Seq<char>) -> Seq<(Seq<char>, JsonView)> {
    seq![
        ("base_url"@, JsonView::Str(default_base_url(t))),
        ("api_key"@, JsonView::Null),
        ("timeout_secs"@, JsonView::Number("10"@)),
        ("verify_ssl"@, JsonView::Bool(true)),
        ("health_check_endpoint"@, JsonView::Str(default_health_endpoint(t))),
    ]
}

proof fn lemma_member_read(v: JsonValue, t: Seq<char>, key: Seq<char>, expect: JsonView) -> (x: JsonValue)
    requires
        v@ == default_settings(t),
        lookup(default_members(t), key) == Some(expect),
    ensures
        v is Object,
        json_get(v, key) == Some(x),
        x@ == expect,
{
    match v {
        JsonValue::Object(members) => {
            lemma_object_view(members);
            law_get_is_lookup(members@, key);
            let i = member_index(members@, key).unwrap();
            assert(json_get(v, key) == Some(members@[i].1));
            members@[i].1
        },
        _ => {
            assert(false);
            v
        },
    }
}

proof fn lemma_ten()
    ensures
        parse_unsigned("10"@, u64::MAX as nat) == Some(10nat),
{
    reveal_strlit("10");
    let ten = "10"@;
    assert(ten.drop_last() =~= seq!['1']);
    let one = seq!['1'];
    assert(one.len() == 1 && one.last() == '1');
    assert(one.drop_last() =~= Seq::<char>::empty());
    assert(crate::text::digits_value(Seq::<char>::empty()) == 0);
    assert(crate::text::digit_value('1') == 1);
    assert(crate::text::digits_value(one) == 1);
    assert(ten.last() == '0' && crate::text::digit_value('0') == 0);
    assert(crate::text::digits_value(ten) == 10);
    assert(crate::text::all_digits(ten));
}

proof fn lemma_default_lookups(t: Seq<char>)
    ensures
        lookup(default_members(t), "base_url"@) == Some(JsonView::Str(default_base_url(t))),
        lookup(default_members(t), "api_key"@) == Some(JsonView::Null),
        lookup(default_members(t), "timeout_secs"@) == Some(JsonView::Number("10"@)),
        lookup(default_members(t), "verify_ssl"@) == Some(JsonView::Bool(true)),
        lookup(default_members(t), "health_check_endpoint"@) == Some(
            JsonView::Str(default_health_endpoint(t)),
        ),
{
    let ms = default_members(t);
    reveal_strlit("base_url");
    reveal_strlit("api_key");
    reveal_strlit("timeout_secs");
    reveal_strlit("verify_ssl");
    reveal_strlit("health_check_endpoint");
    let m1 = ms.drop_first();
    let m2 = m1.drop_first();
    let m3 = m2.drop_first();
    let m4 = m3.drop_first();
    assert(ms[0].0.len() == 8 && ms[1].0.len() == 7 && ms[2].0.len() == 12);
    assert(ms[3].0.len() == 10 && ms[4].0.len() == 21);
    assert(m1[0] == ms[1] && m2[0] == ms[2] && m3[0] == ms[3] && m4[0] == ms[4]);
    assert(m1.len() == 4 && m2.len() == 3 && m3.len() == 2 && m4.len() == 1);
    assert(lookup(m4, "health_check_endpoint"@) == Some(ms[4].1));
    assert(lookup(m3, "verify_ssl"@) == Some(ms[3].1));
    assert(lookup(m3, "health_check_endpoint"@) == lookup(m4, "health_check_endpoint"@));
    assert(lookup(m2, "timeout_secs"@) == Some(ms[2].1));
    assert(lookup(m2, "verify_ssl"@) == lookup(m3, "verify_ssl"@));
    assert(lookup(m2, "health_check_endpoint"@) == lookup(m3, "health_check_endpoint"@));
    assert(lookup(m1, "api_key"@) == Some(ms[1].1));
    assert(lookup(m1, "timeout_secs"@) == lookup(m2, "timeout_secs"@));
    assert(lookup(m1, "verify_ssl"@) == lookup(m2, "verify_ssl"@));
    assert(lookup(m1, "health_check_endpoint"@) == lookup(m2, "health_check_endpoint"@));
}

proof fn lemma_view_kind(x: JsonValue)
    ensures
        x@ is Null ==> x is Null,
        x@ is Bool ==> x == JsonValue::Bool(x@->Bool_0),
        x@ is Number ==> x is Number && x->Number_0@ == x@->Number_0,
        x@ is Str ==> x is Str && x->Str_0@ == x@->Str_0,
{
}

proof fn lemma_valid_from_members(v: JsonValue, t: Seq<char>, b: JsonValue, k: JsonValue, n: JsonValue, f: JsonValue, e: JsonValue)
    requires
        v is Object,
        json_get(v, "base_url"@) == Some(b),
        json_get(v, "api_key"@) == Some(k),
        json_get(v, "timeout_secs"@) == Some(n),
        json_get(v, "verify_ssl"@) == Some(f),
        json_get(v, "health_check_endpoint"@) == Some(e),
        b@ == JsonView::Str(default_base_url(t)),
        k@ == JsonView::Null,
        n@ == JsonView::Number("10"@),
        f@ == JsonView::Bool(true),
        e@ == JsonView::Str(default_health_endpoint(t)),
    ensures
        settings_valid(v),
        text_setting(v, "base_url"@, default_base_url(t)) == default_base_url(t),
        text_setting(v, "health_check_endpoint"@, default_health_endpoint(t)) == default_health_endpoint(t),
        api_key_setting(v) is None,
        timeout_setting(v) == 10,
        verify_ssl_setting(v),
{
    lemma_ten();
    lemma_view_kind(b);
    lemma_view_kind(k);
    lemma_view_kind(n);
    lemma_view_kind(f);
    lemma_view_kind(e);
}

/// A provider instance that holds its type's default settings is probed at
/// the type's default base URL and health-check endpoint, with no API key,
/// the default timeout and certificates verified.
pub proof fn law_default_settings_probe_defaults(t: Seq<char>, v: JsonValue)
    requires
        known_provider_type(t),
        v@ == default_settings(t),
    ensures
        settings_valid(v),
        probe_url(t, v) == default_base_url(t) + default_health_endpoint(t),
        api_key_setting(v) is None,
        timeout_setting(v) == 10,
        verify_ssl_setting(v),
{
    lemma_default_lookups(t);
    let b = lemma_member_read(v, t, "base_url"@, JsonView::Str(default_base_url(t)));
    let k = lemma_member_read(v, t, "api_key"@, JsonView::Null);
    let n = lemma_member_read(v, t, "timeout_secs"@, JsonView::Number("10"@));
    let f = lemma_member_read(v, t, "verify_ssl"@, JsonView::Bool(true));
    let e = lemma_member_read(v, t, "health_check_endpoint"@, JsonView::Str(default_health_endpoint(t)));
    lemma_valid_from_members(v, t, b, k, n, f, e);
}

} // verus!
