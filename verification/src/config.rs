//! Build-time and run-time configuration: telemetry and the updater.
//!
//! A setting can come from the environment at run time or be compiled in;
//! the caller reads both and hands them here.
use vstd::prelude::*;

use crate::bindings::{join_url, parse_url, url_join, url_parse};
use crate::messages::opt_view;
use crate::text::{
    chars_eq, chars_of, lemma_trim_idempotent, push_str_chars, string_of, trim, trim_chars,
};

verus! {

/// The first of two optional strings that is present.
pub open spec fn first_of(a: Option<Seq<char>>, b: Option<Seq<char>>) -> Option<Seq<char>> {
    match a {
        Some(x) => Some(x),
        None => b,
    }
}

/// The view of an optional string slice.
pub open spec fn opt_str(o: Option<&str>) -> Option<Seq<char>> {
    match o {
        Some(s) => Some(s@),
        None => None,
    }
}

/// A setting: the run-time value, else the compiled-in one, trimmed; `None`
/// when that is empty.
pub open spec fn configured_value_of(
    runtime: Option<Seq<char>>,
    compile_time: Option<Seq<char>>,
) -> Option<Seq<char>> {
    match first_of(runtime, compile_time) {
        Some(v) => if trim(v).len() > 0 {
            Some(trim(v))
        } else {
            None
        },
        None => None,
    }
}

/// A setting: the run-time value, else the compiled-in one, trimmed; `None`
/// when that is empty.
pub fn configured_value(runtime: Option<String>, compile_time: Option<&str>) -> (r: Option<String>)
    ensures
        opt_view(r) == configured_value_of(opt_view(runtime), opt_str(compile_time)),
{
    let chars = match &runtime {
        Some(v) => chars_of(v.as_str()),
        None => match compile_time {
            Some(v) => chars_of(v),
            None => {
                return None;
            },
        },
    };
    let trimmed = trim_chars(chars.as_slice());
    if trimmed.len() > 0 {
        Some(string_of(trimmed.as_slice()))
    } else {
        None
    }
}

/// Whether a value of the telemetry switch turns telemetry off: `1`, `true`,
/// `TRUE`, `yes` or `YES`, once trimmed.
pub open spec fn disables_telemetry(v: Seq<char>) -> bool {
    let t = trim(v);
    ||| t == "1"@
    ||| t == "true"@
    ||| t == "TRUE"@
    ||| t == "yes"@
    ||| t == "YES"@
}

/// Whether the configured telemetry switch turns telemetry off.
pub fn telemetry_disabled(configured: &Option<String>) -> (r: bool)
    ensures
        r == match opt_view(*configured) {
            Some(v) => disables_telemetry(v),
            None => false,
        },
{
    match configured {
        Some(v) => {
            let c = chars_of(v.as_str());
            let t = trim_chars(c.as_slice());
            let s = t.as_slice();
            chars_eq(s, chars_of("1").as_slice()) || chars_eq(s, chars_of("true").as_slice())
                || chars_eq(s, chars_of("TRUE").as_slice()) || chars_eq(s, chars_of("yes").as_slice())
                || chars_eq(s, chars_of("YES").as_slice())
        },
        None => false,
    }
}

/// The analytics endpoint used when none is configured.
pub open spec fn default_umami_endpoint() -> Seq<char> {
    "https://analytics.scrimora.app"@
}

/// The website id and the trimmed endpoint text of telemetry, from the
/// configured switch, website id and endpoint; `None` when telemetry is
/// turned off or has no website id.
pub open spec fn telemetry_config_of(
    disabled: Option<Seq<char>>,
    website_id: Option<Seq<char>>,
    endpoint: Option<Seq<char>>,
) -> Option<(Seq<char>, Seq<char>)> {
    if (match disabled {
        Some(v) => disables_telemetry(v),
        None => false,
    }) {
        None
    } else {
        match website_id {
            None => None,
            Some(w) => Some(
                (
                    w,
                    trim(
                        match endpoint {
                            Some(e) => e,
                            None => default_umami_endpoint(),
                        },
                    ),
                ),
            ),
        }
    }
}

/// The website id and the trimmed endpoint text of telemetry; `None` when
/// telemetry is turned off or has no website id.
pub fn telemetry_config(
    disabled: Option<String>,
    website_id: Option<String>,
    endpoint: Option<String>,
) -> (r: Option<(String, String)>)
    ensures
        match r {
            Some((w, e)) => telemetry_config_of(
                opt_view(disabled),
                opt_view(website_id),
                opt_view(endpoint),
            ) == Some((w@, e@)),
            None => telemetry_config_of(
                opt_view(disabled),
                opt_view(website_id),
                opt_view(endpoint),
            ) is None,
        },
{
    if telemetry_disabled(&disabled) {
        return None;
    }
    let website_id = match website_id {
        Some(w) => w,
        None => {
            return None;
        },
    };
    let endpoint_chars = match &endpoint {
        Some(e) => chars_of(e.as_str()),
        None => chars_of("https://analytics.scrimora.app"),
    };
    let trimmed = trim_chars(endpoint_chars.as_slice());
    Some((website_id, string_of(trimmed.as_slice())))
}

/// Where telemetry is sent, and for which website.
pub struct TelemetrySettings {
    pub website_id: String,
    /// The endpoint URL, held as its serialization.
    pub endpoint: String,
}

/// The telemetry settings: `None` when telemetry is turned off, has no
/// website id, or its endpoint is not a URL; otherwise the website id and
/// the parsed endpoint.
pub fn telemetry_settings(
    disabled: Option<String>,
    website_id: Option<String>,
    endpoint: Option<String>,
) -> (r: Option<TelemetrySettings>)
    ensures
        ({
            let c = telemetry_config_of(
                opt_view(disabled),
                opt_view(website_id),
                opt_view(endpoint),
            );
            &&& r is Some <==> (c is Some && url_parse(c.unwrap().1) is Some)
            &&& r matches Some(s) ==> s.website_id@ == c.unwrap().0 && Some(s.endpoint@)
                == url_parse(c.unwrap().1)
        }),
{
    let (website_id, endpoint_text) = match telemetry_config(disabled, website_id, endpoint) {
        Some(c) => c,
        None => {
            return None;
        },
    };
    match parse_url(endpoint_text.as_str()) {
        Some(endpoint) => Some(TelemetrySettings { website_id, endpoint }),
        None => None,
    }
}

/// The URL telemetry events are posted to: `/api/send` joined on the
/// endpoint.
pub fn event_endpoint(settings: &TelemetrySettings) -> (r: Option<String>)
    ensures
        opt_view(r) == url_join(settings.endpoint@, "/api/send"@),
{
    join_url(settings.endpoint.as_str(), "/api/send")
}

/// Whether a setting is present and not blank.
pub open spec fn is_set(v: Option<Seq<char>>) -> bool {
    v matches Some(s) && trim(s).len() > 0
}

fn not_blank(v: &str) -> (r: bool)
    ensures
        r == (trim(v@).len() > 0),
{
    let c = chars_of(v);
    trim_chars(c.as_slice()).len() > 0
}

/// The compiled-in public key of the updater, unless it is blank.
pub fn bundled_updater_public_key(compiled: Option<&'static str>) -> (r: Option<&'static str>)
    ensures
        r == (if is_set(opt_str(compiled)) {
            compiled
        } else {
            None
        }),
{
    match compiled {
        Some(v) => if not_blank(v) {
            Some(v)
        } else {
            None
        },
        None => None,
    }
}

/// The text of the updater's endpoint: the configured endpoint unless it is
/// blank, else the `latest.json` of the latest release of the configured GitHub
/// repository unless that is blank.
pub open spec fn updater_endpoint_text_of(
    endpoint: Option<Seq<char>>,
    repository: Option<Seq<char>>,
) -> Option<Seq<char>> {
    if is_set(endpoint) {
        endpoint
    } else if is_set(repository) {
        Some(
            "https://github.com/"@ + repository.unwrap()
                + "/releases/latest/download/latest.json"@,
        )
    } else {
        None
    }
}

/// The text of the updater's endpoint.
pub fn updater_endpoint_text(endpoint: Option<&str>, repository: Option<&str>) -> (r: Option<
    String,
>)
    ensures
        opt_view(r) == updater_endpoint_text_of(opt_str(endpoint), opt_str(repository)),
{
    match endpoint {
        Some(e) => if not_blank(e) {
            return Some(String::from_str(e));
        },
        None => {},
    }
    match repository {
        Some(repo) => if not_blank(repo) {
            let mut s = String::from_str("https://github.com/");
            push_str_chars(&mut s, repo);
            push_str_chars(&mut s, "/releases/latest/download/latest.json");
            Some(s)
        } else {
            None
        },
        None => None,
    }
}

/// The updater's endpoint: the URL its text parses to, when it is one.
pub fn bundled_updater_endpoint(endpoint: Option<&str>, repository: Option<&str>) -> (r: Option<
    String,
>)
    ensures
        opt_view(r) == match updater_endpoint_text_of(opt_str(endpoint), opt_str(repository)) {
            Some(t) => url_parse(t),
            None => None,
        },
{
    match updater_endpoint_text(endpoint, repository) {
        Some(text) => parse_url(text.as_str()),
        None => None,
    }
}

// ---------------------------------------------------------------------------
// Laws of the configuration
// ---------------------------------------------------------------------------

/// A configured value is never blank and has no white space at either end.
pub proof fn law_configured_value_is_trimmed(
    runtime: Option<Seq<char>>,
    compile_time: Option<Seq<char>>,
)
    ensures
        configured_value_of(runtime, compile_time) matches Some(v) ==> v.len() > 0 && trim(v) == v,
{
    if let Some(v) = first_of(runtime, compile_time) {
        lemma_trim_idempotent(v);
    }
}

/// A run-time value overrides the compiled-in one, whatever that is: the
/// setting is the run-time value trimmed, or unset when that is blank. With
/// no run-time value the setting is the compiled-in value trimmed, or unset
/// when there is none or it is blank.
pub proof fn law_runtime_value_overrides_compiled_value(
    runtime: Option<Seq<char>>,
    compile_time: Option<Seq<char>>,
)
    ensures
        runtime is Some && trim(runtime.unwrap()).len() > 0 ==> configured_value_of(
            runtime,
            compile_time,
        ) == Some(trim(runtime.unwrap())),
        runtime is Some && trim(runtime.unwrap()).len() == 0 ==> configured_value_of(
            runtime,
            compile_time,
        ) is None,
        runtime is None && compile_time is Some && trim(compile_time.unwrap()).len() > 0
            ==> configured_value_of(runtime, compile_time) == Some(trim(compile_time.unwrap())),
        runtime is None && compile_time is Some && trim(compile_time.unwrap()).len() == 0
            ==> configured_value_of(runtime, compile_time) is None,
        runtime is None && compile_time is None ==> configured_value_of(runtime, compile_time) is None,
{
}

/// Setting the telemetry switch to `1` (or `true`, `TRUE`, `yes`, `YES`)
/// turns telemetry off; otherwise telemetry is on whenever a website id is
/// configured, and goes to the configured endpoint or else the default one.
pub proof fn law_telemetry_switch(
    disabled: Option<Seq<char>>,
    website_id: Option<Seq<char>>,
    endpoint: Option<Seq<char>>,
)
    ensures
        (disabled matches Some(v) && disables_telemetry(v)) ==> telemetry_config_of(
            disabled,
            website_id,
            endpoint,
        ) is None,
        !(disabled matches Some(v) && disables_telemetry(v)) ==> (telemetry_config_of(
            disabled,
            website_id,
            endpoint,
        ) is Some <==> website_id is Some),
        (disabled is None && website_id is Some && endpoint is None) ==> telemetry_config_of(
            disabled,
            website_id,
            endpoint,
        ) == Some((website_id.unwrap(), trim(default_umami_endpoint()))),
{
}

} // verus!
