//! The control-socket protocol: one JSON object per line.
//!
//! - `{"cmd": "get_config"}` asks for the current configuration;
//! - `{"cmd": "set", "key": "audio.noise_suppression", "value": "false"}`
//!   applies one setting;
//! - `{"cmd": "restart"}` asks how to restart.

use vstd::prelude::*;
use vstd::string::{StringExecFns, StringSliceAdditionalSpecFns};
use crate::config::{Config, ConfigView, ConfigError, Applied, DecimalSetting, apply_spec, error_text, restart_key};

verus! {

broadcast use vstd::string::group_string_axioms;

#[verifier::external_type_specification]
#[verifier::external_body]
pub struct ExJsonError(serde_json::Error);

/// For the bytes `line` and a member name: `None` when serde_json does not
/// read `line` as one JSON value (it is not JSON, has trailing characters,
/// or nests deeper than the reader's recursion limit); otherwise `Some` of
/// the text of that member when the value is an object whose member of
/// that name is a string, and `Some(None)` when it is not.
pub uninterp spec fn json_member_text(line: Seq<u8>, name: Seq<char>) -> Option<Option<Seq<char>>>;

/// The text view of an optional string.
pub open spec fn opt_text(s: Option<String>) -> Option<Seq<char>> {
    match s {
        Some(t) => Some(t@),
        None => None,
    }
}

/// For the bytes `line`: `None` when serde_json reads them as one JSON
/// value, and otherwise `Some` of the text (`Display`) of the error that
/// reading them gives.
pub uninterp spec fn json_parse_error(line: Seq<u8>) -> Option<Seq<char>>;

/// `serde_json::from_slice` into a `serde_json::Value`, then the member
/// `name` read as a string (`Value::get`, then the `String` variant).
/// The contract names the outcome by `json_member_text`, and says that the
/// read fails exactly when reading the same bytes as a value fails
/// (`json_parse_error`); it says nothing of which bytes are valid JSON.
#[verifier::external_body]
fn json_string_member(line: &[u8], name: &str) -> (r: Result<Option<String>, serde_json::Error>)
    ensures
        match r {
            Ok(m) => json_member_text(line@, name@) == Some(opt_text(m)),
            Err(_) => json_member_text(line@, name@) is None,
        },
        r is Err <==> json_parse_error(line@) is Some,
{
    let value: serde_json::Value = serde_json::from_slice(line)?;
    match value.get(name) {
        Some(serde_json::Value::String(s)) => Ok(Some(s.clone())),
        _ => Ok(None),
    }
}

/// `serde_json::from_slice` into a `serde_json::Value`, and the text
/// (`Display`) of the error when that fails. The contract names the
/// outcome by `json_parse_error`.
#[verifier::external_body]
fn json_error_text(line: &[u8]) -> (r: Option<String>)
    ensures
        opt_text(r) == json_parse_error(line@),
{
    match serde_json::from_slice::<serde_json::Value>(line) {
        Ok(_) => None,
        Err(e) => Some(e.to_string()),
    }
}

/// A request read from the socket: the string members it names.
pub struct Request {
    pub cmd: Option<String>,
    pub key: Option<String>,
    pub value: Option<String>,
}

/// The reply to a request.
pub enum Response {
    /// `{"status": "ok", "data": <the configuration>}`.
    Config,
    /// The setting was stored; some settings need a restart.
    Applied { restart_required: bool },
    /// The key names a decimal setting; the caller reads and stores the value.
    Decimal(DecimalSetting),
    /// How to restart the service.
    RestartNotice,
    /// `{"status": "error", "message": ...}`.
    Error(String),
}

/// `Response` with its message as a value.
pub enum ResponseView {
    Config,
    Applied { restart_required: bool },
    Decimal(DecimalSetting),
    RestartNotice,
    Error(Seq<char>),
}

impl View for Response {
    type V = ResponseView;

    open spec fn view(&self) -> ResponseView {
        match self {
            Response::Config => ResponseView::Config,
            Response::Applied { restart_required } => ResponseView::Applied { restart_required: *restart_required },
            Response::Decimal(d) => ResponseView::Decimal(*d),
            Response::RestartNotice => ResponseView::RestartNotice,
            Response::Error(m) => ResponseView::Error(m@),
        }
    }
}

/// An absent member reads as the empty text.
pub open spec fn or_empty(s: Option<Seq<char>>) -> Seq<char> {
    match s {
        Some(t) => t,
        None => Seq::empty(),
    }
}

/// The configuration after a request, and the reply.
pub open spec fn respond_spec(
    c: ConfigView,
    cmd: Option<Seq<char>>,
    key: Option<Seq<char>>,
    value: Option<Seq<char>>,
) -> (ConfigView, ResponseView) {
    let cmd = or_empty(cmd);
    let key = or_empty(key);
    let value = or_empty(value);
    if cmd == "get_config"@ {
        (c, ResponseView::Config)
    } else if cmd == "set"@ {
        if key.len() == 0 {
            (c, ResponseView::Error("missing 'key' field"@))
        } else {
            let (c2, r) = apply_spec(c, key, value);
            match r {
                Ok(Applied::Stored) => (c2, ResponseView::Applied { restart_required: restart_key(key) }),
                Ok(Applied::Decimal(d)) => (c2, ResponseView::Decimal(d)),
                Err(e) => (c2, ResponseView::Error(error_text(e, key, value))),
            }
        }
    } else if cmd == "restart"@ {
        (c, ResponseView::RestartNotice)
    } else {
        (c, ResponseView::Error("unknown command: "@ + cmd))
    }
}

/// A request that is answered with an error leaves the configuration as
/// it was; so does `get_config`.
pub proof fn lemma_refused_request_changes_nothing(
    c: ConfigView,
    cmd: Option<Seq<char>>,
    key: Option<Seq<char>>,
    value: Option<Seq<char>>,
)
    ensures
        respond_spec(c, cmd, key, value).1 is Error ==> respond_spec(c, cmd, key, value).0 == c,
        or_empty(cmd) == "get_config"@ ==> respond_spec(c, cmd, key, value) == (c, ResponseView::Config),
{
    let k = or_empty(key);
    let v = or_empty(value);
    if or_empty(cmd) == "set"@ && k.len() != 0 {
        crate::config::lemma_apply_error_unchanged(c, k, v);
    }
}

/// A setting that was stored stays stored: sending the same `set` again
/// gets the same answer and changes nothing.
pub proof fn lemma_stored_setting_is_kept(c: ConfigView, key: Seq<char>, value: Seq<char>)
    ensures
        ({
            let set = Some("set"@);
            let (c2, r) = respond_spec(c, set, Some(key), Some(value));
            r is Applied ==> respond_spec(c2, set, Some(key), Some(value)) == (c2, r)
        }),
{
    crate::config::lemma_apply_idempotent(c, key, value);
}

/// A `set` request with a key is answered from what applying the setting
/// did: the configuration becomes the applied one; a stored setting is
/// answered `Applied`, with a restart needed exactly for the restart keys;
/// a decimal setting is handed back as the very setting that `apply`
/// named; a refused one is answered with that refusal's message.
pub proof fn lemma_set_answers_apply(c: ConfigView, key: Seq<char>, value: Seq<char>)
    requires
        key.len() > 0,
    ensures
        ({
            let (c2, r) = apply_spec(c, key, value);
            let (c3, resp) = respond_spec(c, Some("set"@), Some(key), Some(value));
            &&& c3 == c2
            &&& r == Ok::<Applied, ConfigError>(Applied::Stored)
                ==> resp == ResponseView::Applied { restart_required: restart_key(key) }
            &&& forall|d: DecimalSetting| r == Ok::<Applied, ConfigError>(Applied::Decimal(d))
                ==> resp == ResponseView::Decimal(d)
            &&& forall|e: ConfigError| r == Err::<Applied, ConfigError>(e)
                ==> resp == ResponseView::Error(error_text(e, key, value))
        }),
{
    reveal_strlit("get_config");
    reveal_strlit("set");
}

/// `set` of the voice threshold is handed back as the voice threshold, and
/// `set` of the opacity as the opacity; neither changes the configuration.
pub proof fn lemma_decimal_set_requests(c: ConfigView, value: Seq<char>)
    ensures
        respond_spec(c, Some("set"@), Some("audio.vad_threshold"@), Some(value))
            == (c, ResponseView::Decimal(DecimalSetting::VadThreshold)),
        respond_spec(c, Some("set"@), Some("visual.opacity"@), Some(value))
            == (c, ResponseView::Decimal(DecimalSetting::Opacity)),
{
    reveal_strlit("audio.vad_threshold");
    reveal_strlit("visual.opacity");
    crate::config::lemma_decimal_settings(c, value);
    lemma_set_answers_apply(c, "audio.vad_threshold"@, value);
    lemma_set_answers_apply(c, "visual.opacity"@, value);
}

/// `s`, or the empty string.
fn text_or_empty(s: &Option<String>) -> (t: String)
    ensures
        t@ == or_empty(opt_text(*s)),
{
    match s {
        Some(t) => t.clone(),
        None => String::new(),
    }
}

/// Answers a request, updating the configuration for `set`.
pub fn respond(config: &mut Config, req: &Request) -> (r: Response)
    ensures
        (final(config)@, r@) == respond_spec(old(config)@, opt_text(req.cmd), opt_text(req.key), opt_text(req.value)),
{
    let cmd = text_or_empty(&req.cmd);
    let c = crate::text::chars_of(cmd.as_str());
    if crate::text::eq_lit(&c, "get_config") {
        Response::Config
    } else if crate::text::eq_lit(&c, "set") {
        let key = text_or_empty(&req.key);
        let value = text_or_empty(&req.value);
        if key.as_str().is_empty() {
            Response::Error("missing 'key' field".to_string())
        } else {
            match config.apply(key.as_str(), value.as_str()) {
                Ok(Applied::Stored) => Response::Applied { restart_required: Config::requires_restart(key.as_str()) },
                Ok(Applied::Decimal(d)) => Response::Decimal(d),
                Err(e) => Response::Error(e.message(key.as_str(), value.as_str())),
            }
        }
    } else if crate::text::eq_lit(&c, "restart") {
        Response::RestartNotice
    } else {
        let mut m = "unknown command: ".to_string();
        m.append(cmd.as_str());
        Response::Error(m)
    }
}

/// Reads the request on one line of the socket: `None` when the line is
/// not JSON.
pub fn decode_request(line: &[u8]) -> (r: Option<Request>)
    ensures
        match r {
            Some(req) => json_member_text(line@, "cmd"@) == Some(opt_text(req.cmd))
                && json_member_text(line@, "key"@) == Some(opt_text(req.key))
                && json_member_text(line@, "value"@) == Some(opt_text(req.value)),
            None => json_member_text(line@, "cmd"@) is None || json_member_text(line@, "key"@) is None
                || json_member_text(line@, "value"@) is None,
        },
{
    let cmd = match json_string_member(line, "cmd") {
        Ok(m) => m,
        Err(_) => { return None; },
    };
    let key = match json_string_member(line, "key") {
        Ok(m) => m,
        Err(_) => { return None; },
    };
    let value = match json_string_member(line, "value") {
        Ok(m) => m,
        Err(_) => { return None; },
    };
    Some(Request { cmd, key, value })
}

/// Handles one line read from a client: `None` (no reply) for an empty
/// line, which means the client went away, and for a line that is not
/// JSON; otherwise the reply, with the configuration updated.
pub fn handle_line(config: &mut Config, line: &[u8]) -> (r: Option<Response>)
    ensures
        line@.len() == 0 ==> r is None && final(config)@ == old(config)@,
        line@.len() > 0 ==> match r {
            None => final(config)@ == old(config)@ && (json_member_text(line@, "cmd"@) is None
                || json_member_text(line@, "key"@) is None || json_member_text(line@, "value"@) is None),
            Some(resp) => exists|cmd: Option<Seq<char>>, key: Option<Seq<char>>, value: Option<Seq<char>>|
                json_member_text(line@, "cmd"@) == Some(cmd) && json_member_text(line@, "key"@) == Some(key)
                && json_member_text(line@, "value"@) == Some(value)
                && #[trigger] respond_spec(old(config)@, cmd, key, value) == (final(config)@, resp@),
        },
{
    if line.len() == 0 {
        return None;
    }
    match decode_request(line) {
        None => None,
        Some(req) => {
            let resp = respond(config, &req);
            assert(respond_spec(old(config)@, opt_text(req.cmd), opt_text(req.key), opt_text(req.value)) == (config@, resp@));
            Some(resp)
        },
    }
}


/// The message member of a reply, if it has one.
pub open spec fn response_message(r: ResponseView) -> Option<Seq<char>> {
    match r {
        ResponseView::Error(m) => Some(m),
        ResponseView::RestartNotice => Some("restart the service manually: systemctl --user restart dictatord"@),
        ResponseView::Applied { restart_required } => if restart_required {
            Some("restart required to take effect"@)
        } else {
            None
        },
        _ => None,
    }
}

impl Response {
    /// Whether the reply has status "error" (otherwise "ok").
    pub fn is_error(&self) -> (b: bool)
        ensures
            b == (self@ is Error),
    {
        match self {
            Response::Error(_) => true,
            _ => false,
        }
    }

    /// The message member of the reply, if it has one.
    pub fn message(&self) -> (m: Option<String>)
        ensures
            opt_text(m) == response_message(self@),
    {
        match self {
            Response::Error(m) => Some(m.clone()),
            Response::RestartNotice => Some("restart the service manually: systemctl --user restart dictatord".to_string()),
            Response::Applied { restart_required } => if *restart_required {
                Some("restart required to take effect".to_string())
            } else {
                None
            },
            _ => None,
        }
    }
}

/// What the client makes of a reply line: an error for an empty line, for
/// a line that is not JSON (with serde_json's text for it), and for status
/// "error" (with the reply's message); otherwise success.
pub open spec fn reply_outcome(reply: Seq<char>, bytes: Seq<u8>) -> Result<(), Seq<char>> {
    if reply.len() == 0 {
        Err("Empty response from daemon"@)
    } else {
        match json_member_text(bytes, "status"@) {
            None => Err(or_empty(json_parse_error(bytes))),
            Some(status) => if status == Some("error"@) {
                match json_member_text(bytes, "message"@) {
                    None => Err(or_empty(json_parse_error(bytes))),
                    Some(m) => Err("Daemon error: "@ + (match m {
                        Some(t) => t,
                        None => "unknown error"@,
                    })),
                }
            } else {
                Ok(())
            },
        }
    }
}

/// serde_json's text for bytes that it did not read as JSON.
fn parse_error_text(line: &[u8]) -> (t: String)
    requires
        json_parse_error(line@) is Some,
    ensures
        t@ == or_empty(json_parse_error(line@)),
{
    match json_error_text(line) {
        Some(t) => t,
        None => String::new(),
    }
}

/// Checks the daemon's reply line: `Err` with the text to show when the
/// reply is empty, not JSON, or has status "error".
pub fn check_reply(reply: &str) -> (r: Result<(), String>)
    ensures
        match r {
            Ok(()) => reply_outcome(reply@, reply.spec_bytes()) is Ok,
            Err(t) => reply_outcome(reply@, reply.spec_bytes()) == Err::<(), Seq<char>>(t@),
        },
{
    if reply.is_empty() {
        return Err("Empty response from daemon".to_string());
    }
    let bytes = reply.as_bytes();
    let status = match json_string_member(bytes, "status") {
        Ok(s) => s,
        Err(_) => { return Err(parse_error_text(bytes)); },
    };
    let is_error = match &status {
        Some(s) => {
            let c = crate::text::chars_of(s.as_str());
            crate::text::eq_lit(&c, "error")
        },
        None => false,
    };
    if is_error {
        let message = match json_string_member(bytes, "message") {
            Ok(m) => m,
            Err(_) => { return Err(parse_error_text(bytes)); },
        };
        let mut text = "Daemon error: ".to_string();
        match &message {
            Some(m) => text.append(m.as_str()),
            None => text.append("unknown error"),
        }
        Err(text)
    } else {
        Ok(())
    }
}

} // verus!
