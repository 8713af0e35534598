//! Settings of the cloud prediction client that are decided from text: which reasoning
//! effort to ask for, and whether the service is OpenCode (which wants a session header).

use vstd::prelude::*;
use crate::chooser::{ascii_lower, to_ascii_lower};
use crate::text::{chars_of, is_white_space, same_text, string_of, trim, trim_end, trim_start, trimmed};

verus! {

/// How hard the model is asked to reason (the chat API's `reasoning_effort`).
#[derive(Debug, Clone, Copy, PartialEq, Eq, Structural)]
pub enum ReasoningEffort {
    /// The API's `none`: no reasoning at all.
    NoReasoning,
    Minimal,
    Low,
    Medium,
    High,
    Xhigh,
}

/// `text` with its ASCII letters in lower case.
pub open spec fn ascii_lowered(text: Seq<char>) -> Seq<char> {
    text.map_values(|c: char| ascii_lower(c))
}

/// `text` with its ASCII letters in lower case (as `str::to_ascii_lowercase`).
pub(crate) fn lowered(text: &Vec<char>) -> (out: Vec<char>)
    ensures
        out@ == ascii_lowered(text@),
{
    let mut out: Vec<char> = Vec::new();
    let mut i: usize = 0;
    while i < text.len()
        invariant
            i <= text.len(),
            out@ =~= ascii_lowered(text@.take(i as int)),
        decreases text.len() - i,
    {
        out.push(to_ascii_lower(text[i]));
        i += 1;
    }
    assert(text@.take(text.len() as int) =~= text@);
    out
}

/// The effort a configured value asks for: trimmed and compared ignoring ASCII case;
/// empty or unknown means the parameter is not sent.
pub open spec fn effort_of(value: Seq<char>) -> Option<ReasoningEffort> {
    let v = ascii_lowered(trimmed(value));
    if v == "none"@ {
        Some(ReasoningEffort::NoReasoning)
    } else if v == "minimal"@ {
        Some(ReasoningEffort::Minimal)
    } else if v == "low"@ {
        Some(ReasoningEffort::Low)
    } else if v == "medium"@ {
        Some(ReasoningEffort::Medium)
    } else if v == "high"@ {
        Some(ReasoningEffort::High)
    } else if v == "xhigh"@ {
        Some(ReasoningEffort::Xhigh)
    } else {
        None
    }
}

/// The reasoning effort the configuration asks for (see [`effort_of`]).
pub fn parse_reasoning_effort(value: &str) -> (effort: Option<ReasoningEffort>)
    ensures
        effort == effort_of(value@),
{
    let chars = chars_of(value);
    let t = trim(&chars);
    let low = lowered(&t);
    let v = string_of(&low);
    let v = v.as_str();
    if same_text(v, "none") {
        Some(ReasoningEffort::NoReasoning)
    } else if same_text(v, "minimal") {
        Some(ReasoningEffort::Minimal)
    } else if same_text(v, "low") {
        Some(ReasoningEffort::Low)
    } else if same_text(v, "medium") {
        Some(ReasoningEffort::Medium)
    } else if same_text(v, "high") {
        Some(ReasoningEffort::High)
    } else if same_text(v, "xhigh") {
        Some(ReasoningEffort::Xhigh)
    } else {
        None
    }
}

/// The host of a URL, as the URL parser of `reqwest` reads it (`None`: the text is not an
/// absolute URL, or has no host).
pub uninterp spec fn url_host(text: Seq<char>) -> Option<Seq<char>>;

/// Calls `reqwest::Url::parse` and then `Url::host_str`. Claimed: the result is the host
/// the parser reads, a function of the text alone (named [`url_host`]); nothing more of
/// URL syntax is stated.
#[verifier::external_body]
fn host_of(url: &str) -> (host: Option<String>)
    ensures
        match host {
            Some(h) => url_host(url@) == Some(h@),
            None => url_host(url@) is None,
        },
{
    reqwest::Url::parse(url).ok().and_then(|parsed| parsed.host_str().map(str::to_owned))
}

/// Whether `host` (in lower case) is `opencode.ai` or one of its subdomains.
pub open spec fn is_opencode_host(host: Seq<char>) -> bool {
    let h = ascii_lowered(host);
    h == "opencode.ai"@ || (h.len() >= 12 && h.skip(h.len() - 12) == ".opencode.ai"@)
}

/// Whether a host name (compared in lower case) is `opencode.ai` or one of its subdomains.
pub fn opencode_host(host: &str) -> (opencode: bool)
    ensures
        opencode == is_opencode_host(host@),
{
    let chars = chars_of(host);
    let low = lowered(&chars);
    let h = string_of(&low);
    if same_text(h.as_str(), "opencode.ai") {
        return true;
    }
    if low.len() < 12 {
        return false;
    }
    let mut tail: Vec<char> = Vec::new();
    let mut i = low.len() - 12;
    while i < low.len()
        invariant
            low.len() >= 12,
            low.len() - 12 <= i <= low.len(),
            tail@ =~= low@.subrange(low.len() - 12, i as int),
        decreases low.len() - i,
    {
        tail.push(low[i]);
        i += 1;
    }
    assert(tail@ =~= low@.skip(low.len() - 12));
    let t = string_of(&tail);
    same_text(t.as_str(), ".opencode.ai")
}

/// Whether a service address points at OpenCode: judged by its host alone.
pub fn is_opencode(base_url: &str) -> (opencode: bool)
    ensures
        opencode == match url_host(base_url@) {
            Some(host) => is_opencode_host(host),
            None => false,
        },
{
    match host_of(base_url) {
        Some(host) => opencode_host(host.as_str()),
        None => false,
    }
}

} // verus!
