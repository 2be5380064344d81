//! The management interface a request comes from.

use vstd::prelude::*;
use crate::text::{eq_ignore_ascii_case, eq_ignoring_ascii_case, same_text};

verus! {

/// The management interface a request comes from.
#[derive(Debug, Clone, Eq, Hash)]
pub enum RequestContext {
    /// The NETCONF protocol.
    NETCONF,
    /// The command-line interface.
    CLI,
    /// The web user interface.
    WebUI,
    /// Any other interface, by its name.
    Other(String),
}

impl PartialEq for RequestContext {
    fn eq(&self, other: &Self) -> (r: bool) {
        match (self, other) {
            (RequestContext::NETCONF, RequestContext::NETCONF) => true,
            (RequestContext::CLI, RequestContext::CLI) => true,
            (RequestContext::WebUI, RequestContext::WebUI) => true,
            (RequestContext::Other(a), RequestContext::Other(b)) => same_text(
                a.as_str(),
                b.as_str(),
            ),
            _ => false,
        }
    }
}

impl vstd::std_specs::cmp::PartialEqSpecImpl for RequestContext {
    open spec fn obeys_eq_spec() -> bool {
        true
    }

    open spec fn eq_spec(&self, other: &Self) -> bool {
        match (self, other) {
            (RequestContext::NETCONF, RequestContext::NETCONF) => true,
            (RequestContext::CLI, RequestContext::CLI) => true,
            (RequestContext::WebUI, RequestContext::WebUI) => true,
            (RequestContext::Other(a), RequestContext::Other(b)) => a@ == b@,
            _ => false,
        }
    }
}

impl RequestContext {
    /// The name a pattern is compared with: the canonical name of a fixed
    /// variant, the carried name of `Other`.
    pub open spec fn name(&self) -> Seq<char> {
        match self {
            RequestContext::NETCONF => "netconf"@,
            RequestContext::CLI => "cli"@,
            RequestContext::WebUI => "webui"@,
            RequestContext::Other(n) => n@,
        }
    }

    /// `pattern` is the wildcard `"*"`, or equals the context's name up to the
    /// case of ASCII letters.
    pub open spec fn spec_matches(&self, pattern: Seq<char>) -> bool {
        pattern == "*"@ || eq_ignoring_ascii_case(pattern, self.name())
    }

    /// Whether the context matches `pattern`.
    pub fn matches(&self, pattern: &str) -> (r: bool)
        ensures
            r == self.spec_matches(pattern@),
    {
        if same_text(pattern, "*") {
            return true;
        }
        match self {
            RequestContext::NETCONF => eq_ignore_ascii_case(pattern, "netconf"),
            RequestContext::CLI => eq_ignore_ascii_case(pattern, "cli"),
            RequestContext::WebUI => eq_ignore_ascii_case(pattern, "webui"),
            RequestContext::Other(name) => eq_ignore_ascii_case(pattern, name.as_str()),
        }
    }
}

} // verus!
