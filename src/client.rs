//! The client's own state: the repository it searches, and the numbering of
//! the requests it logs.
use vstd::prelude::*;

use crate::text::{dec, decimal, extend, push_str, string_of};
use crate::types::RequestLog;

verus! {

/// The state of a searchfox session.  Transport lives with the caller.
pub struct SearchfoxClient {
    pub repo: String,
    pub log_requests: bool,
    /// How many requests have been numbered so far (wrapping).
    pub request_counter: usize,
}

impl SearchfoxClient {
    pub fn new(repo: String, log_requests: bool) -> (r: Self)
        ensures
            r.repo == repo,
            r.log_requests == log_requests,
            r.request_counter == 0,
    {
        SearchfoxClient { repo, log_requests, request_counter: 0 }
    }
}

/// The line that announces a request.
pub open spec fn start_text(id: usize, method: Seq<char>, url: Seq<char>) -> Seq<char> {
    "[REQ-"@ + dec(id as nat) + "] "@ + method + " "@ + url + " - START"@
}

/// The line that reports a finished request.
pub open spec fn end_text(
    id: usize,
    method: Seq<char>,
    url: Seq<char>,
    millis: u128,
    size: usize,
    status: u16,
) -> Seq<char> {
    "[REQ-"@ + dec(id as nat) + "] "@ + method + " "@ + url + " - END ("@ + dec(millis as nat)
        + "ms, "@ + dec(size as nat) + " bytes, HTTP "@ + dec(status as nat) + ")"@
}

impl SearchfoxClient {
    /// Numbers a request about to be made, where requests are logged: the
    /// counter goes up by one (wrapping) and the log carries its new value.
    /// Nothing changes where requests are not logged.
    pub fn log_request_start(&mut self, method: &str, url: &str, start_time: std::time::Instant) -> (r:
        Option<RequestLog>)
        ensures
            !old(self).log_requests ==> r is None && *final(self) == *old(self),
            old(self).log_requests ==> {
                &&& final(self).repo == old(self).repo
                &&& final(self).log_requests
                &&& final(self).request_counter == (if old(self).request_counter == usize::MAX {
                    0
                } else {
                    old(self).request_counter + 1
                })
                &&& r matches Some(log) && log.request_id == final(self).request_counter
                    && log.url@ == url@ && log.method@ == method@ && log.start_time == start_time
            },
    {
        if !self.log_requests {
            return None;
        }
        self.request_counter = if self.request_counter == usize::MAX {
            0
        } else {
            self.request_counter + 1
        };
        Some(
            RequestLog {
                url: string_of(&crate::text::chars_of(url)),
                method: string_of(&crate::text::chars_of(method)),
                start_time,
                request_id: self.request_counter,
            },
        )
    }
}

impl RequestLog {
    /// `[REQ-{id}] {method} {url} - START`.
    pub fn start_message(&self) -> (r: String)
        ensures
            r@ == start_text(self.request_id, self.method@, self.url@),
    {
        let mut out: Vec<char> = Vec::new();
        push_str(&mut out, "[REQ-");
        extend(&mut out, &decimal(self.request_id as u128));
        push_str(&mut out, "] ");
        push_str(&mut out, self.method.as_str());
        push_str(&mut out, " ");
        push_str(&mut out, self.url.as_str());
        push_str(&mut out, " - START");
        string_of(&out)
    }

    /// `[REQ-{id}] {method} {url} - END ({ms}ms, {size} bytes, HTTP {status})`.
    pub fn end_message(&self, status: u16, size_bytes: usize, millis: u128) -> (r: String)
        ensures
            r@ == end_text(self.request_id, self.method@, self.url@, millis, size_bytes, status),
    {
        let mut out: Vec<char> = Vec::new();
        push_str(&mut out, "[REQ-");
        extend(&mut out, &decimal(self.request_id as u128));
        push_str(&mut out, "] ");
        push_str(&mut out, self.method.as_str());
        push_str(&mut out, " ");
        push_str(&mut out, self.url.as_str());
        push_str(&mut out, " - END (");
        extend(&mut out, &decimal(millis));
        push_str(&mut out, "ms, ");
        extend(&mut out, &decimal(size_bytes as u128));
        push_str(&mut out, " bytes, HTTP ");
        extend(&mut out, &decimal(status as u128));
        push_str(&mut out, ")");
        string_of(&out)
    }
}

/// Settings read from the user's configuration file.
#[derive(Clone, Copy, Debug, PartialEq, Eq, Structural)]
pub struct Config {
    /// Allow full-text searches without the warning.
    pub allow_fulltext: bool,
}

impl Default for Config {
    fn default() -> (r: Self)
        ensures
            !r.allow_fulltext,
    {
        Config { allow_fulltext: false }
    }
}

} // verus!
