//! Orchestration of one lookup: validation, endpoint resolution and request
//! URL construction before the network call; classification of the fetch
//! outcome into the uniform result envelope after it. The network call
//! itself is the caller's: it hands the outcome back as a `FetchOutcome`.

use vstd::prelude::*;
use vstd::string::StringExecFns;
use crate::json::{json_of, parse_json_text};
use crate::rdap::{spec_parse_rdap, DomainInfo};
use crate::registry::{resolve as registry_resolve, spec_resolve};
use crate::strutil::{
    lower_seq, lower_chars, chars_of, string_of, spec_dec, dec_of_u16, opt_str_view,
};
use crate::validate::{
    validate_domain, spec_validate, spec_message, labels_of, split_labels, seq_views,
};

verus! {

/// The uniform outcome envelope of one lookup: either a record or an error
/// message, never both, plus the elapsed wall-clock time in milliseconds.
#[derive(Debug, Clone)]
pub struct LookupResult {
    pub domain: String,
    pub success: bool,
    pub data: Option<DomainInfo>,
    pub error: Option<String>,
    pub lookup_time_ms: u64,
    pub method: String,
}

impl LookupResult {
    /// Exactly one of `data` and `error` is present, according to `success`,
    /// and the method label is fixed.
    pub open spec fn wf(self) -> bool {
        &&& self.success == (self.data is Some)
        &&& self.success == (self.error is None)
        &&& self.method@ == "rdap"@
    }
}

/// What the network fetch came back with: a response body, a timeout, a
/// transport-level failure message, or a non-success HTTP status code.
#[derive(Debug, Clone)]
pub enum FetchOutcome {
    Body(String),
    TimedOut,
    Transport(String),
    HttpStatus(u16),
}

/// A validated domain together with the request URL to fetch for it.
#[derive(Debug, Clone)]
pub struct PreparedLookup {
    pub domain: String,
    pub url: String,
}

/// The lower-cased final label of a domain string.
pub open spec fn spec_tld(s: Seq<char>) -> Seq<char> {
    lower_seq(labels_of(s).last())
}

/// What preparing a lookup yields on a raw input: the validated domain and
/// request URL, or the error message of the stage that rejected it.
pub open spec fn spec_start(s: Seq<char>) -> Result<(Seq<char>, Seq<char>), Seq<char>> {
    match spec_validate(s) {
        Err(e) => Err(spec_message(e)),
        Ok(d) => match spec_resolve(spec_tld(d)) {
            None => Err("No RDAP server found for TLD: "@ + spec_tld(d)),
            Some(ep) => Ok((d, ep + "domain/"@ + d)),
        },
    }
}

/// The RDAP client: pure routing and parsing plus the timeout the caller's
/// transport is expected to enforce.
pub struct RdapClient {
    pub timeout_secs: u64,
}

impl RdapClient {
    /// A client whose lookups are bounded by the given timeout, in seconds.
    pub fn new(timeout_secs: u64) -> (c: Self)
        ensures
            c.timeout_secs == timeout_secs,
    {
        RdapClient { timeout_secs }
    }

    /// The lower-cased text after the last dot; the whole lower-cased input
    /// when it has no dot.
    pub fn extract_tld(&self, domain: &str) -> (t: String)
        ensures
            t@ == spec_tld(domain@),
    {
        let cs = chars_of(domain);
        let labels = split_labels(&cs);
        proof {
            assert(seq_views(labels@)[labels@.len() - 1] == labels@[labels@.len() - 1]@);
        }
        let last = &labels[labels.len() - 1];
        let lo = lower_chars(last);
        string_of(&lo)
    }

    /// The RDAP base URL registered for the TLD, in any letter case.
    pub fn resolve(&self, tld: &str) -> (r: Option<String>)
        ensures
            opt_str_view(r) == spec_resolve(tld@),
    {
        registry_resolve(tld)
    }

    /// Validates the raw domain, resolves its TLD's endpoint and builds the
    /// request URL `endpoint + "domain/" + domain`; on failure, the error
    /// message of the rejecting stage.
    pub fn start_lookup(&self, raw: &str) -> (r: Result<PreparedLookup, String>)
        ensures
            match r {
                Ok(p) => spec_start(raw@) == Ok::<(Seq<char>, Seq<char>), Seq<char>>(
                    (p.domain@, p.url@),
                ),
                Err(m) => spec_start(raw@) == Err::<(Seq<char>, Seq<char>), Seq<char>>(m@),
            },
    {
        let validated = match validate_domain(raw) {
            Ok(v) => v,
            Err(e) => {
                return Err(e.message());
            },
        };
        let tld = self.extract_tld(validated.as_str());
        let ep = match self.resolve(tld.as_str()) {
            Some(ep) => ep,
            None => {
                return Err(String::from_str("No RDAP server found for TLD: ").concat(
                    tld.as_str(),
                ));
            },
        };
        let url = ep.concat("domain/").concat(validated.as_str());
        Ok(PreparedLookup { domain: validated, url })
    }

    /// A failed envelope carrying the given message and elapsed time.
    pub fn failure_result(&self, domain: &str, message: &str, elapsed_ms: u64) -> (r: LookupResult)
        ensures
            r.wf(),
            !r.success,
            r.domain@ == domain@,
            r.data is None,
            r.error matches Some(m) && m@ == message@,
            r.lookup_time_ms == elapsed_ms,
    {
        LookupResult {
            domain: String::from_str(domain),
            success: false,
            data: None,
            error: Some(String::from_str(message)),
            lookup_time_ms: elapsed_ms,
            method: String::from_str("rdap"),
        }
    }

    /// Turns the fetch outcome into the final envelope: a body that parses
    /// as JSON yields a success with the extracted record; anything else a
    /// failure with the outcome's message.
    pub fn finish_lookup(
        &self,
        raw: &str,
        validated: &str,
        outcome: FetchOutcome,
        elapsed_ms: u64,
    ) -> (r: LookupResult)
        ensures
            r.wf(),
            r.domain@ == raw@,
            r.lookup_time_ms == elapsed_ms,
            match outcome {
                FetchOutcome::Body(b) => match json_of(b@) {
                    Some(doc) => r.success && (r.data matches Some(d) && d@ == spec_parse_rdap(
                        validated@,
                        doc,
                        b@,
                    )),
                    None => !r.success && (r.error matches Some(m) && m@
                        == "Invalid JSON in RDAP response"@),
                },
                FetchOutcome::TimedOut => !r.success && (r.error matches Some(m) && m@
                    == "RDAP request timed out"@),
                FetchOutcome::Transport(t) => !r.success && (r.error matches Some(m) && m@ == t@),
                FetchOutcome::HttpStatus(c) => !r.success && (r.error matches Some(m) && m@
                    == "HTTP error: "@ + spec_dec(c as int)),
            },
    {
        match outcome {
            FetchOutcome::Body(b) => match parse_json_text(b.as_str()) {
                Some(doc) => {
                    let info = self.parse_rdap_data(validated, &doc, b.as_str());
                    LookupResult {
                        domain: String::from_str(raw),
                        success: true,
                        data: Some(info),
                        error: None,
                        lookup_time_ms: elapsed_ms,
                        method: String::from_str("rdap"),
                    }
                },
                None => self.failure_result(raw, "Invalid JSON in RDAP response", elapsed_ms),
            },
            FetchOutcome::TimedOut => self.failure_result(raw, "RDAP request timed out", elapsed_ms),
            FetchOutcome::Transport(t) => self.failure_result(raw, t.as_str(), elapsed_ms),
            FetchOutcome::HttpStatus(c) => {
                let digits = dec_of_u16(c);
                let msg = String::from_str("HTTP error: ").concat(digits.as_str());
                self.failure_result(raw, msg.as_str(), elapsed_ms)
            },
        }
    }
}

} // verus!
