//! The update sink: the Gandi LiveDNS API, as far as setting one A record
//! goes.
//!
//! The library sends nothing. [`GandiClient::update_a_record`] checks the
//! arguments and says which request to send; [`is_success`] and
//! [`request_failed`] say what the response to it means.

use crate::error::{result_view, AppError, AppErrorView, ErrorKind};
use crate::text::{contains, ends_in, ends_with};
use std::time::Duration;
use vstd::prelude::*;
use vstd::string::*;

verus! {

/// Where the API lives.
pub const GANDI_LIVE_DNS_BASE_URL: &'static str = "https://dns.api.gandi.net/api/v5";

/// Seconds after which a request to the API is given up.
pub const HTTP_TIMEOUT_SECS: u64 = 15;

/// The whole seconds that a duration holds.
pub uninterp spec fn duration_secs(d: Duration) -> u64;

/// `Duration::as_secs` returns the whole seconds that the duration holds,
/// without what it holds beyond them. This is believed of the standard
/// library, not proved.
pub assume_specification[ Duration::as_secs ](d: &Duration) -> (secs: u64)
    ensures
        secs == duration_secs(*d),
;

/// A record set as the API reads and writes it. A request to set a record
/// carries the time to live and the values only.
#[derive(Debug, PartialEq, Eq)]
pub struct GandiRRSet {
    pub rrset_type: Option<String>,
    pub ttl: u64,
    pub name: Option<String>,
    pub values: Vec<String>,
}

/// A [`GandiRRSet`] as a mathematical value.
pub ghost struct GandiRRSetView {
    pub rrset_type: Option<Seq<char>>,
    pub ttl: u64,
    pub name: Option<Seq<char>>,
    pub values: Seq<Seq<char>>,
}

impl View for GandiRRSet {
    type V = GandiRRSetView;

    open spec fn view(&self) -> GandiRRSetView {
        GandiRRSetView {
            rrset_type: self.rrset_type.deep_view(),
            ttl: self.ttl,
            name: self.name.deep_view(),
            values: self.values.deep_view(),
        }
    }
}

/// A time to live, in whole seconds.
#[derive(Clone, Copy, Debug, PartialEq, Eq, Structural)]
pub struct Ttl {
    pub secs: u64,
}

impl Ttl {
    /// A time to live of `secs` seconds.
    pub fn from_secs(secs: u64) -> (ttl: Ttl)
        ensures
            ttl.secs == secs,
    {
        Ttl { secs }
    }

    /// The time to live in seconds.
    pub fn secs(&self) -> (secs: u64)
        ensures
            secs == self.secs,
    {
        self.secs
    }
}

impl From<Duration> for Ttl {
    /// The whole seconds of `d`; what `d` holds beyond them is dropped.
    fn from(d: Duration) -> (ttl: Ttl) {
        Ttl { secs: d.as_secs() }
    }
}

impl vstd::std_specs::convert::FromSpecImpl<Duration> for Ttl {
    open spec fn obeys_from_spec() -> bool {
        true
    }

    open spec fn from_spec(d: Duration) -> Ttl {
        Ttl { secs: duration_secs(d) }
    }
}

/// A PUT request to the API: where it goes, its headers as pairs of name
/// and value, what it carries, and how long to wait for the response.
#[derive(Debug, PartialEq, Eq)]
pub struct PutRequest {
    pub uri: String,
    pub headers: Vec<(String, String)>,
    pub body: GandiRRSet,
    pub timeout: Duration,
}

/// A [`PutRequest`] as a mathematical value.
pub ghost struct PutRequestView {
    pub uri: Seq<char>,
    pub headers: Seq<(Seq<char>, Seq<char>)>,
    pub body: GandiRRSetView,
    pub timeout: Duration,
}

impl View for PutRequest {
    type V = PutRequestView;

    open spec fn view(&self) -> PutRequestView {
        PutRequestView {
            uri: self.uri@,
            headers: self.headers.deep_view(),
            body: self.body@,
            timeout: self.timeout,
        }
    }
}

/// The address of the A records of `name` in the zone `domain`.
pub open spec fn record_uri(domain: Seq<char>, name: Seq<char>) -> Seq<char> {
    GANDI_LIVE_DNS_BASE_URL@ + "/domains/"@ + domain + "/records/"@ + name + "/A"@
}

/// The headers of a request made with `api_key`.
pub open spec fn request_headers(api_key: Seq<char>) -> Seq<(Seq<char>, Seq<char>)> {
    seq![("Content-Type"@, "application/json"@), ("X-Api-Key"@, api_key)]
}

/// The message of a request that the API answered with a failure.
pub open spec fn request_failed_text(response: Seq<char>) -> Seq<char> {
    "Gandi request failed, response is: "@ + response
}

/// A client of the API: the key it identifies itself with, and how long it
/// waits for a response.
#[derive(Debug, PartialEq, Eq)]
pub struct GandiClient {
    pub api_key: String,
    pub timeout: Duration,
}

/// A [`GandiClient`] as a mathematical value.
pub ghost struct GandiClientView {
    pub api_key: Seq<char>,
    pub timeout: Duration,
}

impl View for GandiClient {
    type V = GandiClientView;

    open spec fn view(&self) -> GandiClientView {
        GandiClientView { api_key: self.api_key@, timeout: self.timeout }
    }
}

impl GandiClientView {
    /// What setting the A record `name` of the zone `domain` to `value`
    /// comes to: the request to send, or why none is sent. The domain must
    /// not end with a dot and the name must not contain one.
    pub open spec fn update_a_record(
        self,
        domain: Seq<char>,
        name: Seq<char>,
        value: Seq<char>,
        ttl: Ttl,
    ) -> Result<PutRequestView, AppErrorView> {
        if ends_in(domain, '.') {
            Err(
                AppErrorView {
                    kind: ErrorKind::Validation,
                    msg: "Domain in Gandi live API request must not end with '.'"@,
                },
            )
        } else if name.contains('.') {
            Err(
                AppErrorView {
                    kind: ErrorKind::Validation,
                    msg: "Record name must not contain '.'"@,
                },
            )
        } else {
            Ok(
                PutRequestView {
                    uri: record_uri(domain, name),
                    headers: request_headers(self.api_key),
                    body: GandiRRSetView {
                        rrset_type: None,
                        ttl: ttl.secs,
                        name: None,
                        values: seq![value],
                    },
                    timeout: self.timeout,
                },
            )
        }
    }
}

/// A write is refused, as a `Validation` failure, exactly where the domain
/// ends with a dot or the name contains one; every other write comes to a
/// request.
pub proof fn lemma_update_validation(
    client: GandiClientView,
    domain: Seq<char>,
    name: Seq<char>,
    value: Seq<char>,
    ttl: Ttl,
)
    ensures
        match client.update_a_record(domain, name, value, ttl) {
            Ok(_) => !ends_in(domain, '.') && !name.contains('.'),
            Err(e) => e.kind == ErrorKind::Validation && (ends_in(domain, '.') || name.contains(
                '.',
            )),
        },
{
}

impl GandiClient {
    /// A client that identifies itself with `api_key` and waits `timeout`
    /// for each response.
    pub fn new(api_key: String, timeout: Duration) -> (client: GandiClient)
        ensures
            client.api_key == api_key,
            client.timeout == timeout,
    {
        GandiClient { api_key, timeout }
    }

    /// Checks the arguments and builds the request that sets the A record
    /// `name` of the zone `domain` to the single value `value`. A domain
    /// that ends with a dot, or a name that contains one, is refused, and
    /// then there is nothing to send.
    pub fn update_a_record(&self, domain: &str, name: &str, value: &str, ttl: Ttl) -> (r: Result<
        PutRequest,
        AppError,
    >)
        ensures
            result_view(r) == self@.update_a_record(domain@, name@, value@, ttl),
    {
        if ends_with(domain, '.') {
            return Err(
                AppError::new(
                    ErrorKind::Validation,
                    "Domain in Gandi live API request must not end with '.'",
                ),
            );
        }
        if contains(name, '.') {
            return Err(AppError::new(ErrorKind::Validation, "Record name must not contain '.'"));
        }
        let mut uri = String::from_str(GANDI_LIVE_DNS_BASE_URL);
        uri.append("/domains/");
        uri.append(domain);
        uri.append("/records/");
        uri.append(name);
        uri.append("/A");

        let mut headers: Vec<(String, String)> = Vec::new();
        headers.push((String::from_str("Content-Type"), String::from_str("application/json")));
        headers.push((String::from_str("X-Api-Key"), self.api_key.clone()));
        assert(headers.deep_view() =~= request_headers(self.api_key@));

        let mut values: Vec<String> = Vec::new();
        values.push(String::from_str(value));
        assert(values.deep_view() =~= seq![value@]);

        let body = GandiRRSet { rrset_type: None, ttl: ttl.secs, name: None, values };
        Ok(PutRequest { uri, headers, body, timeout: self.timeout })
    }
}

/// Whether the API answered with success: a status from 200 to 299.
pub fn is_success(status: u16) -> (b: bool)
    ensures
        b == (200 <= status < 300),
{
    200 <= status && status < 300
}

/// The failure of a request that the API answered with another status,
/// around the text of its response.
pub fn request_failed(response: &str) -> (e: AppError)
    ensures
        e@ == (AppErrorView { kind: ErrorKind::Sink, msg: request_failed_text(response@) }),
{
    let mut msg = String::from_str("Gandi request failed, response is: ");
    msg.append(response);
    AppError { kind: ErrorKind::Sink, msg }
}

} // verus!
