//! The provider's records and the requests that list and update them,
//! described as plain values for whoever sends them.

use crate::dns::RecordType;
use crate::ip::IpAddress;
use vstd::prelude::*;
use vstd::string::*;
use vstd::utf8::encode_utf8;

verus! {

/// A DNS record as the provider reports it.
#[derive(Debug)]
pub struct Record {
    pub id: String,
    pub record_type: RecordType,
    pub name: String,
    pub content: IpAddress,
    pub proxiable: bool,
    pub proxied: bool,
    pub ttl: u32,
    pub locked: bool,
    pub zone_id: String,
    pub zone_name: String,
    pub data: String,
}

/// What the identity and the address of a provider's record are.
pub struct RecordView {
    pub id: Seq<char>,
    pub record_type: RecordType,
    pub name: Seq<char>,
    pub content: IpAddress,
    pub proxiable: bool,
    pub proxied: bool,
    pub ttl: u32,
    pub locked: bool,
    pub zone_id: Seq<char>,
    pub zone_name: Seq<char>,
    pub data: Seq<char>,
}

impl View for Record {
    type V = RecordView;

    open spec fn view(&self) -> RecordView {
        RecordView {
            id: self.id@,
            record_type: self.record_type,
            name: self.name@,
            content: self.content,
            proxiable: self.proxiable,
            proxied: self.proxied,
            ttl: self.ttl,
            locked: self.locked,
            zone_id: self.zone_id@,
            zone_name: self.zone_name@,
            data: self.data@,
        }
    }
}

impl DeepView for Record {
    type V = RecordView;

    open spec fn deep_view(&self) -> RecordView {
        self@
    }
}

/// The provider's answer to a request that lists records.
#[derive(Debug)]
pub struct Response {
    pub success: bool,
    pub errors: Vec<String>,
    pub messages: Vec<String>,
    pub result: Vec<Record>,
}

impl Response {
    /// The records that the provider listed: those of an answer that
    /// reports success, and none of one that does not.
    pub fn records(self) -> (r: Option<Vec<Record>>)
        ensures
            r.deep_view() == if self.success {
                Some(self.result.deep_view())
            } else {
                None
            },
    {
        if self.success {
            Some(self.result)
        } else {
            None
        }
    }
}

/// The new state of one record, as the provider takes it.
#[derive(Debug, PartialEq, Eq)]
pub struct UpdateRecord {
    pub id: String,
    pub record_type: RecordType,
    pub name: String,
    pub content: IpAddress,
    pub ttl: u32,
    pub proxied: Option<bool>,
}

/// What an update holds.
pub struct UpdateRecordView {
    pub id: Seq<char>,
    pub record_type: RecordType,
    pub name: Seq<char>,
    pub content: IpAddress,
    pub ttl: u32,
    pub proxied: Option<bool>,
}

impl View for UpdateRecord {
    type V = UpdateRecordView;

    open spec fn view(&self) -> UpdateRecordView {
        UpdateRecordView {
            id: self.id@,
            record_type: self.record_type,
            name: self.name@,
            content: self.content,
            ttl: self.ttl,
            proxied: self.proxied,
        }
    }
}

impl DeepView for UpdateRecord {
    type V = UpdateRecordView;

    open spec fn deep_view(&self) -> UpdateRecordView {
        self@
    }
}

impl UpdateRecord {
    pub fn new(
        id: &str,
        record_type: RecordType,
        name: &str,
        content: IpAddress,
        ttl: u32,
        proxied: Option<bool>,
    ) -> (r: UpdateRecord)
        ensures
            r@ == (UpdateRecordView {
                id: id@,
                record_type,
                name: name@,
                content,
                ttl,
                proxied,
            }),
    {
        UpdateRecord {
            id: String::from_str(id),
            record_type,
            name: String::from_str(name),
            content,
            ttl,
            proxied,
        }
    }
}

impl Clone for UpdateRecord {
    fn clone(&self) -> (r: UpdateRecord)
        ensures
            r@ == self@,
    {
        UpdateRecord {
            id: self.id.clone(),
            record_type: self.record_type,
            name: self.name.clone(),
            content: self.content,
            ttl: self.ttl,
            proxied: self.proxied,
        }
    }
}

/// How a request is made.
#[derive(Clone, Copy, Debug, PartialEq, Eq, Structural)]
pub enum Method {
    Get,
    Put,
}

/// A request to send: where it goes, how, and the update it carries, if
/// any.
#[derive(Debug, PartialEq, Eq)]
pub struct Request {
    pub method: Method,
    pub url: String,
    pub body: Option<UpdateRecord>,
}

/// What a request holds.
pub struct RequestView {
    pub method: Method,
    pub url: Seq<char>,
    pub body: Option<UpdateRecordView>,
}

impl View for Request {
    type V = RequestView;

    open spec fn view(&self) -> RequestView {
        RequestView {
            method: self.method,
            url: self.url@,
            body: match self.body {
                Some(b) => Some(b@),
                None => None,
            },
        }
    }
}

/// The address under which the records of zone `zone_id` are reached.
pub open spec fn records_url(zone_id: Seq<char>) -> Seq<char> {
    "https://api.cloudflare.com/client/v4/zones/"@ + zone_id + "/dns_records"@
}

/// The request that lists the records of a zone by name and type: both
/// filters and the demand that all of them match go as parameters of their
/// own.
pub open spec fn list_request(
    zone_id: Seq<char>,
    name: Seq<char>,
    record_type: RecordType,
) -> RequestView {
    RequestView {
        method: Method::Get,
        url: records_url(zone_id) + "?type="@ + record_type.name() + "&name="@ + name
            + "&match=all"@,
        body: None,
    }
}

/// The request that puts `record` in place of the provider's record of the
/// same id.
pub open spec fn update_request(zone_id: Seq<char>, record: UpdateRecordView) -> RequestView {
    RequestView {
        method: Method::Put,
        url: records_url(zone_id) + "/"@ + record.id,
        body: Some(record),
    }
}

/// The request that asks the echo service for the caller's public address.
pub open spec fn public_ip_request() -> RequestView {
    RequestView { method: Method::Get, url: "https://canihazip.com/s"@, body: None }
}

/// The three headers that go with every request to the provider, in order.
pub open spec fn auth_headers(email: Seq<char>, key: Seq<char>) -> Seq<(Seq<char>, Seq<char>)> {
    seq![
        ("X-Auth-Email"@, email),
        ("X-Auth-Key"@, key),
        ("Content-Type"@, "application/json"@),
    ]
}

/// A byte that may stand in the value of an HTTP header: a tab, or anything
/// from the space on but the delete character.
pub open spec fn header_byte(b: u8) -> bool {
    (b >= 32 && b != 127) || b == 9
}

/// Text that may stand as the value of an HTTP header: every byte of its
/// UTF-8 form may.
pub open spec fn header_text(s: Seq<char>) -> bool {
    forall|i: int| 0 <= i < encode_utf8(s).len() ==> header_byte(#[trigger] encode_utf8(s)[i])
}

/// Whether `s` may stand as the value of an HTTP header, as
/// `reqwest::header::HeaderValue::from_str` decides it: that function takes
/// a text exactly when each of its bytes is a tab or is at least 32 and not
/// 127.
#[verifier::external_body]
fn is_header_value(s: &str) -> (b: bool)
    ensures
        b == header_text(s@),
{
    reqwest::header::HeaderValue::from_str(s).is_ok()
}

/// The credential that cannot be sent as the value of an HTTP header.
#[derive(Clone, Copy, Debug, PartialEq, Eq, Structural)]
pub enum CredentialError {
    Email,
    Key,
}

/// The provider's API for one zone, with the credentials that open it.
#[derive(Debug)]
pub struct Cloudflare {
    email: String,
    key: String,
    zone_id: String,
}

/// What a `Cloudflare` holds.
pub struct CloudflareView {
    pub email: Seq<char>,
    pub key: Seq<char>,
    pub zone_id: Seq<char>,
}

impl View for Cloudflare {
    type V = CloudflareView;

    closed spec fn view(&self) -> CloudflareView {
        CloudflareView { email: self.email@, key: self.key@, zone_id: self.zone_id@ }
    }
}

impl Cloudflare {
    #[verifier::type_invariant]
    spec fn sendable(self) -> bool {
        header_text(self.email@) && header_text(self.key@)
    }

    /// The API of zone `zone_id`, opened by `email` and `key`. Both go out as
    /// header values with every request; the first of them that cannot is
    /// reported, and no `Cloudflare` is made.
    pub fn new(email: &str, key: &str, zone_id: &str) -> (r: Result<Cloudflare, CredentialError>)
        ensures
            match r {
                Ok(c) => {
                    &&& header_text(email@)
                    &&& header_text(key@)
                    &&& c@ == (CloudflareView { email: email@, key: key@, zone_id: zone_id@ })
                },
                Err(CredentialError::Email) => !header_text(email@),
                Err(CredentialError::Key) => header_text(email@) && !header_text(key@),
            },
    {
        if !is_header_value(email) {
            return Err(CredentialError::Email);
        }
        if !is_header_value(key) {
            return Err(CredentialError::Key);
        }
        Ok(
            Cloudflare {
                email: String::from_str(email),
                key: String::from_str(key),
                zone_id: String::from_str(zone_id),
            },
        )
    }

    /// The headers that go with every request to the provider. Each of
    /// their values can be sent as a header value.
    pub fn headers(&self) -> (h: Vec<(String, String)>)
        ensures
            h.deep_view() == auth_headers(self@.email, self@.key),
            header_text(self@.email),
            header_text(self@.key),
    {
        proof {
            use_type_invariant(self);
        }
        let mut h: Vec<(String, String)> = Vec::new();
        h.push((String::from_str("X-Auth-Email"), self.email.clone()));
        h.push((String::from_str("X-Auth-Key"), self.key.clone()));
        h.push((String::from_str("Content-Type"), String::from_str("application/json")));
        assert(h.deep_view() =~= auth_headers(self@.email, self@.key));
        h
    }

    fn records_url(&self) -> (url: String)
        ensures
            url@ == records_url(self@.zone_id),
    {
        let mut url = String::from_str("https://api.cloudflare.com/client/v4/zones/");
        url.append(self.zone_id.as_str());
        url.append("/dns_records");
        url
    }

    /// Get a list of records, filtered by `name` and `type`
    pub fn get_record(&self, name: &str, record_type: &RecordType) -> (r: Request)
        ensures
            r@ == list_request(self@.zone_id, name@, *record_type),
    {
        let mut url = self.records_url();
        url.append("?type=");
        url.append(record_type.to_string().as_str());
        url.append("&name=");
        url.append(name);
        url.append("&match=all");
        Request { method: Method::Get, url, body: None }
    }

    /// Update a record on cloudflare
    pub fn update_record(&self, record: &UpdateRecord) -> (r: Request)
        ensures
            r@ == update_request(self@.zone_id, record@),
    {
        let mut url = self.records_url();
        url.append("/");
        url.append(record.id.as_str());
        Request { method: Method::Put, url, body: Some(record.clone()) }
    }

    /// Get current public ip.
    pub fn public_ip(&self) -> (r: Request)
        ensures
            r@ == public_ip_request(),
    {
        Request { method: Method::Get, url: String::from_str("https://canihazip.com/s"), body: None }
    }
}

} // verus!
