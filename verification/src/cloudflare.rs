//! The registrar Cloudflare: where its records are looked up and written,
//! and how its answers are read.

use crate::json::{
    empty_object, flag_under, insert_member, items_under, json_document, json_text, member,
    new_object, object_text, parse_document, text_under, unsigned_under, value_of_flag,
    value_of_text, value_of_unsigned, JsonView, NumberView,
};
use crate::literal::{flag_value, parse_flag, parse_u32, u32_value};
use crate::registrar::{
    field_views, is_success_status, Method, RegistrarRecordState, Reply, Request, RequestView,
    StateView,
};
use crate::text::{chars_of, text_view};
use vstd::prelude::*;
use vstd::string::StringExecFns;

verus! {

/// One record kept at Cloudflare, with the account that may change it.
#[derive(Clone, Debug)]
pub struct Cloudflare {
    api_key: String,
    email: String,
    zone_id: String,
    type_: String,
    name: String,
    domain: String,
    ttl: String,
    proxied: String,
}

/// A `Cloudflare` with its texts as characters.
pub struct CloudflareData {
    pub api_key: Seq<char>,
    pub email: Seq<char>,
    pub zone_id: Seq<char>,
    pub type_: Seq<char>,
    pub name: Seq<char>,
    pub domain: Seq<char>,
    pub ttl: Seq<char>,
    pub proxied: Seq<char>,
}

impl View for Cloudflare {
    type V = CloudflareData;

    closed spec fn view(&self) -> CloudflareData {
        CloudflareData {
            api_key: self.api_key@,
            email: self.email@,
            zone_id: self.zone_id@,
            type_: self.type_@,
            name: self.name@,
            domain: self.domain@,
            ttl: self.ttl@,
            proxied: self.proxied@,
        }
    }
}

/// The three headers that every request to Cloudflare carries.
pub open spec fn cloudflare_headers(c: CloudflareData) -> Seq<(Seq<char>, Seq<char>)> {
    seq![
        ("X-Auth-Email"@, c.email),
        ("X-Auth-Key"@, c.api_key),
        ("Content-type"@, "application/json"@),
    ]
}

/// Where the records of a zone are listed, narrowed to the record's type and
/// full name.
pub open spec fn cloudflare_lookup_url(c: CloudflareData) -> Seq<char> {
    "https://api.cloudflare.com/client/v4/zones/"@ + c.zone_id + "/dns_records?type="@ + c.type_
        + "&name="@ + c.name + "."@ + c.domain + "&order=type&direction=desc&match=all"@
}

/// Where the record with the identifier `id` is written.
pub open spec fn cloudflare_write_url(c: CloudflareData, id: Seq<char>) -> Seq<char> {
    "https://api.cloudflare.com/client/v4/zones/"@ + c.zone_id + "/dns_records/"@ + id
}

/// The request that looks the record up.
pub open spec fn cloudflare_lookup(c: CloudflareData) -> RequestView {
    RequestView {
        method: Method::Get,
        target: cloudflare_lookup_url(c),
        fields: cloudflare_headers(c),
        body: None,
    }
}

/// The record as it is to be: an object with its type, name, content, time
/// to live and whether it is proxied.
pub open spec fn cloudflare_payload(c: CloudflareData, content: Seq<char>) -> JsonView {
    JsonView::Object(
        empty_object().insert("type"@, JsonView::Text(c.type_)).insert(
            "name"@,
            JsonView::Text(c.name),
        ).insert("content"@, JsonView::Text(content)).insert(
            "ttl"@,
            JsonView::Number(NumberView::Unsigned(u32_value(c.ttl).unwrap() as u64)),
        ).insert("proxied"@, JsonView::Flag(flag_value(c.proxied).unwrap())),
    )
}

/// Whether the record can be written at all: its time to live is an unsigned
/// number of 32 bits and its proxy flag `true` or `false`.
pub open spec fn cloudflare_writable(c: CloudflareData) -> bool {
    u32_value(c.ttl) is Some && flag_value(c.proxied) is Some
}

/// The request that writes `content` to the record with the identifier `id`;
/// `None` where the record cannot be written.
pub open spec fn cloudflare_write(c: CloudflareData, id: Seq<char>, content: Seq<char>) -> Option<
    RequestView,
> {
    if cloudflare_writable(c) {
        Some(
            RequestView {
                method: Method::Put,
                target: cloudflare_write_url(c, id),
                fields: cloudflare_headers(c),
                body: Some(json_text(cloudflare_payload(c, content))),
            },
        )
    } else {
        None
    }
}

/// The record that an answer to a lookup reports, from what was read of it:
/// the flag `success`, the number `result_info.count`, how many entries
/// `result` has, and the texts `id` and `content` of its first entry.
///
/// Exactly one record is reported where the lookup succeeded, counted one
/// record, listed one entry, and that entry has both texts. More than one is
/// reported where the lookup succeeded and counted or listed more than one.
/// In every other case no record could be read.
pub open spec fn cloudflare_classify(
    success: Option<bool>,
    count: Option<u64>,
    entries: Option<nat>,
    id: Option<Seq<char>>,
    content: Option<Seq<char>>,
) -> StateView {
    if success != Some(true) {
        StateView::Missing
    } else if (count matches Some(n) && n > 1) || (entries matches Some(n) && n > 1) {
        StateView::Multiple
    } else if count == Some(1u64) && entries == Some(1nat) && id is Some && content is Some {
        StateView::Single { id: id.unwrap(), content: content.unwrap() }
    } else {
        StateView::Missing
    }
}

/// The first item of a list that may be absent.
pub open spec fn first_of(list: Option<Seq<JsonView>>) -> Option<JsonView> {
    match list {
        Some(items) => if items.len() > 0 {
            Some(items[0])
        } else {
            None
        },
        None => None,
    }
}

/// How many items a list that may be absent has.
pub open spec fn count_of(list: Option<Seq<JsonView>>) -> Option<nat> {
    match list {
        Some(items) => Some(items.len()),
        None => None,
    }
}

/// The text under a key of a document that may be absent.
pub open spec fn text_of_entry(entry: Option<JsonView>, key: Seq<char>) -> Option<Seq<char>> {
    match entry {
        Some(e) => e.text_under(key),
        None => None,
    }
}

/// The record that a document reports: the flag `success`, the number
/// `count` under `result_info`, and the list `result` with the texts `id`
/// and `content` of its first entry, classified.
pub open spec fn cloudflare_state_of(document: Option<JsonView>) -> StateView {
    match document {
        None => StateView::Missing,
        Some(d) => cloudflare_classify(
            d.flag_under("success"@),
            match d.member("result_info"@) {
                Some(info) => info.unsigned_under("count"@),
                None => None,
            },
            count_of(d.items_under("result"@)),
            text_of_entry(first_of(d.items_under("result"@)), "id"@),
            text_of_entry(first_of(d.items_under("result"@)), "content"@),
        ),
    }
}

/// The record that an answer to a lookup reports, from what was read of it.
pub fn classify_lookup(
    success: Option<bool>,
    count: Option<u64>,
    entries: Option<usize>,
    id: Option<String>,
    content: Option<String>,
) -> (state: RegistrarRecordState)
    ensures
        state@ == cloudflare_classify(
            success,
            count,
            match entries {
                Some(n) => Some(n as nat),
                None => None,
            },
            text_view(id),
            text_view(content),
        ),
{
    match success {
        Some(true) => {},
        _ => {
            return RegistrarRecordState::Missing;
        },
    }
    let many_counted = match count {
        Some(n) => n > 1,
        None => false,
    };
    let many_listed = match entries {
        Some(n) => n > 1,
        None => false,
    };
    if many_counted || many_listed {
        return RegistrarRecordState::Multiple;
    }
    let one_counted = match count {
        Some(n) => n == 1,
        None => false,
    };
    let one_listed = match entries {
        Some(n) => n == 1,
        None => false,
    };
    if !one_counted || !one_listed {
        return RegistrarRecordState::Missing;
    }
    match id {
        Some(id) => match content {
            Some(content) => RegistrarRecordState::Single { id, content },
            None => RegistrarRecordState::Missing,
        },
        None => RegistrarRecordState::Missing,
    }
}

impl Cloudflare {
    pub fn new(
        api_key: String,
        email: String,
        zone_id: String,
        type_: String,
        name: String,
        domain: String,
        ttl: String,
        proxied: String,
    ) -> (c: Self)
        ensures
            c@ == (CloudflareData {
                api_key: api_key@,
                email: email@,
                zone_id: zone_id@,
                type_: type_@,
                name: name@,
                domain: domain@,
                ttl: ttl@,
                proxied: proxied@,
            }),
    {
        Cloudflare { api_key, email, zone_id, type_, name, domain, ttl, proxied }
    }

    /// The type of the record, as the registrar names it.
    pub fn record_type(&self) -> (text: &str)
        ensures
            text@ == self@.type_,
    {
        self.type_.as_str()
    }

    fn headers(&self) -> (fields: Vec<(String, String)>)
        ensures
            field_views(fields@) == cloudflare_headers(self@),
    {
        let mut fields: Vec<(String, String)> = Vec::new();
        fields.push(("X-Auth-Email".to_owned(), self.email.clone()));
        fields.push(("X-Auth-Key".to_owned(), self.api_key.clone()));
        fields.push(("Content-type".to_owned(), "application/json".to_owned()));
        assert(field_views(fields@) =~= cloudflare_headers(self@));
        fields
    }

    /// The request that looks the record up.
    pub fn lookup_request(&self) -> (request: Request)
        ensures
            request@ == cloudflare_lookup(self@),
    {
        let mut url = "https://api.cloudflare.com/client/v4/zones/".to_owned();
        url.append(self.zone_id.as_str());
        url.append("/dns_records?type=");
        url.append(self.type_.as_str());
        url.append("&name=");
        url.append(self.name.as_str());
        url.append(".");
        url.append(self.domain.as_str());
        url.append("&order=type&direction=desc&match=all");
        Request { method: Method::Get, target: url, fields: self.headers(), body: None }
    }

    /// The record that the answer to a lookup reports. Only the body of the
    /// answer is read.
    pub fn read_lookup(&self, reply: &Reply) -> (state: RegistrarRecordState)
        ensures
            state@ == cloudflare_state_of(json_document(reply.body@)),
    {
        let document = match parse_document(reply.body.as_str()) {
            Some(d) => d,
            None => {
                return RegistrarRecordState::Missing;
            },
        };
        let success = flag_under(&document, "success");
        let count = match member(&document, "result_info") {
            Some(info) => unsigned_under(info, "count"),
            None => None,
        };
        let list = items_under(&document, "result");
        match list {
            Some(list) => {
                if list.len() > 0 {
                    let id = text_under(&list[0], "id");
                    let content = text_under(&list[0], "content");
                    classify_lookup(success, count, Some(list.len()), id, content)
                } else {
                    classify_lookup(success, count, Some(0), None, None)
                }
            },
            None => classify_lookup(success, count, None, None, None),
        }
    }

    /// The request that writes `content` to the record with the identifier
    /// `id`; `None` where the record cannot be written.
    pub fn write_request(&self, id: &str, content: &str) -> (request: Option<Request>)
        ensures
            match request {
                Some(r) => Some(r@),
                None => None,
            } == cloudflare_write(self@, id@, content@),
    {
        let ttl = match parse_u32(&chars_of(self.ttl.as_str())) {
            Some(ttl) => ttl,
            None => {
                return None;
            },
        };
        let proxied = match parse_flag(&chars_of(self.proxied.as_str())) {
            Some(proxied) => proxied,
            None => {
                return None;
            },
        };
        let mut object = new_object();
        insert_member(&mut object, "type", value_of_text(self.type_.as_str()));
        insert_member(&mut object, "name", value_of_text(self.name.as_str()));
        insert_member(&mut object, "content", value_of_text(content));
        insert_member(&mut object, "ttl", value_of_unsigned(ttl as u64));
        insert_member(&mut object, "proxied", value_of_flag(proxied));
        let body = object_text(object);
        let mut url = "https://api.cloudflare.com/client/v4/zones/".to_owned();
        url.append(self.zone_id.as_str());
        url.append("/dns_records/");
        url.append(id);
        Some(Request { method: Method::Put, target: url, fields: self.headers(), body: Some(body) })
    }

    /// Whether the answer to a write says that the record was written: its
    /// status is one of success.
    pub fn write_accepted(&self, reply: &Reply) -> (accepted: bool)
        ensures
            accepted == is_success_status(reply.status),
    {
        match reply.status {
            Some(s) => 200 <= s && s <= 299,
            None => false,
        }
    }
}

} // verus!
