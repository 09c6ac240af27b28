//! The registrar AliCloud DNS: the calls that look a record up and write it,
//! and how its answers are read.

use crate::json::{json_document, parse_document, text_under, JsonView};
use crate::registrar::{
    field_views, Method, RegistrarRecordState, Reply, Request, RequestView, StateView,
};
use crate::text::text_view;
use vstd::prelude::*;

verus! {

/// One record kept at AliCloud DNS, with the key that may change it.
#[derive(Clone, Debug)]
pub struct AliYun {
    key_id: String,
    key_secret: String,
    record_id: String,
    rr: String,
    record_type: String,
    ttl: String,
    line: String,
}

/// An `AliYun` with its texts as characters.
pub struct AliYunData {
    pub key_id: Seq<char>,
    pub key_secret: Seq<char>,
    pub record_id: Seq<char>,
    pub rr: Seq<char>,
    pub record_type: Seq<char>,
    pub ttl: Seq<char>,
    pub line: Seq<char>,
}

impl View for AliYun {
    type V = AliYunData;

    closed spec fn view(&self) -> AliYunData {
        AliYunData {
            key_id: self.key_id@,
            key_secret: self.key_secret@,
            record_id: self.record_id@,
            rr: self.rr@,
            record_type: self.record_type@,
            ttl: self.ttl@,
            line: self.line@,
        }
    }
}

/// The call that looks the record up by its identifier.
pub open spec fn aliyun_lookup(a: AliYunData) -> RequestView {
    RequestView {
        method: Method::Call,
        target: "DescribeDomainRecordInfo"@,
        fields: seq![("RecordId"@, a.record_id)],
        body: None,
    }
}

/// The call that writes `content` to the record with the identifier `id`,
/// with the record's host, type, time to live and line as they are kept.
pub open spec fn aliyun_write(a: AliYunData, id: Seq<char>, content: Seq<char>) -> RequestView {
    RequestView {
        method: Method::Call,
        target: "UpdateDomainRecord"@,
        fields: seq![
            ("RecordId"@, id),
            ("RR"@, a.rr),
            ("Type"@, a.record_type),
            ("TTL"@, a.ttl),
            ("Line"@, a.line),
            ("Value"@, content),
        ],
        body: None,
    }
}

/// The record that an answer to a lookup reports, from the texts `RecordId`
/// and `Value` that were read of it: one record where both are there, none
/// where either is not.
pub open spec fn aliyun_classify(id: Option<Seq<char>>, value: Option<Seq<char>>) -> StateView {
    if id is Some && value is Some {
        StateView::Single { id: id.unwrap(), content: value.unwrap() }
    } else {
        StateView::Missing
    }
}

/// The record that a document reports.
pub open spec fn aliyun_state_of(document: Option<JsonView>) -> StateView {
    match document {
        None => StateView::Missing,
        Some(d) => aliyun_classify(d.text_under("RecordId"@), d.text_under("Value"@)),
    }
}

/// Whether a document says that a record was written: it names the record.
pub open spec fn aliyun_accepted(document: Option<JsonView>) -> bool {
    document matches Some(d) && d.text_under("RecordId"@) is Some
}

/// The record that an answer to a lookup reports, from what was read of it.
pub fn classify_record(id: Option<String>, value: Option<String>) -> (state: RegistrarRecordState)
    ensures
        state@ == aliyun_classify(text_view(id), text_view(value)),
{
    match id {
        Some(id) => match value {
            Some(content) => RegistrarRecordState::Single { id, content },
            None => RegistrarRecordState::Missing,
        },
        None => RegistrarRecordState::Missing,
    }
}

impl AliYun {
    pub fn new(
        key_id: String,
        key_secret: String,
        record_id: String,
        rr: String,
        record_type: String,
        ttl: String,
        line: String,
    ) -> (a: Self)
        ensures
            a@ == (AliYunData {
                key_id: key_id@,
                key_secret: key_secret@,
                record_id: record_id@,
                rr: rr@,
                record_type: record_type@,
                ttl: ttl@,
                line: line@,
            }),
    {
        AliYun { key_id, key_secret, record_id, rr, record_type, ttl, line }
    }

    /// Where the calls are sent.
    pub fn endpoint() -> (url: &'static str)
        ensures
            url@ == "https://alidns.aliyuncs.com/"@,
    {
        "https://alidns.aliyuncs.com/"
    }

    /// The version of the interface that the calls speak.
    pub fn api_version() -> (version: &'static str)
        ensures
            version@ == "2015-01-09"@,
    {
        "2015-01-09"
    }

    /// The identifier of the key that signs the calls.
    pub fn key_id(&self) -> (text: &str)
        ensures
            text@ == self@.key_id,
    {
        self.key_id.as_str()
    }

    /// The secret of the key that signs the calls.
    pub fn key_secret(&self) -> (text: &str)
        ensures
            text@ == self@.key_secret,
    {
        self.key_secret.as_str()
    }

    /// The type of the record, as the registrar names it.
    pub fn record_type(&self) -> (text: &str)
        ensures
            text@ == self@.record_type,
    {
        self.record_type.as_str()
    }

    /// The call that looks the record up.
    pub fn lookup_request(&self) -> (request: Request)
        ensures
            request@ == aliyun_lookup(self@),
    {
        let mut fields: Vec<(String, String)> = Vec::new();
        fields.push(("RecordId".to_owned(), self.record_id.clone()));
        assert(field_views(fields@) =~= seq![("RecordId"@, self@.record_id)]);
        Request {
            method: Method::Call,
            target: "DescribeDomainRecordInfo".to_owned(),
            fields,
            body: None,
        }
    }

    /// The record that the answer to a lookup reports. Only the body of the
    /// answer is read.
    pub fn read_lookup(&self, reply: &Reply) -> (state: RegistrarRecordState)
        ensures
            state@ == aliyun_state_of(json_document(reply.body@)),
    {
        match parse_document(reply.body.as_str()) {
            Some(d) => classify_record(text_under(&d, "RecordId"), text_under(&d, "Value")),
            None => RegistrarRecordState::Missing,
        }
    }

    /// The call that writes `content` to the record with the identifier `id`.
    pub fn write_request(&self, id: &str, content: &str) -> (request: Request)
        ensures
            request@ == aliyun_write(self@, id@, content@),
    {
        let mut fields: Vec<(String, String)> = Vec::new();
        fields.push(("RecordId".to_owned(), id.to_owned()));
        fields.push(("RR".to_owned(), self.rr.clone()));
        fields.push(("Type".to_owned(), self.record_type.clone()));
        fields.push(("TTL".to_owned(), self.ttl.clone()));
        fields.push(("Line".to_owned(), self.line.clone()));
        fields.push(("Value".to_owned(), content.to_owned()));
        assert(field_views(fields@) =~= aliyun_write(self@, id@, content@).fields);
        Request { method: Method::Call, target: "UpdateDomainRecord".to_owned(), fields, body: None }
    }

    /// Whether the answer to a write says that the record was written. The
    /// transport of these calls reports no status, so the body decides: it
    /// is a document that names the record.
    pub fn write_accepted(&self, reply: &Reply) -> (accepted: bool)
        ensures
            accepted == aliyun_accepted(json_document(reply.body@)),
    {
        match parse_document(reply.body.as_str()) {
            Some(d) => text_under(&d, "RecordId").is_some(),
            None => false,
        }
    }
}

} // verus!
