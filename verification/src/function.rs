//! The registrars behind one face, and a reconciliation step by step: look
//! the record up, compare it with the desired address, write where they
//! differ.

use crate::address::{AddressView, IpAddress};
use crate::aliyun::{
    aliyun_accepted, aliyun_lookup, aliyun_state_of, aliyun_write, AliYun, AliYunData,
};
use crate::cloudflare::{
    cloudflare_lookup, cloudflare_state_of, cloudflare_writable, cloudflare_write, Cloudflare,
    CloudflareData,
};
use crate::config::{entry, get_flag, get_integer, get_text, toml_view, ConfigError, TomlView};
use crate::json::json_document;
use crate::literal::{flag_chars, flag_text, integer_chars, integer_text};
use crate::registrar::{
    is_success_status, parse_record_type, record_type_of, same_text, ReconcileOutcome, RecordType,
    RegistrarError, RegistrarRecordState, Reply, Request, RequestView, StateView, Step, StepView,
};
use crate::text::string_of;
use vstd::prelude::*;

verus! {

/// A record at one of the registrars that the program knows.
#[derive(Clone, Debug)]
pub enum Registrar {
    Cloudflare(Cloudflare),
    AliYun(AliYun),
}

/// A `Registrar` with its texts as characters.
pub enum RegistrarView {
    Cloudflare(CloudflareData),
    AliYun(AliYunData),
}

impl View for Registrar {
    type V = RegistrarView;

    open spec fn view(&self) -> RegistrarView {
        match self {
            Registrar::Cloudflare(c) => RegistrarView::Cloudflare(c@),
            Registrar::AliYun(a) => RegistrarView::AliYun(a@),
        }
    }
}

impl RegistrarView {
    /// The type of the record.
    pub open spec fn record_type(self) -> RecordType {
        match self {
            RegistrarView::Cloudflare(c) => record_type_of(c.type_),
            RegistrarView::AliYun(a) => record_type_of(a.record_type),
        }
    }

    /// The request that looks the record up.
    pub open spec fn lookup(self) -> RequestView {
        match self {
            RegistrarView::Cloudflare(c) => cloudflare_lookup(c),
            RegistrarView::AliYun(a) => aliyun_lookup(a),
        }
    }

    /// The record that the body of an answer to a lookup reports.
    pub open spec fn state_of(self, body: Seq<char>) -> StateView {
        match self {
            RegistrarView::Cloudflare(_) => cloudflare_state_of(json_document(body)),
            RegistrarView::AliYun(_) => aliyun_state_of(json_document(body)),
        }
    }

    /// The request that writes `content` to the record with the identifier
    /// `id`; `None` where the record cannot be written.
    pub open spec fn write(self, id: Seq<char>, content: Seq<char>) -> Option<RequestView> {
        match self {
            RegistrarView::Cloudflare(c) => cloudflare_write(c, id, content),
            RegistrarView::AliYun(a) => Some(aliyun_write(a, id, content)),
        }
    }

    /// Whether the record can be written at all.
    pub open spec fn writable(self) -> bool {
        match self {
            RegistrarView::Cloudflare(c) => cloudflare_writable(c),
            RegistrarView::AliYun(_) => true,
        }
    }

    /// Whether an answer to a write says that the record was written.
    pub open spec fn accepted(self, status: Option<u16>, body: Seq<char>) -> bool {
        match self {
            RegistrarView::Cloudflare(_) => is_success_status(status),
            RegistrarView::AliYun(_) => aliyun_accepted(json_document(body)),
        }
    }

    /// How a reconciliation begins: with the lookup, unless the record is
    /// of a type that is not kept.
    pub open spec fn begin(self) -> StepView {
        if self.record_type() == RecordType::Other {
            StepView::Done(Err(RegistrarError::UnsupportedRecordType))
        } else {
            StepView::Send(self.lookup())
        }
    }

    /// What follows from the record that a lookup found. Anything but one
    /// record ends the reconciliation as ambiguous. One record that holds
    /// exactly the desired text ends it unchanged. One record that holds
    /// anything else is written, or, where it cannot be written, the
    /// reconciliation ends as failed.
    ///
    /// The two are compared as texts, character by character. A record that
    /// holds the desired address in another spelling is therefore written
    /// again, in the one spelling in which an address is written out.
    pub open spec fn decide(self, state: StateView, desired: Seq<char>) -> StepView {
        match state {
            StateView::Single { id, content } => if content == desired {
                StepView::Done(Ok(ReconcileOutcome::Unchanged))
            } else {
                match self.write(id, desired) {
                    Some(request) => StepView::Send(request),
                    None => StepView::Done(Err(RegistrarError::WriteFailed)),
                }
            },
            _ => StepView::Done(Err(RegistrarError::LookupAmbiguous)),
        }
    }

    /// What follows from the answer to the lookup; `None` stands for a
    /// lookup that did not reach the registrar.
    pub open spec fn after_lookup(self, desired: Seq<char>, reply: Option<Reply>) -> StepView {
        match reply {
            None => StepView::Done(Err(RegistrarError::TransportError)),
            Some(r) => self.decide(self.state_of(r.body@), desired),
        }
    }

    /// How the reconciliation ends with the answer to the write; `None`
    /// stands for a write that did not reach the registrar.
    pub open spec fn after_write(self, reply: Option<Reply>) -> Result<
        ReconcileOutcome,
        RegistrarError,
    > {
        match reply {
            None => Err(RegistrarError::WriteFailed),
            Some(r) => if self.accepted(r.status, r.body@) {
                Ok(ReconcileOutcome::Updated)
            } else {
                Err(RegistrarError::WriteFailed)
            },
        }
    }

    /// A whole reconciliation against a registrar that answers the lookup
    /// with `lookup` and would answer a write with `write`.
    pub open spec fn reconcile(
        self,
        desired: Seq<char>,
        lookup: Option<Reply>,
        write: Option<Reply>,
    ) -> RunView {
        match self.begin() {
            StepView::Done(result) => RunView { outcome: result, lookups: seq![], writes: seq![] },
            StepView::Send(first) => match self.after_lookup(desired, lookup) {
                StepView::Done(result) => RunView {
                    outcome: result,
                    lookups: seq![first],
                    writes: seq![],
                },
                StepView::Send(second) => RunView {
                    outcome: self.after_write(write),
                    lookups: seq![first],
                    writes: seq![second],
                },
            },
        }
    }
}

/// A reconciliation that was carried out: how it ended and what was sent.
#[derive(Debug)]
pub struct Run {
    pub outcome: Result<ReconcileOutcome, RegistrarError>,
    pub lookups: Vec<Request>,
    pub writes: Vec<Request>,
}

/// A `Run` with its requests as views.
pub struct RunView {
    pub outcome: Result<ReconcileOutcome, RegistrarError>,
    pub lookups: Seq<RequestView>,
    pub writes: Seq<RequestView>,
}

/// The views of a list of requests.
pub open spec fn request_views(requests: Seq<Request>) -> Seq<RequestView> {
    Seq::new(requests.len(), |i: int| requests[i]@)
}

impl View for Run {
    type V = RunView;

    open spec fn view(&self) -> RunView {
        RunView {
            outcome: self.outcome,
            lookups: request_views(self.lookups@),
            writes: request_views(self.writes@),
        }
    }
}

impl Registrar {
    /// The type of the record.
    pub fn record_type(&self) -> (record_type: RecordType)
        ensures
            record_type == self@.record_type(),
    {
        match self {
            Registrar::Cloudflare(c) => parse_record_type(c.record_type()),
            Registrar::AliYun(a) => parse_record_type(a.record_type()),
        }
    }

    /// The request that looks the record up.
    pub fn lookup_request(&self) -> (request: Request)
        ensures
            request@ == self@.lookup(),
    {
        match self {
            Registrar::Cloudflare(c) => c.lookup_request(),
            Registrar::AliYun(a) => a.lookup_request(),
        }
    }

    /// The record that the answer to a lookup reports.
    pub fn read_lookup(&self, reply: &Reply) -> (state: RegistrarRecordState)
        ensures
            state@ == self@.state_of(reply.body@),
    {
        match self {
            Registrar::Cloudflare(c) => c.read_lookup(reply),
            Registrar::AliYun(a) => a.read_lookup(reply),
        }
    }

    /// The request that writes `content` to the record with the identifier
    /// `id`; `None` where the record cannot be written.
    pub fn write_request(&self, id: &str, content: &str) -> (request: Option<Request>)
        ensures
            match request {
                Some(r) => Some(r@),
                None => None,
            } == self@.write(id@, content@),
    {
        match self {
            Registrar::Cloudflare(c) => c.write_request(id, content),
            Registrar::AliYun(a) => Some(a.write_request(id, content)),
        }
    }

    /// Whether the answer to a write says that the record was written.
    pub fn write_accepted(&self, reply: &Reply) -> (accepted: bool)
        ensures
            accepted == self@.accepted(reply.status, reply.body@),
    {
        match self {
            Registrar::Cloudflare(c) => c.write_accepted(reply),
            Registrar::AliYun(a) => a.write_accepted(reply),
        }
    }

    /// Begins a reconciliation.
    pub fn begin(&self) -> (step: Step)
        ensures
            step@ == self@.begin(),
    {
        match self.record_type() {
            RecordType::Other => Step::Done(Err(RegistrarError::UnsupportedRecordType)),
            _ => Step::Send(self.lookup_request()),
        }
    }

    /// What follows from the record that a lookup found.
    pub fn decide(&self, state: &RegistrarRecordState, desired: &IpAddress) -> (step: Step)
        ensures
            step@ == self@.decide(state@, desired@.text()),
    {
        match state {
            RegistrarRecordState::Single { id, content } => {
                let text = desired.to_text();
                if same_text(content.as_str(), text.as_str()) {
                    Step::Done(Ok(ReconcileOutcome::Unchanged))
                } else {
                    match self.write_request(id.as_str(), text.as_str()) {
                        Some(request) => Step::Send(request),
                        None => Step::Done(Err(RegistrarError::WriteFailed)),
                    }
                }
            },
            _ => Step::Done(Err(RegistrarError::LookupAmbiguous)),
        }
    }

    /// What follows from the answer to the lookup; `None` stands for a
    /// lookup that did not reach the registrar.
    pub fn after_lookup(&self, desired: &IpAddress, reply: &Option<Reply>) -> (step: Step)
        ensures
            step@ == self@.after_lookup(desired@.text(), *reply),
    {
        match reply {
            None => Step::Done(Err(RegistrarError::TransportError)),
            Some(r) => {
                let state = self.read_lookup(r);
                self.decide(&state, desired)
            },
        }
    }

    /// How the reconciliation ends with the answer to the write; `None`
    /// stands for a write that did not reach the registrar.
    pub fn after_write(&self, reply: &Option<Reply>) -> (result: Result<
        ReconcileOutcome,
        RegistrarError,
    >)
        ensures
            result == self@.after_write(*reply),
    {
        match reply {
            None => Err(RegistrarError::WriteFailed),
            Some(r) => if self.write_accepted(r) {
                Ok(ReconcileOutcome::Updated)
            } else {
                Err(RegistrarError::WriteFailed)
            },
        }
    }

    /// Carries a whole reconciliation out against a registrar that answers
    /// the lookup with `lookup` and would answer a write with `write`, and
    /// keeps what was sent.
    pub fn reconcile(&self, desired: &IpAddress, lookup: &Option<Reply>, write: &Option<Reply>) -> (run:
        Run)
        ensures
            run@ == self@.reconcile(desired@.text(), *lookup, *write),
    {
        let mut lookups: Vec<Request> = Vec::new();
        let mut writes: Vec<Request> = Vec::new();
        match self.begin() {
            Step::Done(outcome) => {
                assert(request_views(lookups@) =~= seq![]);
                assert(request_views(writes@) =~= seq![]);
                Run { outcome, lookups, writes }
            },
            Step::Send(first) => {
                let ghost first_view = first@;
                lookups.push(first);
                assert(request_views(lookups@) =~= seq![first_view]);
                match self.after_lookup(desired, lookup) {
                    Step::Done(outcome) => {
                        assert(request_views(writes@) =~= seq![]);
                        Run { outcome, lookups, writes }
                    },
                    Step::Send(second) => {
                        let ghost second_view = second@;
                        writes.push(second);
                        assert(request_views(writes@) =~= seq![second_view]);
                        Run { outcome: self.after_write(write), lookups, writes }
                    },
                }
            },
        }
    }
}

// ---------------------------------------------------------------------------
// What holds of every reconciliation
// ---------------------------------------------------------------------------

/// Where the lookup finds exactly one record and it holds the desired
/// address as the address is written out, the reconciliation ends unchanged
/// and nothing is written.
pub proof fn lemma_same_content_writes_nothing(
    registrar: RegistrarView,
    desired: AddressView,
    lookup: Option<Reply>,
    write: Option<Reply>,
)
    requires
        registrar.record_type() != RecordType::Other,
        lookup matches Some(r) && (registrar.state_of(r.body@) matches StateView::Single {
            content,
            ..
        } && content == desired.text()),
    ensures
        registrar.reconcile(desired.text(), lookup, write).outcome == Ok::<
            ReconcileOutcome,
            RegistrarError,
        >(ReconcileOutcome::Unchanged),
        registrar.reconcile(desired.text(), lookup, write).writes.len() == 0,
{
}

/// Where the lookup finds exactly one record and it holds anything but the
/// desired address, exactly one request is written: the one that puts the
/// desired address into the record that was found. Where the registrar
/// accepts it, the reconciliation ends updated; where the write does not
/// arrive or is not accepted, it fails as a write.
pub proof fn lemma_other_content_writes_once(
    registrar: RegistrarView,
    desired: AddressView,
    lookup: Option<Reply>,
    write: Option<Reply>,
)
    requires
        registrar.record_type() != RecordType::Other,
        registrar.writable(),
        lookup matches Some(r) && (registrar.state_of(r.body@) matches StateView::Single {
            content,
            ..
        } && content != desired.text()),
    ensures
        registrar.reconcile(desired.text(), lookup, write).writes.len() == 1,
        lookup matches Some(r) && (registrar.state_of(r.body@) matches StateView::Single {
            id,
            ..
        } && Some(registrar.reconcile(desired.text(), lookup, write).writes[0]) == registrar.write(
            id,
            desired.text(),
        )),
        (write matches Some(w) && registrar.accepted(w.status, w.body@)) ==> registrar.reconcile(
            desired.text(),
            lookup,
            write,
        ).outcome == Ok::<ReconcileOutcome, RegistrarError>(ReconcileOutcome::Updated),
        !(write matches Some(w) && registrar.accepted(w.status, w.body@)) ==> registrar.reconcile(
            desired.text(),
            lookup,
            write,
        ).outcome == Err::<ReconcileOutcome, RegistrarError>(RegistrarError::WriteFailed),
{
}

/// Where the lookup finds no record or more than one, the reconciliation
/// fails as ambiguous and nothing is written.
pub proof fn lemma_ambiguous_lookup_writes_nothing(
    registrar: RegistrarView,
    desired: Seq<char>,
    lookup: Option<Reply>,
    write: Option<Reply>,
)
    requires
        registrar.record_type() != RecordType::Other,
        lookup matches Some(r) && !(registrar.state_of(r.body@) is Single),
    ensures
        registrar.reconcile(desired, lookup, write).outcome == Err::<
            ReconcileOutcome,
            RegistrarError,
        >(RegistrarError::LookupAmbiguous),
        registrar.reconcile(desired, lookup, write).writes.len() == 0,
{
}

/// No reconciliation writes more than once, and none writes without having
/// looked the record up.
pub proof fn lemma_at_most_one_write(
    registrar: RegistrarView,
    desired: Seq<char>,
    lookup: Option<Reply>,
    write: Option<Reply>,
)
    ensures
        registrar.reconcile(desired, lookup, write).writes.len() <= 1,
        registrar.reconcile(desired, lookup, write).lookups.len() <= 1,
        registrar.reconcile(desired, lookup, write).writes.len() == 1 ==> registrar.reconcile(
            desired,
            lookup,
            write,
        ).lookups.len() == 1,
{
}

// ---------------------------------------------------------------------------
// From the configuration
// ---------------------------------------------------------------------------

/// The record at Cloudflare that a table of parameters describes: six
/// texts, the time to live as a whole number and the proxy flag as a flag.
/// `None` where one of them is not there or is of another kind.
pub open spec fn cloudflare_from(params: TomlView) -> Option<CloudflareData> {
    if params.text_under("api_key"@) is Some && params.text_under("email"@) is Some
        && params.text_under("zone_id"@) is Some && params.text_under("record_type"@) is Some
        && params.text_under("record_name"@) is Some && params.text_under("domain"@) is Some
        && params.integer_under("record_ttl"@) is Some && params.flag_under("record_proxied"@)
        is Some {
        Some(
            CloudflareData {
                api_key: params.text_under("api_key"@).unwrap(),
                email: params.text_under("email"@).unwrap(),
                zone_id: params.text_under("zone_id"@).unwrap(),
                type_: params.text_under("record_type"@).unwrap(),
                name: params.text_under("record_name"@).unwrap(),
                domain: params.text_under("domain"@).unwrap(),
                ttl: integer_text(params.integer_under("record_ttl"@).unwrap() as int),
                proxied: flag_text(params.flag_under("record_proxied"@).unwrap()),
            },
        )
    } else {
        None
    }
}

/// A record at Cloudflare that a table of parameters describes can be written
/// exactly where its time to live is a number from 0 to 2^32 - 1.
pub proof fn lemma_configured_record_is_writable(params: TomlView)
    requires
        cloudflare_from(params) is Some,
    ensures
        cloudflare_writable(cloudflare_from(params).unwrap()) <==> 0 <= params.integer_under(
            "record_ttl"@,
        ).unwrap() <= u32::MAX,
{
    let ttl = params.integer_under("record_ttl"@).unwrap();
    let text = integer_text(ttl as int);
    let flag = params.flag_under("record_proxied"@).unwrap();
    assert(crate::literal::flag_value(flag_text(flag)) == Some(flag)) by {
        if !flag {
            assert(flag_text(flag).len() == 5);
            assert(seq!['t', 'r', 'u', 'e'].len() == 4);
        }
    }
    if ttl < 0 {
        assert(text[0] == '-');
        assert(!crate::literal::is_digit(text[0]));
    } else {
        crate::literal::lemma_decimal_text(ttl as nat);
        assert(crate::literal::is_digit(text[0]));
    }
}

/// The record at AliCloud DNS that a table of parameters describes: seven
/// texts. `None` where one of them is not there or is of another kind.
pub open spec fn aliyun_from(params: TomlView) -> Option<AliYunData> {
    if params.text_under("key_id"@) is Some && params.text_under("key_secret"@) is Some
        && params.text_under("record_id"@) is Some && params.text_under("record_rr"@) is Some
        && params.text_under("record_type"@) is Some && params.text_under("record_ttl"@) is Some
        && params.text_under("record_line"@) is Some {
        Some(
            AliYunData {
                key_id: params.text_under("key_id"@).unwrap(),
                key_secret: params.text_under("key_secret"@).unwrap(),
                record_id: params.text_under("record_id"@).unwrap(),
                rr: params.text_under("record_rr"@).unwrap(),
                record_type: params.text_under("record_type"@).unwrap(),
                ttl: params.text_under("record_ttl"@).unwrap(),
                line: params.text_under("record_line"@).unwrap(),
            },
        )
    } else {
        None
    }
}

/// The registrar that a configured record describes, or why there is none.
/// The text under `domain_registrar` names the registrar, `cloudflare` or
/// `aliyun`, and the table under `api_param` holds its parameters.
pub open spec fn registrar_of(c: TomlView) -> Result<RegistrarView, ConfigError> {
    match c.text_under("domain_registrar"@) {
        None => Err(ConfigError::MissingRegistrar),
        Some(name) => if name == "cloudflare"@ {
            match c.entry("api_param"@) {
                Some(params) => match cloudflare_from(params) {
                    Some(view) => Ok(RegistrarView::Cloudflare(view)),
                    None => Err(ConfigError::InvalidParameter),
                },
                None => Err(ConfigError::InvalidParameter),
            }
        } else if name == "aliyun"@ {
            match c.entry("api_param"@) {
                Some(params) => match aliyun_from(params) {
                    Some(view) => Ok(RegistrarView::AliYun(view)),
                    None => Err(ConfigError::InvalidParameter),
                },
                None => Err(ConfigError::InvalidParameter),
            }
        } else {
            Err(ConfigError::UnknownRegistrar)
        },
    }
}

/// The view of a result that holds a registrar.
pub open spec fn created_view(result: Result<Registrar, ConfigError>) -> Result<
    RegistrarView,
    ConfigError,
> {
    match result {
        Ok(registrar) => Ok(registrar@),
        Err(e) => Err(e),
    }
}

fn create_cloudflare(params: &toml::Value) -> (made: Option<Cloudflare>)
    ensures
        match made {
            Some(c) => Some(c@),
            None => None,
        } == cloudflare_from(toml_view(*params)),
{
    let api_key = get_text(params, "api_key")?;
    let email = get_text(params, "email")?;
    let zone_id = get_text(params, "zone_id")?;
    let type_ = get_text(params, "record_type")?;
    let name = get_text(params, "record_name")?;
    let domain = get_text(params, "domain")?;
    let ttl = string_of(&integer_chars(get_integer(params, "record_ttl")?));
    let proxied = string_of(&flag_chars(get_flag(params, "record_proxied")?));
    Some(Cloudflare::new(api_key, email, zone_id, type_, name, domain, ttl, proxied))
}

fn create_aliyun(params: &toml::Value) -> (made: Option<AliYun>)
    ensures
        match made {
            Some(a) => Some(a@),
            None => None,
        } == aliyun_from(toml_view(*params)),
{
    let key_id = get_text(params, "key_id")?;
    let key_secret = get_text(params, "key_secret")?;
    let record_id = get_text(params, "record_id")?;
    let rr = get_text(params, "record_rr")?;
    let record_type = get_text(params, "record_type")?;
    let ttl = get_text(params, "record_ttl")?;
    let line = get_text(params, "record_line")?;
    Some(AliYun::new(key_id, key_secret, record_id, rr, record_type, ttl, line))
}

/// Makes the registrar that a configured record describes.
pub fn create(c: &toml::Value) -> (made: Result<Registrar, ConfigError>)
    ensures
        created_view(made) == registrar_of(toml_view(*c)),
{
    let name = match get_text(c, "domain_registrar") {
        Some(name) => name,
        None => {
            return Err(ConfigError::MissingRegistrar);
        },
    };
    if same_text(name.as_str(), "cloudflare") {
        match entry(c, "api_param") {
            Some(params) => match create_cloudflare(params) {
                Some(made) => Ok(Registrar::Cloudflare(made)),
                None => Err(ConfigError::InvalidParameter),
            },
            None => Err(ConfigError::InvalidParameter),
        }
    } else if same_text(name.as_str(), "aliyun") {
        match entry(c, "api_param") {
            Some(params) => match create_aliyun(params) {
                Some(made) => Ok(Registrar::AliYun(made)),
                None => Err(ConfigError::InvalidParameter),
            },
            None => Err(ConfigError::InvalidParameter),
        }
    } else {
        Err(ConfigError::UnknownRegistrar)
    }
}

} // verus!
