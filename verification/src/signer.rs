//! Signed event envelopes: lifecycle events, their canonical JSON form, the
//! HMAC-SHA256 signature over it, and verification in constant time.

use vstd::prelude::*;
use vstd::string::StringExecFns;

use crate::json::{canon_json, jfields_view, opt_json_view, JsonModel, JsonValue};
use crate::outside::{ct_bytes_eq, rfc3339_of, sha256, sha256_of};
use crate::strutil::{dec_of, uuid_str_of};
use crate::timer::{opt_str_view, KernelError, TimerInstance, TimerModel};
use crate::TimestampMs;

verus! {

/// A lifecycle event carrying the snapshot it reports.
#[derive(Debug)]
pub enum TimerEvent {
    Scheduled(TimerInstance),
    Fired(TimerInstance),
    Cancelled { timer: TimerInstance, reason: Option<String> },
    Settled(TimerInstance),
}

/// The mathematical shape of a lifecycle event.
pub enum TimerEventModel {
    Scheduled(TimerModel),
    Fired(TimerModel),
    Cancelled(TimerModel, Option<Seq<char>>),
    Settled(TimerModel),
}

impl View for TimerEvent {
    type V = TimerEventModel;

    open spec fn view(&self) -> TimerEventModel {
        match self {
            TimerEvent::Scheduled(t) => TimerEventModel::Scheduled(t@),
            TimerEvent::Fired(t) => TimerEventModel::Fired(t@),
            TimerEvent::Cancelled { timer, reason } => TimerEventModel::Cancelled(
                timer@,
                opt_str_view(*reason),
            ),
            TimerEvent::Settled(t) => TimerEventModel::Settled(t@),
        }
    }
}

impl TimerEventModel {
    /// The snapshot the event carries.
    pub open spec fn timer(self) -> TimerModel {
        match self {
            TimerEventModel::Scheduled(t) => t,
            TimerEventModel::Fired(t) => t,
            TimerEventModel::Cancelled(t, _) => t,
            TimerEventModel::Settled(t) => t,
        }
    }

    /// The event's type tag on the wire.
    pub open spec fn kind_name(self) -> Seq<char> {
        match self {
            TimerEventModel::Scheduled(_) => "Scheduled"@,
            TimerEventModel::Fired(_) => "Fired"@,
            TimerEventModel::Cancelled(_, _) => "Cancelled"@,
            TimerEventModel::Settled(_) => "Settled"@,
        }
    }
}

impl TimerEvent {
    /// The snapshot the event carries.
    pub fn timer(&self) -> (r: &TimerInstance)
        ensures
            r@ == self@.timer(),
    {
        match self {
            TimerEvent::Scheduled(t) => t,
            TimerEvent::Fired(t) => t,
            TimerEvent::Cancelled { timer, .. } => timer,
            TimerEvent::Settled(t) => t,
        }
    }

    /// The tenant the event belongs to.
    pub fn tenant_id(&self) -> (r: &str)
        ensures
            r@ == self@.timer().tenant_id,
    {
        self.timer().tenant_id.as_str()
    }

    /// The event's type tag on the wire.
    pub fn event_type(&self) -> (r: &'static str)
        ensures
            r@ == self@.kind_name(),
    {
        proof {
            reveal_strlit("Scheduled");
            reveal_strlit("Fired");
            reveal_strlit("Cancelled");
            reveal_strlit("Settled");
        }
        match self {
            TimerEvent::Scheduled(_) => "Scheduled",
            TimerEvent::Fired(_) => "Fired",
            TimerEvent::Cancelled { .. } => "Cancelled",
            TimerEvent::Settled(_) => "Settled",
        }
    }

    /// A deep copy whose model is exactly this one's.
    pub fn duplicate(&self) -> (r: Self)
        ensures
            r@ == self@,
    {
        match self {
            TimerEvent::Scheduled(t) => TimerEvent::Scheduled(t.snapshot()),
            TimerEvent::Fired(t) => TimerEvent::Fired(t.snapshot()),
            TimerEvent::Cancelled { timer, reason } => TimerEvent::Cancelled {
                timer: timer.snapshot(),
                reason: crate::timer::dup_opt_string(reason),
            },
            TimerEvent::Settled(t) => TimerEvent::Settled(t.snapshot()),
        }
    }
}

impl Clone for TimerEvent {
    /// A deep copy whose model is exactly this one's.
    fn clone(&self) -> (r: Self)
        ensures
            r@ == self@,
    {
        self.duplicate()
    }
}

// ==========================================================================
// HMAC-SHA256 over the named digest.
// ==========================================================================

/// The 64-byte HMAC key block: a long key is digested first, then padded
/// with zeros to the block size.
pub open spec fn hmac_key_block(key: Seq<u8>) -> Seq<u8> {
    let base = if key.len() > 64 {
        sha256_of(key)
    } else {
        key
    };
    Seq::new(64, |i: int| if i < base.len() {
        base[i]
    } else {
        0u8
    })
}

/// Every byte of the block combined with a pad byte.
pub open spec fn xor_pad(block: Seq<u8>, pad: u8) -> Seq<u8> {
    Seq::new(block.len(), |i: int| block[i] ^ pad)
}

/// HMAC-SHA256 as defined over the named digest: the outer digest of the
/// opad block and the inner digest of the ipad block and the message.
pub open spec fn hmac_sha256(key: Seq<u8>, msg: Seq<u8>) -> Seq<u8> {
    let block = hmac_key_block(key);
    sha256_of(xor_pad(block, 0x5c) + sha256_of(xor_pad(block, 0x36) + msg))
}

fn concat_bytes(a: &[u8], b: &[u8]) -> (r: Vec<u8>)
    ensures
        r@ == a@ + b@,
{
    let mut out: Vec<u8> = Vec::new();
    let n = a.len();
    let mut i: usize = 0;
    while i < n
        invariant
            n == a@.len(),
            0 <= i <= n,
            out@ =~= a@.take(i as int),
        decreases n - i,
    {
        out.push(a[i]);
        i += 1;
    }
    let m = b.len();
    let mut j: usize = 0;
    while j < m
        invariant
            m == b@.len(),
            0 <= j <= m,
            out@ =~= a@.take(a@.len() as int) + b@.take(j as int),
        decreases m - j,
    {
        out.push(b[j]);
        j += 1;
    }
    proof {
        assert(out@ =~= a@ + b@);
    }
    out
}

/// The HMAC-SHA256 tag of `msg` under `key`, 32 bytes.
pub fn hmac_sha256_bytes(key: &[u8], msg: &[u8]) -> (r: Vec<u8>)
    ensures
        r@ == hmac_sha256(key@, msg@),
        r@.len() == 32,
{
    let base: Vec<u8> = if key.len() > 64 {
        sha256(key)
    } else {
        let mut copied: Vec<u8> = Vec::new();
        let n = key.len();
        let mut i: usize = 0;
        while i < n
            invariant
                n == key@.len(),
                0 <= i <= n,
                copied@ =~= key@.take(i as int),
            decreases n - i,
        {
            copied.push(key[i]);
            i += 1;
        }
        proof {
            assert(copied@ =~= key@);
        }
        copied
    };
    let mut inner_pad: Vec<u8> = Vec::new();
    let mut outer_pad: Vec<u8> = Vec::new();
    let mut i: usize = 0;
    while i < 64
        invariant
            0 <= i <= 64,
            base@ == if key@.len() > 64 {
                sha256_of(key@)
            } else {
                key@
            },
            base@.len() <= 64,
            inner_pad@.len() == i,
            outer_pad@.len() == i,
            forall|k: int|
                0 <= k < i ==> inner_pad@[k] == hmac_key_block(key@)[k] ^ 0x36u8,
            forall|k: int|
                0 <= k < i ==> outer_pad@[k] == hmac_key_block(key@)[k] ^ 0x5cu8,
        decreases 64 - i,
    {
        let byte: u8 = if i < base.len() {
            base[i]
        } else {
            0
        };
        proof {
            assert(hmac_key_block(key@)[i as int] == byte);
        }
        inner_pad.push(byte ^ 0x36);
        outer_pad.push(byte ^ 0x5c);
        i += 1;
    }
    proof {
        assert(inner_pad@ =~= xor_pad(hmac_key_block(key@), 0x36));
        assert(outer_pad@ =~= xor_pad(hmac_key_block(key@), 0x5c));
    }
    let inner_input = concat_bytes(inner_pad.as_slice(), msg);
    let inner_digest = sha256(inner_input.as_slice());
    let outer_input = concat_bytes(outer_pad.as_slice(), inner_digest.as_slice());
    sha256(outer_input.as_slice())
}

// ==========================================================================
// The canonical JSON form of timers and events.
// ==========================================================================

/// An optional string as a JSON value: the string, or null.
pub open spec fn opt_str_json(o: Option<Seq<char>>) -> JsonModel {
    match o {
        Some(s) => JsonModel::Str(s),
        None => JsonModel::Null,
    }
}

/// An optional instant as a JSON value: the millisecond count, or null.
pub open spec fn opt_ms_json(o: Option<TimestampMs>) -> JsonModel {
    match o {
        Some(n) => JsonModel::Int(n as int),
        None => JsonModel::Null,
    }
}

/// An optional structured value as a JSON value: the value, or null.
pub open spec fn opt_val_json(o: Option<JsonModel>) -> JsonModel {
    match o {
        Some(v) => v,
        None => JsonModel::Null,
    }
}

/// A label list as a JSON object, keys in stored order.
pub open spec fn labels_json(labels: Seq<(Seq<char>, Seq<char>)>) -> JsonModel {
    JsonModel::Obj(Seq::new(labels.len(), |i: int| (labels[i].0, JsonModel::Str(labels[i].1))))
}

/// The JSON form of a stored timer: one object whose keys stand in
/// ascending order; instants are carried as millisecond integers and the
/// identifier in its hyphenated form.
pub open spec fn timer_json(m: TimerModel) -> JsonModel {
    JsonModel::Obj(
        seq![
            ("action_bundle"@, opt_val_json(m.action_bundle)),
            ("agent_binding"@, opt_val_json(m.agent_binding)),
            ("cancel_reason"@, opt_str_json(m.cancel_reason)),
            ("cancelled_at"@, opt_ms_json(m.cancelled_at)),
            ("cancelled_by"@, opt_str_json(m.cancelled_by)),
            ("created_at"@, JsonModel::Int(m.created_at as int)),
            ("duration_ms"@, JsonModel::Int(m.duration_ms as int)),
            ("failure_reason"@, opt_str_json(m.failure_reason)),
            ("fire_at"@, JsonModel::Int(m.fire_at as int)),
            ("fired_at"@, opt_ms_json(m.fired_at)),
            ("id"@, JsonModel::Str(uuid_str_of(m.id))),
            ("labels"@, labels_json(m.labels)),
            ("metadata"@, opt_val_json(m.metadata)),
            ("name"@, JsonModel::Str(m.name)),
            ("requested_by"@, JsonModel::Str(m.requested_by)),
            ("settled_at"@, opt_ms_json(m.settled_at)),
            ("state_version"@, JsonModel::Int(m.state_version as int)),
            ("status"@, JsonModel::Str(m.status.spec_name())),
            ("tenant_id"@, JsonModel::Str(m.tenant_id)),
        ],
    )
}

/// The JSON form of an event: its payload under `data`, its tag under
/// `type`; a cancellation also carries the reason beside the timer.
pub open spec fn event_json(e: TimerEventModel) -> JsonModel {
    let data = match e {
        TimerEventModel::Cancelled(t, reason) => JsonModel::Obj(
            seq![("reason"@, opt_str_json(reason)), ("timer"@, timer_json(t))],
        ),
        _ => timer_json(e.timer()),
    };
    JsonModel::Obj(seq![("data"@, data), ("type"@, JsonModel::Str(e.kind_name()))])
}

/// The deduplication key of one state transition:
/// `timer:<tenant>:<id>:<state_version>`, unique across all envelopes
/// because the version steps with every transition.
pub open spec fn dedupe_key_of(tenant: Seq<char>, id: u128, version: u64) -> Seq<char> {
    "timer:"@ + tenant + ":"@ + uuid_str_of(id) + ":"@ + dec_of(version as nat)
}

// ==========================================================================
// Envelopes.
// ==========================================================================

/// A signed, dedupe-keyed wrapper around one lifecycle event.
#[derive(Debug)]
pub struct EventEnvelope {
    /// A fresh identifier for this envelope, in hyphenated form.
    pub envelope_id: String,
    pub tenant_id: String,
    /// RFC 3339 at millisecond precision, UTC.
    pub occurred_at_iso: String,
    pub dedupe_key: String,
    /// A propagated correlation id, if the caller carried one.
    pub trace_id: Option<String>,
    pub signature_version: String,
    /// Lower-case hex HMAC-SHA256 over the canonical payload.
    pub signature: String,
    pub event: TimerEvent,
}

/// The mathematical shape of an envelope.
pub struct EnvelopeModel {
    pub envelope_id: Seq<char>,
    pub tenant_id: Seq<char>,
    pub occurred_at_iso: Seq<char>,
    pub dedupe_key: Seq<char>,
    pub trace_id: Option<Seq<char>>,
    pub signature_version: Seq<char>,
    pub signature: Seq<char>,
    pub event: TimerEventModel,
}

impl View for EventEnvelope {
    type V = EnvelopeModel;

    open spec fn view(&self) -> EnvelopeModel {
        EnvelopeModel {
            envelope_id: self.envelope_id@,
            tenant_id: self.tenant_id@,
            occurred_at_iso: self.occurred_at_iso@,
            dedupe_key: self.dedupe_key@,
            trace_id: opt_str_view(self.trace_id),
            signature_version: self.signature_version@,
            signature: self.signature@,
            event: self.event@,
        }
    }
}

impl Clone for EventEnvelope {
    /// A deep copy whose model is exactly this one's.
    fn clone(&self) -> (r: Self)
        ensures
            r@ == self@,
    {
        EventEnvelope {
            envelope_id: self.envelope_id.clone(),
            tenant_id: self.tenant_id.clone(),
            occurred_at_iso: self.occurred_at_iso.clone(),
            dedupe_key: self.dedupe_key.clone(),
            trace_id: crate::timer::dup_opt_string(&self.trace_id),
            signature_version: self.signature_version.clone(),
            signature: self.signature.clone(),
            event: self.event.duplicate(),
        }
    }
}

/// The object the signature covers: every declared field but the signature
/// itself, keys in ascending order.
pub open spec fn payload_json(m: EnvelopeModel) -> JsonModel {
    JsonModel::Obj(
        seq![
            ("dedupe_key"@, JsonModel::Str(m.dedupe_key)),
            ("envelope_id"@, JsonModel::Str(m.envelope_id)),
            ("event"@, event_json(m.event)),
            ("event_type"@, JsonModel::Str(m.event.kind_name())),
            ("occurred_at_iso"@, JsonModel::Str(m.occurred_at_iso)),
            ("tenant_id"@, JsonModel::Str(m.tenant_id)),
            ("trace_id"@, opt_str_json(m.trace_id)),
        ],
    )
}

/// The canonical signing bytes of an envelope: the UTF-8 encoding of the
/// canonical rendering of its payload object.
pub open spec fn payload_bytes(m: EnvelopeModel) -> Seq<u8> {
    vstd::utf8::encode_utf8(canon_json(payload_json(m)))
}

/// The signature an envelope must carry under `secret`.
pub open spec fn spec_signature(secret: Seq<u8>, m: EnvelopeModel) -> Seq<char> {
    crate::strutil::hex_bytes(hmac_sha256(secret, payload_bytes(m)))
}

/// Whether an envelope verifies under `secret`: the declared fields
/// re-sign to exactly the carried signature, under the current signature
/// version.
pub open spec fn spec_verify(secret: Seq<u8>, m: EnvelopeModel) -> bool {
    &&& m.signature == spec_signature(secret, m)
    &&& m.signature_version == "v1-hmac-sha256"@
}

/// The envelope `sign_event_at` produces.
pub open spec fn signed_envelope(
    secret: Seq<u8>,
    event: TimerEventModel,
    envelope_id: u128,
    occurred_ms: int,
    trace_id: Option<Seq<char>>,
) -> EnvelopeModel {
    let base = EnvelopeModel {
        envelope_id: uuid_str_of(envelope_id),
        tenant_id: event.timer().tenant_id,
        occurred_at_iso: rfc3339_of(occurred_ms),
        dedupe_key: dedupe_key_of(event.timer().tenant_id, event.timer().id, event.timer().state_version),
        trace_id: trace_id,
        signature_version: "v1-hmac-sha256"@,
        signature: Seq::empty(),
        event: event,
    };
    EnvelopeModel { signature: spec_signature(secret, base), ..base }
}

/// A signed envelope verifies under the secret that signed it: the
/// signature covers every declared field but itself, so filling it in does
/// not change the payload it must match.
pub proof fn lemma_verify_signed(
    secret: Seq<u8>,
    event: TimerEventModel,
    envelope_id: u128,
    occurred_ms: int,
    trace_id: Option<Seq<char>>,
)
    ensures
        spec_verify(secret, signed_envelope(secret, event, envelope_id, occurred_ms, trace_id)),
{
    let signed = signed_envelope(secret, event, envelope_id, occurred_ms, trace_id);
    let base = EnvelopeModel { signature: Seq::empty(), ..signed };
    assert(payload_json(signed) == payload_json(base));
}

// ==========================================================================
// Building the canonical JSON values.
// ==========================================================================

fn opt_string_to_json(o: &Option<String>) -> (r: JsonValue)
    ensures
        r@ == opt_str_json(opt_str_view(*o)),
{
    match o {
        Some(s) => JsonValue::Str(s.clone()),
        None => JsonValue::Null,
    }
}

fn opt_ms_to_json(o: &Option<TimestampMs>) -> (r: JsonValue)
    ensures
        r@ == opt_ms_json(*o),
{
    match o {
        Some(n) => JsonValue::Int(*n),
        None => JsonValue::Null,
    }
}

fn opt_val_to_json(o: &Option<JsonValue>) -> (r: JsonValue)
    ensures
        r@ == opt_val_json(opt_json_view(*o)),
{
    match o {
        Some(v) => v.duplicate(),
        None => JsonValue::Null,
    }
}

fn labels_to_json(labels: &Vec<(String, String)>) -> (r: JsonValue)
    ensures
        r@ == labels_json(crate::timer::labels_view(labels@)),
{
    let mut fields: Vec<(String, JsonValue)> = Vec::new();
    let n = labels.len();
    let mut i: usize = 0;
    while i < n
        invariant
            n == labels@.len(),
            0 <= i <= n,
            fields@.len() == i,
            forall|j: int|
                0 <= j < i ==> (#[trigger] fields@[j]).0@ == labels@[j].0@ && fields@[j].1@
                    == JsonModel::Str(labels@[j].1@),
        decreases n - i,
    {
        let (k, v) = &labels[i];
        let pair = (k.clone(), JsonValue::Str(v.clone()));
        fields.push(pair);
        i += 1;
    }
    proof {
        crate::json::lemma_jfields_view_index(fields@);
        assert(jfields_view(fields@) =~= labels_json(
            crate::timer::labels_view(labels@),
        )->Obj_0);
    }
    JsonValue::Obj(fields)
}

/// The canonical JSON value of a stored timer.
pub fn timer_to_json(t: &TimerInstance) -> (r: JsonValue)
    ensures
        r@ == timer_json(t@),
{
    let mut fields: Vec<(String, JsonValue)> = Vec::new();
    fields.push((String::from_str("action_bundle"), opt_val_to_json(&t.action_bundle)));
    fields.push((String::from_str("agent_binding"), opt_val_to_json(&t.agent_binding)));
    fields.push((String::from_str("cancel_reason"), opt_string_to_json(&t.cancel_reason)));
    fields.push((String::from_str("cancelled_at"), opt_ms_to_json(&t.cancelled_at)));
    fields.push((String::from_str("cancelled_by"), opt_string_to_json(&t.cancelled_by)));
    fields.push((String::from_str("created_at"), JsonValue::Int(t.created_at)));
    fields.push((String::from_str("duration_ms"), JsonValue::UInt(t.duration_ms)));
    fields.push((String::from_str("failure_reason"), opt_string_to_json(&t.failure_reason)));
    fields.push((String::from_str("fire_at"), JsonValue::Int(t.fire_at)));
    fields.push((String::from_str("fired_at"), opt_ms_to_json(&t.fired_at)));
    fields.push((String::from_str("id"), JsonValue::Str(crate::strutil::uuid_hyphenated(t.id))));
    fields.push((String::from_str("labels"), labels_to_json(&t.labels)));
    fields.push((String::from_str("metadata"), opt_val_to_json(&t.metadata)));
    fields.push((String::from_str("name"), JsonValue::Str(t.name.clone())));
    fields.push((String::from_str("requested_by"), JsonValue::Str(t.requested_by.clone())));
    fields.push((String::from_str("settled_at"), opt_ms_to_json(&t.settled_at)));
    fields.push((String::from_str("state_version"), JsonValue::UInt(t.state_version)));
    fields.push((String::from_str("status"), JsonValue::Str(String::from_str(t.status.as_str()))));
    fields.push((String::from_str("tenant_id"), JsonValue::Str(t.tenant_id.clone())));
    proof {
        crate::json::lemma_jfields_view_index(fields@);
        assert(jfields_view(fields@) =~= timer_json(t@)->Obj_0);
    }
    JsonValue::Obj(fields)
}

/// The canonical JSON value of an event.
pub fn event_to_json(e: &TimerEvent) -> (r: JsonValue)
    ensures
        r@ == event_json(e@),
{
    let data: JsonValue = match e {
        TimerEvent::Cancelled { timer, reason } => {
            let mut inner: Vec<(String, JsonValue)> = Vec::new();
            inner.push((String::from_str("reason"), opt_string_to_json(reason)));
            inner.push((String::from_str("timer"), timer_to_json(timer)));
            proof {
                crate::json::lemma_jfields_view_index(inner@);
                assert(jfields_view(inner@) =~= seq![
                    ("reason"@, opt_str_json(opt_str_view(*reason))),
                    ("timer"@, timer_json(timer@)),
                ]);
            }
            JsonValue::Obj(inner)
        },
        TimerEvent::Scheduled(t) => timer_to_json(t),
        TimerEvent::Fired(t) => timer_to_json(t),
        TimerEvent::Settled(t) => timer_to_json(t),
    };
    let mut fields: Vec<(String, JsonValue)> = Vec::new();
    fields.push((String::from_str("data"), data));
    fields.push((String::from_str("type"), JsonValue::Str(String::from_str(e.event_type()))));
    proof {
        crate::json::lemma_jfields_view_index(fields@);
        assert(jfields_view(fields@) =~= event_json(e@)->Obj_0);
    }
    JsonValue::Obj(fields)
}

/// The deduplication key `timer:<tenant>:<id>:<version>` of a snapshot.
pub fn dedupe_key_for(t: &TimerInstance) -> (r: String)
    ensures
        r@ == dedupe_key_of(t@.tenant_id, t@.id, t@.state_version),
{
    let mut out = String::from_str("timer:");
    out.append(t.tenant_id.as_str());
    out.append(":");
    let id_str = crate::strutil::uuid_hyphenated(t.id);
    out.append(id_str.as_str());
    out.append(":");
    crate::strutil::append_u64(&mut out, t.state_version);
    proof {
        reveal_strlit(":");
        assert(out@ =~= dedupe_key_of(t@.tenant_id, t@.id, t@.state_version));
    }
    out
}

// ==========================================================================
// The signer.
// ==========================================================================

/// Signs lifecycle events into envelopes and verifies envelopes, under one
/// shared secret.
#[derive(Debug)]
pub struct EventSigner {
    secret: Vec<u8>,
}

impl EventSigner {
    /// The signing secret.
    pub closed spec fn spec_secret(self) -> Seq<u8> {
        self.secret@
    }

    /// A signer over the given secret; an empty secret is refused at
    /// construction, never at signing time.
    pub fn new(secret: Vec<u8>) -> (r: Result<EventSigner, KernelError>)
        ensures
            match r {
                Ok(signer) => signer.spec_secret() == secret@ && secret@.len() > 0,
                Err(e) => e is Persistence && secret@.len() == 0,
            },
    {
        if secret.len() == 0 {
            Err(KernelError::Persistence(String::from_str("event signer needs a secret")))
        } else {
            Ok(EventSigner { secret })
        }
    }

    /// A signer over the well-known development secret, for single-node and
    /// test deployments only.
    pub fn insecure_dev() -> (r: EventSigner)
        ensures
            r.spec_secret() == vstd::utf8::encode_utf8("minoots-insecure-dev-secret"@),
    {
        let secret = vstd::slice::slice_to_vec("minoots-insecure-dev-secret".as_bytes());
        EventSigner { secret }
    }

    /// Wraps an event into a signed envelope, deterministically: the caller
    /// supplies the fresh envelope identifier, the clock reading and an
    /// optional correlation id.
    pub fn sign_event_at(
        &self,
        event: TimerEvent,
        envelope_id: u128,
        occurred_ms: TimestampMs,
        trace_id: Option<String>,
    ) -> (r: EventEnvelope)
        requires
            0 <= occurred_ms <= 260000000000000,
        ensures
            r@ == signed_envelope(
                self.spec_secret(),
                event@,
                envelope_id,
                occurred_ms as int,
                opt_str_view(trace_id),
            ),
            spec_verify(self.spec_secret(), r@),
    {
        let timer = event.timer();
        let tenant_id = timer.tenant_id.clone();
        let dedupe_key = dedupe_key_for(timer);
        let occurred_at_iso = crate::outside::rfc3339_millis(occurred_ms);
        let envelope_id_str = crate::strutil::uuid_hyphenated(envelope_id);

        let mut payload_fields: Vec<(String, JsonValue)> = Vec::new();
        payload_fields.push((String::from_str("dedupe_key"), JsonValue::Str(dedupe_key.clone())));
        payload_fields.push((
            String::from_str("envelope_id"),
            JsonValue::Str(envelope_id_str.clone()),
        ));
        payload_fields.push((String::from_str("event"), event_to_json(&event)));
        payload_fields.push((
            String::from_str("event_type"),
            JsonValue::Str(String::from_str(event.event_type())),
        ));
        payload_fields.push((
            String::from_str("occurred_at_iso"),
            JsonValue::Str(occurred_at_iso.clone()),
        ));
        payload_fields.push((String::from_str("tenant_id"), JsonValue::Str(tenant_id.clone())));
        payload_fields.push((String::from_str("trace_id"), opt_string_to_json(&trace_id)));
        let payload_value = JsonValue::Obj(payload_fields);

        let ghost base = EnvelopeModel {
            envelope_id: envelope_id_str@,
            tenant_id: tenant_id@,
            occurred_at_iso: occurred_at_iso@,
            dedupe_key: dedupe_key@,
            trace_id: opt_str_view(trace_id),
            signature_version: "v1-hmac-sha256"@,
            signature: Seq::empty(),
            event: event@,
        };
        proof {
            crate::json::lemma_jfields_view_index(payload_value->Obj_0@);
            assert(jfields_view(payload_value->Obj_0@) =~= payload_json(base)->Obj_0);
        }

        let mut payload = String::new();
        crate::json::write_canon(&payload_value, &mut payload);
        let tag = hmac_sha256_bytes(self.secret.as_slice(), payload.as_str().as_bytes());
        let signature = crate::strutil::hex_of_bytes(tag.as_slice());
        let r = EventEnvelope {
            envelope_id: envelope_id_str,
            tenant_id,
            occurred_at_iso,
            dedupe_key,
            trace_id,
            signature_version: String::from_str("v1-hmac-sha256"),
            signature,
            event,
        };
        proof {
            assert(payload_json(r@) == payload_json(base));
            lemma_verify_signed(
                self.spec_secret(),
                base.event,
                envelope_id,
                occurred_ms as int,
                base.trace_id,
            );
        }
        r
    }

    /// Recomputes the signature over the envelope's declared fields and
    /// compares it to the carried one in constant time.
    pub fn verify(&self, env: &EventEnvelope) -> (r: bool)
        ensures
            r == spec_verify(self.spec_secret(), env@),
    {
        let mut payload_fields: Vec<(String, JsonValue)> = Vec::new();
        payload_fields.push((
            String::from_str("dedupe_key"),
            JsonValue::Str(env.dedupe_key.clone()),
        ));
        payload_fields.push((
            String::from_str("envelope_id"),
            JsonValue::Str(env.envelope_id.clone()),
        ));
        payload_fields.push((String::from_str("event"), event_to_json(&env.event)));
        payload_fields.push((
            String::from_str("event_type"),
            JsonValue::Str(String::from_str(env.event.event_type())),
        ));
        payload_fields.push((
            String::from_str("occurred_at_iso"),
            JsonValue::Str(env.occurred_at_iso.clone()),
        ));
        payload_fields.push((
            String::from_str("tenant_id"),
            JsonValue::Str(env.tenant_id.clone()),
        ));
        payload_fields.push((String::from_str("trace_id"), opt_string_to_json(&env.trace_id)));
        let payload_value = JsonValue::Obj(payload_fields);
        proof {
            crate::json::lemma_jfields_view_index(payload_value->Obj_0@);
            assert(jfields_view(payload_value->Obj_0@) =~= payload_json(env@)->Obj_0);
        }

        let mut payload = String::new();
        crate::json::write_canon(&payload_value, &mut payload);
        let tag = hmac_sha256_bytes(self.secret.as_slice(), payload.as_str().as_bytes());
        let expected = crate::strutil::hex_of_bytes(tag.as_slice());

        proof {
            vstd::utf8::encode_utf8_decode_utf8(env.signature@);
            vstd::utf8::encode_utf8_decode_utf8(expected@);
        }
        let signature_ok = ct_bytes_eq(env.signature.as_str().as_bytes(), expected.as_str().as_bytes());
        let version_ok = crate::strutil::str_eq(env.signature_version.as_str(), "v1-hmac-sha256");
        signature_ok && version_ok
    }

    /// Wraps an event into a signed envelope using the wall clock and a
    /// fresh identifier. Whatever the clock returned, a produced envelope
    /// carries the event unchanged and verifies under this signer; a clock
    /// reading outside the representable range is refused.
    pub fn sign_event(&self, event: TimerEvent) -> (r: Result<EventEnvelope, KernelError>)
        ensures
            r matches Ok(env) ==> {
                &&& spec_verify(self.spec_secret(), env@)
                &&& env@.event == event@
                &&& env@.tenant_id == event@.timer().tenant_id
                &&& env@.dedupe_key == dedupe_key_of(
                    event@.timer().tenant_id,
                    event@.timer().id,
                    event@.timer().state_version,
                )
            },
            r matches Err(e) ==> e is Persistence,
    {
        let now = crate::outside::now_unix_ms();
        if now < 0 || now > 260000000000000 {
            return Err(KernelError::Persistence(String::from_str("clock out of range")));
        }
        let envelope_id = crate::outside::fresh_uuid();
        Ok(self.sign_event_at(event, envelope_id, now, None))
    }
}

/// The wire rendering of an envelope: the canonical JSON of all its fields,
/// signature included, as UTF-8 bytes.
pub open spec fn envelope_json(m: EnvelopeModel) -> JsonModel {
    JsonModel::Obj(
        seq![
            ("dedupe_key"@, JsonModel::Str(m.dedupe_key)),
            ("envelope_id"@, JsonModel::Str(m.envelope_id)),
            ("event"@, event_json(m.event)),
            ("occurred_at_iso"@, JsonModel::Str(m.occurred_at_iso)),
            ("signature"@, JsonModel::Str(m.signature)),
            ("signature_version"@, JsonModel::Str(m.signature_version)),
            ("tenant_id"@, JsonModel::Str(m.tenant_id)),
            ("trace_id"@, opt_str_json(m.trace_id)),
        ],
    )
}

/// Renders an envelope for the wire: canonical JSON, UTF-8 encoded.
pub fn encode_envelope(env: &EventEnvelope) -> (r: Vec<u8>)
    ensures
        r@ == vstd::utf8::encode_utf8(canon_json(envelope_json(env@))),
{
    let mut fields: Vec<(String, JsonValue)> = Vec::new();
    fields.push((String::from_str("dedupe_key"), JsonValue::Str(env.dedupe_key.clone())));
    fields.push((String::from_str("envelope_id"), JsonValue::Str(env.envelope_id.clone())));
    fields.push((String::from_str("event"), event_to_json(&env.event)));
    fields.push((
        String::from_str("occurred_at_iso"),
        JsonValue::Str(env.occurred_at_iso.clone()),
    ));
    fields.push((String::from_str("signature"), JsonValue::Str(env.signature.clone())));
    fields.push((
        String::from_str("signature_version"),
        JsonValue::Str(env.signature_version.clone()),
    ));
    fields.push((String::from_str("tenant_id"), JsonValue::Str(env.tenant_id.clone())));
    fields.push((String::from_str("trace_id"), opt_string_to_json(&env.trace_id)));
    let value = JsonValue::Obj(fields);
    proof {
        crate::json::lemma_jfields_view_index(value->Obj_0@);
        assert(jfields_view(value->Obj_0@) =~= envelope_json(env@)->Obj_0);
    }
    let mut rendered = String::new();
    crate::json::write_canon(&value, &mut rendered);
    vstd::slice::slice_to_vec(rendered.as_str().as_bytes())
}

/// The first envelope of any timer ends its deduplication key in `:0`: a
/// freshly scheduled instance carries state version zero, and the key of a
/// version-zero snapshot closes with a colon and the digit zero.
pub proof fn lemma_first_dedupe_key_suffix(tenant: Seq<char>, id: u128)
    ensures
        dedupe_key_of(tenant, id, 0) == ("timer:"@ + tenant + ":"@ + uuid_str_of(id)) + (
        seq![':', '0']),
{
    reveal_strlit(":");
    assert(dec_of(0) =~= seq!['0']);
    assert(":"@ + dec_of(0) =~= seq![':', '0']);
    assert(dedupe_key_of(tenant, id, 0) =~= ("timer:"@ + tenant + ":"@ + uuid_str_of(id)) + (
    seq![':', '0']));
}

/// An envelope whose carried signature was altered no longer verifies: the
/// recomputed signature depends only on the other fields, so it still
/// matches the original and not the altered copy. For an altered *signed
/// field* the recomputation changes instead, and verification fails unless
/// the keyed digests of the two distinct payloads collide; that the digest
/// never collides is a property of HMAC-SHA256 itself, which the library
/// takes from the outside and exercises in its tests rather than proving.
pub proof fn lemma_altered_signature_fails(secret: Seq<u8>, m: EnvelopeModel, forged: Seq<char>)
    requires
        spec_verify(secret, m),
        forged != m.signature,
    ensures
        !spec_verify(secret, EnvelopeModel { signature: forged, ..m }),
{
    let altered = EnvelopeModel { signature: forged, ..m };
    assert(payload_json(altered) == payload_json(m));
}

/// Deduplication keys are unique per timer: the key closes with the decimal
/// state version after the last colon of a fixed frame, and decimal
/// rendering is injective, so two envelopes of one timer carry the same key
/// only at the same state version. Versions step by one on every
/// transition, and identifiers are unique in the index, so every emitted
/// envelope's key is fresh.
pub proof fn lemma_dedupe_key_unique_per_timer(
    tenant: Seq<char>,
    id: u128,
    v1: u64,
    v2: u64,
)
    requires
        v1 != v2,
    ensures
        dedupe_key_of(tenant, id, v1) != dedupe_key_of(tenant, id, v2),
{
    let base = "timer:"@ + tenant + ":"@ + uuid_str_of(id) + ":"@;
    crate::strutil::lemma_dec_of_injective(v1 as nat, v2 as nat);
    let k1 = dedupe_key_of(tenant, id, v1);
    let k2 = dedupe_key_of(tenant, id, v2);
    assert(k1 =~= base + dec_of(v1 as nat));
    assert(k2 =~= base + dec_of(v2 as nat));
    if k1 == k2 {
        let d1 = dec_of(v1 as nat);
        let d2 = dec_of(v2 as nat);
        assert(k1.len() == base.len() + d1.len());
        assert(k2.len() == base.len() + d2.len());
        assert(d1.len() == d2.len());
        assert forall|i: int| 0 <= i < d1.len() implies d1[i] == d2[i] by {
            assert(k1[base.len() + i] == d1[i]);
            assert(k2[base.len() + i] == d2[i]);
        }
        assert(d1 =~= d2);
    }
}

} // verus!
