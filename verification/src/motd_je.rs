//! The JE probe: a handshake and a status request over TCP, answered by
//! one length-prefixed packet whose body is a JSON document.

use crate::json::{
    found_view, json_parse, json_rendering, parse_json, render_json, Json, JsonView,
};
use crate::probe::ProbeError;
use crate::text::{decode_utf8_lossy, utf8_lossy};
use crate::utils::{is_valid_ip_or_domain, is_valid_port, valid_host, valid_port};
use crate::varint::{
    bits_of, lemma_encoding_len, lemma_varint_round_trip, lemma_wrap_bits, put_varint,
    read_varint, varint_decoding_at, varint_encoding, VarIntError, MAX_VARINT_LEN,
};
use crate::wire::{append_bytes, be16_bytes, put_u16_be};
use vstd::prelude::*;
use vstd::slice::slice_subrange;
use vstd::utf8::encode_utf8;

verus! {

/// What a JE server said of itself, or the offline record where none did.
#[derive(Debug)]
pub struct MotdJavaInfo {
    pub status: String,
    pub host: String,
    pub motd: String,
    pub agreement: i32,
    pub version: String,
    pub online: i32,
    pub max: i32,
    pub sample: Vec<(String, String)>,
    pub favicon: String,
    pub delay: u64,
}

/// A `MotdJavaInfo` with its texts as sequences of characters.
pub ghost struct JavaInfoView {
    pub status: Seq<char>,
    pub host: Seq<char>,
    pub motd: Seq<char>,
    pub agreement: i32,
    pub version: Seq<char>,
    pub online: i32,
    pub max: i32,
    pub sample: Seq<(Seq<char>, Seq<char>)>,
    pub favicon: Seq<char>,
    pub delay: u64,
}

/// The players of a sample, each as the pair of its id and its name.
pub open spec fn pairs_view(pairs: Seq<(String, String)>) -> Seq<(Seq<char>, Seq<char>)> {
    Seq::new(pairs.len(), |i: int| (pairs[i].0@, pairs[i].1@))
}

/// The record of a server that did not answer: status `offline`, every
/// text and the sample empty, every number zero.
pub open spec fn je_offline() -> JavaInfoView {
    JavaInfoView {
        status: "offline"@,
        host: Seq::empty(),
        motd: Seq::empty(),
        agreement: 0,
        version: Seq::empty(),
        online: 0,
        max: 0,
        sample: Seq::empty(),
        favicon: Seq::empty(),
        delay: 0,
    }
}

impl JavaInfoView {
    /// What holds of every record that a probe returns: it is either
    /// online or the offline record, with nothing filled in.
    pub open spec fn well_formed(self) -> bool {
        self.status == "online"@ || self == je_offline()
    }
}

impl View for MotdJavaInfo {
    type V = JavaInfoView;

    open spec fn view(&self) -> JavaInfoView {
        JavaInfoView {
            status: self.status@,
            host: self.host@,
            motd: self.motd@,
            agreement: self.agreement,
            version: self.version@,
            online: self.online,
            max: self.max,
            sample: pairs_view(self.sample@),
            favicon: self.favicon@,
            delay: self.delay,
        }
    }
}

impl MotdJavaInfo {
    /// The offline record.
    pub fn new() -> (info: Self)
        ensures
            info@ == je_offline(),
            info@.well_formed(),
    {
        let info = MotdJavaInfo {
            status: "offline".to_owned(),
            host: String::new(),
            motd: String::new(),
            agreement: 0,
            version: String::new(),
            online: 0,
            max: 0,
            sample: Vec::new(),
            favicon: String::new(),
            delay: 0,
        };
        assert(info@.sample =~= Seq::empty());
        info
    }

    /// Tells whether the record is that of a server that answered.
    pub fn is_online(&self) -> (yes: bool)
        ensures
            yes == (self@.status == "online"@),
    {
        let online = "online".to_owned();
        self.status == online
    }
}

/// The protocol version that the handshake announces.
pub const PROTOCOL_VERSION: i32 = 575;

/// The most bytes a host name may have for its handshake to be framed: the
/// length of the whole payload has to fit in 31 bits.
pub const MAX_HOST_BYTES: usize = 2_147_483_636;

/// The payload of the handshake: packet id 0, the protocol version, the
/// host with its length before it, the port in two big-endian bytes, and
/// 1 for "next state: status".
pub open spec fn handshake_payload(host: Seq<u8>, port: u16) -> Seq<u8> {
    varint_encoding(0) + varint_encoding(PROTOCOL_VERSION as nat) + varint_encoding(host.len())
        + host + be16_bytes(port) + varint_encoding(1)
}

/// A packet as it goes over the wire: the length of the payload, then the
/// payload.
pub open spec fn framed(payload: Seq<u8>) -> Seq<u8> {
    varint_encoding(payload.len()) + payload
}

/// The handshake packet for `host` and `port`.
pub open spec fn handshake_bytes(host: Seq<char>, port: u16) -> Seq<u8> {
    framed(handshake_payload(encode_utf8(host), port))
}

/// The status request: a packet of length 1 that holds packet id 0.
pub open spec fn status_request_bytes() -> Seq<u8> {
    seq![0x01u8, 0x00u8]
}

/// Builds the handshake packet.
pub fn handshake_packet(host: &str, port: u16) -> (packet: Vec<u8>)
    requires
        encode_utf8(host@).len() <= MAX_HOST_BYTES,
    ensures
        packet@ == handshake_bytes(host@, port),
{
    let mut payload: Vec<u8> = Vec::new();
    put_varint(&mut payload, 0);
    put_varint(&mut payload, PROTOCOL_VERSION);
    let name = host.as_bytes();
    put_varint(&mut payload, name.len() as i32);
    append_bytes(&mut payload, name);
    put_u16_be(&mut payload, port);
    put_varint(&mut payload, 1);
    proof {
        lemma_encoding_len(0);
        lemma_encoding_len(PROTOCOL_VERSION as nat);
        lemma_encoding_len(name@.len());
        lemma_encoding_len(1);
    }
    let mut packet: Vec<u8> = Vec::new();
    put_varint(&mut packet, payload.len() as i32);
    append_bytes(&mut packet, payload.as_slice());
    packet
}

/// Builds the status request.
pub fn status_request() -> (packet: Vec<u8>)
    ensures
        packet@ == status_request_bytes(),
{
    let mut packet: Vec<u8> = Vec::new();
    packet.push(0x01);
    packet.push(0x00);
    packet
}

/// The two packets that open a status exchange.
#[derive(Debug)]
pub struct JeRequest {
    pub handshake: Vec<u8>,
    pub status_request: Vec<u8>,
}

/// Whether a status exchange with the target is to be attempted: the host
/// and the port are valid and the host can be framed.
pub open spec fn je_probeable(host: Seq<char>, port: u16) -> bool {
    valid_host(host) && valid_port(port as int) && encode_utf8(host).len() <= MAX_HOST_BYTES
}

/// The packets to send to the target, or `None` where no exchange is to be
/// attempted.
pub fn je_request(host: &str, port: u16) -> (request: Option<JeRequest>)
    ensures
        match request {
            Some(r) => je_probeable(host@, port) && r.handshake@ == handshake_bytes(host@, port)
                && r.status_request@ == status_request_bytes(),
            None => !je_probeable(host@, port),
        },
{
    if !is_valid_ip_or_domain(host) || !is_valid_port(port) || host.as_bytes().len()
        > MAX_HOST_BYTES {
        return None;
    }
    Some(JeRequest { handshake: handshake_packet(host, port), status_request: status_request() })
}

/// How far the bytes received so far go towards a whole response.
#[derive(Clone, Copy, Debug, PartialEq, Eq, Structural)]
pub enum Progress {
    /// The response is not complete: this many bytes more are known to be
    /// missing.
    Need(usize),
    /// The response is complete: its JSON body is the `len` bytes from
    /// index `start` on.
    Ready { start: usize, len: usize },
    /// The bytes are no response: one of the three leading integers runs
    /// past five bytes, or the length of the body is negative.
    Invalid,
}

/// What the framing of a response comes to: the packet length, the packet
/// id and the length of the body, each a variable-length integer, then the
/// body. The packet length and the packet id are read and not looked at.
pub open spec fn response_scan(bytes: Seq<u8>) -> Progress {
    match varint_decoding_at(bytes, 0) {
        Err(VarIntError::TooLarge) => Progress::Invalid,
        Err(VarIntError::Truncated) => Progress::Need(1),
        Ok((_, after_len)) => match varint_decoding_at(bytes, after_len) {
            Err(VarIntError::TooLarge) => Progress::Invalid,
            Err(VarIntError::Truncated) => Progress::Need(1),
            Ok((_, after_id)) => match varint_decoding_at(bytes, after_id) {
                Err(VarIntError::TooLarge) => Progress::Invalid,
                Err(VarIntError::Truncated) => Progress::Need(1),
                Ok((body_len, start)) => if body_len < 0 {
                    Progress::Invalid
                } else if bytes.len() - start >= body_len {
                    Progress::Ready { start: start as usize, len: body_len as usize }
                } else {
                    Progress::Need((body_len - (bytes.len() - start)) as usize)
                },
            },
        },
    }
}

/// A packet length, a packet id and the length of a body, each written as
/// a variable-length integer, followed by the body, are a whole response
/// with that body, whatever the two first integers are and whatever comes
/// after the body.
pub proof fn lemma_framed_body_is_ready(packet_len: i32, id: i32, body: Seq<u8>, rest: Seq<u8>)
    requires
        body.len() <= i32::MAX,
    ensures
        ({
            let head = varint_encoding(bits_of(packet_len)) + varint_encoding(bits_of(id))
                + varint_encoding(body.len());
            &&& head.len() <= 3 * MAX_VARINT_LEN
            &&& response_scan(head + body + rest) == (Progress::Ready {
                start: head.len() as usize,
                len: body.len() as usize,
            })
            &&& (head + body + rest).subrange(
                head.len() as int,
                (head.len() + body.len()) as int,
            ) == body
        }),
{
    let a = varint_encoding(bits_of(packet_len));
    let b = varint_encoding(bits_of(id));
    let c = varint_encoding(body.len());
    let all = a + b + c + body + rest;
    let size = body.len() as i32;
    lemma_wrap_bits(packet_len);
    lemma_wrap_bits(id);
    lemma_encoding_len(bits_of(packet_len));
    lemma_encoding_len(bits_of(id));
    lemma_encoding_len(body.len());
    lemma_varint_round_trip(packet_len, b + c + body + rest);
    lemma_varint_round_trip(id, c + body + rest);
    lemma_varint_round_trip(size, body + rest);
    assert(all.skip(0) =~= a + (b + c + body + rest));
    assert(all.skip(a.len() as int) =~= b + (c + body + rest));
    assert(all.skip((a.len() + b.len()) as int) =~= c + (body + rest));
    let start = (a + b + c).len() as int;
}

/// Says how far `buf` goes towards a whole response, and with it how many
/// bytes to read next.
pub fn response_progress(buf: &[u8]) -> (progress: Progress)
    ensures
        progress == response_scan(buf@),
        progress matches Progress::Ready { start, len } ==> start + len <= buf@.len() <= usize::MAX,
        progress matches Progress::Need(n) ==> n >= 1,
{
    let after_len = match read_varint(buf, 0) {
        Ok((_, next)) => next,
        Err(VarIntError::TooLarge) => { return Progress::Invalid; },
        Err(VarIntError::Truncated) => { return Progress::Need(1); },
    };
    let after_id = match read_varint(buf, after_len) {
        Ok((_, next)) => next,
        Err(VarIntError::TooLarge) => { return Progress::Invalid; },
        Err(VarIntError::Truncated) => { return Progress::Need(1); },
    };
    match read_varint(buf, after_id) {
        Ok((body_len, start)) => {
            if body_len < 0 {
                Progress::Invalid
            } else {
                let wanted = body_len as usize;
                let have = buf.len() - start;
                if have >= wanted {
                    Progress::Ready { start, len: wanted }
                } else {
                    Progress::Need(wanted - have)
                }
            }
        },
        Err(VarIntError::TooLarge) => Progress::Invalid,
        Err(VarIntError::Truncated) => Progress::Need(1),
    }
}

/// The text of a string, or nothing where the value is no string.
pub open spec fn text_or_empty(value: JsonView) -> Seq<char> {
    match value.as_text() {
        Some(s) => s,
        None => Seq::empty(),
    }
}

/// The low 32 bits of an integer, or 0 where the value is no integer.
pub open spec fn int_or_zero(value: JsonView) -> i32 {
    match value.as_int() {
        Some(n) => n as i32,
        None => 0,
    }
}

/// The banner that a `description` stands for: the string itself; of an
/// object, its member `text` where that is a string; of anything else, the
/// value written out as JSON.
pub open spec fn motd_of(description: JsonView) -> Seq<char> {
    match description {
        JsonView::Text(s) => s,
        _ => match description.member("text"@) {
            JsonView::Text(s) => s,
            _ => json_rendering(description),
        },
    }
}

/// The players among `items`, in order: each item that has a string `id`
/// and a string `name`. The other items are left out.
pub open spec fn sample_of(items: Seq<JsonView>) -> Seq<(Seq<char>, Seq<char>)>
    decreases items.len(),
{
    if items.len() == 0 {
        Seq::empty()
    } else {
        let before = sample_of(items.drop_last());
        let item = items.last();
        match (item.member("id"@).as_text(), item.member("name"@).as_text()) {
            (Some(id), Some(name)) => before.push((id, name)),
            _ => before,
        }
    }
}

/// The record that a status document stands for.
pub open spec fn status_of(doc: JsonView, host: Seq<char>, delay: u64) -> JavaInfoView {
    let players = doc.member("players"@);
    let version = doc.member("version"@);
    JavaInfoView {
        status: "online"@,
        host,
        motd: motd_of(doc.member("description"@)),
        agreement: int_or_zero(version.member("protocol"@)),
        version: text_or_empty(version.member("name"@)),
        online: int_or_zero(players.member("online"@)),
        max: int_or_zero(players.member("max"@)),
        sample: sample_of(players.member("sample"@).items()),
        favicon: text_or_empty(doc.member("favicon"@)),
        delay,
    }
}

/// A description that is a string and one that is an object with that
/// string as its `text` stand for the same banner.
pub proof fn lemma_description_forms_agree(content: Seq<char>, component: JsonView)
    requires
        component is Object,
        component.member("text"@) == JsonView::Text(content),
    ensures
        motd_of(JsonView::Text(content)) == content,
        motd_of(component) == content,
{
}

/// Two status documents whose descriptions are a string and an object with
/// that string as its `text` give records with the same banner.
pub proof fn lemma_status_motd_agrees(
    plain: JsonView,
    rich: JsonView,
    content: Seq<char>,
    host: Seq<char>,
    delay: u64,
)
    requires
        plain.member("description"@) == JsonView::Text(content),
        rich.member("description"@) is Object,
        rich.member("description"@).member("text"@) == JsonView::Text(content),
    ensures
        status_of(plain, host, delay).motd == content,
        status_of(rich, host, delay).motd == content,
{
    lemma_description_forms_agree(content, rich.member("description"@));
}

/// The member `key` of what an earlier lookup found.
fn member_of<'a>(found: Option<&'a Json>, key: &str) -> (inner: Option<&'a Json>)
    ensures
        found_view(inner) == found_view(found).member(key@),
{
    match found {
        Some(json) => json.member(key),
        None => None,
    }
}

/// The text of a string, or the empty text.
fn text_from(found: Option<&Json>) -> (text: String)
    ensures
        text@ == text_or_empty(found_view(found)),
{
    match found {
        Some(json) => match json.as_text() {
            Some(s) => s.clone(),
            None => String::new(),
        },
        None => String::new(),
    }
}

/// The low 32 bits of an integer, or 0.
fn int_from(found: Option<&Json>) -> (n: i32)
    ensures
        n == int_or_zero(found_view(found)),
{
    match found {
        Some(json) => match json.as_int() {
            Some(n) => #[verifier::truncate]
            (n as i32),
            None => 0,
        },
        None => 0,
    }
}

/// The banner of a description.
fn motd_from(found: Option<&Json>) -> (motd: String)
    ensures
        motd@ == motd_of(found_view(found)),
{
    match found {
        Some(json) => match json.as_text() {
            Some(s) => s.clone(),
            None => match member_of(found, "text") {
                Some(inner) => match inner.as_text() {
                    Some(s) => s.clone(),
                    None => render_json(json),
                },
                None => render_json(json),
            },
        },
        None => render_json(&Json::Null),
    }
}

/// The players of a sample.
fn sample_from(found: Option<&Json>) -> (sample: Vec<(String, String)>)
    ensures
        pairs_view(sample@) == sample_of(found_view(found).items()),
{
    let mut sample: Vec<(String, String)> = Vec::new();
    let items = match found {
        Some(json) => match json.as_array() {
            Some(items) => items,
            None => { return sample; },
        },
        None => { return sample; },
    };
    let ghost all = found_view(found).items();
    let mut i: usize = 0;
    while i < items.len()
        invariant
            i <= items@.len(),
            all.len() == items@.len(),
            forall|j: int| 0 <= j < items@.len() ==> #[trigger] all[j] == items@[j]@,
            pairs_view(sample@) == sample_of(all.take(i as int)),
        decreases items@.len() - i,
    {
        let item = &items[i];
        proof {
            assert(all.take(i + 1).drop_last() =~= all.take(i as int));
        }
        let id = member_of(Some(item), "id");
        let name = member_of(Some(item), "name");
        match (id, name) {
            (Some(id), Some(name)) => match (id.as_text(), name.as_text()) {
                (Some(id), Some(name)) => {
                    sample.push((id.clone(), name.clone()));
                },
                _ => {},
            },
            _ => {},
        }
        i = i + 1;
    }
    assert(all.take(i as int) =~= all);
    sample
}

/// Reads the record of a server out of its status document.
pub fn status_from_json(doc: &Json, host: &str, delay: u64) -> (info: MotdJavaInfo)
    ensures
        info@ == status_of(doc@, host@, delay),
        info@.well_formed(),
{
    let root = Some(doc);
    let players = member_of(root, "players");
    let version = member_of(root, "version");
    MotdJavaInfo {
        status: "online".to_owned(),
        host: host.to_owned(),
        motd: motd_from(member_of(root, "description")),
        agreement: int_from(member_of(version, "protocol")),
        version: text_from(member_of(version, "name")),
        online: int_from(member_of(players, "online")),
        max: int_from(member_of(players, "max")),
        sample: sample_from(member_of(players, "sample")),
        favicon: text_from(member_of(root, "favicon")),
        delay,
    }
}

/// What the body of a response comes to: the record of the document that
/// its text writes, or `Malformed` where the text is no JSON.
pub open spec fn status_of_text(text: Seq<char>, host: Seq<char>, delay: u64) -> Result<
    JavaInfoView,
    ProbeError,
> {
    match json_parse(text) {
        Some(doc) => Ok(status_of(doc, host, delay)),
        None => Err(ProbeError::Malformed),
    }
}

/// The view of what a probe returned.
pub open spec fn je_result_view(res: Result<MotdJavaInfo, ProbeError>) -> Result<
    JavaInfoView,
    ProbeError,
> {
    match res {
        Ok(info) => Ok(info@),
        Err(e) => Err(e),
    }
}

/// Reads the body of a response: its bytes as text, the text as JSON, the
/// document as a record.
pub fn decode_status(body: &[u8], host: &str, delay: u64) -> (res: Result<MotdJavaInfo, ProbeError>)
    ensures
        je_result_view(res) == status_of_text(utf8_lossy(body@), host@, delay),
        res matches Ok(info) ==> info@.well_formed(),
{
    let text = decode_utf8_lossy(body);
    match parse_json(text.as_str()) {
        Some(doc) => Ok(status_from_json(&doc, host, delay)),
        None => Err(ProbeError::Malformed),
    }
}

/// What became of the exchange with a JE server.
#[derive(Debug)]
pub enum JeExchange {
    /// No connection came about: refused, timed out, or the name did not
    /// resolve.
    NoConnection,
    /// The local side failed before anything could be sent.
    LocalFailure,
    /// The bytes that the server sent until the response was complete or
    /// the stream ended, and the milliseconds from just after the connect
    /// to the end of the read.
    Received { bytes: Vec<u8>, elapsed_ms: u64 },
}

/// An `JeExchange` with its bytes as a sequence.
pub ghost enum JeExchangeView {
    NoConnection,
    LocalFailure,
    Received { bytes: Seq<u8>, elapsed_ms: u64 },
}

impl View for JeExchange {
    type V = JeExchangeView;

    open spec fn view(&self) -> JeExchangeView {
        match self {
            JeExchange::NoConnection => JeExchangeView::NoConnection,
            JeExchange::LocalFailure => JeExchangeView::LocalFailure,
            JeExchange::Received { bytes, elapsed_ms } => JeExchangeView::Received {
                bytes: bytes@,
                elapsed_ms: *elapsed_ms,
            },
        }
    }
}

/// What a JE probe returns. An invalid target and a server that cannot be
/// reached give the offline record. A failure of the local side is an
/// error. Bytes that are no whole response, or whose body is no JSON, are
/// an error too. A whole response gives the record of its body, online.
pub open spec fn je_conclusion(host: Seq<char>, port: u16, exchange: JeExchangeView) -> Result<
    JavaInfoView,
    ProbeError,
> {
    if !valid_host(host) || !valid_port(port as int) {
        Ok(je_offline())
    } else {
        match exchange {
            JeExchangeView::NoConnection => Ok(je_offline()),
            JeExchangeView::LocalFailure => Err(ProbeError::Local),
            JeExchangeView::Received { bytes, elapsed_ms } => match response_scan(bytes) {
                Progress::Ready { start, len } => status_of_text(
                    utf8_lossy(bytes.subrange(start as int, start + len)),
                    host,
                    elapsed_ms,
                ),
                _ => Err(ProbeError::Malformed),
            },
        }
    }
}

/// A record is online only where a whole response came from a valid
/// target, and a record that is not online is the offline record, with
/// nothing filled in.
pub proof fn lemma_je_online_only_by_response(host: Seq<char>, port: u16, exchange: JeExchangeView)
    ensures
        je_conclusion(host, port, exchange) matches Ok(info) ==> (info.status == "online"@
            <==> valid_host(host) && valid_port(port as int) && exchange is Received
            && response_scan(exchange->bytes) is Ready),
        je_conclusion(host, port, exchange) matches Ok(info) ==> (info.status != "online"@
            ==> info == je_offline()),
{
    reveal_strlit("online");
    reveal_strlit("offline");
    assert("online"@.len() != "offline"@.len());
}

/// Concludes a JE probe of `host` and `port` from what became of the
/// exchange.
pub fn motd_je(host: &str, port: u16, exchange: &JeExchange) -> (res: Result<
    MotdJavaInfo,
    ProbeError,
>)
    ensures
        je_result_view(res) == je_conclusion(host@, port, exchange@),
        res matches Ok(info) ==> info@.well_formed(),
{
    if !is_valid_ip_or_domain(host) || !is_valid_port(port) {
        return Ok(MotdJavaInfo::new());
    }
    match exchange {
        JeExchange::NoConnection => Ok(MotdJavaInfo::new()),
        JeExchange::LocalFailure => Err(ProbeError::Local),
        JeExchange::Received { bytes, elapsed_ms } => {
            let received = bytes.as_slice();
            match response_progress(received) {
                Progress::Ready { start, len } => {
                    let body = slice_subrange(received, start, start + len);
                    decode_status(body, host, *elapsed_ms)
                },
                _ => Err(ProbeError::Malformed),
            }
        },
    }
}

} // verus!
