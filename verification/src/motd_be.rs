//! The BE probe: one unconnected ping over UDP, answered by one datagram
//! whose text is a list of fields separated by semicolons.

use crate::probe::ProbeError;
use crate::text::{
    chars_of, decode_utf8_lossy, parse_u32, piece, split, split_ranges, u32_or_zero, utf8_lossy,
};
use crate::utils::{is_valid_ip_or_domain, is_valid_port, valid_host, valid_port};
use crate::wire::{be64_bytes, write_u64_be};
use vstd::prelude::*;
use vstd::slice::slice_subrange;
use vstd::string::StrSliceExecFns;

verus! {

/// What a BE server said of itself, or the offline record where none did.
#[derive(Debug)]
pub struct MotdBEInfo {
    pub status: String,
    pub host: String,
    pub motd: String,
    pub agreement: u32,
    pub version: String,
    pub online: u32,
    pub max: u32,
    pub level_name: String,
    pub game_mode: String,
    pub server_unique_id: String,
    pub delay: u64,
}

/// A `MotdBEInfo` with its texts as sequences of characters.
pub ghost struct BeInfoView {
    pub status: Seq<char>,
    pub host: Seq<char>,
    pub motd: Seq<char>,
    pub agreement: u32,
    pub version: Seq<char>,
    pub online: u32,
    pub max: u32,
    pub level_name: Seq<char>,
    pub game_mode: Seq<char>,
    pub server_unique_id: Seq<char>,
    pub delay: u64,
}

/// The record of a server that did not answer: status `offline`, every
/// text empty, every number zero.
pub open spec fn be_offline() -> BeInfoView {
    BeInfoView {
        status: "offline"@,
        host: Seq::empty(),
        motd: Seq::empty(),
        agreement: 0,
        version: Seq::empty(),
        online: 0,
        max: 0,
        level_name: Seq::empty(),
        game_mode: Seq::empty(),
        server_unique_id: Seq::empty(),
        delay: 0,
    }
}

impl BeInfoView {
    /// What holds of every record that a probe returns: it is either
    /// online or the offline record, with nothing filled in.
    pub open spec fn well_formed(self) -> bool {
        self.status == "online"@ || self == be_offline()
    }
}

impl View for MotdBEInfo {
    type V = BeInfoView;

    open spec fn view(&self) -> BeInfoView {
        BeInfoView {
            status: self.status@,
            host: self.host@,
            motd: self.motd@,
            agreement: self.agreement,
            version: self.version@,
            online: self.online,
            max: self.max,
            level_name: self.level_name@,
            game_mode: self.game_mode@,
            server_unique_id: self.server_unique_id@,
            delay: self.delay,
        }
    }
}

impl MotdBEInfo {
    /// The offline record.
    pub fn new() -> (info: Self)
        ensures
            info@ == be_offline(),
            info@.well_formed(),
    {
        MotdBEInfo {
            status: "offline".to_owned(),
            host: String::new(),
            motd: String::new(),
            agreement: 0,
            version: String::new(),
            online: 0,
            max: 0,
            level_name: String::new(),
            game_mode: String::new(),
            server_unique_id: String::new(),
            delay: 0,
        }
    }

    /// Tells whether the record is that of a server that answered.
    pub fn is_online(&self) -> (yes: bool)
        ensures
            yes == (self@.status == "online"@),
    {
        let online = "online".to_owned();
        self.status == online
    }
}

/// The most bytes of a reply that are read; a longer datagram is cut here.
pub const MAX_REPLY_LEN: usize = 1024;

/// The fewest fields a reply must have.
pub const MIN_REPLY_FIELDS: usize = 9;

/// The packet id of an unconnected ping.
pub const PING_ID: u8 = 0x01;

/// The sixteen bytes by which a server knows the protocol.
pub open spec fn magic_bytes() -> Seq<u8> {
    seq![
        0x00u8,
        0xffu8,
        0xffu8,
        0x00u8,
        0xfeu8,
        0xfeu8,
        0xfeu8,
        0xfeu8,
        0xfdu8,
        0xfdu8,
        0xfdu8,
        0xfdu8,
        0x12u8,
        0x34u8,
        0x56u8,
        0x78u8,
    ]
}

/// The four bytes that the client calls itself by.
pub open spec fn client_id_bytes() -> Seq<u8> {
    seq![0x12u8, 0x34u8, 0x56u8, 0x78u8]
}

/// The eight zero bytes that stand for the client's GUID.
pub open spec fn client_guid_bytes() -> Seq<u8> {
    seq![0u8, 0u8, 0u8, 0u8, 0u8, 0u8, 0u8, 0u8]
}

/// The ping datagram: the packet id, the timestamp in eight big-endian
/// bytes, the magic, the client id and the client's GUID.
pub open spec fn ping_bytes(timestamp: u64) -> Seq<u8> {
    seq![PING_ID] + be64_bytes(timestamp) + magic_bytes() + client_id_bytes()
        + client_guid_bytes()
}

/// Appends the magic to `buf`.
fn put_magic(buf: &mut Vec<u8>)
    ensures
        final(buf)@ == old(buf)@ + magic_bytes(),
{
    buf.push(0x00);
    buf.push(0xff);
    buf.push(0xff);
    buf.push(0x00);
    buf.push(0xfe);
    buf.push(0xfe);
    buf.push(0xfe);
    buf.push(0xfe);
    buf.push(0xfd);
    buf.push(0xfd);
    buf.push(0xfd);
    buf.push(0xfd);
    buf.push(0x12);
    buf.push(0x34);
    buf.push(0x56);
    buf.push(0x78);
}

/// Builds the ping datagram. The timestamp is the caller's; the server
/// hands it back and nothing is made of it.
pub fn ping_packet(timestamp: u64) -> (packet: Vec<u8>)
    ensures
        packet@ == ping_bytes(timestamp),
{
    let mut packet: Vec<u8> = Vec::new();
    packet.push(PING_ID);
    write_u64_be(&mut packet, timestamp);
    put_magic(&mut packet);
    packet.push(0x12);
    packet.push(0x34);
    packet.push(0x56);
    packet.push(0x78);
    let ghost body = packet@;
    let mut i: usize = 0;
    while i < 8
        invariant
            i <= 8,
            packet@ == body + client_guid_bytes().take(i as int),
        decreases 8 - i,
    {
        packet.push(0);
        i = i + 1;
    }
    packet
}

/// Whether a ping of the target is to be attempted: the host and the port
/// are valid.
pub open spec fn be_probeable(host: Seq<char>, port: u16) -> bool {
    valid_host(host) && valid_port(port as int)
}

/// The datagram to send to the target, or `None` where no ping is to be
/// attempted.
pub fn ping_request(host: &str, port: u16, timestamp: u64) -> (request: Option<Vec<u8>>)
    ensures
        match request {
            Some(packet) => be_probeable(host@, port) && packet@ == ping_bytes(timestamp),
            None => !be_probeable(host@, port),
        },
{
    if !is_valid_ip_or_domain(host) || !is_valid_port(port) {
        return None;
    }
    Some(ping_packet(timestamp))
}

/// What the text of a reply comes to. The text is a list of fields
/// separated by semicolons. With fewer than nine fields it is malformed.
/// Otherwise the banner is field 1, the protocol version field 2, the
/// software version field 3, the players online and the most allowed
/// fields 4 and 5, the server's id field 6, the level's name field 7 and the
/// game mode field 8. A number that does not parse counts as 0.
pub open spec fn be_reply(text: Seq<char>, host: Seq<char>, delay: u64) -> Result<
    BeInfoView,
    ProbeError,
> {
    let fields = split(text, ';');
    if fields.len() >= MIN_REPLY_FIELDS {
        Ok(
            BeInfoView {
                status: "online"@,
                host,
                motd: fields[1],
                agreement: u32_or_zero(fields[2]),
                version: fields[3],
                online: u32_or_zero(fields[4]),
                max: u32_or_zero(fields[5]),
                level_name: fields[7],
                game_mode: fields[8],
                server_unique_id: fields[6],
                delay,
            },
        )
    } else {
        Err(ProbeError::Malformed)
    }
}

/// The view of what a probe returned.
pub open spec fn be_result_view(res: Result<MotdBEInfo, ProbeError>) -> Result<
    BeInfoView,
    ProbeError,
> {
    match res {
        Ok(info) => Ok(info@),
        Err(e) => Err(e),
    }
}

/// The field of `text` that the bounds `r` cut out, as a string.
fn field_text(text: &str, r: (usize, usize)) -> (field: String)
    requires
        r.0 <= r.1 <= text@.len(),
    ensures
        field@ == piece(text@, r),
{
    text.substring_char(r.0, r.1).to_owned()
}

/// The number that the field of `chars` within the bounds `r` writes, or 0.
fn field_number(chars: &[char], r: (usize, usize)) -> (n: u32)
    requires
        r.0 <= r.1 <= chars@.len(),
    ensures
        n == u32_or_zero(piece(chars@, r)),
{
    match parse_u32(slice_subrange(chars, r.0, r.1)) {
        Some(n) => n,
        None => 0,
    }
}

/// Reads the record of a server out of the text of its reply.
pub fn parse_reply(text: &str, host: &str, delay: u64) -> (res: Result<MotdBEInfo, ProbeError>)
    ensures
        be_result_view(res) == be_reply(text@, host@, delay),
        split(text@, ';').len() < MIN_REPLY_FIELDS ==> res == Err::<MotdBEInfo, ProbeError>(
            ProbeError::Malformed,
        ),
        res matches Ok(info) ==> info@.well_formed(),
{
    let chars = chars_of(text);
    let ranges = split_ranges(chars.as_slice(), ';');
    if ranges.len() < MIN_REPLY_FIELDS {
        return Err(ProbeError::Malformed);
    }
    Ok(
        MotdBEInfo {
            status: "online".to_owned(),
            host: host.to_owned(),
            motd: field_text(text, ranges[1]),
            agreement: field_number(chars.as_slice(), ranges[2]),
            version: field_text(text, ranges[3]),
            online: field_number(chars.as_slice(), ranges[4]),
            max: field_number(chars.as_slice(), ranges[5]),
            level_name: field_text(text, ranges[7]),
            game_mode: field_text(text, ranges[8]),
            server_unique_id: field_text(text, ranges[6]),
            delay,
        },
    )
}

/// The part of a datagram that is read: its first `MAX_REPLY_LEN` bytes.
pub open spec fn reply_window(data: Seq<u8>) -> Seq<u8> {
    if data.len() > MAX_REPLY_LEN {
        data.take(MAX_REPLY_LEN as int)
    } else {
        data
    }
}

/// Reads a reply datagram: its bytes as text, the text as a record.
pub fn decode_reply(data: &[u8], host: &str, delay: u64) -> (res: Result<MotdBEInfo, ProbeError>)
    ensures
        be_result_view(res) == be_reply(utf8_lossy(reply_window(data@)), host@, delay),
        res matches Ok(info) ==> info@.well_formed(),
{
    let window = if data.len() > MAX_REPLY_LEN {
        slice_subrange(data, 0, MAX_REPLY_LEN)
    } else {
        data
    };
    let text = decode_utf8_lossy(window);
    parse_reply(text.as_str(), host, delay)
}

/// What became of the exchange with a BE server.
#[derive(Debug)]
pub enum BeExchange {
    /// No local socket could be opened.
    NoSocket,
    /// The server could not be reached, or no datagram came from it within
    /// the time allowed.
    Silent,
    /// The datagram that came, and the milliseconds from just after the
    /// ping was sent to its arrival.
    Reply { data: Vec<u8>, elapsed_ms: u64 },
}

/// A `BeExchange` with its bytes as a sequence.
pub ghost enum BeExchangeView {
    NoSocket,
    Silent,
    Reply { data: Seq<u8>, elapsed_ms: u64 },
}

impl View for BeExchange {
    type V = BeExchangeView;

    open spec fn view(&self) -> BeExchangeView {
        match self {
            BeExchange::NoSocket => BeExchangeView::NoSocket,
            BeExchange::Silent => BeExchangeView::Silent,
            BeExchange::Reply { data, elapsed_ms } => BeExchangeView::Reply {
                data: data@,
                elapsed_ms: *elapsed_ms,
            },
        }
    }
}

/// What a BE probe returns. An invalid target gives the offline record,
/// and so does a server that sends nothing in time. A local socket that
/// cannot be had is an error. A reply gives what its text comes to: a record,
/// online, or `Malformed`.
pub open spec fn be_conclusion(host: Seq<char>, port: u16, exchange: BeExchangeView) -> Result<
    BeInfoView,
    ProbeError,
> {
    if !be_probeable(host, port) {
        Ok(be_offline())
    } else {
        match exchange {
            BeExchangeView::NoSocket => Err(ProbeError::Local),
            BeExchangeView::Silent => Ok(be_offline()),
            BeExchangeView::Reply { data, elapsed_ms } => be_reply(
                utf8_lossy(reply_window(data)),
                host,
                elapsed_ms,
            ),
        }
    }
}

/// A reply with fewer than nine fields is a failure of its own kind: the
/// probe reports it as malformed and does not pass it off as silence.
pub proof fn lemma_short_reply_is_malformed(
    host: Seq<char>,
    port: u16,
    data: Seq<u8>,
    elapsed_ms: u64,
)
    requires
        be_probeable(host, port),
        split(utf8_lossy(reply_window(data)), ';').len() < MIN_REPLY_FIELDS,
    ensures
        be_conclusion(host, port, BeExchangeView::Reply { data, elapsed_ms }) == Err::<
            BeInfoView,
            ProbeError,
        >(ProbeError::Malformed),
{
}

/// A probe that hears nothing in time returns the offline record, whose
/// numbers are all zero, and never an error.
pub proof fn lemma_silence_is_offline(host: Seq<char>, port: u16)
    ensures
        be_conclusion(host, port, BeExchangeView::Silent) == Ok::<BeInfoView, ProbeError>(
            be_offline(),
        ),
        be_offline().agreement == 0,
        be_offline().online == 0,
        be_offline().max == 0,
        be_offline().delay == 0,
{
}

/// A record is online only where a reply came from a valid target, and a
/// record that is not online is the offline record, with nothing filled in.
pub proof fn lemma_be_online_only_by_reply(host: Seq<char>, port: u16, exchange: BeExchangeView)
    ensures
        be_conclusion(host, port, exchange) matches Ok(info) ==> (info.status == "online"@ <==> (
        be_probeable(host, port) && exchange is Reply)),
        be_conclusion(host, port, exchange) matches Ok(info) ==> (info.status != "online"@
            ==> info == be_offline()),
{
    reveal_strlit("online");
    reveal_strlit("offline");
    assert("online"@.len() != "offline"@.len());
}

/// Concludes a BE probe of `host` and `port` from what became of the
/// exchange.
pub fn motd_be(host: &str, port: u16, exchange: &BeExchange) -> (res: Result<
    MotdBEInfo,
    ProbeError,
>)
    ensures
        be_result_view(res) == be_conclusion(host@, port, exchange@),
        exchange@ is Silent ==> be_result_view(res) == Ok::<BeInfoView, ProbeError>(be_offline()),
        res matches Ok(info) ==> info@.well_formed(),
{
    if !is_valid_ip_or_domain(host) || !is_valid_port(port) {
        return Ok(MotdBEInfo::new());
    }
    match exchange {
        BeExchange::NoSocket => Err(ProbeError::Local),
        BeExchange::Silent => Ok(MotdBEInfo::new()),
        BeExchange::Reply { data, elapsed_ms } => decode_reply(data.as_slice(), host, *elapsed_ms),
    }
}

} // verus!
