//! The lookup: which questions to put to the network, in which order, and
//! when to stop. The lookup itself performs none of them. It hands out one
//! `Query` at a time and takes the `Answer` back; the caller resolves the
//! name or runs the probe.
//!
//! A target given without a port is first looked up as an SRV record, and a
//! record that is found is probed as a JE server. After that the protocol
//! that the target suggests is probed, then the other one. The first probe
//! that finds a server online ends the lookup with its report.

use crate::motd_be::{BeInfoView, MotdBEInfo};
use crate::motd_je::{JavaInfoView, MotdJavaInfo};
use crate::probe::ProbeError;
use crate::report::{be_report, fmt_be, fmt_je, je_report};
use crate::text::{
    chars_of, ends_with, find_char, first_index, has_suffix, parse_u32, parse_u32_text, piece,
    trim, trim_range,
};
use crate::utils::{is_valid_ip_or_domain, is_valid_port, valid_host, valid_port};
use vstd::prelude::*;
use vstd::slice::slice_subrange;
use vstd::string::{StrSliceExecFns, StringExecFns};

verus! {

/// The port a JE server listens on unless told otherwise.
pub const JE_DEFAULT_PORT: u16 = 25565;

/// The port a BE server listens on unless told otherwise.
pub const BE_DEFAULT_PORT: u16 = 19132;

/// The second port that is taken as a sign of a BE server.
pub const BE_SECOND_PORT: u16 = 19133;

/// One of the two protocols.
#[derive(Clone, Copy, Debug, PartialEq, Eq, Structural)]
pub enum Protocol {
    Be,
    Je,
}

/// Why a lookup ended without a report.
#[derive(Clone, Copy, Debug, PartialEq, Eq, Structural)]
pub enum FetchError {
    /// The host or the port is not valid; nothing was asked of the network.
    InvalidInput,
    /// No probe found a server online.
    Unreachable,
}

impl FetchError {
    /// The one line that tells the user of the failure.
    pub open spec fn text(self) -> Seq<char> {
        match self {
            FetchError::InvalidInput => "无效的 IP/域名 或 端口号"@,
            FetchError::Unreachable => "无法获取到服务器的 MOTD 信息"@,
        }
    }

    /// Writes the line that tells the user of the failure.
    pub fn message(&self) -> (line: String)
        ensures
            line@ == self.text(),
    {
        match self {
            FetchError::InvalidInput => "无效的 IP/域名 或 端口号".to_owned(),
            FetchError::Unreachable => "无法获取到服务器的 MOTD 信息".to_owned(),
        }
    }
}

/// The host that a target of the form `host` or `host:port` names: what
/// stands before the first colon, white space around it left out.
pub open spec fn target_host(target: Seq<char>) -> Seq<char> {
    trim(target.take(first_index(target, ':')))
}

/// The port that a target of the form `host` or `host:port` names: the
/// number after the first colon, where there is a colon and what follows it
/// writes a number of 16 bits.
pub open spec fn target_port(target: Seq<char>) -> Option<u16> {
    let colon = first_index(target, ':');
    if 0 <= colon < target.len() {
        match parse_u32_text(target.skip(colon + 1)) {
            Some(n) => if n <= u16::MAX {
                Some(n as u16)
            } else {
                None
            },
            None => None,
        }
    } else {
        None
    }
}

/// Reads a target of the form `host` or `host:port`.
pub fn parse_target(target: &str) -> (parts: (String, Option<u16>))
    ensures
        parts.0@ == target_host(target@),
        parts.1 == target_port(target@),
{
    let chars = chars_of(target);
    let colon = find_char(chars.as_slice(), 0, ':');
    assert(target@.skip(0) =~= target@);
    let (a, b) = trim_range(chars.as_slice(), 0, colon);
    let host = target.substring_char(a, b).to_owned();
    let port = if colon < chars.len() {
        let digits = slice_subrange(chars.as_slice(), colon + 1, chars.len());
        match parse_u32(digits) {
            Some(n) => if n <= 0xffff {
                Some(n as u16)
            } else {
                None
            },
            None => None,
        }
    } else {
        None
    };
    (host, port)
}

/// The question that a lookup is waiting to have answered.
#[derive(Clone, Copy, Debug, PartialEq, Eq, Structural)]
pub enum Stage {
    /// The SRV record of the host.
    Srv,
    /// The JE probe of the target that the SRV record named.
    SrvProbe,
    /// The probe of the preferred protocol.
    First,
    /// The probe of the other protocol.
    Second,
}

/// One SRV record of a host.
#[derive(Debug)]
pub struct SrvRecord {
    pub target: String,
    pub port: u16,
    pub priority: u16,
    pub weight: u16,
}

/// A `SrvRecord` with its target as a sequence of characters.
pub ghost struct SrvRecordView {
    pub target: Seq<char>,
    pub port: u16,
    pub priority: u16,
    pub weight: u16,
}

impl View for SrvRecord {
    type V = SrvRecordView;

    open spec fn view(&self) -> SrvRecordView {
        SrvRecordView {
            target: self.target@,
            port: self.port,
            priority: self.priority,
            weight: self.weight,
        }
    }
}

/// The records of an answer, each by its view.
pub open spec fn records_view(records: Seq<SrvRecord>) -> Seq<SrvRecordView> {
    Seq::new(records.len(), |i: int| records[i]@)
}

/// A question for the caller to put to the network.
#[derive(Debug)]
pub enum Query {
    /// Resolve the SRV records of `name`.
    Srv { name: String },
    /// Run the BE probe against `host` and `port`.
    Be { host: String, port: u16 },
    /// Run the JE probe against `host` and `port`.
    Je { host: String, port: u16 },
}

/// A `Query` with its texts as sequences of characters.
pub ghost enum QueryView {
    Srv { name: Seq<char> },
    Be { host: Seq<char>, port: u16 },
    Je { host: Seq<char>, port: u16 },
}

impl View for Query {
    type V = QueryView;

    open spec fn view(&self) -> QueryView {
        match self {
            Query::Srv { name } => QueryView::Srv { name: name@ },
            Query::Be { host, port } => QueryView::Be { host: host@, port: *port },
            Query::Je { host, port } => QueryView::Je { host: host@, port: *port },
        }
    }
}

/// What the network had to say to a `Query`.
pub enum Answer {
    /// The SRV records in the order in which the resolver gave them; none
    /// where there is none or the resolution failed.
    Srv(Vec<SrvRecord>),
    /// What the BE probe returned.
    Be(Result<MotdBEInfo, ProbeError>),
    /// What the JE probe returned.
    Je(Result<MotdJavaInfo, ProbeError>),
}

/// An `Answer` with its texts as sequences of characters.
pub ghost enum AnswerView {
    Srv(Seq<SrvRecordView>),
    Be(Result<BeInfoView, ProbeError>),
    Je(Result<JavaInfoView, ProbeError>),
}

impl View for Answer {
    type V = AnswerView;

    open spec fn view(&self) -> AnswerView {
        match self {
            Answer::Srv(records) => AnswerView::Srv(records_view(records@)),
            Answer::Be(Ok(info)) => AnswerView::Be(Ok(info@)),
            Answer::Be(Err(e)) => AnswerView::Be(Err(*e)),
            Answer::Je(Ok(info)) => AnswerView::Je(Ok(info@)),
            Answer::Je(Err(e)) => AnswerView::Je(Err(*e)),
        }
    }
}

/// A lookup under way: the target as the caller gave it, and the question
/// that is out.
#[derive(Debug)]
pub struct Fetch {
    pub host: String,
    pub port: Option<u16>,
    pub stage: Stage,
}

/// A `Fetch` with its host as a sequence of characters.
pub ghost struct FetchView {
    pub host: Seq<char>,
    pub port: Option<u16>,
    pub stage: Stage,
}

impl View for Fetch {
    type V = FetchView;

    open spec fn view(&self) -> FetchView {
        FetchView { host: self.host@, port: self.port, stage: self.stage }
    }
}

/// What a lookup does next.
pub enum Step {
    /// Put the query to the network and come back with the answer.
    Ask(Fetch, Query),
    /// The lookup is over: the report of the server found, or the reason
    /// there is none.
    Done(Result<String, FetchError>),
}

/// A `Step` with its texts as sequences of characters.
pub ghost enum StepView {
    Ask(FetchView, QueryView),
    Done(Result<Seq<char>, FetchError>),
}

impl View for Step {
    type V = StepView;

    open spec fn view(&self) -> StepView {
        match self {
            Step::Ask(fetch, query) => StepView::Ask(fetch@, query@),
            Step::Done(Ok(text)) => StepView::Done(Ok(text@)),
            Step::Done(Err(e)) => StepView::Done(Err(*e)),
        }
    }
}

/// The port that a protocol is probed on when the caller named none.
pub open spec fn default_port(protocol: Protocol) -> u16 {
    match protocol {
        Protocol::Be => BE_DEFAULT_PORT,
        Protocol::Je => JE_DEFAULT_PORT,
    }
}

/// The protocol that is not `protocol`.
pub open spec fn other(protocol: Protocol) -> Protocol {
    match protocol {
        Protocol::Be => Protocol::Je,
        Protocol::Je => Protocol::Be,
    }
}

/// The protocol to probe first: BE for a port of 19132 or 19133, else BE
/// for a host that ends in `be`, else JE.
pub open spec fn preferred(host: Seq<char>, port: Option<u16>) -> Protocol {
    if port == Some(BE_DEFAULT_PORT) || port == Some(BE_SECOND_PORT) {
        Protocol::Be
    } else if has_suffix(host, seq!['b', 'e']) {
        Protocol::Be
    } else {
        Protocol::Je
    }
}

/// The probe of `protocol` against the target: on the port the caller
/// named, or on the protocol's own.
pub open spec fn probe_query(protocol: Protocol, host: Seq<char>, port: Option<u16>) -> QueryView {
    let port = match port {
        Some(p) => p,
        None => default_port(protocol),
    };
    match protocol {
        Protocol::Be => QueryView::Be { host, port },
        Protocol::Je => QueryView::Je { host, port },
    }
}

/// The name under which the SRV record of `host` is kept.
pub open spec fn srv_name(host: Seq<char>) -> Seq<char> {
    "_minecraft._tcp."@ + host
}

/// `s` without the dots at its end.
pub open spec fn trim_end_dots(s: Seq<char>) -> Seq<char>
    decreases s.len(),
{
    if s.len() > 0 && s.last() == '.' {
        trim_end_dots(s.drop_last())
    } else {
        s
    }
}

/// The target that an answer to the SRV query names: the target of the
/// first record, without the dots at its end, and the port of that record.
/// An answer without a record names none.
pub open spec fn srv_target(answer: AnswerView) -> Option<(Seq<char>, u16)> {
    match answer {
        AnswerView::Srv(records) => if records.len() > 0 {
            Some((trim_end_dots(records[0].target), records[0].port))
        } else {
            None
        },
        _ => None,
    }
}

/// The report that `answer` ends the lookup with, where it is the answer
/// of a probe of `protocol` that found the server online.
pub open spec fn online_report(answer: AnswerView, protocol: Protocol) -> Option<Seq<char>> {
    match (answer, protocol) {
        (AnswerView::Be(Ok(info)), Protocol::Be) => if info.status == "online"@ {
            Some(be_report(info))
        } else {
            None
        },
        (AnswerView::Je(Ok(info)), Protocol::Je) => if info.status == "online"@ {
            Some(je_report(info))
        } else {
            None
        },
        _ => None,
    }
}

/// The protocol of the probe that a lookup is waiting for. While the SRV
/// record is out, no probe is.
pub open spec fn asked_protocol(fetch: FetchView) -> Protocol {
    match fetch.stage {
        Stage::Srv => Protocol::Je,
        Stage::SrvProbe => Protocol::Je,
        Stage::First => preferred(fetch.host, fetch.port),
        Stage::Second => other(preferred(fetch.host, fetch.port)),
    }
}

/// The step that puts the probe of `protocol` and waits for it at `stage`.
pub open spec fn ask_probe(
    host: Seq<char>,
    port: Option<u16>,
    stage: Stage,
    protocol: Protocol,
) -> StepView {
    StepView::Ask(FetchView { host, port, stage }, probe_query(protocol, host, port))
}

/// The first step of a lookup. An invalid host or port ends it at once.
/// Without a port the SRV record is asked for; with one, the preferred
/// protocol is probed.
pub open spec fn fetch_begin(host: Seq<char>, port: Option<u16>) -> StepView {
    if !valid_host(host) || (port is Some && !valid_port(port->0 as int)) {
        StepView::Done(Err(FetchError::InvalidInput))
    } else if port is None {
        StepView::Ask(
            FetchView { host, port, stage: Stage::Srv },
            QueryView::Srv { name: srv_name(host) },
        )
    } else {
        ask_probe(host, port, Stage::First, preferred(host, port))
    }
}

/// The step that follows `answer`. Only the answer of the probe that was
/// asked for, with a server online, ends the lookup with a report; any
/// other answer leads on as "not online" does, and after the second probe
/// to `Unreachable`. The first SRV record leads to a JE probe of its
/// target.
pub open spec fn fetch_advance(fetch: FetchView, answer: AnswerView) -> StepView {
    let first = preferred(fetch.host, fetch.port);
    match fetch.stage {
        Stage::Srv => match srv_target(answer) {
            Some((host, port)) => StepView::Ask(
                FetchView { host: fetch.host, port: fetch.port, stage: Stage::SrvProbe },
                QueryView::Je { host, port },
            ),
            None => ask_probe(fetch.host, fetch.port, Stage::First, first),
        },
        Stage::SrvProbe => match online_report(answer, Protocol::Je) {
            Some(text) => StepView::Done(Ok(text)),
            None => ask_probe(fetch.host, fetch.port, Stage::First, first),
        },
        Stage::First => match online_report(answer, first) {
            Some(text) => StepView::Done(Ok(text)),
            None => ask_probe(fetch.host, fetch.port, Stage::Second, other(first)),
        },
        Stage::Second => match online_report(answer, other(first)) {
            Some(text) => StepView::Done(Ok(text)),
            None => StepView::Done(Err(FetchError::Unreachable)),
        },
    }
}

/// The most questions that a lookup waiting at `stage` still puts, the one
/// that is out counted in.
pub open spec fn questions_left(stage: Stage) -> nat {
    match stage {
        Stage::Srv => 4,
        Stage::SrvProbe => 3,
        Stage::First => 2,
        Stage::Second => 1,
    }
}

/// Every answer brings a lookup nearer to its end, and the target stays
/// the one that the caller gave: a lookup puts at most four questions.
pub proof fn lemma_lookup_advances(fetch: FetchView, answer: AnswerView)
    ensures
        fetch_advance(fetch, answer) matches StepView::Ask(next, _) ==> questions_left(next.stage)
            < questions_left(fetch.stage) && next.host == fetch.host && next.port == fetch.port,
{
}

/// A lookup commits to the first probe that finds a server online: the
/// answer of the probe that was asked for, with status `online`, ends the
/// lookup with the report of that answer.
pub proof fn lemma_first_online_answer_wins(fetch: FetchView, answer: AnswerView)
    requires
        fetch.stage != Stage::Srv,
        online_report(answer, asked_protocol(fetch)) is Some,
    ensures
        fetch_advance(fetch, answer) == StepView::Done(
            Ok::<Seq<char>, FetchError>(online_report(answer, asked_protocol(fetch))->0),
        ),
{
}

/// The two probes of the target are of different protocols, and each goes
/// to the port that the caller named or else to its protocol's own: the
/// preference decides the order and leaves neither protocol out.
pub proof fn lemma_both_protocols_are_probed(fetch: FetchView, answer: AnswerView)
    requires
        fetch.stage == Stage::First,
        online_report(answer, preferred(fetch.host, fetch.port)) is None,
    ensures
        fetch_advance(fetch, answer) == ask_probe(
            fetch.host,
            fetch.port,
            Stage::Second,
            other(preferred(fetch.host, fetch.port)),
        ),
        other(preferred(fetch.host, fetch.port)) != preferred(fetch.host, fetch.port),
{
}

/// A target without a port whose SRV record names a JE server that is
/// online: the lookup asks for the record, probes the record's target, and
/// ends with the report of that probe. Neither probe of the target itself
/// is asked for.
pub proof fn lemma_srv_target_online(
    host: Seq<char>,
    records: Seq<SrvRecordView>,
    info: JavaInfoView,
)
    requires
        valid_host(host),
        records.len() > 0,
        info.status == "online"@,
    ensures
        ({
            let waiting = FetchView { host, port: None, stage: Stage::Srv };
            let probing = FetchView { host, port: None, stage: Stage::SrvProbe };
            &&& fetch_begin(host, None) == StepView::Ask(
                waiting,
                QueryView::Srv { name: srv_name(host) },
            )
            &&& fetch_advance(waiting, AnswerView::Srv(records)) == StepView::Ask(
                probing,
                QueryView::Je { host: trim_end_dots(records[0].target), port: records[0].port },
            )
            &&& fetch_advance(probing, AnswerView::Je(Ok(info))) == StepView::Done(
                Ok::<Seq<char>, FetchError>(je_report(info)),
            )
        }),
{
}

/// A target with its port pinned at which neither protocol is online: the
/// lookup probes the preferred protocol and then the other, both on the
/// port that the caller named, and ends with `Unreachable`. No SRV record
/// is asked for.
pub proof fn lemma_pinned_port_unreachable(
    host: Seq<char>,
    port: u16,
    first: AnswerView,
    second: AnswerView,
)
    requires
        valid_host(host),
        valid_port(port as int),
        online_report(first, preferred(host, Some(port))) is None,
        online_report(second, other(preferred(host, Some(port)))) is None,
    ensures
        ({
            let protocol = preferred(host, Some(port));
            let one = FetchView { host, port: Some(port), stage: Stage::First };
            let two = FetchView { host, port: Some(port), stage: Stage::Second };
            &&& fetch_begin(host, Some(port)) == StepView::Ask(
                one,
                probe_query(protocol, host, Some(port)),
            )
            &&& fetch_advance(one, first) == StepView::Ask(
                two,
                probe_query(other(protocol), host, Some(port)),
            )
            &&& fetch_advance(two, second) == StepView::Done(
                Err::<Seq<char>, FetchError>(FetchError::Unreachable),
            )
            &&& probe_query(Protocol::Be, host, Some(port)) == (QueryView::Be { host, port })
            &&& probe_query(Protocol::Je, host, Some(port)) == (QueryView::Je { host, port })
        }),
{
}

/// A target without a port and without an SRV record, for which JE is
/// preferred and online: the lookup asks for the record, probes JE on its
/// default port, and ends with the report of that probe. The BE probe is
/// never asked for.
pub proof fn lemma_preferred_je_online(host: Seq<char>, info: JavaInfoView)
    requires
        valid_host(host),
        preferred(host, None) == Protocol::Je,
        info.status == "online"@,
    ensures
        ({
            let waiting = FetchView { host, port: None, stage: Stage::Srv };
            let probing = FetchView { host, port: None, stage: Stage::First };
            &&& fetch_begin(host, None) == StepView::Ask(
                waiting,
                QueryView::Srv { name: srv_name(host) },
            )
            &&& fetch_advance(waiting, AnswerView::Srv(Seq::empty())) == StepView::Ask(
                probing,
                QueryView::Je { host, port: JE_DEFAULT_PORT },
            )
            &&& fetch_advance(probing, AnswerView::Je(Ok(info))) == StepView::Done(
                Ok::<Seq<char>, FetchError>(je_report(info)),
            )
        }),
{
}

/// Takes the dots off the end of `name`.
pub fn strip_trailing_dots(name: &str) -> (stripped: String)
    ensures
        stripped@ == trim_end_dots(name@),
{
    let chars = chars_of(name);
    let mut end: usize = chars.len();
    assert(name@.take(end as int) =~= name@);
    while end > 0 && chars[end - 1] == '.'
        invariant
            end <= chars@.len(),
            chars@ == name@,
            trim_end_dots(name@) == trim_end_dots(name@.take(end as int)),
        decreases end,
    {
        assert(name@.take(end as int).drop_last() =~= name@.take(end - 1));
        end = end - 1;
    }
    name.substring_char(0, end).to_owned()
}

/// The target that an answer to the SRV query names.
pub fn first_srv_target(answer: &Answer) -> (target: Option<(String, u16)>)
    ensures
        match target {
            Some((host, port)) => srv_target(answer@) == Some((host@, port)),
            None => srv_target(answer@) is None,
        },
{
    match answer {
        Answer::Srv(records) => {
            if records.len() > 0 {
                let first = &records[0];
                Some((strip_trailing_dots(first.target.as_str()), first.port))
            } else {
                None
            }
        },
        _ => None,
    }
}

/// Picks the protocol to probe first.
pub fn preferred_protocol(host: &str, port: Option<u16>) -> (protocol: Protocol)
    ensures
        protocol == preferred(host@, port),
{
    let by_port = match port {
        Some(p) => p == BE_DEFAULT_PORT || p == BE_SECOND_PORT,
        None => false,
    };
    if by_port {
        return Protocol::Be;
    }
    proof {
        reveal_strlit("be");
    }
    let chars = chars_of(host);
    let suffix = chars_of("be");
    assert(suffix@ =~= seq!['b', 'e']);
    if ends_with(chars.as_slice(), suffix.as_slice()) {
        Protocol::Be
    } else {
        Protocol::Je
    }
}

/// The query that probes `protocol` against the target.
fn make_probe_query(protocol: Protocol, host: &str, port: Option<u16>) -> (query: Query)
    ensures
        query@ == probe_query(protocol, host@, port),
{
    match protocol {
        Protocol::Be => {
            let port = match port {
                Some(p) => p,
                None => BE_DEFAULT_PORT,
            };
            Query::Be { host: host.to_owned(), port }
        },
        Protocol::Je => {
            let port = match port {
                Some(p) => p,
                None => JE_DEFAULT_PORT,
            };
            Query::Je { host: host.to_owned(), port }
        },
    }
}

/// The report of a probe of `protocol` that found the server online.
fn report_if_online(answer: Answer, protocol: Protocol) -> (report: Option<String>)
    ensures
        match report {
            Some(text) => online_report(answer@, protocol) == Some(text@),
            None => online_report(answer@, protocol) is None,
        },
{
    match answer {
        Answer::Be(Ok(info)) => {
            if protocol == Protocol::Be && info.is_online() {
                Some(fmt_be(info))
            } else {
                None
            }
        },
        Answer::Je(Ok(info)) => {
            if protocol == Protocol::Je && info.is_online() {
                Some(fmt_je(info))
            } else {
                None
            }
        },
        _ => None,
    }
}

/// The protocol that is not `protocol`.
fn other_protocol(protocol: Protocol) -> (o: Protocol)
    ensures
        o == other(protocol),
{
    match protocol {
        Protocol::Be => Protocol::Je,
        Protocol::Je => Protocol::Be,
    }
}

/// Begins the lookup of `host`, on `port` where the caller names one.
pub fn fetch_motd(host: &str, port: Option<u16>) -> (step: Step)
    ensures
        step@ == fetch_begin(host@, port),
{
    let port_ok = match port {
        Some(p) => is_valid_port(p),
        None => true,
    };
    if !is_valid_ip_or_domain(host) || !port_ok {
        return Step::Done(Err(FetchError::InvalidInput));
    }
    match port {
        None => {
            let mut name = "_minecraft._tcp.".to_owned();
            name.append(host);
            Step::Ask(
                Fetch { host: host.to_owned(), port, stage: Stage::Srv },
                Query::Srv { name },
            )
        },
        Some(_) => {
            let first = preferred_protocol(host, port);
            let query = make_probe_query(first, host, port);
            Step::Ask(Fetch { host: host.to_owned(), port, stage: Stage::First }, query)
        },
    }
}

impl Fetch {
    /// Takes the answer to the query that is out and says what to do next.
    pub fn advance(self, answer: Answer) -> (step: Step)
        ensures
            step@ == fetch_advance(self@, answer@),
    {
        let first = preferred_protocol(self.host.as_str(), self.port);
        match self.stage {
            Stage::Srv => {
                if let Some((host, port)) = first_srv_target(&answer) {
                    Step::Ask(
                        Fetch { host: self.host, port: self.port, stage: Stage::SrvProbe },
                        Query::Je { host, port },
                    )
                } else {
                    let query = make_probe_query(first, self.host.as_str(), self.port);
                    Step::Ask(
                        Fetch { host: self.host, port: self.port, stage: Stage::First },
                        query,
                    )
                }
            },
            Stage::SrvProbe => match report_if_online(answer, Protocol::Je) {
                Some(text) => Step::Done(Ok(text)),
                None => {
                    let query = make_probe_query(first, self.host.as_str(), self.port);
                    Step::Ask(
                        Fetch { host: self.host, port: self.port, stage: Stage::First },
                        query,
                    )
                },
            },
            Stage::First => match report_if_online(answer, first) {
                Some(text) => Step::Done(Ok(text)),
                None => {
                    let second = other_protocol(first);
                    let query = make_probe_query(second, self.host.as_str(), self.port);
                    Step::Ask(
                        Fetch { host: self.host, port: self.port, stage: Stage::Second },
                        query,
                    )
                },
            },
            Stage::Second => match report_if_online(answer, other_protocol(first)) {
                Some(text) => Step::Done(Ok(text)),
                None => Step::Done(Err(FetchError::Unreachable)),
            },
        }
    }
}

} // verus!
