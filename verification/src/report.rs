//! The report that a lookup hands back: one labelled line per field of a
//! status record, headed by the protocol that answered.

use crate::motd_be::{BeInfoView, MotdBEInfo};
use crate::motd_je::{pairs_view, JavaInfoView, MotdJavaInfo};
use crate::text::{
    chars_of, decimal_text, has_prefix, i64_to_string, lemma_split_pieces, piece,
    signed_decimal_text, split, split_ranges, starts_with, trim, trim_range, u64_to_string,
};
use vstd::prelude::*;
use vstd::slice::slice_subrange;
use vstd::string::{StrSliceExecFns, StringExecFns};

verus! {

/// A string as `{:?}` prints it: between double quotes, with the
/// characters that cannot stand for themselves written as escapes.
pub uninterp spec fn str_debug(s: Seq<char>) -> Seq<char>;

/// Formats `s` with `{:?}` of `std::fmt`. The text depends on the string
/// alone; the contract gives it its name and claims no more.
#[verifier::external_body]
fn debug_str(s: &str) -> (text: String)
    ensures
        text@ == str_debug(s@),
{
    format!("{:?}", s)
}

/// One sampled player: the id and the name, each as `{:?}` prints a
/// string, in round brackets with a comma and a space between them.
pub open spec fn player_text(player: (Seq<char>, Seq<char>)) -> Seq<char> {
    "("@ + str_debug(player.0) + ", "@ + str_debug(player.1) + ")"@
}

/// The players of a sample in order, with a comma and a space between each
/// two of them.
pub open spec fn players_text(sample: Seq<(Seq<char>, Seq<char>)>) -> Seq<char>
    decreases sample.len(),
{
    if sample.len() == 0 {
        Seq::empty()
    } else if sample.len() == 1 {
        player_text(sample[0])
    } else {
        players_text(sample.drop_last()) + ", "@ + player_text(sample.last())
    }
}

/// The list of sampled players: the players in square brackets.
pub open spec fn sample_text(sample: Seq<(Seq<char>, Seq<char>)>) -> Seq<char> {
    "["@ + players_text(sample) + "]"@
}

/// The report of a BE record: after the head with the status, one labelled
/// line each for the banner, the protocol version, the software version,
/// the players online, the most players allowed, the server's id, the
/// level's name and the game mode, and a last line for the latency.
pub open spec fn be_report(info: BeInfoView) -> Seq<char> {
    "[BE] 状态: "@ + info.status + "\nMOTD: "@ + info.motd + "\n协议版: "@ + decimal_text(
        info.agreement as nat,
    ) + "\n版本: "@ + info.version + "\n在线: "@ + decimal_text(info.online as nat)
        + "\n最大: "@ + decimal_text(info.max as nat) + "\n唯一ID: "@ + info.server_unique_id
        + "\n存档名: "@ + info.level_name + "\n模式: "@ + info.game_mode + "\n延迟: "@
        + decimal_text(info.delay as nat) + "ms"@
}

/// The report of a JE record in which `sample` stands for the list of
/// sampled players: after the head with the status, one labelled line each
/// for the banner, the players online, the most players allowed, the
/// sampled players, the protocol version, the software version and the
/// favicon, and a last line for the latency. The favicon's line begins with
/// the label `图标: `.
pub open spec fn je_report_with(info: JavaInfoView, sample: Seq<char>) -> Seq<char> {
    "[JE] 状态: "@ + info.status + "\nMOTD: "@ + info.motd + "\n在线: "@ + signed_decimal_text(
        info.online as int,
    ) + "\n最大: "@ + signed_decimal_text(info.max as int) + "\n在线玩家列表: "@ + sample
        + "\n协议版: "@ + signed_decimal_text(info.agreement as int) + "\n版本: "@
        + info.version + "\n图标: "@ + info.favicon + "\n延迟: "@ + decimal_text(
        info.delay as nat,
    ) + "ms"@
}

/// The report of a JE record.
pub open spec fn je_report(info: JavaInfoView) -> Seq<char> {
    je_report_with(info, sample_text(info.sample))
}

/// Writes the report of a BE record.
pub fn fmt_be(info: MotdBEInfo) -> (text: String)
    ensures
        text@ == be_report(info@),
{
    let mut text = "[BE] 状态: ".to_owned();
    text.append(info.status.as_str());
    text.append("\nMOTD: ");
    text.append(info.motd.as_str());
    text.append("\n协议版: ");
    text.append(u64_to_string(info.agreement as u64).as_str());
    text.append("\n版本: ");
    text.append(info.version.as_str());
    text.append("\n在线: ");
    text.append(u64_to_string(info.online as u64).as_str());
    text.append("\n最大: ");
    text.append(u64_to_string(info.max as u64).as_str());
    text.append("\n唯一ID: ");
    text.append(info.server_unique_id.as_str());
    text.append("\n存档名: ");
    text.append(info.level_name.as_str());
    text.append("\n模式: ");
    text.append(info.game_mode.as_str());
    text.append("\n延迟: ");
    text.append(u64_to_string(info.delay).as_str());
    text.append("ms");
    text
}

/// Writes the report of a JE record, with `sample` for the list of sampled
/// players.
pub fn fmt_je_with(info: &MotdJavaInfo, sample: &str) -> (text: String)
    ensures
        text@ == je_report_with(info@, sample@),
{
    let mut text = "[JE] 状态: ".to_owned();
    text.append(info.status.as_str());
    text.append("\nMOTD: ");
    text.append(info.motd.as_str());
    text.append("\n在线: ");
    text.append(i64_to_string(info.online as i64).as_str());
    text.append("\n最大: ");
    text.append(i64_to_string(info.max as i64).as_str());
    text.append("\n在线玩家列表: ");
    text.append(sample);
    text.append("\n协议版: ");
    text.append(i64_to_string(info.agreement as i64).as_str());
    text.append("\n版本: ");
    text.append(info.version.as_str());
    text.append("\n图标: ");
    text.append(info.favicon.as_str());
    text.append("\n延迟: ");
    text.append(u64_to_string(info.delay).as_str());
    text.append("ms");
    text
}

/// Writes the list of sampled players.
pub fn fmt_sample(sample: &Vec<(String, String)>) -> (text: String)
    ensures
        text@ == sample_text(pairs_view(sample@)),
{
    let ghost all = pairs_view(sample@);
    let mut text = "[".to_owned();
    let mut i: usize = 0;
    while i < sample.len()
        invariant
            i <= sample@.len(),
            all == pairs_view(sample@),
            text@ == "["@ + players_text(all.take(i as int)),
        decreases sample@.len() - i,
    {
        let ghost before = all.take(i as int);
        if i > 0 {
            text.append(", ");
        }
        text.append("(");
        text.append(debug_str(sample[i].0.as_str()).as_str());
        text.append(", ");
        text.append(debug_str(sample[i].1.as_str()).as_str());
        text.append(")");
        proof {
            let now = all.take(i + 1);
            assert(now.drop_last() =~= before);
        }
        i = i + 1;
    }
    assert(all.take(i as int) =~= all);
    text.append("]");
    text
}

/// Writes the report of a JE record.
pub fn fmt_je(info: MotdJavaInfo) -> (text: String)
    ensures
        text@ == je_report(info@),
{
    let sample = fmt_sample(&info.sample);
    fmt_je_with(&info, sample.as_str())
}

/// The label that opens the favicon's line of a report.
pub open spec fn favicon_label() -> Seq<char> {
    "图标: "@
}

/// What a favicon begins with: the head of a data URI for a PNG image in
/// base64.
pub open spec fn favicon_scheme() -> Seq<char> {
    "data:image/png;base64,"@
}

/// `s` without the carriage return that may end it.
pub open spec fn strip_cr(s: Seq<char>) -> Seq<char> {
    if s.len() > 0 && s.last() == '\r' {
        s.drop_last()
    } else {
        s
    }
}

/// The number of lines of a text whose pieces between line feeds are
/// `pieces`: what follows the last line feed is a line only where it is
/// not empty.
pub open spec fn line_count(pieces: Seq<Seq<char>>) -> int {
    if pieces.len() > 0 && pieces.last().len() == 0 {
        pieces.len() - 1
    } else {
        pieces.len() as int
    }
}

/// The line `k` of a text whose pieces between line feeds are `pieces`: a
/// piece that a line feed ends loses the carriage return before it.
pub open spec fn line_at(pieces: Seq<Seq<char>>, k: int) -> Seq<char> {
    if k < pieces.len() - 1 {
        strip_cr(pieces[k])
    } else {
        pieces[k]
    }
}

/// The lines of `s`: a line ends in a line feed, with or without a
/// carriage return before it, and the last line may do without.
pub open spec fn lines(s: Seq<char>) -> Seq<Seq<char>> {
    let pieces = split(s, '\n');
    Seq::new(line_count(pieces) as nat, |k: int| line_at(pieces, k))
}

/// The first of `lines` that begins with the favicon's label.
pub open spec fn first_labelled(lines: Seq<Seq<char>>) -> Option<Seq<char>>
    decreases lines.len(),
{
    if lines.len() == 0 {
        None
    } else if has_prefix(lines[0], favicon_label()) {
        Some(lines[0])
    } else {
        first_labelled(lines.skip(1))
    }
}

/// The base64 data of the favicon in a report: what follows the scheme in
/// the first line that begins with the favicon's label, white space around
/// the value left out. `None` where there is no such line or its value
/// does not begin with the scheme.
pub open spec fn favicon_of(report: Seq<char>) -> Option<Seq<char>> {
    match first_labelled(lines(report)) {
        Some(line) => {
            let value = trim(line.skip(favicon_label().len() as int));
            if has_prefix(value, favicon_scheme()) {
                Some(value.skip(favicon_scheme().len() as int))
            } else {
                None
            }
        },
        None => None,
    }
}

/// Those of `lines` that do not begin with the favicon's label, in order.
pub open spec fn kept_lines(lines: Seq<Seq<char>>) -> Seq<Seq<char>>
    decreases lines.len(),
{
    if lines.len() == 0 {
        Seq::empty()
    } else if has_prefix(lines.last(), favicon_label()) {
        kept_lines(lines.drop_last())
    } else {
        kept_lines(lines.drop_last()).push(lines.last())
    }
}

/// `lines` with a line feed between each two of them.
pub open spec fn join_lines(lines: Seq<Seq<char>>) -> Seq<char>
    decreases lines.len(),
{
    if lines.len() == 0 {
        Seq::empty()
    } else if lines.len() == 1 {
        lines[0]
    } else {
        join_lines(lines.drop_last()) + seq!['\n'] + lines.last()
    }
}

/// A report without the lines that begin with the favicon's label.
pub open spec fn without_favicon(report: Seq<char>) -> Seq<char> {
    join_lines(kept_lines(lines(report)))
}

/// The bounds of the lines of `chars`.
fn line_ranges(chars: &[char]) -> (ranges: Vec<(usize, usize)>)
    ensures
        ranges@.len() == lines(chars@).len(),
        forall|k: int|
            #![trigger ranges@[k]]
            0 <= k < ranges@.len() ==> ranges@[k].0 <= ranges@[k].1 <= chars@.len() && piece(
                chars@,
                ranges@[k],
            ) == lines(chars@)[k],
{
    let pieces = split_ranges(chars, '\n');
    let ghost parts = split(chars@, '\n');
    proof {
        lemma_split_pieces(chars@, '\n');
    }
    let n = pieces.len();
    let mut ranges: Vec<(usize, usize)> = Vec::new();
    let mut k: usize = 0;
    while k < n
        invariant
            k <= n,
            n == pieces@.len(),
            n >= 1,
            parts == split(chars@, '\n'),
            pieces@.len() == parts.len(),
            forall|j: int|
                #![trigger pieces@[j]]
                0 <= j < pieces@.len() ==> pieces@[j].0 <= pieces@[j].1 <= chars@.len() && piece(
                    chars@,
                    pieces@[j],
                ) == parts[j],
            ranges@.len() == (if k == n {
                line_count(parts)
            } else {
                k as int
            }),
            forall|j: int|
                #![trigger ranges@[j]]
                0 <= j < ranges@.len() ==> ranges@[j].0 <= ranges@[j].1 <= chars@.len() && piece(
                    chars@,
                    ranges@[j],
                ) == line_at(parts, j),
        decreases n - k,
    {
        let (lo, hi) = pieces[k];
        if k + 1 < n {
            if hi > lo && chars[hi - 1] == '\r' {
                ranges.push((lo, hi - 1));
            } else {
                ranges.push((lo, hi));
            }
        } else if hi > lo {
            ranges.push((lo, hi));
        }
        k = k + 1;
    }
    ranges
}

/// Takes the base64 data of the favicon out of a report.
pub fn extract_favicon(s: &str) -> (data: Option<String>)
    ensures
        match data {
            Some(d) => favicon_of(s@) == Some(d@),
            None => favicon_of(s@) is None,
        },
{
    proof {
        reveal_strlit("图标: ");
        reveal_strlit("data:image/png;base64,");
    }
    let chars = chars_of(s);
    let label = chars_of("图标: ");
    let scheme = chars_of("data:image/png;base64,");
    let ranges = line_ranges(chars.as_slice());
    let ghost all = lines(s@);
    let mut k: usize = 0;
    assert(all.skip(0) =~= all);
    while k < ranges.len()
        invariant
            k <= ranges@.len(),
            chars@ == s@,
            label@ == favicon_label(),
            scheme@ == favicon_scheme(),
            label@.len() == 4,
            all == lines(s@),
            ranges@.len() == all.len(),
            forall|j: int|
                #![trigger ranges@[j]]
                0 <= j < ranges@.len() ==> ranges@[j].0 <= ranges@[j].1 <= chars@.len() && piece(
                    chars@,
                    ranges@[j],
                ) == all[j],
            first_labelled(all) == first_labelled(all.skip(k as int)),
        decreases ranges@.len() - k,
    {
        let (lo, hi) = ranges[k];
        let line = slice_subrange(chars.as_slice(), lo, hi);
        assert(all.skip(k as int).skip(1) =~= all.skip(k + 1));
        if starts_with(line, label.as_slice()) {
            let (a, b) = trim_range(chars.as_slice(), lo + 4, hi);
            assert(chars@.subrange(lo + 4, hi as int) =~= all[k as int].skip(4));
            let value = slice_subrange(chars.as_slice(), a, b);
            if starts_with(value, scheme.as_slice()) {
                let from = a + scheme.len();
                return Some(s.substring_char(from, b).to_owned());
            } else {
                return None;
            }
        }
        k = k + 1;
    }
    None
}

/// Takes the lines that begin with the favicon's label out of a report.
pub fn remove_favicon_line(s: &str) -> (text: String)
    ensures
        text@ == without_favicon(s@),
{
    proof {
        reveal_strlit("图标: ");
        reveal_strlit("\n");
    }
    let chars = chars_of(s);
    let label = chars_of("图标: ");
    let ranges = line_ranges(chars.as_slice());
    let ghost all = lines(s@);
    let mut text = String::new();
    let mut any = false;
    let mut k: usize = 0;
    while k < ranges.len()
        invariant
            k <= ranges@.len(),
            chars@ == s@,
            label@ == favicon_label(),
            "\n"@ == seq!['\n'],
            all == lines(s@),
            ranges@.len() == all.len(),
            forall|j: int|
                #![trigger ranges@[j]]
                0 <= j < ranges@.len() ==> ranges@[j].0 <= ranges@[j].1 <= chars@.len() && piece(
                    chars@,
                    ranges@[j],
                ) == all[j],
            any == (kept_lines(all.take(k as int)).len() > 0),
            text@ == join_lines(kept_lines(all.take(k as int))),
        decreases ranges@.len() - k,
    {
        let (lo, hi) = ranges[k];
        let line = slice_subrange(chars.as_slice(), lo, hi);
        proof {
            assert(all.take(k + 1).drop_last() =~= all.take(k as int));
        }
        if !starts_with(line, label.as_slice()) {
            let ghost kept = kept_lines(all.take(k as int));
            if any {
                text.append("\n");
            }
            text.append(s.substring_char(lo, hi));
            proof {
                assert(kept.push(all[k as int]).drop_last() =~= kept);
            }
            any = true;
        }
        k = k + 1;
    }
    assert(all.take(k as int) =~= all);
    text
}

} // verus!
