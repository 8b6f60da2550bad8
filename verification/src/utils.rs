//! Syntactic checks on the host and port of a probe target. Nothing here
//! touches the network.

use crate::text::{
    chars_of, digits_value, find_char, is_digit, lemma_split_covers, lemma_split_len,
    lemma_split_pieces, lemma_split_single, lemma_total_len_bounds, parse_u32, piece, split,
    split_ranges,
};
use vstd::prelude::*;
use vstd::slice::slice_subrange;

verus! {

/// A letter of either case or a digit.
pub open spec fn is_alnum(c: char) -> bool {
    ('a' <= c <= 'z') || ('A' <= c <= 'Z') || ('0' <= c <= '9')
}

/// A hexadecimal digit of either case.
pub open spec fn is_hex_digit(c: char) -> bool {
    ('0' <= c <= '9') || ('a' <= c <= 'f') || ('A' <= c <= 'F')
}

/// A label of a domain name: 1 to 63 letters, digits and hyphens, with no
/// hyphen at either end.
pub open spec fn is_label(l: Seq<char>) -> bool {
    &&& 1 <= l.len() <= 63
    &&& is_alnum(l[0])
    &&& is_alnum(l[l.len() - 1])
    &&& forall|i: int| 0 <= i < l.len() ==> is_alnum(#[trigger] l[i]) || l[i] == '-'
}

/// A domain name: labels separated by single dots, at least one of them.
pub open spec fn is_domain_name(s: Seq<char>) -> bool {
    forall|k: int| 0 <= k < split(s, '.').len() ==> is_label(#[trigger] split(s, '.')[k])
}

/// One of the four numbers of an IPv4 literal: 1 to 3 digits that write at
/// most 255, with no zero in front of another digit.
pub open spec fn is_octet(p: Seq<char>) -> bool {
    &&& 1 <= p.len() <= 3
    &&& forall|i: int| 0 <= i < p.len() ==> is_digit(#[trigger] p[i])
    &&& digits_value(p) <= 255
    &&& p.len() > 1 ==> p[0] != '0'
}

/// An IPv4 address in dotted decimal.
pub open spec fn is_ipv4_literal(s: Seq<char>) -> bool {
    &&& split(s, '.').len() == 4
    &&& forall|k: int| 0 <= k < 4 ==> is_octet(#[trigger] split(s, '.')[k])
}

/// One 16-bit group of an IPv6 literal: 1 to 4 hexadecimal digits.
pub open spec fn is_hex_group(g: Seq<char>) -> bool {
    &&& 1 <= g.len() <= 4
    &&& forall|i: int| 0 <= i < g.len() ==> is_hex_digit(#[trigger] g[i])
}

/// The pieces `g[from..to]` of an IPv6 literal are groups, the last of
/// them possibly an IPv4 literal where `last_may_be_v4` allows it.
pub open spec fn are_groups(g: Seq<Seq<char>>, from: int, to: int, last_may_be_v4: bool) -> bool {
    forall|k: int|
        from <= k < to ==> is_hex_group(#[trigger] g[k]) || (last_may_be_v4 && k == g.len() - 1
            && is_ipv4_literal(g[k]))
}

/// The number of 16-bit groups that the pieces `g[from..to]` fill.
pub open spec fn group_count(g: Seq<Seq<char>>, from: int, to: int) -> int {
    if from < to && to == g.len() && is_ipv4_literal(g[to - 1]) && !is_hex_group(g[to - 1]) {
        to - from + 1
    } else {
        to - from
    }
}

/// The pieces of an IPv6 literal with `::` at piece `e`, neither first nor
/// last: hexadecimal groups before it, groups after it, seven at most in
/// all.
pub open spec fn compressed_at(g: Seq<Seq<char>>, e: int) -> bool {
    &&& 0 < e < g.len() - 1
    &&& g[e].len() == 0
    &&& are_groups(g, 0, e, false)
    &&& are_groups(g, e + 1, g.len() as int, true)
    &&& group_count(g, 0, e) + group_count(g, e + 1, g.len() as int) <= 7
}

/// An IPv6 address in colon-separated hexadecimal: eight groups, or fewer
/// with one `::` standing for the groups left out (for all of them, at the
/// beginning, at the end, or in between), the last 32 bits possibly written
/// as an IPv4 literal.
pub open spec fn is_ipv6_literal(s: Seq<char>) -> bool {
    let g = split(s, ':');
    let n = g.len() as int;
    ||| (are_groups(g, 0, n, true) && group_count(g, 0, n) == 8)
    ||| (n == 3 && g[0].len() == 0 && g[1].len() == 0 && g[2].len() == 0)
    ||| (n >= 3 && g[0].len() == 0 && g[1].len() == 0 && are_groups(g, 2, n, true) && group_count(
        g,
        2,
        n,
    ) <= 7)
    ||| (n >= 3 && g[n - 1].len() == 0 && g[n - 2].len() == 0 && are_groups(g, 0, n - 2, false)
        && n - 2 <= 7)
    ||| (exists|e: int| #[trigger] compressed_at(g, e))
}

/// The number of decimal digits that `s` ends in.
pub open spec fn trailing_digits(s: Seq<char>) -> nat
    decreases s.len(),
{
    if s.len() > 0 && is_digit(s.last()) {
        1 + trailing_digits(s.drop_last())
    } else {
        0
    }
}

/// The part of a target that names the host: the target without the
/// `:port` at its end, where it ends in a colon followed by one or more
/// digits, and else the whole target.
pub open spec fn host_part(s: Seq<char>) -> Seq<char> {
    let d = trailing_digits(s);
    if 0 < d < s.len() && s[s.len() - d - 1] == ':' {
        s.take(s.len() - d - 1)
    } else {
        s
    }
}

/// A target is valid when its host part is an IP literal or a domain name.
pub open spec fn valid_host(s: Seq<char>) -> bool {
    let h = host_part(s);
    is_ipv4_literal(h) || is_ipv6_literal(h) || is_domain_name(h)
}

/// A port is valid when it lies in `1..=65535`.
pub open spec fn valid_port(port: int) -> bool {
    1 <= port <= 65535
}

/// Every IPv4 literal is also a domain name.
pub proof fn lemma_ipv4_is_domain_name(s: Seq<char>)
    requires
        is_ipv4_literal(s),
    ensures
        is_domain_name(s),
{
}

/// A domain name holds nothing but letters, digits, hyphens and dots.
pub proof fn lemma_domain_name_chars(s: Seq<char>, i: int)
    requires
        is_domain_name(s),
        0 <= i < s.len(),
    ensures
        is_alnum(s[i]) || s[i] == '-' || s[i] == '.',
{
    if s[i] != '.' {
        let (k, j) = lemma_split_covers(s, '.', i);
    }
}

/// A string without a colon is no IPv6 literal.
pub proof fn lemma_ipv6_needs_colon(s: Seq<char>)
    requires
        forall|j: int| 0 <= j < s.len() ==> s[j] != ':',
    ensures
        !is_ipv6_literal(s),
{
    lemma_split_single(s, ':');
}

/// An IPv6 literal has at most nine pieces between its colons.
pub proof fn lemma_ipv6_pieces(s: Seq<char>)
    requires
        is_ipv6_literal(s),
    ensures
        split(s, ':').len() <= 9,
{
}

/// Of a host part without a colon, validity is being a domain name; of
/// one with a colon, it is being an IPv6 literal.
pub proof fn lemma_valid_by_colon(h: Seq<char>)
    ensures
        (forall|j: int| 0 <= j < h.len() ==> h[j] != ':') ==> (is_ipv4_literal(h)
            || is_ipv6_literal(h) || is_domain_name(h)) == is_domain_name(h),
        (exists|j: int| 0 <= j < h.len() && h[j] == ':') ==> (is_ipv4_literal(h)
            || is_ipv6_literal(h) || is_domain_name(h)) == is_ipv6_literal(h),
{
    if is_ipv4_literal(h) {
        lemma_ipv4_is_domain_name(h);
    }
    if forall|j: int| 0 <= j < h.len() ==> h[j] != ':' {
        lemma_ipv6_needs_colon(h);
    }
    if exists|j: int| 0 <= j < h.len() && h[j] == ':' {
        let j = choose|j: int| 0 <= j < h.len() && h[j] == ':';
        if is_domain_name(h) {
            lemma_domain_name_chars(h, j);
        }
    }
}

/// The digits that `s` ends in are digits, and no more of them than `s`
/// has characters.
pub proof fn lemma_trailing_digits(s: Seq<char>)
    ensures
        trailing_digits(s) <= s.len(),
        forall|j: int| s.len() - trailing_digits(s) <= j < s.len() ==> is_digit(#[trigger] s[j]),
    decreases s.len(),
{
    if s.len() > 0 && is_digit(s.last()) {
        let before = s.drop_last();
        lemma_trailing_digits(before);
        assert forall|j: int| s.len() - trailing_digits(s) <= j < s.len() implies is_digit(
            #[trigger] s[j],
        ) by {
            if j < before.len() {
                assert(before[j] == s[j]);
            }
        }
    }
}

/// The host part is the beginning of the target, and what follows it is a
/// colon and digits.
pub proof fn lemma_host_part_prefix(s: Seq<char>)
    ensures
        host_part(s).len() <= s.len(),
        host_part(s) == s.take(host_part(s).len() as int),
        forall|j: int|
            host_part(s).len() <= j < s.len() ==> (#[trigger] s[j]) == ':' || is_digit(s[j]),
{
    lemma_trailing_digits(s);
}

/// An IPv4 literal has at most fifteen characters.
pub proof fn lemma_ipv4_len(s: Seq<char>)
    requires
        is_ipv4_literal(s),
    ensures
        s.len() <= 15,
{
    let p = split(s, '.');
    lemma_split_len(s, '.');
    lemma_total_len_bounds(p, 3);
}

/// The pieces of an IPv6 literal are empty, hexadecimal groups, or, the
/// last one, an IPv4 literal.
pub proof fn lemma_ipv6_piece(s: Seq<char>, k: int)
    requires
        is_ipv6_literal(s),
        0 <= k < split(s, ':').len(),
    ensures
        ({
            let g = split(s, ':');
            g[k].len() == 0 || is_hex_group(g[k]) || (k == g.len() - 1 && is_ipv4_literal(g[k]))
        }),
{
}

/// An IPv6 literal holds nothing but letters, digits, dots and colons.
pub proof fn lemma_ipv6_chars(s: Seq<char>, i: int)
    requires
        is_ipv6_literal(s),
        0 <= i < s.len(),
    ensures
        is_alnum(s[i]) || s[i] == '.' || s[i] == ':',
{
    if s[i] != ':' {
        let (k, j) = lemma_split_covers(s, ':', i);
        let p = split(s, ':')[k];
        lemma_ipv6_piece(s, k);
        if !is_hex_group(p) && p[j] != '.' {
            lemma_split_covers(p, '.', j);
        }
    }
}

/// An IPv6 literal has at most 55 characters.
pub proof fn lemma_ipv6_len(s: Seq<char>)
    requires
        is_ipv6_literal(s),
    ensures
        s.len() <= 55,
{
    let g = split(s, ':');
    lemma_split_pieces(s, ':');
    lemma_ipv6_pieces(s);
    lemma_split_len(s, ':');
    let before = g.drop_last();
    assert forall|k: int| 0 <= k < before.len() implies (#[trigger] before[k]).len() <= 4 by {
        lemma_ipv6_piece(s, k);
    }
    lemma_total_len_bounds(before, 4);
    lemma_ipv6_piece(s, g.len() - 1);
    if is_ipv4_literal(g.last()) {
        lemma_ipv4_len(g.last());
    }
}

/// A target that is empty, or holds a character other than a letter, a
/// digit, a hyphen, a dot or a colon (white space, for one), or whose host
/// part has more than 63 characters between two dots, is invalid.
pub proof fn lemma_malformed_host_rejected(s: Seq<char>)
    requires
        ({
            ||| s.len() == 0
            ||| exists|i: int|
                0 <= i < s.len() && !is_alnum(#[trigger] s[i]) && s[i] != '-' && s[i] != '.'
                    && s[i] != ':'
            ||| exists|k: int|
                0 <= k < split(host_part(s), '.').len() && (#[trigger] split(
                    host_part(s),
                    '.',
                )[k]).len() > 63
        }),
    ensures
        !valid_host(s),
{
    let h = host_part(s);
    lemma_host_part_prefix(s);
    lemma_valid_by_colon(h);
    lemma_split_pieces(h, '.');
    if is_ipv4_literal(h) {
        lemma_ipv4_is_domain_name(h);
    }
    if s.len() == 0 {
        lemma_ipv6_needs_colon(h);
    } else if exists|i: int|
        0 <= i < s.len() && !is_alnum(#[trigger] s[i]) && s[i] != '-' && s[i] != '.' && s[i]
            != ':' {
        let i = choose|i: int|
            0 <= i < s.len() && !is_alnum(#[trigger] s[i]) && s[i] != '-' && s[i] != '.' && s[i]
                != ':';
        if is_domain_name(h) {
            lemma_domain_name_chars(h, i);
        }
        if is_ipv6_literal(h) {
            lemma_ipv6_chars(h, i);
        }
    } else {
        if is_ipv6_literal(h) {
            lemma_ipv6_len(h);
            lemma_split_len(h, '.');
            lemma_total_len_bounds(split(h, '.'), 0);
        }
    }
}

/// Tells whether `c` is a letter or a digit.
pub fn is_alnum_char(c: char) -> (yes: bool)
    ensures
        yes == is_alnum(c),
{
    ('a' <= c && c <= 'z') || ('A' <= c && c <= 'Z') || ('0' <= c && c <= '9')
}

/// Tells whether the characters `s[lo..hi]` form a label.
fn is_label_at(s: &[char], lo: usize, hi: usize) -> (yes: bool)
    requires
        lo <= hi <= s@.len(),
    ensures
        yes == is_label(s@.subrange(lo as int, hi as int)),
{
    let ghost l = s@.subrange(lo as int, hi as int);
    if hi - lo < 1 || hi - lo > 63 {
        return false;
    }
    if !is_alnum_char(s[lo]) || !is_alnum_char(s[hi - 1]) {
        return false;
    }
    let mut i: usize = lo;
    while i < hi
        invariant
            lo <= i <= hi <= s@.len(),
            l == s@.subrange(lo as int, hi as int),
            forall|j: int| 0 <= j < i - lo ==> is_alnum(#[trigger] l[j]) || l[j] == '-',
        decreases hi - i,
    {
        assert(l[i - lo] == s@[i as int]);
        if !is_alnum_char(s[i]) && s[i] != '-' {
            return false;
        }
        i = i + 1;
    }
    true
}

/// The bounds `pieces` cut `s` into the pieces `g`.
pub open spec fn cut_by(s: Seq<char>, pieces: Seq<(usize, usize)>, g: Seq<Seq<char>>) -> bool {
    &&& pieces.len() == g.len()
    &&& forall|k: int|
        #![trigger pieces[k]]
        0 <= k < pieces.len() ==> pieces[k].0 <= pieces[k].1 <= s.len() && piece(s, pieces[k])
            == g[k]
}

/// Tells whether the characters `s[lo..hi]` are all decimal digits.
fn all_digits_at(s: &[char], lo: usize, hi: usize) -> (yes: bool)
    requires
        lo <= hi <= s@.len(),
    ensures
        yes == (forall|i: int|
            0 <= i < hi - lo ==> is_digit(#[trigger] s@.subrange(lo as int, hi as int)[i])),
{
    let ghost p = s@.subrange(lo as int, hi as int);
    let mut i: usize = lo;
    while i < hi
        invariant
            lo <= i <= hi <= s@.len(),
            p == s@.subrange(lo as int, hi as int),
            forall|j: int| 0 <= j < i - lo ==> is_digit(#[trigger] p[j]),
        decreases hi - i,
    {
        assert(p[i - lo] == s@[i as int]);
        if !('0' <= s[i] && s[i] <= '9') {
            return false;
        }
        i = i + 1;
    }
    true
}

/// Tells whether the characters `s[lo..hi]` form one number of an IPv4
/// literal.
fn is_octet_at(s: &[char], lo: usize, hi: usize) -> (yes: bool)
    requires
        lo <= hi <= s@.len(),
    ensures
        yes == is_octet(s@.subrange(lo as int, hi as int)),
{
    if hi - lo < 1 || hi - lo > 3 {
        return false;
    }
    if !all_digits_at(s, lo, hi) {
        return false;
    }
    if hi - lo > 1 && s[lo] == '0' {
        return false;
    }
    match parse_u32(slice_subrange(s, lo, hi)) {
        Some(v) => v <= 255,
        None => false,
    }
}

/// Tells whether the characters `s[lo..hi]` form an IPv4 address in dotted
/// decimal.
fn is_ipv4_at(s: &[char], lo: usize, hi: usize) -> (yes: bool)
    requires
        lo <= hi <= s@.len(),
    ensures
        yes == is_ipv4_literal(s@.subrange(lo as int, hi as int)),
{
    let part = slice_subrange(s, lo, hi);
    let ranges = split_ranges(part, '.');
    if ranges.len() != 4 {
        return false;
    }
    let mut k: usize = 0;
    while k < 4
        invariant
            k <= 4,
            part@ == s@.subrange(lo as int, hi as int),
            ranges@.len() == 4,
            cut_by(part@, ranges@, split(part@, '.')),
            forall|n: int| 0 <= n < k ==> is_octet(#[trigger] split(part@, '.')[n]),
        decreases 4 - k,
    {
        let r = ranges[k];
        if !is_octet_at(part, r.0, r.1) {
            return false;
        }
        k = k + 1;
    }
    true
}

/// Tells whether the characters `s[lo..hi]` form one hexadecimal group of
/// an IPv6 literal.
fn is_hex_group_at(s: &[char], lo: usize, hi: usize) -> (yes: bool)
    requires
        lo <= hi <= s@.len(),
    ensures
        yes == is_hex_group(s@.subrange(lo as int, hi as int)),
{
    let ghost p = s@.subrange(lo as int, hi as int);
    if hi - lo < 1 || hi - lo > 4 {
        return false;
    }
    let mut i: usize = lo;
    while i < hi
        invariant
            lo <= i <= hi <= s@.len(),
            p == s@.subrange(lo as int, hi as int),
            forall|j: int| 0 <= j < i - lo ==> is_hex_digit(#[trigger] p[j]),
        decreases hi - i,
    {
        let c = s[i];
        assert(p[i - lo] == c);
        if !(('0' <= c && c <= '9') || ('a' <= c && c <= 'f') || ('A' <= c && c <= 'F')) {
            return false;
        }
        i = i + 1;
    }
    true
}

/// Tells whether the pieces `from..to` of an IPv6 literal are groups.
fn groups_ok(
    s: &[char],
    pieces: &Vec<(usize, usize)>,
    from: usize,
    to: usize,
    last_may_be_v4: bool,
) -> (yes: bool)
    requires
        cut_by(s@, pieces@, split(s@, ':')),
        from <= to <= pieces@.len(),
    ensures
        yes == are_groups(split(s@, ':'), from as int, to as int, last_may_be_v4),
{
    let ghost g = split(s@, ':');
    let mut k: usize = from;
    while k < to
        invariant
            from <= k <= to <= pieces@.len(),
            g == split(s@, ':'),
            cut_by(s@, pieces@, g),
            forall|n: int|
                from <= n < k ==> is_hex_group(#[trigger] g[n]) || (last_may_be_v4 && n == g.len()
                    - 1 && is_ipv4_literal(g[n])),
        decreases to - k,
    {
        let r = pieces[k];
        let group = is_hex_group_at(s, r.0, r.1) || (last_may_be_v4 && k + 1 == pieces.len()
            && is_ipv4_at(s, r.0, r.1));
        if !group {
            return false;
        }
        k = k + 1;
    }
    true
}

/// Counts the 16-bit groups that the pieces `from..to` of an IPv6 literal
/// fill.
fn count_groups(s: &[char], pieces: &Vec<(usize, usize)>, from: usize, to: usize) -> (count:
    usize)
    requires
        cut_by(s@, pieces@, split(s@, ':')),
        from <= to <= pieces@.len() <= 9,
    ensures
        count == group_count(split(s@, ':'), from as int, to as int),
{
    if from < to && to == pieces.len() {
        let r = pieces[to - 1];
        if is_ipv4_at(s, r.0, r.1) && !is_hex_group_at(s, r.0, r.1) {
            return to - from + 1;
        }
    }
    to - from
}

/// Tells whether piece `k` is empty.
fn is_empty_piece(s: &[char], pieces: &Vec<(usize, usize)>, k: usize) -> (yes: bool)
    requires
        cut_by(s@, pieces@, split(s@, ':')),
        k < pieces@.len(),
    ensures
        yes == (split(s@, ':')[k as int].len() == 0),
{
    let r = pieces[k];
    r.0 == r.1
}

/// Tells whether the characters `s` form an IPv6 address.
fn is_ipv6_text(s: &[char]) -> (yes: bool)
    ensures
        yes == is_ipv6_literal(s@),
{
    let pieces = split_ranges(s, ':');
    let n = pieces.len();
    let ghost g = split(s@, ':');
    if n > 9 {
        proof {
            if is_ipv6_literal(s@) {
                lemma_ipv6_pieces(s@);
            }
        }
        return false;
    }
    if groups_ok(s, &pieces, 0, n, true) && count_groups(s, &pieces, 0, n) == 8 {
        return true;
    }
    if n >= 3 {
        let first_two = is_empty_piece(s, &pieces, 0) && is_empty_piece(s, &pieces, 1);
        let last_two = is_empty_piece(s, &pieces, n - 1) && is_empty_piece(s, &pieces, n - 2);
        if n == 3 && first_two && last_two {
            return true;
        }
        if first_two && groups_ok(s, &pieces, 2, n, true) && count_groups(s, &pieces, 2, n) <= 7 {
            return true;
        }
        if last_two && groups_ok(s, &pieces, 0, n - 2, false) && n - 2 <= 7 {
            return true;
        }
    }
    let mut e: usize = 1;
    while e + 1 < n
        invariant
            1 <= e <= 9,
            n == pieces@.len(),
            n <= 9,
            g == split(s@, ':'),
            cut_by(s@, pieces@, g),
            forall|i: int| 0 < i < e ==> !#[trigger] compressed_at(g, i),
        decreases n - e,
    {
        if is_empty_piece(s, &pieces, e) && groups_ok(s, &pieces, 0, e, false) && groups_ok(
            s,
            &pieces,
            e + 1,
            n,
            true,
        ) && count_groups(s, &pieces, 0, e) + count_groups(s, &pieces, e + 1, n) <= 7 {
            assert(compressed_at(g, e as int));
            return true;
        }
        e = e + 1;
    }
    false
}

/// The index at which the host part of `s` ends.
fn host_end(s: &[char]) -> (end: usize)
    ensures
        end <= s@.len(),
        s@.take(end as int) == host_part(s@),
{
    let mut i: usize = s.len();
    assert(s@.take(i as int) =~= s@);
    while i > 0 && '0' <= s[i - 1] && s[i - 1] <= '9'
        invariant
            i <= s@.len(),
            trailing_digits(s@) == (s@.len() - i) + trailing_digits(s@.take(i as int)),
        decreases i,
    {
        assert(s@.take(i as int).drop_last() =~= s@.take(i - 1));
        i = i - 1;
    }
    if 0 < i && i < s.len() && s[i - 1] == ':' {
        i - 1
    } else {
        s.len()
    }
}

/// Tells whether `host` names a host: an IP literal or a domain name, with
/// or without a `:port` at its end.
pub fn is_valid_ip_or_domain(host: &str) -> (ok: bool)
    ensures
        ok == valid_host(host@),
{
    let chars = chars_of(host);
    let end = host_end(chars.as_slice());
    let part = slice_subrange(chars.as_slice(), 0, end);
    proof {
        lemma_valid_by_colon(part@);
    }
    let colon = find_char(part, 0, ':');
    if colon < part.len() {
        return is_ipv6_text(part);
    }
    let ranges = split_ranges(part, '.');
    let mut k: usize = 0;
    while k < ranges.len()
        invariant
            k <= ranges@.len(),
            valid_host(host@) == is_domain_name(part@),
            cut_by(part@, ranges@, split(part@, '.')),
            forall|n: int| 0 <= n < k ==> is_label(#[trigger] split(part@, '.')[n]),
        decreases ranges@.len() - k,
    {
        let r = ranges[k];
        if !is_label_at(part, r.0, r.1) {
            return false;
        }
        k = k + 1;
    }
    true
}

/// Tells whether `port` names a port a server can listen on.
pub fn is_valid_port(port: u16) -> (ok: bool)
    ensures
        ok == valid_port(port as int),
{
    port != 0
}

} // verus!
