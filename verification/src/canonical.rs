//! The text of an address is a literal, and the address that it writes is
//! the address itself.

use crate::address::{
    address_value, first_gap, first_longest_run, group_value, groups_text, groups_value,
    ipv4_text, ipv4_value, ipv6_text, ipv6_value, is_first_longest_run, is_mapped,
    lemma_first_longest_run_is, lemma_zero_run_fits, octet_value, part_value, quad_segments,
    segments_quad, zero_segments, zeros_from, AddressView,
};
use crate::literal::{
    all_hex_digits, decimal_text, hex_text, hex_value, is_digit, is_hex_digit, lemma_decimal_text,
    lemma_hex_text,
};
use crate::text::{
    lemma_split_after_first, lemma_split_before_last, lemma_split_keeps_characters,
    lemma_split_without_separator, split_seq,
};
use vstd::prelude::*;

verus! {

// ---------------------------------------------------------------------------
// Dotted quads
// ---------------------------------------------------------------------------

/// The digits of an octet are read as that octet.
pub proof fn lemma_octet_round_trip(octet: u8)
    ensures
        octet_value(decimal_text(octet as nat)) == Some(octet),
{
    lemma_decimal_text(octet as nat);
}

/// A dotted quad holds digits and dots and nothing else, and seven
/// characters at least.
pub proof fn lemma_ipv4_text_characters(octets: Seq<u8>)
    requires
        octets.len() == 4,
    ensures
        ipv4_text(octets).len() >= 7,
        forall|j: int|
            0 <= j < ipv4_text(octets).len() ==> is_digit(#[trigger] ipv4_text(octets)[j])
                || ipv4_text(octets)[j] == '.',
{
    let a = decimal_text(octets[0] as nat);
    let b = decimal_text(octets[1] as nat);
    let c = decimal_text(octets[2] as nat);
    let d = decimal_text(octets[3] as nat);
    lemma_decimal_text(octets[0] as nat);
    lemma_decimal_text(octets[1] as nat);
    lemma_decimal_text(octets[2] as nat);
    lemma_decimal_text(octets[3] as nat);
    let text = ipv4_text(octets);
    assert forall|j: int| 0 <= j < text.len() implies is_digit(#[trigger] text[j]) || text[j]
        == '.' by {
        if j < a.len() {
            assert(text[j] == a[j]);
        } else if j == a.len() {
        } else if j < a.len() + 1 + b.len() {
            assert(text[j] == b[j - a.len() - 1]);
        } else if j == a.len() + 1 + b.len() {
        } else if j < a.len() + 1 + b.len() + 1 + c.len() {
            assert(text[j] == c[j - a.len() - b.len() - 2]);
        } else if j == a.len() + 1 + b.len() + 1 + c.len() {
        } else {
            assert(text[j] == d[j - a.len() - b.len() - c.len() - 3]);
        }
    }
}

/// The dotted quad of four octets is read as those octets.
pub proof fn lemma_ipv4_round_trip(octets: Seq<u8>)
    requires
        octets.len() == 4,
    ensures
        ipv4_value(ipv4_text(octets)) == Some(octets),
{
    let a = decimal_text(octets[0] as nat);
    let b = decimal_text(octets[1] as nat);
    let c = decimal_text(octets[2] as nat);
    let d = decimal_text(octets[3] as nat);
    lemma_decimal_text(octets[0] as nat);
    lemma_decimal_text(octets[1] as nat);
    lemma_decimal_text(octets[2] as nat);
    lemma_decimal_text(octets[3] as nat);
    lemma_octet_round_trip(octets[0]);
    lemma_octet_round_trip(octets[1]);
    lemma_octet_round_trip(octets[2]);
    lemma_octet_round_trip(octets[3]);
    let text = ipv4_text(octets);
    let after_a = b + seq!['.'] + c + seq!['.'] + d;
    let after_b = c + seq!['.'] + d;
    assert(text =~= a + seq!['.'] + after_a);
    assert(after_a =~= b + seq!['.'] + after_b);
    lemma_split_after_first(a, '.', after_a);
    lemma_split_after_first(b, '.', after_b);
    lemma_split_after_first(c, '.', d);
    lemma_split_without_separator(d, '.');
    let fields = split_seq(text, '.');
    assert(fields =~= seq![a, b, c, d]);
    assert(octet_value(fields[0]) == Some(octets[0]));
    assert(octet_value(fields[1]) == Some(octets[1]));
    assert(octet_value(fields[2]) == Some(octets[2]));
    assert(octet_value(fields[3]) == Some(octets[3]));
    assert(ipv4_value(text).unwrap() =~= octets);
}

// ---------------------------------------------------------------------------
// Groups
// ---------------------------------------------------------------------------

/// The digits of a segment are read as that segment.
pub proof fn lemma_group_round_trip(segment: u16)
    ensures
        group_value(hex_text(segment as nat)) == Some(segment),
{
    lemma_hex_text(segment as nat);
}

/// The digits of each of a list of segments.
pub open spec fn hex_fields(segments: Seq<u16>) -> Seq<Seq<char>> {
    Seq::new(segments.len(), |i: int| hex_text(segments[i] as nat))
}

/// The groups of a list of segments, written with colons between them, are
/// cut at the colons into the digits of each segment. The text begins and
/// ends with a digit, and no two colons stand in a row in it.
pub proof fn lemma_groups_text_fields(segments: Seq<u16>)
    requires
        segments.len() >= 1,
    ensures
        split_seq(groups_text(segments), ':') == hex_fields(segments),
        groups_text(segments).len() >= 1,
        is_hex_digit(groups_text(segments)[0]),
        is_hex_digit(groups_text(segments).last()),
        forall|i: int|
            0 <= i && i + 1 < groups_text(segments).len() ==> !(groups_text(segments)[i] == ':'
                && #[trigger] groups_text(segments)[i + 1] == ':'),
        segments.len() >= 2 ==> exists|j: int|
            0 <= j < groups_text(segments).len() && groups_text(segments)[j] == ':',
    decreases segments.len(),
{
    let text = groups_text(segments);
    let digits = hex_text(segments.last() as nat);
    lemma_hex_text(segments.last() as nat);
    if segments.len() == 1 {
        assert(segments.last() == segments[0]);
        lemma_split_without_separator(text, ':');
        assert(seq![text] =~= hex_fields(segments));
    } else {
        let before = segments.drop_last();
        let front = groups_text(before);
        lemma_groups_text_fields(before);
        assert(text == front + seq![':'] + digits);
        lemma_split_before_last(front, ':', digits);
        assert(hex_fields(before).push(digits) =~= hex_fields(segments));
        assert(text[0] == front[0]);
        assert(text.last() == digits.last());
        assert forall|i: int| 0 <= i && i + 1 < text.len() implies !(text[i] == ':'
            && #[trigger] text[i + 1] == ':') by {
            if i + 1 < front.len() {
                assert(text[i] == front[i]);
                assert(text[i + 1] == front[i + 1]);
            } else if i + 1 == front.len() {
                assert(text[i] == front.last());
            } else {
                assert(text[i + 1] == digits[i - front.len()]);
            }
        }
        assert(text[front.len() as int] == ':');
    }
}

/// The groups of a list of segments are read as those segments, whether or
/// not a dotted quad is allowed among them.
pub proof fn lemma_part_round_trip(segments: Seq<u16>, quad_allowed: bool)
    ensures
        part_value(groups_text(segments), quad_allowed) == Some(segments),
{
    let text = groups_text(segments);
    if segments.len() == 0 {
        assert(segments =~= Seq::<u16>::empty());
    } else {
        lemma_groups_text_fields(segments);
        let fields = split_seq(text, ':');
        let front = fields.drop_last();
        assert forall|i: int| 0 <= i < front.len() implies (#[trigger] group_value(front[i]))
            == Some(segments[i]) by {
            assert(front[i] == hex_text(segments[i] as nat));
            lemma_group_round_trip(segments[i]);
        }
        assert(groups_value(front) is Some);
        assert(groups_value(front).unwrap() =~= segments.drop_last());
        assert(fields.last() == hex_text(segments.last() as nat));
        lemma_group_round_trip(segments.last());
        assert(segments.drop_last().push(segments.last()) =~= segments);
    }
}

// ---------------------------------------------------------------------------
// Two colons in a row
// ---------------------------------------------------------------------------

/// A position at which two colons stand in a row, with no such pair before
/// it, is the first gap; so is the end of a text without such a pair.
pub proof fn lemma_first_gap_is(s: Seq<char>, k: int)
    requires
        0 <= k <= s.len(),
        forall|i: int| 0 <= i < k && i + 1 < s.len() ==> !(s[i] == ':' && #[trigger] s[i + 1] == ':'),
        k < s.len() ==> k + 1 < s.len() && s[k] == ':' && s[k + 1] == ':',
    ensures
        first_gap(s) == k,
    decreases s.len(),
{
    if s.len() < 2 {
    } else if s[0] == ':' && s[1] == ':' {
        if k > 0 {
            assert(!(s[0] == ':' && s[0int + 1] == ':'));
        }
    } else {
        let rest = s.drop_first();
        assert forall|i: int| 0 <= i < k - 1 && i + 1 < rest.len() implies !(rest[i] == ':'
            && #[trigger] rest[i + 1] == ':') by {
            assert(rest[i] == s[i + 1]);
            assert(rest[i + 1] == s[i + 1 + 1]);
        }
        if k < s.len() {
            assert(rest[k - 1] == s[k]);
            assert(rest[k] == s[k + 1]);
        }
        lemma_first_gap_is(rest, k - 1);
    }
}

// ---------------------------------------------------------------------------
// Runs of zero segments
// ---------------------------------------------------------------------------

/// Every segment of a run of zero segments is zero.
pub proof fn lemma_zero_run_is_zero(segments: Seq<u16>, i: int, k: int)
    requires
        0 <= i,
        0 <= k < zeros_from(segments, i),
    ensures
        i + k < segments.len(),
        segments[i + k] == 0,
    decreases k,
{
    if k > 0 {
        lemma_zero_run_is_zero(segments, i + 1, k - 1);
    }
}

/// Among the first `n` positions, one begins a run of zero segments that is
/// longer than every run before it and as long as every run after it.
proof fn lemma_longest_run_among(segments: Seq<u16>, n: int) -> (best: int)
    requires
        1 <= n <= segments.len(),
    ensures
        0 <= best < n,
        forall|j: int| 0 <= j < n ==> zeros_from(segments, j) <= zeros_from(segments, best),
        forall|j: int| 0 <= j < best ==> zeros_from(segments, j) < zeros_from(segments, best),
    decreases n,
{
    if n == 1 {
        0
    } else {
        let before = lemma_longest_run_among(segments, n - 1);
        if zeros_from(segments, n - 1) > zeros_from(segments, before) {
            n - 1
        } else {
            before
        }
    }
}

/// Segments, where there are any, have a first longest run of zero
/// segments.
pub proof fn lemma_first_longest_run(segments: Seq<u16>)
    requires
        segments.len() >= 1,
    ensures
        is_first_longest_run(segments, first_longest_run(segments)),
{
    let best = lemma_longest_run_among(segments, segments.len() as int);
    assert(is_first_longest_run(segments, best));
    lemma_first_longest_run_is(segments, best);
}

// ---------------------------------------------------------------------------
// Eight segments
// ---------------------------------------------------------------------------

/// Four times `f` writes the segment of all ones.
proof fn lemma_all_ones()
    ensures
        group_value(seq!['f', 'f', 'f', 'f']) == Some(0xffffu16),
{
    let one = seq!['f'];
    let two = seq!['f', 'f'];
    let three = seq!['f', 'f', 'f'];
    let four = seq!['f', 'f', 'f', 'f'];
    assert(one.drop_last() =~= Seq::<char>::empty());
    assert(two.drop_last() =~= one);
    assert(three.drop_last() =~= two);
    assert(four.drop_last() =~= three);
    assert(hex_value(one.drop_last()) == 0);
    assert(hex_value(one) == 0xf);
    assert(hex_value(two) == 0xff);
    assert(hex_value(three) == 0xfff);
    assert(hex_value(four) == 0xffff);
    assert(all_hex_digits(four));
}

/// A text in which a colon stands is no dotted quad.
pub proof fn lemma_colon_is_no_quad(s: Seq<char>, j: int)
    requires
        0 <= j < s.len(),
        s[j] == ':',
    ensures
        ipv4_value(s) is None,
{
    let place = lemma_split_keeps_characters(s, '.', j);
    if ipv4_value(s) is Some {
        let fields = split_seq(s, '.');
        assert(octet_value(fields[place.0]) is Some);
        assert(is_digit(fields[place.0][place.1]));
    }
}

/// The text of a mapped address is read as that address.
proof fn lemma_mapped_round_trip(segments: Seq<u16>)
    requires
        segments.len() == 8,
        is_mapped(segments),
    ensures
        ipv6_value(ipv6_text(segments)) == Some(segments),
        ipv4_value(ipv6_text(segments)) is None,
{
    let quad = segments_quad(segments[6], segments[7]);
    let quad_text = ipv4_text(quad);
    let ones = seq!['f', 'f', 'f', 'f'];
    let text = ipv6_text(segments);
    lemma_ipv4_text_characters(quad);
    lemma_ipv4_round_trip(quad);
    lemma_all_ones();
    assert(text == seq![':', ':', 'f', 'f', 'f', 'f', ':'] + quad_text);
    assert(text[0] == ':');
    assert(text[1] == ':');
    lemma_colon_is_no_quad(text, 0);
    assert(first_gap(text) == 0);
    let head = text.take(0);
    let tail = text.skip(2);
    assert(head.len() == 0);
    assert(part_value(head, false) == Some(Seq::<u16>::empty()));
    assert(tail =~= ones + seq![':'] + quad_text);
    assert forall|j: int| 0 <= j < quad_text.len() implies quad_text[j] != ':' by {}
    lemma_split_after_first(ones, ':', quad_text);
    lemma_split_without_separator(quad_text, ':');
    let fields = split_seq(tail, ':');
    assert(fields =~= seq![ones, quad_text]);
    let front = fields.drop_last();
    assert(front =~= seq![ones]);
    assert(group_value(front[0]) == Some(0xffffu16));
    assert(groups_value(front) is Some);
    assert(groups_value(front).unwrap() =~= seq![0xffffu16]);
    assert(fields.last() == quad_text);
    assert(group_value(quad_text) is None);
    assert(quad_segments(quad) =~= seq![segments[6], segments[7]]);
    assert(part_value(tail, true) == Some(seq![0xffffu16] + quad_segments(quad)));
    assert(Seq::<u16>::empty() + zero_segments(5) + (seq![0xffffu16] + quad_segments(quad))
        =~= segments);
}

/// The text of an address that is not mapped is read as that address.
proof fn lemma_plain_round_trip(segments: Seq<u16>)
    requires
        segments.len() == 8,
        !is_mapped(segments),
    ensures
        ipv6_value(ipv6_text(segments)) == Some(segments),
        ipv4_value(ipv6_text(segments)) is None,
{
    let text = ipv6_text(segments);
    let start = first_longest_run(segments);
    let len = zeros_from(segments, start) as int;
    lemma_first_longest_run(segments);
    lemma_zero_run_fits(segments, start);
    if len > 1 {
        let before = segments.take(start);
        let after = segments.skip(start + len);
        let head = groups_text(before);
        let tail = groups_text(after);
        assert(text == head + seq![':', ':'] + tail);
        let gap = head.len() as int;
        assert(text[gap] == ':');
        assert(text[gap + 1] == ':');
        lemma_colon_is_no_quad(text, gap);
        if before.len() >= 1 {
            lemma_groups_text_fields(before);
        }
        assert forall|i: int| 0 <= i < gap && i + 1 < text.len() implies !(text[i] == ':'
            && #[trigger] text[i + 1] == ':') by {
            if i + 1 < gap {
                assert(text[i] == head[i]);
                assert(text[i + 1] == head[i + 1]);
            } else {
                assert(text[i] == head.last());
            }
        }
        lemma_first_gap_is(text, gap);
        assert(text.take(gap) =~= head);
        assert(text.skip(gap + 2) =~= tail);
        lemma_part_round_trip(before, false);
        lemma_part_round_trip(after, true);
        assert forall|p: int| start <= p < start + len implies segments[p] == 0 by {
            lemma_zero_run_is_zero(segments, start, p - start);
        }
        assert(before + zero_segments(8 - before.len() - after.len()) + after =~= segments);
    } else {
        lemma_groups_text_fields(segments);
        let j = choose|j: int| 0 <= j < text.len() && text[j] == ':';
        lemma_colon_is_no_quad(text, j);
        lemma_first_gap_is(text, text.len() as int);
        lemma_part_round_trip(segments, true);
    }
}

/// The text of eight segments is read as those segments, and is no dotted
/// quad.
pub proof fn lemma_ipv6_round_trip(segments: Seq<u16>)
    requires
        segments.len() == 8,
    ensures
        ipv6_value(ipv6_text(segments)) == Some(segments),
        ipv4_value(ipv6_text(segments)) is None,
{
    if is_mapped(segments) {
        lemma_mapped_round_trip(segments);
    } else {
        lemma_plain_round_trip(segments);
    }
}

// ---------------------------------------------------------------------------
// Every address
// ---------------------------------------------------------------------------

/// The text of an address is a literal, and the address that the literal
/// writes is the address itself.
pub proof fn lemma_text_round_trip(address: AddressView)
    requires
        address.wf(),
    ensures
        address_value(address.text()) == Some(address),
{
    match address {
        AddressView::V4(octets) => {
            lemma_ipv4_round_trip(octets);
        },
        AddressView::V6(segments) => {
            lemma_ipv6_round_trip(segments);
        },
    }
}

} // verus!
