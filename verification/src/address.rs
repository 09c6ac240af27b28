//! Network addresses: the two families, the literals that write an address,
//! and the one text in which an address is written out.

use crate::literal::{
    all_digits, all_hex_digits, char_is_digit, decimal_chars, decimal_text, decimal_value,
    hex_chars, hex_digit_of, hex_text, hex_value, is_digit, is_hex_digit,
};
use crate::text::{append_chars, chars_of, slice_of, split_chars, split_seq, string_of};
use vstd::prelude::*;

verus! {

/// The two address families.
#[derive(Clone, Copy, Debug, PartialEq, Eq, Structural)]
pub enum Family {
    V4,
    V6,
}

/// What an address is, apart from how it is held: four octets, or eight
/// segments of sixteen bits.
pub enum AddressView {
    V4(Seq<u8>),
    V6(Seq<u16>),
}

/// A validated network address of either family.
#[derive(Clone, Copy, Debug)]
pub enum IpAddress {
    V4([u8; 4]),
    V6([u16; 8]),
}

impl View for IpAddress {
    type V = AddressView;

    open spec fn view(&self) -> AddressView {
        match *self {
            IpAddress::V4(octets) => AddressView::V4(octets@),
            IpAddress::V6(segments) => AddressView::V6(segments@),
        }
    }
}

impl AddressView {
    /// The family of the address.
    pub open spec fn family(self) -> Family {
        match self {
            AddressView::V4(_) => Family::V4,
            AddressView::V6(_) => Family::V6,
        }
    }

    /// Four octets, or eight segments.
    pub open spec fn wf(self) -> bool {
        match self {
            AddressView::V4(octets) => octets.len() == 4,
            AddressView::V6(segments) => segments.len() == 8,
        }
    }
}

// ---------------------------------------------------------------------------
// Dotted quads
// ---------------------------------------------------------------------------

/// The octet that `s` writes: one to three decimal digits, no zero before
/// another digit, at most 255. `None` for any other text.
pub open spec fn octet_value(s: Seq<char>) -> Option<u8> {
    if 1 <= s.len() <= 3 && all_digits(s) && (s.len() > 1 ==> s[0] != '0') && decimal_value(s)
        <= 255 {
        Some(decimal_value(s) as u8)
    } else {
        None
    }
}

/// The four octets that `s` writes as a dotted quad: four octet texts with a
/// dot between each two. `None` for any other text.
pub open spec fn ipv4_value(s: Seq<char>) -> Option<Seq<u8>> {
    let fields = split_seq(s, '.');
    if fields.len() == 4 && (forall|i: int|
        0 <= i < 4 ==> (#[trigger] octet_value(fields[i])) is Some) {
        Some(Seq::new(4, |i: int| octet_value(fields[i]).unwrap()))
    } else {
        None
    }
}

/// The dotted quad of four octets.
pub open spec fn ipv4_text(octets: Seq<u8>) -> Seq<char> {
    decimal_text(octets[0] as nat) + seq!['.'] + decimal_text(octets[1] as nat) + seq!['.']
        + decimal_text(octets[2] as nat) + seq!['.'] + decimal_text(octets[3] as nat)
}

/// Reads one octet of a dotted quad.
fn parse_octet(field: &Vec<char>) -> (value: Option<u8>)
    ensures
        value == octet_value(field@),
{
    let n = field.len();
    if n < 1 || n > 3 {
        return None;
    }
    let mut acc: u32 = 0;
    let mut i: usize = 0;
    assert(field@.take(0) == Seq::<char>::empty());
    while i < n
        invariant
            i <= n == field.len(),
            n <= 3,
            all_digits(field@.take(i as int)),
            acc == decimal_value(field@.take(i as int)),
            i == 0 ==> acc == 0,
            i == 1 ==> acc <= 9,
            i == 2 ==> acc <= 99,
            i == 3 ==> acc <= 999,
        decreases n - i,
    {
        let c = field[i];
        if !char_is_digit(c) {
            return None;
        }
        let ghost longer = field@.take(i + 1);
        assert(longer.drop_last() == field@.take(i as int));
        assert(longer.last() == c);
        assert forall|j: int| 0 <= j < longer.len() implies is_digit(#[trigger] longer[j]) by {
            if j < i {
                assert(longer[j] == field@.take(i as int)[j]);
            }
        }
        acc = acc * 10 + (c as u32 - 0x30);
        i += 1;
    }
    assert(field@.take(n as int) == field@);
    if n > 1 && field[0] == '0' {
        return None;
    }
    if acc > 255 {
        return None;
    }
    Some(acc as u8)
}

/// Reads a dotted quad.
pub fn parse_ipv4(v: &Vec<char>) -> (value: Option<[u8; 4]>)
    ensures
        value is Some <==> ipv4_value(v@) is Some,
        value matches Some(octets) ==> octets@ == ipv4_value(v@).unwrap(),
{
    let fields = split_chars(v, '.');
    if fields.len() != 4 {
        return None;
    }
    let ghost texts = split_seq(v@, '.');
    assert(forall|i: int| 0 <= i < 4 ==> texts[i] == (#[trigger] fields@[i])@);
    let mut octets: [u8; 4] = [0u8;4];
    let mut i: usize = 0;
    while i < 4
        invariant
            i <= 4,
            fields.len() == 4,
            texts == split_seq(v@, '.'),
            forall|k: int| 0 <= k < 4 ==> texts[k] == (#[trigger] fields@[k])@,
            forall|k: int| 0 <= k < i ==> (#[trigger] octet_value(texts[k])) == Some(octets@[k]),
        decreases 4 - i,
    {
        match parse_octet(&fields[i]) {
            Some(octet) => {
                octets[i] = octet;
            },
            None => {
                assert(octet_value(texts[i as int]) is None);
                return None;
            },
        }
        i += 1;
    }
    assert(octets@ =~= ipv4_value(v@).unwrap());
    Some(octets)
}

/// The dotted quad of four octets, as characters.
pub fn ipv4_chars(octets: &[u8; 4]) -> (out: Vec<char>)
    ensures
        out@ == ipv4_text(octets@),
{
    let mut out = decimal_chars(octets[0] as u64);
    out.push('.');
    append_chars(&mut out, &decimal_chars(octets[1] as u64));
    out.push('.');
    append_chars(&mut out, &decimal_chars(octets[2] as u64));
    out.push('.');
    append_chars(&mut out, &decimal_chars(octets[3] as u64));
    assert(out@ =~= ipv4_text(octets@));
    out
}

// ---------------------------------------------------------------------------
// Groups of sixteen bits
// ---------------------------------------------------------------------------

/// The segment that `s` writes: one to four hexadecimal digits, in either
/// case. `None` for any other text.
pub open spec fn group_value(s: Seq<char>) -> Option<u16> {
    if 1 <= s.len() <= 4 && all_hex_digits(s) {
        Some(hex_value(s) as u16)
    } else {
        None
    }
}

/// The segments that a list of fields writes where every field is a group;
/// `None` where one of them is not.
pub open spec fn groups_value(fields: Seq<Seq<char>>) -> Option<Seq<u16>> {
    if forall|i: int| 0 <= i < fields.len() ==> (#[trigger] group_value(fields[i])) is Some {
        Some(Seq::new(fields.len(), |i: int| group_value(fields[i]).unwrap()))
    } else {
        None
    }
}

/// The two segments that hold four octets, the first octet weighing most.
pub open spec fn quad_segments(octets: Seq<u8>) -> Seq<u16> {
    seq![(octets[0] * 256 + octets[1]) as u16, (octets[2] * 256 + octets[3]) as u16]
}

/// The four octets held by two segments.
pub open spec fn segments_quad(high: u16, low: u16) -> Seq<u8> {
    seq![(high / 256) as u8, (high % 256) as u8, (low / 256) as u8, (low % 256) as u8]
}

/// The segments that `t` writes as one side of an address: nothing for the
/// empty text; else groups with a colon between each two, where, if
/// `quad_allowed`, a dotted quad may stand in the last place for two
/// segments. `None` for any other text.
pub open spec fn part_value(t: Seq<char>, quad_allowed: bool) -> Option<Seq<u16>> {
    if t.len() == 0 {
        Some(Seq::empty())
    } else {
        let fields = split_seq(t, ':');
        let front = groups_value(fields.drop_last());
        let last = fields.last();
        if front is None {
            None
        } else if group_value(last) is Some {
            Some(front.unwrap().push(group_value(last).unwrap()))
        } else if quad_allowed && ipv4_value(last) is Some {
            Some(front.unwrap() + quad_segments(ipv4_value(last).unwrap()))
        } else {
            None
        }
    }
}

/// The position of the first two colons in a row; `s.len()` where `s` holds
/// no such pair.
pub open spec fn first_gap(s: Seq<char>) -> int
    decreases s.len(),
{
    if s.len() < 2 {
        s.len() as int
    } else if s[0] == ':' && s[1] == ':' {
        0
    } else {
        1 + first_gap(s.drop_first())
    }
}

/// `n` segments of zero.
pub open spec fn zero_segments(n: int) -> Seq<u16> {
    Seq::new(n as nat, |i: int| 0u16)
}

/// The eight segments that `s` writes. Without two colons in a row, `s` is
/// one side that writes all eight. With them, what stands before the first
/// such pair is one side, in which no dotted quad is allowed, what follows
/// the pair is another, the two write seven segments at most, and the pair
/// stands for the zero segments between them. `None` for any other text.
pub open spec fn ipv6_value(s: Seq<char>) -> Option<Seq<u16>> {
    let gap = first_gap(s);
    if 0 <= gap < s.len() {
        let head = part_value(s.take(gap), false);
        let tail = part_value(s.skip(gap + 2), true);
        if head is Some && tail is Some && head.unwrap().len() + tail.unwrap().len() <= 7 {
            Some(
                head.unwrap() + zero_segments(8 - head.unwrap().len() - tail.unwrap().len())
                    + tail.unwrap(),
            )
        } else {
            None
        }
    } else {
        match part_value(s, true) {
            Some(segments) => if segments.len() == 8 {
                Some(segments)
            } else {
                None
            },
            None => None,
        }
    }
}

/// The address that `s` writes: a dotted quad, or else the eight segments of
/// the other family. `None` where `s` is no address literal.
pub open spec fn address_value(s: Seq<char>) -> Option<AddressView> {
    match ipv4_value(s) {
        Some(octets) => Some(AddressView::V4(octets)),
        None => match ipv6_value(s) {
            Some(segments) => Some(AddressView::V6(segments)),
            None => None,
        },
    }
}

/// Reads one group.
fn parse_group(field: &Vec<char>) -> (value: Option<u16>)
    ensures
        value == group_value(field@),
{
    let n = field.len();
    if n < 1 || n > 4 {
        return None;
    }
    let mut acc: u32 = 0;
    let mut i: usize = 0;
    assert(field@.take(0) == Seq::<char>::empty());
    while i < n
        invariant
            i <= n == field.len(),
            n <= 4,
            all_hex_digits(field@.take(i as int)),
            acc == hex_value(field@.take(i as int)),
            i == 0 ==> acc == 0,
            i == 1 ==> acc <= 0xf,
            i == 2 ==> acc <= 0xff,
            i == 3 ==> acc <= 0xfff,
            i == 4 ==> acc <= 0xffff,
        decreases n - i,
    {
        let c = field[i];
        let digit = match hex_digit_of(c) {
            Some(d) => d,
            None => {
                return None;
            },
        };
        let ghost longer = field@.take(i + 1);
        assert(longer.drop_last() == field@.take(i as int));
        assert(longer.last() == c);
        assert forall|j: int| 0 <= j < longer.len() implies is_hex_digit(
            #[trigger] longer[j],
        ) by {
            if j < i {
                assert(longer[j] == field@.take(i as int)[j]);
            }
        }
        acc = acc * 16 + (digit as u32);
        i += 1;
    }
    assert(field@.take(n as int) == field@);
    Some(acc as u16)
}

/// Reads one side of an address.
fn parse_part(t: &Vec<char>, quad_allowed: bool) -> (value: Option<Vec<u16>>)
    ensures
        value is Some <==> part_value(t@, quad_allowed) is Some,
        value matches Some(segments) ==> segments@ == part_value(t@, quad_allowed).unwrap(),
{
    let mut segments: Vec<u16> = Vec::new();
    if t.len() == 0 {
        return Some(segments);
    }
    let fields = split_chars(t, ':');
    let ghost texts = split_seq(t@, ':');
    proof {
        crate::text::lemma_split_pieces_hold_no_separator(t@, ':');
    }
    assert(forall|i: int| 0 <= i < texts.len() ==> texts[i] == (#[trigger] fields@[i])@);
    let last = fields.len() - 1;
    let mut i: usize = 0;
    while i < last
        invariant
            i <= last == fields.len() - 1,
            texts == split_seq(t@, ':'),
            texts.len() == fields.len(),
            forall|k: int| 0 <= k < texts.len() ==> texts[k] == (#[trigger] fields@[k])@,
            segments.len() == i,
            forall|k: int| 0 <= k < i ==> (#[trigger] group_value(texts[k])) == Some(segments@[k]),
        decreases last - i,
    {
        match parse_group(&fields[i]) {
            Some(group) => {
                segments.push(group);
            },
            None => {
                assert(group_value(texts.drop_last()[i as int]) is None);
                return None;
            },
        }
        i += 1;
    }
    let ghost front = texts.drop_last();
    assert(forall|k: int| 0 <= k < front.len() ==> front[k] == texts[k]);
    assert(groups_value(front) is Some);
    assert(segments@ =~= groups_value(front).unwrap());
    match parse_group(&fields[last]) {
        Some(group) => {
            segments.push(group);
            Some(segments)
        },
        None => {
            if !quad_allowed {
                return None;
            }
            match parse_ipv4(&fields[last]) {
                Some(octets) => {
                    let high: u16 = (octets[0] as u16) * 256 + (octets[1] as u16);
                    let low: u16 = (octets[2] as u16) * 256 + (octets[3] as u16);
                    segments.push(high);
                    segments.push(low);
                    assert(segments@ =~= groups_value(front).unwrap() + quad_segments(octets@));
                    Some(segments)
                },
                None => None,
            }
        },
    }
}

/// Finds the first two colons in a row.
fn find_gap(v: &Vec<char>) -> (gap: usize)
    ensures
        gap == first_gap(v@),
        gap <= v.len(),
{
    let mut i: usize = 0;
    assert(v@.skip(0) == v@);
    while v.len() - i >= 2
        invariant
            i <= v.len(),
            first_gap(v@) == i + first_gap(v@.skip(i as int)),
        decreases v.len() - i,
    {
        if v[i] == ':' && v[i + 1] == ':' {
            assert(v@.skip(i as int)[0] == v@[i as int]);
            assert(v@.skip(i as int)[1] == v@[i + 1]);
            return i;
        }
        assert(v@.skip(i as int)[0] == v@[i as int]);
        assert(v@.skip(i as int)[1] == v@[i + 1]);
        assert(v@.skip(i as int).drop_first() == v@.skip(i + 1));
        i += 1;
    }
    v.len()
}

/// Reads the eight segments of an address of the second family.
pub fn parse_ipv6(v: &Vec<char>) -> (value: Option<[u16; 8]>)
    ensures
        value is Some <==> ipv6_value(v@) is Some,
        value matches Some(segments) ==> segments@ == ipv6_value(v@).unwrap(),
{
    let gap = find_gap(v);
    let mut segments: [u16; 8] = [0u16;8];
    if gap < v.len() {
        proof {
            lemma_gap_in_range(v@);
        }
        let head_text = slice_of(v, 0, gap);
        let tail_text = slice_of(v, gap + 2, v.len());
        assert(head_text@ == v@.take(gap as int));
        assert(tail_text@ == v@.skip(gap + 2));
        let head = match parse_part(&head_text, false) {
            Some(head) => head,
            None => {
                return None;
            },
        };
        let tail = match parse_part(&tail_text, true) {
            Some(tail) => tail,
            None => {
                return None;
            },
        };
        if head.len() > 7 || tail.len() > 7 - head.len() {
            return None;
        }
        let mut i: usize = 0;
        while i < head.len()
            invariant
                i <= head.len() <= 7,
                forall|k: int| 0 <= k < i ==> segments@[k] == head@[k],
                forall|k: int| i <= k < 8 ==> segments@[k] == 0,
            decreases head.len() - i,
        {
            segments[i] = head[i];
            i += 1;
        }
        let offset = 8 - tail.len();
        let mut j: usize = 0;
        while j < tail.len()
            invariant
                j <= tail.len(),
                head.len() + tail.len() <= 7,
                offset == 8 - tail.len(),
                forall|k: int| 0 <= k < head.len() ==> segments@[k] == head@[k],
                forall|k: int| head.len() <= k < offset ==> segments@[k] == 0,
                forall|k: int| 0 <= k < j ==> segments@[offset + k] == tail@[k],
            decreases tail.len() - j,
        {
            segments[offset + j] = tail[j];
            j += 1;
        }
        assert(segments@ =~= head@ + zero_segments(8 - head@.len() - tail@.len()) + tail@);
        Some(segments)
    } else {
        let all = match parse_part(v, true) {
            Some(all) => all,
            None => {
                return None;
            },
        };
        if all.len() != 8 {
            return None;
        }
        let mut i: usize = 0;
        while i < 8
            invariant
                i <= 8 == all.len(),
                forall|k: int| 0 <= k < i ==> segments@[k] == all@[k],
            decreases 8 - i,
        {
            segments[i] = all[i];
            i += 1;
        }
        assert(segments@ =~= all@);
        Some(segments)
    }
}

/// Where `first_gap` points into the text, two colons stand there.
pub proof fn lemma_gap_in_range(s: Seq<char>)
    ensures
        0 <= first_gap(s) <= s.len(),
        first_gap(s) < s.len() ==> first_gap(s) + 2 <= s.len() && s[first_gap(s)] == ':' && s[
            first_gap(s) + 1
        ] == ':',
    decreases s.len(),
{
    if s.len() < 2 {
    } else if s[0] == ':' && s[1] == ':' {
    } else {
        let rest = s.drop_first();
        lemma_gap_in_range(rest);
        if first_gap(s) < s.len() {
            assert(s[first_gap(s)] == rest[first_gap(rest)]);
            assert(s[first_gap(s) + 1] == rest[first_gap(rest) + 1]);
        }
    }
}

// ---------------------------------------------------------------------------
// What holds of every literal
// ---------------------------------------------------------------------------

/// A dotted quad begins and ends with a digit.
pub proof fn lemma_ipv4_is_bare(s: Seq<char>)
    requires
        ipv4_value(s) is Some,
    ensures
        s.len() > 0,
        is_digit(s[0]),
        is_digit(s.last()),
{
    let fields = split_seq(s, '.');
    crate::text::lemma_split_ends(s, '.');
    assert(octet_value(fields[0]) is Some);
    assert(octet_value(fields[3]) is Some);
    assert(fields.last() == fields[3]);
    assert(is_digit(fields[0][0]));
    assert(is_digit(fields[3][fields[3].len() - 1]));
}

/// One side of an address that is not empty begins and ends with a digit of
/// one kind or the other.
pub proof fn lemma_part_is_bare(t: Seq<char>, quad_allowed: bool)
    requires
        part_value(t, quad_allowed) is Some,
        t.len() > 0,
    ensures
        is_hex_digit(t[0]),
        is_hex_digit(t.last()),
{
    let fields = split_seq(t, ':');
    crate::text::lemma_split_ends(t, ':');
    let last = fields.last();
    if group_value(last) is Some {
        assert(is_hex_digit(last[0]));
        assert(is_hex_digit(last[last.len() - 1]));
    } else {
        lemma_ipv4_is_bare(last);
    }
    if fields.len() > 1 {
        let front = fields.drop_last();
        assert(group_value(front[0]) is Some);
        assert(front[0] == fields[0]);
        assert(is_hex_digit(fields[0][0]));
    } else {
        assert(fields[0] == last);
    }
}

/// An address of the second family begins and ends with a colon or a digit
/// of one kind or the other.
pub proof fn lemma_ipv6_is_bare(s: Seq<char>)
    requires
        ipv6_value(s) is Some,
    ensures
        s.len() > 0,
        s[0] == ':' || is_hex_digit(s[0]),
        s.last() == ':' || is_hex_digit(s.last()),
{
    lemma_gap_in_range(s);
    let gap = first_gap(s);
    if 0 <= gap < s.len() {
        let head = s.take(gap);
        let tail = s.skip(gap + 2);
        if gap > 0 {
            lemma_part_is_bare(head, false);
            assert(head[0] == s[0]);
        }
        if tail.len() > 0 {
            lemma_part_is_bare(tail, true);
            assert(tail.last() == s.last());
        } else {
            assert(s.last() == s[gap + 1]);
        }
    } else {
        assert(part_value(s, true) is Some);
        if s.len() == 0 {
            assert(part_value(s, true).unwrap().len() == 0);
        }
        lemma_part_is_bare(s, true);
    }
}

/// No address literal begins or ends with white space: trimming leaves every
/// literal as it is.
pub proof fn lemma_literal_is_bare(s: Seq<char>)
    requires
        address_value(s) is Some,
    ensures
        crate::text::trimmed(s) == s,
{
    if ipv4_value(s) is Some {
        lemma_ipv4_is_bare(s);
    } else {
        lemma_ipv6_is_bare(s);
    }
    crate::text::lemma_trimmed_is_bare(s);
}

// ---------------------------------------------------------------------------
// Writing an address out
// ---------------------------------------------------------------------------

/// The groups of `segments` in lower-case hexadecimal without leading zeros,
/// with a colon between each two.
pub open spec fn groups_text(segments: Seq<u16>) -> Seq<char>
    decreases segments.len(),
{
    if segments.len() == 0 {
        Seq::empty()
    } else if segments.len() == 1 {
        hex_text(segments[0] as nat)
    } else {
        groups_text(segments.drop_last()) + seq![':'] + hex_text(segments.last() as nat)
    }
}

/// How many zero segments stand in a row from position `i` on.
pub open spec fn zeros_from(segments: Seq<u16>, i: int) -> nat
    decreases segments.len() - i,
{
    if 0 <= i < segments.len() && segments[i] == 0 {
        1 + zeros_from(segments, i + 1)
    } else {
        0
    }
}

/// Whether the longest run of zero segments begins at `start`, and none as
/// long begins before it.
pub open spec fn is_first_longest_run(segments: Seq<u16>, start: int) -> bool {
    &&& 0 <= start < segments.len()
    &&& forall|j: int|
        0 <= j < segments.len() ==> zeros_from(segments, j) <= zeros_from(segments, start)
    &&& forall|j: int| 0 <= j < start ==> zeros_from(segments, j) < zeros_from(segments, start)
}

/// Where the first of the longest runs of zero segments begins.
pub open spec fn first_longest_run(segments: Seq<u16>) -> int {
    choose|start: int| is_first_longest_run(segments, start)
}

/// Whether the segments hold an address of the first family behind the
/// prefix of five zero segments and one of all ones.
pub open spec fn is_mapped(segments: Seq<u16>) -> bool {
    &&& segments[0] == 0
    &&& segments[1] == 0
    &&& segments[2] == 0
    &&& segments[3] == 0
    &&& segments[4] == 0
    &&& segments[5] == 0xffff
}

/// The text of eight segments. A mapped address is `::ffff:` and the dotted
/// quad of its last two segments. Else the groups are written with colons
/// between them, and the first of the longest runs of zero segments, where
/// it has two segments or more, is written as two colons.
pub open spec fn ipv6_text(segments: Seq<u16>) -> Seq<char> {
    if is_mapped(segments) {
        seq![':', ':', 'f', 'f', 'f', 'f', ':'] + ipv4_text(
            segments_quad(segments[6], segments[7]),
        )
    } else {
        let start = first_longest_run(segments);
        let len = zeros_from(segments, start);
        if len > 1 {
            groups_text(segments.take(start)) + seq![':', ':'] + groups_text(
                segments.skip(start + len),
            )
        } else {
            groups_text(segments)
        }
    }
}

impl AddressView {
    /// The one text in which the address is written out.
    pub open spec fn text(self) -> Seq<char> {
        match self {
            AddressView::V4(octets) => ipv4_text(octets),
            AddressView::V6(segments) => ipv6_text(segments),
        }
    }
}

/// Only one position begins the first of the longest runs.
pub proof fn lemma_first_longest_run_is(segments: Seq<u16>, start: int)
    requires
        is_first_longest_run(segments, start),
    ensures
        first_longest_run(segments) == start,
{
    let chosen = first_longest_run(segments);
    assert(is_first_longest_run(segments, chosen));
    if chosen < start {
        assert(zeros_from(segments, chosen) < zeros_from(segments, start));
    } else if start < chosen {
        assert(zeros_from(segments, start) < zeros_from(segments, chosen));
    }
}

/// The groups of `segments[from..to]`, as characters.
fn groups_chars(segments: &[u16; 8], from: usize, to: usize) -> (out: Vec<char>)
    requires
        from <= to <= 8,
    ensures
        out@ == groups_text(segments@.subrange(from as int, to as int)),
{
    let mut out: Vec<char> = Vec::new();
    let mut i: usize = from;
    assert(segments@.subrange(from as int, from as int) == Seq::<u16>::empty());
    while i < to
        invariant
            from <= i <= to <= 8,
            out@ == groups_text(segments@.subrange(from as int, i as int)),
        decreases to - i,
    {
        let ghost longer = segments@.subrange(from as int, i + 1);
        assert(longer.drop_last() == segments@.subrange(from as int, i as int));
        assert(longer.last() == segments@[i as int]);
        if i > from {
            out.push(':');
        }
        append_chars(&mut out, &hex_chars(segments[i]));
        i += 1;
    }
    out
}

/// The text of eight segments, as characters.
pub fn ipv6_chars(segments: &[u16; 8]) -> (out: Vec<char>)
    ensures
        out@ == ipv6_text(segments@),
{
    if segments[0] == 0 && segments[1] == 0 && segments[2] == 0 && segments[3] == 0 && segments[4]
        == 0 && segments[5] == 0xffff {
        let quad: [u8; 4] = [
            (segments[6] / 256) as u8,
            (segments[6] % 256) as u8,
            (segments[7] / 256) as u8,
            (segments[7] % 256) as u8,
        ];
        assert(quad@ =~= segments_quad(segments@[6], segments@[7]));
        let mut out: Vec<char> = Vec::new();
        out.push(':');
        out.push(':');
        out.push('f');
        out.push('f');
        out.push('f');
        out.push('f');
        out.push(':');
        assert(out@ =~= seq![':', ':', 'f', 'f', 'f', 'f', ':']);
        append_chars(&mut out, &ipv4_chars(&quad));
        return out;
    }
    // run[i] is the number of zero segments in a row from i on.
    let mut run: [u8; 8] = [0u8;8];
    let mut i: usize = 8;
    while i > 0
        invariant
            i <= 8,
            forall|k: int| i <= k < 8 ==> run@[k] == zeros_from(segments@, k),
            forall|k: int| i <= k < 8 ==> run@[k] <= 8 - k,
        decreases i,
    {
        let ghost before = run@;
        i -= 1;
        let after: u8 = if i < 7 {
            run[i + 1]
        } else {
            0
        };
        assert(after == zeros_from(segments@, i + 1)) by {
            if i == 7 {
                assert(zeros_from(segments@, 8) == 0);
            }
        }
        assert(zeros_from(segments@, i as int) == if segments@[i as int] == 0 {
            1 + zeros_from(segments@, i + 1)
        } else {
            0
        });
        let here: u8 = if segments[i] == 0 {
            after + 1
        } else {
            0
        };
        run[i] = here;
        assert forall|k: int| i <= k < 8 implies run@[k] == zeros_from(segments@, k) && run@[k]
            <= 8 - k by {
            if k > i {
                assert(run@[k] == before[k]);
            }
        }
    }
    let mut best: usize = 0;
    let mut j: usize = 1;
    while j < 8
        invariant
            1 <= j <= 8,
            best < j,
            forall|k: int| 0 <= k < 8 ==> run@[k] == zeros_from(segments@, k),
            forall|k: int| 0 <= k < j ==> run@[k] <= run@[best as int],
            forall|k: int| 0 <= k < best ==> run@[k] < run@[best as int],
        decreases 8 - j,
    {
        if run[j] > run[best] {
            best = j;
        }
        j += 1;
    }
    let len: usize = run[best] as usize;
    proof {
        assert(is_first_longest_run(segments@, best as int));
        lemma_first_longest_run_is(segments@, best as int);
        lemma_zero_run_fits(segments@, best as int);
    }
    if len > 1 {
        let mut out = groups_chars(segments, 0, best);
        out.push(':');
        out.push(':');
        append_chars(&mut out, &groups_chars(segments, best + len, 8));
        assert(segments@.subrange(0, best as int) == segments@.take(best as int));
        assert(segments@.subrange(best + len, 8) == segments@.skip(best + len));
        assert(out@ =~= groups_text(segments@.take(best as int)) + seq![':', ':'] + groups_text(
            segments@.skip(best + len),
        ));
        out
    } else {
        assert(segments@.subrange(0, 8) == segments@);
        groups_chars(segments, 0, 8)
    }
}

/// A run of zero segments ends within the segments.
pub proof fn lemma_zero_run_fits(segments: Seq<u16>, i: int)
    requires
        0 <= i <= segments.len(),
    ensures
        i + zeros_from(segments, i) <= segments.len(),
    decreases segments.len() - i,
{
    if i < segments.len() && segments[i] == 0 {
        lemma_zero_run_fits(segments, i + 1);
    }
}

impl IpAddress {
    /// The family of the address.
    pub fn family(&self) -> (family: Family)
        ensures
            family == self@.family(),
    {
        match self {
            IpAddress::V4(_) => Family::V4,
            IpAddress::V6(_) => Family::V6,
        }
    }

    /// Whether two addresses are the same address.
    pub fn same(&self, other: &IpAddress) -> (same: bool)
        ensures
            same == (self@ == other@),
    {
        match (self, other) {
            (IpAddress::V4(a), IpAddress::V4(b)) => {
                let same = a[0] == b[0] && a[1] == b[1] && a[2] == b[2] && a[3] == b[3];
                assert(same ==> a@ =~= b@);
                same
            },
            (IpAddress::V6(a), IpAddress::V6(b)) => {
                let same = a[0] == b[0] && a[1] == b[1] && a[2] == b[2] && a[3] == b[3] && a[4]
                    == b[4] && a[5] == b[5] && a[6] == b[6] && a[7] == b[7];
                assert(same ==> a@ =~= b@);
                same
            },
            _ => false,
        }
    }

    /// The one text in which the address is written out.
    pub fn to_text(&self) -> (text: String)
        ensures
            text@ == self@.text(),
    {
        match self {
            IpAddress::V4(octets) => string_of(&ipv4_chars(octets)),
            IpAddress::V6(segments) => string_of(&ipv6_chars(segments)),
        }
    }

    /// Reads an address literal of either family. `None` where the text is
    /// no address literal; nothing is cut off it first.
    pub fn parse(text: &str) -> (address: Option<IpAddress>)
        ensures
            address is Some <==> address_value(text@) is Some,
            address matches Some(a) ==> a@ == address_value(text@).unwrap() && a@.wf(),
    {
        let chars = chars_of(text);
        match parse_ipv4(&chars) {
            Some(octets) => Some(IpAddress::V4(octets)),
            None => match parse_ipv6(&chars) {
                Some(segments) => Some(IpAddress::V6(segments)),
                None => None,
            },
        }
    }
}

} // verus!
