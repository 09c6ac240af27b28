//! Text as sequences of characters: splitting at a separator, replacing a
//! pattern, and trimming white space.
//!
//! Every operation is stated over `Seq<char>` and carried out on `Vec<char>`;
//! `chars_of` and `string_of` lead from and to `str` and `String`.

use vstd::prelude::*;
use vstd::std_specs::iter::IteratorSpec;

verus! {

// ---------------------------------------------------------------------------
// Between strings and characters
// ---------------------------------------------------------------------------

/// `String::push` of the standard library: the character is appended at the
/// end, and nothing else changes.
#[verifier::external_body]
pub(crate) fn push_char(s: &mut String, c: char)
    ensures
        final(s)@ == old(s)@.push(c),
{
    s.push(c)
}

/// The characters of `s`, in order.
pub fn chars_of(s: &str) -> (v: Vec<char>)
    ensures
        v@ == s@,
{
    broadcast use vstd::string::group_string_axioms;

    let mut v: Vec<char> = Vec::new();
    let chars = s.chars();
    assert(chars.remaining() == s@);
    for c in it: chars
        invariant
            it.seq() == s@,
            v@ == it.seq().take(it.index()),
    {
        v.push(c);
    }
    v
}

/// The string made of the characters of `v`, in order.
pub fn string_of(v: &Vec<char>) -> (s: String)
    ensures
        s@ == v@,
{
    let mut s = String::new();
    let mut i: usize = 0;
    while i < v.len()
        invariant
            i <= v.len(),
            s@ == v@.take(i as int),
        decreases v.len() - i,
    {
        push_char(&mut s, v[i]);
        i += 1;
        assert(v@.take(i as int) == v@.take(i - 1).push(v@[i - 1]));
    }
    assert(v@.take(v.len() as int) == v@);
    s
}

/// The view of a text that may be absent.
pub open spec fn text_view(text: Option<String>) -> Option<Seq<char>> {
    match text {
        Some(t) => Some(t@),
        None => None,
    }
}

/// The views of a list of character vectors.
pub open spec fn views(pieces: Seq<Vec<char>>) -> Seq<Seq<char>> {
    Seq::new(pieces.len(), |i: int| pieces[i]@)
}

/// A copy of `v[from..to]`.
pub(crate) fn slice_of(v: &Vec<char>, from: usize, to: usize) -> (out: Vec<char>)
    requires
        from <= to <= v.len(),
    ensures
        out@ == v@.subrange(from as int, to as int),
{
    let mut out: Vec<char> = Vec::new();
    let mut i: usize = from;
    while i < to
        invariant
            from <= i <= to <= v.len(),
            out@ == v@.subrange(from as int, i as int),
        decreases to - i,
    {
        out.push(v[i]);
        i += 1;
        assert(v@.subrange(from as int, i as int) == v@.subrange(from as int, i - 1).push(
            v@[i - 1],
        ));
    }
    out
}

/// Appends every character of `more` to `out`.
pub fn append_chars(out: &mut Vec<char>, more: &Vec<char>)
    ensures
        final(out)@ == old(out)@ + more@,
{
    let mut i: usize = 0;
    while i < more.len()
        invariant
            i <= more.len(),
            out@ == old(out)@ + more@.take(i as int),
        decreases more.len() - i,
    {
        out.push(more[i]);
        i += 1;
        assert(more@.take(i as int) == more@.take(i - 1).push(more@[i - 1]));
    }
    assert(more@.take(more.len() as int) == more@);
}

// ---------------------------------------------------------------------------
// Splitting
// ---------------------------------------------------------------------------

/// The position of the first `c` in `s`; `s.len()` where `s` holds no `c`.
pub open spec fn first_index(s: Seq<char>, c: char) -> int
    decreases s.len(),
{
    if s.len() == 0 || s[0] == c {
        0
    } else {
        1 + first_index(s.drop_first(), c)
    }
}

/// `s` cut at every `sep`: the text before the first `sep`, then the pieces of
/// what follows it. A text without `sep` is its own single piece, so the
/// empty text has one empty piece and a text with `n` separators `n + 1`.
pub open spec fn split_seq(s: Seq<char>, sep: char) -> Seq<Seq<char>>
    decreases s.len(),
{
    let i = first_index(s, sep);
    if 0 <= i < s.len() {
        seq![s.take(i)] + split_seq(s.skip(i + 1), sep)
    } else {
        seq![s]
    }
}

/// `first_index` is in range, nothing before it is `c`, and it points at a
/// `c` where it points into `s`.
pub proof fn lemma_first_index(s: Seq<char>, c: char)
    ensures
        0 <= first_index(s, c) <= s.len(),
        forall|j: int| 0 <= j < first_index(s, c) ==> s[j] != c,
        first_index(s, c) < s.len() ==> s[first_index(s, c)] == c,
    decreases s.len(),
{
    if s.len() == 0 || s[0] == c {
    } else {
        let rest = s.drop_first();
        lemma_first_index(rest, c);
        assert forall|j: int| 0 <= j < first_index(s, c) implies s[j] != c by {
            if j > 0 {
                assert(s[j] == rest[j - 1]);
            }
        }
        if first_index(s, c) < s.len() {
            assert(s[first_index(s, c)] == rest[first_index(rest, c)]);
        }
    }
}

/// A position with the three properties of `lemma_first_index` is the first
/// index.
pub proof fn lemma_first_index_is(s: Seq<char>, c: char, k: int)
    requires
        0 <= k <= s.len(),
        forall|j: int| 0 <= j < k ==> s[j] != c,
        k < s.len() ==> s[k] == c,
    ensures
        first_index(s, c) == k,
{
    lemma_first_index(s, c);
    let i = first_index(s, c);
    if i < k {
        assert(s[i] != c);
    } else if k < i {
        assert(s[k] != c);
    }
}

/// No piece of a split holds the separator.
pub proof fn lemma_split_pieces_hold_no_separator(s: Seq<char>, sep: char)
    ensures
        split_seq(s, sep).len() >= 1,
        forall|k: int, j: int|
            0 <= k < split_seq(s, sep).len() && 0 <= j < split_seq(s, sep)[k].len()
                ==> #[trigger] split_seq(s, sep)[k][j] != sep,
    decreases s.len(),
{
    lemma_first_index(s, sep);
    let i = first_index(s, sep);
    if 0 <= i < s.len() {
        let rest = split_seq(s.skip(i + 1), sep);
        lemma_split_pieces_hold_no_separator(s.skip(i + 1), sep);
        assert forall|k: int, j: int|
            0 <= k < split_seq(s, sep).len() && 0 <= j < split_seq(s, sep)[k].len()
            implies #[trigger] split_seq(s, sep)[k][j] != sep by {
            if k == 0 {
                assert(split_seq(s, sep)[0] == s.take(i));
            } else {
                assert(split_seq(s, sep)[k] == rest[k - 1]);
            }
        }
    }
}

/// Where the first piece of a split is not empty, the text begins as that
/// piece does; where the last is not empty, the text ends as that piece
/// does.
pub proof fn lemma_split_ends(s: Seq<char>, sep: char)
    ensures
        split_seq(s, sep).len() >= 1,
        split_seq(s, sep)[0].len() > 0 ==> s.len() > 0 && s[0] == split_seq(s, sep)[0][0],
        split_seq(s, sep).last().len() > 0 ==> s.len() > 0 && s.last() == split_seq(
            s,
            sep,
        ).last().last(),
    decreases s.len(),
{
    lemma_first_index(s, sep);
    let i = first_index(s, sep);
    if 0 <= i < s.len() {
        let tail = s.skip(i + 1);
        let rest = split_seq(tail, sep);
        lemma_split_ends(tail, sep);
        assert(split_seq(s, sep)[0] == s.take(i));
        assert(split_seq(s, sep).last() == rest.last());
        if rest.last().len() > 0 {
            assert(tail.last() == s.last());
        }
    }
}

/// A text without the separator is its own single piece.
pub proof fn lemma_split_without_separator(s: Seq<char>, sep: char)
    requires
        forall|j: int| 0 <= j < s.len() ==> s[j] != sep,
    ensures
        split_seq(s, sep) == seq![s],
{
    lemma_first_index_is(s, sep, s.len() as int);
}

/// Where `a` holds no separator, `a`, the separator and `rest` in a row are
/// cut into `a` and the pieces of `rest`.
pub proof fn lemma_split_after_first(a: Seq<char>, sep: char, rest: Seq<char>)
    requires
        forall|j: int| 0 <= j < a.len() ==> a[j] != sep,
    ensures
        split_seq(a + seq![sep] + rest, sep) == seq![a] + split_seq(rest, sep),
{
    let s = a + seq![sep] + rest;
    let k = a.len() as int;
    assert(s[k] == sep);
    assert forall|j: int| 0 <= j < k implies s[j] != sep by {
        assert(s[j] == a[j]);
    }
    lemma_first_index_is(s, sep, k);
    assert(s.take(k) == a);
    assert(s.skip(k + 1) == rest);
}

/// Where `a` holds no separator, `front`, the separator and `a` in a row are
/// cut into the pieces of `front` and `a`.
pub proof fn lemma_split_before_last(front: Seq<char>, sep: char, a: Seq<char>)
    requires
        forall|j: int| 0 <= j < a.len() ==> a[j] != sep,
    ensures
        split_seq(front + seq![sep] + a, sep) == split_seq(front, sep).push(a),
    decreases front.len(),
{
    let s = front + seq![sep] + a;
    lemma_first_index(front, sep);
    let i = first_index(front, sep);
    if 0 <= i < front.len() {
        assert(s[i] == sep) by {
            assert(s[i] == front[i]);
        }
        assert forall|j: int| 0 <= j < i implies s[j] != sep by {
            assert(s[j] == front[j]);
        }
        lemma_first_index_is(s, sep, i);
        let tail = front.skip(i + 1);
        assert(s.take(i) == front.take(i));
        assert(s.skip(i + 1) == tail + seq![sep] + a);
        lemma_split_before_last(tail, sep, a);
        assert(split_seq(s, sep) == seq![front.take(i)] + split_seq(tail, sep).push(a));
        assert(seq![front.take(i)] + split_seq(tail, sep).push(a) == (seq![front.take(i)]
            + split_seq(tail, sep)).push(a));
    } else {
        assert forall|j: int| 0 <= j < front.len() implies front[j] != sep by {}
        lemma_split_after_first(front, sep, a);
        lemma_split_without_separator(a, sep);
        lemma_split_without_separator(front, sep);
        assert(seq![front] + seq![a] == seq![front].push(a));
    }
}

/// Every character of a text that is not the separator stands in one of its
/// pieces.
pub proof fn lemma_split_keeps_characters(s: Seq<char>, sep: char, j: int) -> (place: (int, int))
    requires
        0 <= j < s.len(),
        s[j] != sep,
    ensures
        0 <= place.0 < split_seq(s, sep).len(),
        0 <= place.1 < split_seq(s, sep)[place.0].len(),
        split_seq(s, sep)[place.0][place.1] == s[j],
    decreases s.len(),
{
    lemma_first_index(s, sep);
    let i = first_index(s, sep);
    if 0 <= i < s.len() {
        let tail = s.skip(i + 1);
        lemma_split_pieces_hold_no_separator(tail, sep);
        if j < i {
            assert(split_seq(s, sep)[0] == s.take(i));
            assert(s.take(i)[j] == s[j]);
            (0, j)
        } else {
            assert(tail[j - i - 1] == s[j]);
            let inner = lemma_split_keeps_characters(tail, sep, j - i - 1);
            assert(split_seq(s, sep)[inner.0 + 1] == split_seq(tail, sep)[inner.0]);
            (inner.0 + 1, inner.1)
        }
    } else {
        (0, j)
    }
}

/// The pieces of `v` between the occurrences of `sep`.
pub fn split_chars(v: &Vec<char>, sep: char) -> (pieces: Vec<Vec<char>>)
    ensures
        views(pieces@) == split_seq(v@, sep),
{
    let mut pieces: Vec<Vec<char>> = Vec::new();
    let mut current: Vec<char> = Vec::new();
    let ghost mut start: int = 0;
    let mut i: usize = 0;
    assert(v@.skip(0) == v@);
    assert(views(pieces@) + split_seq(v@.skip(0), sep) == split_seq(v@, sep));
    while i < v.len()
        invariant
            0 <= start <= i <= v.len(),
            current@ == v@.subrange(start, i as int),
            forall|j: int| start <= j < i ==> v@[j] != sep,
            views(pieces@) + split_seq(v@.skip(start), sep) == split_seq(v@, sep),
        decreases v.len() - i,
    {
        let c = v[i];
        if c == sep {
            proof {
                let tail = v@.skip(start);
                lemma_first_index_is(tail, sep, i - start);
                assert(tail.take(i - start) == v@.subrange(start, i as int));
                assert(tail.skip(i - start + 1) == v@.skip(i + 1));
                assert(split_seq(tail, sep) == seq![current@] + split_seq(v@.skip(i + 1), sep));
                assert(views(pieces@.push(current)) == views(pieces@) + seq![current@]);
            }
            pieces.push(current);
            current = Vec::new();
            proof {
                start = i + 1;
            }
        } else {
            current.push(c);
            assert(v@.subrange(start, i + 1) == v@.subrange(start, i as int).push(c));
        }
        i += 1;
    }
    proof {
        let tail = v@.skip(start);
        lemma_first_index_is(tail, sep, tail.len() as int);
        assert(tail == current@);
        assert(views(pieces@.push(current)) == views(pieces@) + seq![current@]);
    }
    pieces.push(current);
    pieces
}

/// The pieces of `s` between the occurrences of `sep`, each as a string.
pub fn split(s: &str, sep: char) -> (pieces: Vec<String>)
    ensures
        pieces.deep_view() == split_seq(s@, sep),
{
    let chars = chars_of(s);
    let parts = split_chars(&chars, sep);
    let mut pieces: Vec<String> = Vec::new();
    let mut i: usize = 0;
    while i < parts.len()
        invariant
            i <= parts.len(),
            pieces.len() == i,
            forall|k: int| 0 <= k < i ==> (#[trigger] pieces@[k])@ == parts@[k]@,
        decreases parts.len() - i,
    {
        pieces.push(string_of(&parts[i]));
        i += 1;
    }
    assert(pieces.deep_view() =~= views(parts@));
    pieces
}

// ---------------------------------------------------------------------------
// Replacing
// ---------------------------------------------------------------------------

/// Whether `pattern` stands in `s` at position `at`.
pub open spec fn occurs_at(s: Seq<char>, pattern: Seq<char>, at: int) -> bool {
    &&& 0 <= at
    &&& at + pattern.len() <= s.len()
    &&& s.subrange(at, at + pattern.len()) == pattern
}

/// `s` with every occurrence of `pattern` replaced by `with`, the occurrences
/// taken from the left and never overlapping. With an empty `pattern` the
/// text is left as it is.
pub open spec fn replace_seq(s: Seq<char>, pattern: Seq<char>, with: Seq<char>) -> Seq<char>
    decreases s.len(),
{
    if pattern.len() == 0 || s.len() < pattern.len() {
        s
    } else if occurs_at(s, pattern, 0) {
        with + replace_seq(s.skip(pattern.len() as int), pattern, with)
    } else {
        seq![s[0]] + replace_seq(s.skip(1), pattern, with)
    }
}

/// Whether `pattern` stands in `v` at position `at`.
fn matches_at(v: &Vec<char>, pattern: &Vec<char>, at: usize) -> (found: bool)
    requires
        at <= v.len(),
    ensures
        found == occurs_at(v@, pattern@, at as int),
{
    if pattern.len() > v.len() - at {
        return false;
    }
    let mut k: usize = 0;
    while k < pattern.len()
        invariant
            k <= pattern.len(),
            at + pattern.len() <= v.len(),
            v@.subrange(at as int, at + k) == pattern@.take(k as int),
        decreases pattern.len() - k,
    {
        if v[at + k] != pattern[k] {
            assert(v@.subrange(at as int, at + pattern.len())[k as int] != pattern@[k as int]);
            return false;
        }
        k += 1;
        assert(v@.subrange(at as int, at + k) == v@.subrange(at as int, at + k - 1).push(
            v@[at + k - 1],
        ));
        assert(pattern@.take(k as int) == pattern@.take(k - 1).push(pattern@[k - 1]));
    }
    assert(pattern@.take(pattern.len() as int) == pattern@);
    true
}

/// `v` with every occurrence of `pattern` replaced by `with`.
pub fn replace_chars(v: &Vec<char>, pattern: &Vec<char>, with: &Vec<char>) -> (out: Vec<char>)
    ensures
        out@ == replace_seq(v@, pattern@, with@),
{
    let mut out: Vec<char> = Vec::new();
    let mut i: usize = 0;
    assert(v@.skip(0) == v@);
    assert(out@ + replace_seq(v@.skip(0), pattern@, with@) == replace_seq(v@, pattern@, with@));
    while i < v.len()
        invariant
            i <= v.len(),
            out@ + replace_seq(v@.skip(i as int), pattern@, with@) == replace_seq(
                v@,
                pattern@,
                with@,
            ),
        decreases v.len() - i,
    {
        let ghost rest = v@.skip(i as int);
        let ghost before = out@;
        if pattern.len() > 0 && matches_at(v, pattern, i) {
            proof {
                assert(rest.subrange(0, pattern@.len() as int) == v@.subrange(
                    i as int,
                    i + pattern@.len(),
                ));
                assert(rest.skip(pattern@.len() as int) == v@.skip(i + pattern@.len()));
            }
            let mut k: usize = 0;
            while k < with.len()
                invariant
                    k <= with.len(),
                    out@ == before + with@.take(k as int),
                decreases with.len() - k,
            {
                out.push(with[k]);
                k += 1;
                assert(with@.take(k as int) == with@.take(k - 1).push(with@[k - 1]));
            }
            assert(with@.take(with.len() as int) == with@);
            i += pattern.len();
            assert(out@ + replace_seq(v@.skip(i as int), pattern@, with@) == before + (with@
                + replace_seq(v@.skip(i as int), pattern@, with@)));
        } else {
            proof {
                if pattern@.len() > 0 && rest.len() >= pattern@.len() {
                    assert(rest.subrange(0, pattern@.len() as int) == v@.subrange(
                        i as int,
                        i + pattern@.len(),
                    ));
                    assert(rest.skip(1) == v@.skip(i + 1));
                    assert(replace_seq(rest, pattern@, with@) == seq![v@[i as int]] + replace_seq(
                        v@.skip(i + 1),
                        pattern@,
                        with@,
                    ));
                } else {
                    // Nothing more can match: the rest is copied as it stands.
                    assert(replace_seq(rest, pattern@, with@) == rest);
                    assert(rest.skip(1) == v@.skip(i + 1));
                    assert(replace_seq(v@.skip(i + 1), pattern@, with@) == v@.skip(i + 1));
                    assert(rest == seq![v@[i as int]] + v@.skip(i + 1));
                }
            }
            out.push(v[i]);
            i += 1;
            assert(out@ + replace_seq(v@.skip(i as int), pattern@, with@) == before + (seq![
                v@[i - 1],
            ] + replace_seq(v@.skip(i as int), pattern@, with@)));
        }
    }
    assert(v@.skip(v.len() as int) == Seq::<char>::empty());
    assert(out@ + Seq::<char>::empty() == out@);
    out
}

// ---------------------------------------------------------------------------
// Trimming
// ---------------------------------------------------------------------------

/// The characters with the Unicode property `White_Space`.
pub open spec fn is_whitespace(c: char) -> bool {
    let n = c as u32;
    ||| 0x09 <= n <= 0x0d
    ||| n == 0x20
    ||| n == 0x85
    ||| n == 0xa0
    ||| n == 0x1680
    ||| 0x2000 <= n <= 0x200a
    ||| n == 0x2028
    ||| n == 0x2029
    ||| n == 0x202f
    ||| n == 0x205f
    ||| n == 0x3000
}

/// `s` without the white space it begins with.
pub open spec fn trim_front(s: Seq<char>) -> Seq<char>
    decreases s.len(),
{
    if s.len() > 0 && is_whitespace(s[0]) {
        trim_front(s.drop_first())
    } else {
        s
    }
}

/// `s` without the white space it ends with.
pub open spec fn trim_back(s: Seq<char>) -> Seq<char>
    decreases s.len(),
{
    if s.len() > 0 && is_whitespace(s.last()) {
        trim_back(s.drop_last())
    } else {
        s
    }
}

/// `s` without the white space at either end.
pub open spec fn trimmed(s: Seq<char>) -> Seq<char> {
    trim_back(trim_front(s))
}

/// Whether `c` is white space.
pub fn char_is_whitespace(c: char) -> (white: bool)
    ensures
        white == is_whitespace(c),
{
    let n: u32 = c as u32;
    (0x09 <= n && n <= 0x0d) || n == 0x20 || n == 0x85 || n == 0xa0 || n == 0x1680 || (0x2000 <= n
        && n <= 0x200a) || n == 0x2028 || n == 0x2029 || n == 0x202f || n == 0x205f || n == 0x3000
}

/// `v` without the white space at either end.
pub fn trim_chars(v: &Vec<char>) -> (out: Vec<char>)
    ensures
        out@ == trimmed(v@),
{
    let mut from: usize = 0;
    assert(v@.skip(0) == v@);
    while from < v.len() && char_is_whitespace(v[from])
        invariant
            from <= v.len(),
            trim_front(v@.skip(from as int)) == trim_front(v@),
        decreases v.len() - from,
    {
        assert(v@.skip(from as int).drop_first() == v@.skip(from + 1));
        from += 1;
    }
    let mut to: usize = v.len();
    assert(v@.subrange(from as int, to as int) == v@.skip(from as int));
    while to > from && char_is_whitespace(v[to - 1])
        invariant
            from <= to <= v.len(),
            trim_back(v@.subrange(from as int, to as int)) == trimmed(v@),
        decreases to,
    {
        assert(v@.subrange(from as int, to as int).drop_last() == v@.subrange(
            from as int,
            to - 1,
        ));
        to -= 1;
    }
    slice_of(v, from, to)
}

/// `s` without the white space at either end.
pub fn trim(s: &str) -> (out: String)
    ensures
        out@ == trimmed(s@),
{
    let chars = chars_of(s);
    let kept = trim_chars(&chars);
    string_of(&kept)
}

/// Trimming leaves a text that neither begins nor ends with white space, and
/// a text that does neither is left as it is.
pub proof fn lemma_trimmed_is_bare(s: Seq<char>)
    ensures
        trimmed(s).len() > 0 ==> !is_whitespace(trimmed(s)[0]) && !is_whitespace(
            trimmed(s).last(),
        ),
        s.len() > 0 && !is_whitespace(s[0]) && !is_whitespace(s.last()) ==> trimmed(s) == s,
{
    lemma_trim_front(s);
    lemma_trim_back(trim_front(s));
}

proof fn lemma_trim_front(s: Seq<char>)
    ensures
        trim_front(s).len() > 0 ==> !is_whitespace(trim_front(s)[0]),
        trim_front(s).len() > 0 ==> trim_front(s).last() == s.last(),
        trim_front(s).len() <= s.len(),
    decreases s.len(),
{
    if s.len() > 0 && is_whitespace(s[0]) {
        lemma_trim_front(s.drop_first());
    }
}

proof fn lemma_trim_back(s: Seq<char>)
    ensures
        trim_back(s).len() > 0 ==> !is_whitespace(trim_back(s).last()),
        trim_back(s).len() > 0 ==> trim_back(s)[0] == s[0],
        trim_back(s).len() <= s.len(),
    decreases s.len(),
{
    if s.len() > 0 && is_whitespace(s.last()) {
        lemma_trim_back(s.drop_last());
    }
}

} // verus!
