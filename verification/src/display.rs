//! Text shown in tables: sizes, dump timestamps, and strings cut to a
//! width counted in UTF-8 bytes.

use vstd::prelude::*;
use vstd::utf8::{
    decode_utf8, encode_utf8, encode_utf8_decode_utf8, encode_utf8_valid_utf8,
    is_char_boundary, is_char_boundary_iff_not_is_continuation_byte,
    is_char_boundary_start_end_of_seq, valid_utf8, valid_utf8_split,
};
use vstd::string::StringSliceAdditionalSpecFns;

use crate::text::{decimal, lowercase, owned, push_char, push_decimal, push_str, to_lowercase};

verus! {

// ---------------------------------------------------------------------------
// Sizes
// ---------------------------------------------------------------------------

/// `bytes / unit` in tenths, rounded to the nearest tenth, a tie going to
/// the even tenth (as `{:.1}` prints the exact quotient).
pub open spec fn rounded_tenths(bytes: nat, unit: nat) -> nat
    recommends
        unit > 0,
{
    let q = (bytes * 10) / unit;
    let r = (bytes * 10) % unit;
    if 2 * r > unit || (2 * r == unit && q % 2 == 1) {
        q + 1
    } else {
        q
    }
}

/// A number of tenths written with one decimal (`15` is `1.5`).
pub open spec fn tenths_text(t: nat) -> Seq<char> {
    decimal(t / 10) + "."@ + decimal(t % 10)
}

/// A byte count as a table shows it: in GB, MB or KB with one decimal from
/// 1 GiB, 1 MiB and 1 KiB on, else in bytes.
pub open spec fn format_size_spec(bytes: nat) -> Seq<char> {
    if bytes >= 1073741824 {
        tenths_text(rounded_tenths(bytes, 1073741824)) + " GB"@
    } else if bytes >= 1048576 {
        tenths_text(rounded_tenths(bytes, 1048576)) + " MB"@
    } else if bytes >= 1024 {
        tenths_text(rounded_tenths(bytes, 1024)) + " KB"@
    } else {
        decimal(bytes) + " B"@
    }
}

/// Appends `bytes / unit` with one decimal, rounded as `{:.1}` rounds.
pub fn push_tenths(out: &mut String, bytes: u64, unit: u64)
    requires
        1024 <= unit,
    ensures
        final(out)@ == old(out)@ + tenths_text(rounded_tenths(bytes as nat, unit as nat)),
{
    let scaled: u128 = (bytes as u128) * 10;
    let q: u128 = scaled / (unit as u128);
    let r: u128 = scaled % (unit as u128);
    proof {
        assert(scaled == bytes * 10);
        assert(q <= scaled / 1024) by {
            vstd::arithmetic::div_mod::lemma_div_is_ordered_by_denominator(
                scaled as int,
                1024,
                unit as int,
            );
        }
        assert(q < 0x1_0000_0000_0000_0000);
    }
    let t: u128 = if 2 * r > (unit as u128) || (2 * r == (unit as u128) && q % 2 == 1) {
        q + 1
    } else {
        q
    };
    let whole: u64 = (t / 10) as u64;
    let frac: u64 = (t % 10) as u64;
    push_decimal(out, whole);
    push_str(out, ".");
    push_decimal(out, frac);
    proof {
        assert(t == rounded_tenths(bytes as nat, unit as nat));
    }
}

/// A byte count as a table shows it (`1536` is `1.5 KB`).
pub fn format_size(bytes: u64) -> (r: String)
    ensures
        r@ == format_size_spec(bytes as nat),
{
    let mut out = String::new();
    if bytes >= 1073741824 {
        push_tenths(&mut out, bytes, 1073741824);
        push_str(&mut out, " GB");
    } else if bytes >= 1048576 {
        push_tenths(&mut out, bytes, 1048576);
        push_str(&mut out, " MB");
    } else if bytes >= 1024 {
        push_tenths(&mut out, bytes, 1024);
        push_str(&mut out, " KB");
    } else {
        push_decimal(&mut out, bytes);
        push_str(&mut out, " B");
    }
    proof {
        assert(out@ =~= format_size_spec(bytes as nat));
    }
    out
}

// ---------------------------------------------------------------------------
// Cutting strings at byte offsets
// ---------------------------------------------------------------------------

/// The characters encoded by bytes `i..j` of a string's UTF-8 encoding.
pub open spec fn byte_range_text(s: Seq<char>, i: int, j: int) -> Seq<char> {
    decode_utf8(encode_utf8(s).subrange(i, j))
}

proof fn lemma_boundary_in_tail(b: Seq<u8>, i: int, j: int)
    requires
        valid_utf8(b),
        0 <= i <= j <= b.len(),
        is_char_boundary(b, i),
        is_char_boundary(b, j),
    ensures
        valid_utf8(b.subrange(i, b.len() as int)),
        is_char_boundary(b.subrange(i, b.len() as int), j - i),
{
    let t = b.subrange(i, b.len() as int);
    valid_utf8_split(b, i);
    if j == b.len() {
        is_char_boundary_start_end_of_seq(t);
        assert(t.len() == j - i);
    } else {
        is_char_boundary_iff_not_is_continuation_byte(b, j);
        is_char_boundary_iff_not_is_continuation_byte(t, j - i);
        assert(t[j - i] == b[j]);
    }
}

/// The text of bytes `i..j` of `s`, both offsets on character boundaries.
pub fn byte_range(s: &str, i: usize, j: usize) -> (r: String)
    requires
        i <= j <= s.spec_bytes().len(),
        is_char_boundary(s.spec_bytes(), i as int),
        is_char_boundary(s.spec_bytes(), j as int),
    ensures
        r@ == byte_range_text(s@, i as int, j as int),
{
    let ghost b = s.spec_bytes();
    proof {
        encode_utf8_valid_utf8(s@);
        lemma_boundary_in_tail(b, i as int, j as int);
    }
    let (_head, tail) = s.split_at(i);
    proof {
        assert(tail.spec_bytes() =~= b.subrange(i as int, b.len() as int));
    }
    let (mid, _rest) = tail.split_at(j - i);
    proof {
        assert(mid.spec_bytes() =~= b.subrange(i as int, j as int));
        encode_utf8_decode_utf8(mid@);
    }
    owned(mid)
}

// ---------------------------------------------------------------------------
// Timestamps
// ---------------------------------------------------------------------------

/// Whether the byte offsets a 15-byte timestamp is cut at fall on
/// character boundaries.
pub open spec fn timestamp_cuts_ok(ts: Seq<char>) -> bool {
    let b = encode_utf8(ts);
    b.len() == 15 ==> {
        &&& is_char_boundary(b, 4)
        &&& is_char_boundary(b, 6)
        &&& is_char_boundary(b, 8)
        &&& is_char_boundary(b, 9)
        &&& is_char_boundary(b, 11)
        &&& is_char_boundary(b, 13)
    }
}

/// A dump timestamp as a table shows it: a 15-byte `YYYYMMDD_HHMMSS`
/// becomes `YYYY-MM-DD HH:MM:SS` (the byte between date and time is
/// dropped); anything else is shown as it is.
pub open spec fn format_timestamp_spec(ts: Seq<char>) -> Seq<char> {
    if encode_utf8(ts).len() == 15 {
        byte_range_text(ts, 0, 4) + "-"@ + byte_range_text(ts, 4, 6) + "-"@ + byte_range_text(
            ts,
            6,
            8,
        ) + " "@ + byte_range_text(ts, 9, 11) + ":"@ + byte_range_text(ts, 11, 13) + ":"@
            + byte_range_text(ts, 13, 15)
    } else {
        ts
    }
}

/// A dump timestamp as a table shows it (`20260312_143022` is
/// `2026-03-12 14:30:22`).
pub fn format_timestamp(ts: &str) -> (r: String)
    requires
        timestamp_cuts_ok(ts@),
    ensures
        r@ == format_timestamp_spec(ts@),
{
    if ts.as_bytes().len() == 15 {
        proof {
            encode_utf8_valid_utf8(ts@);
            is_char_boundary_start_end_of_seq(ts.spec_bytes());
        }
        let mut out = byte_range(ts, 0, 4);
        push_str(&mut out, "-");
        push_str(&mut out, byte_range(ts, 4, 6).as_str());
        push_str(&mut out, "-");
        push_str(&mut out, byte_range(ts, 6, 8).as_str());
        push_str(&mut out, " ");
        push_str(&mut out, byte_range(ts, 9, 11).as_str());
        push_str(&mut out, ":");
        push_str(&mut out, byte_range(ts, 11, 13).as_str());
        push_str(&mut out, ":");
        push_str(&mut out, byte_range(ts, 13, 15).as_str());
        out
    } else {
        owned(ts)
    }
}

// ---------------------------------------------------------------------------
// Truncation
// ---------------------------------------------------------------------------

/// `s` when its encoding has at most `max` bytes, else its first `max - 1`
/// bytes followed by `…`.
pub open spec fn truncate_spec(s: Seq<char>, max: nat) -> Seq<char> {
    if encode_utf8(s).len() <= max {
        s
    } else {
        byte_range_text(s, 0, max - 1).push('…')
    }
}

/// `s` cut to `max` bytes, the cut marked with `…`. When `s` is longer
/// than `max` bytes, `max` is at least 1 and byte `max - 1` starts a
/// character.
pub fn truncate_str(s: &str, max: usize) -> (r: String)
    requires
        s.spec_bytes().len() > max ==> max >= 1 && is_char_boundary(
            s.spec_bytes(),
            max - 1,
        ),
    ensures
        r@ == truncate_spec(s@, max as nat),
{
    if s.as_bytes().len() <= max {
        owned(s)
    } else {
        proof {
            encode_utf8_valid_utf8(s@);
            is_char_boundary_start_end_of_seq(s.spec_bytes());
        }
        let mut out = byte_range(s, 0, max - 1);
        push_char(&mut out, '…');
        out
    }
}


// ---------------------------------------------------------------------------
// Highlighting the filter in a cell
// ---------------------------------------------------------------------------

/// The byte offsets at which `needle` occurs in `hay` from `i` on, found
/// left to right and without overlap (as `str::match_indices` finds them).
pub open spec fn match_starts(hay: Seq<u8>, needle: Seq<u8>, i: int) -> Seq<int>
    decreases hay.len() - i,
{
    if needle.len() == 0 || i < 0 || i + needle.len() > hay.len() {
        Seq::empty()
    } else if hay.subrange(i, i + needle.len()) == needle {
        seq![i] + match_starts(hay, needle, i + needle.len())
    } else {
        match_starts(hay, needle, i + 1)
    }
}

/// The ranges a text is drawn in from match positions `starts` on: plain
/// up to each match of length `len`, the match highlighted, and what
/// follows the last match up to `total` plain. `last` is where the
/// previous range ended.
pub open spec fn segments_from(starts: Seq<int>, len: int, last: int, total: int) -> Seq<
    (int, int, bool),
>
    decreases starts.len(),
{
    if starts.len() == 0 {
        if last < total {
            seq![(last, total, false)]
        } else {
            Seq::empty()
        }
    } else {
        let s = starts[0];
        let before = if s > last {
            seq![(last, s, false)]
        } else {
            Seq::empty()
        };
        before + seq![(s, s + len, true)] + segments_from(starts.drop_first(), len, s + len, total)
    }
}

/// The byte ranges of `text` to draw, each marked highlighted or plain:
/// with an empty filter, the whole text plain; otherwise the matches of
/// the lower-case filter in the lower-case text highlighted. The offsets
/// are those of the lower-case text, applied to `text`.
pub open spec fn highlight_spec(text: Seq<char>, filter: Seq<char>) -> Seq<(int, int, bool)> {
    let total = encode_utf8(text).len() as int;
    let whole = seq![(0int, total, false)];
    if filter.len() == 0 {
        whole
    } else {
        let needle = encode_utf8(lowercase(filter));
        let segs = segments_from(
            match_starts(encode_utf8(lowercase(text)), needle, 0),
            needle.len() as int,
            0,
            total,
        );
        if segs.len() == 0 {
            whole
        } else {
            segs
        }
    }
}

/// The ranges as integers.
pub open spec fn range_views(v: Seq<(usize, usize, bool)>) -> Seq<(int, int, bool)> {
    v.map_values(|p: (usize, usize, bool)| (p.0 as int, p.1 as int, p.2))
}

/// Whether `needle` occurs in `hay` at byte `i`.
fn bytes_at(hay: &[u8], needle: &[u8], i: usize) -> (r: bool)
    requires
        i + needle@.len() <= hay@.len(),
    ensures
        r == (hay@.subrange(i as int, i + needle@.len()) == needle@),
{
    let mut k: usize = 0;
    let n = hay.len();
    while k < needle.len()
        invariant
            n == hay@.len(),
            k <= needle@.len(),
            i + needle@.len() <= hay@.len(),
            forall|j: int| 0 <= j < k ==> hay@[i + j] == needle@[j],
        decreases needle@.len() - k,
    {
        if hay[i + k] != needle[k] {
            proof {
                assert(hay@.subrange(i as int, i + needle@.len())[k as int] != needle@[k as int]);
            }
            return false;
        }
        k = k + 1;
    }
    proof {
        assert(hay@.subrange(i as int, i + needle@.len()) =~= needle@);
    }
    true
}

/// The byte ranges of `text` to draw with the matches of `filter`
/// (ignoring case) highlighted.
pub fn highlight_ranges(text: &str, filter: &str) -> (r: Vec<(usize, usize, bool)>)
    ensures
        range_views(r@) == highlight_spec(text@, filter@),
{
    let total = text.as_bytes().len();
    let mut out: Vec<(usize, usize, bool)> = Vec::new();
    if filter.is_empty() {
        out.push((0, total, false));
        proof {
            assert(range_views(out@) =~= highlight_spec(text@, filter@));
        }
        return out;
    }
    let lower_text = to_lowercase(text);
    let lower_filter = to_lowercase(filter);
    let hay = lower_text.as_str().as_bytes();
    let needle = lower_filter.as_str().as_bytes();
    let len = needle.len();
    let ghost full = segments_from(match_starts(hay@, needle@, 0), len as int, 0, total as int);
    let mut i: usize = 0;
    let mut last: usize = 0;
    proof {
        assert(range_views(out@) + full =~= full);
    }
    while len > 0 && len <= hay.len() - i
        invariant
            len == needle@.len(),
            i <= hay@.len(),
            last <= i,
            total == encode_utf8(text@).len(),
            hay@ == encode_utf8(lowercase(text@)),
            needle@ == encode_utf8(lowercase(filter@)),
            full == segments_from(match_starts(hay@, needle@, 0), len as int, 0, total as int),
            range_views(out@) + segments_from(match_starts(hay@, needle@, i as int), len as int, last as int, total as int) == full,
        decreases hay@.len() - i,
    {
        if bytes_at(hay, needle, i) {
            let ghost before = range_views(out@);
            let ghost rest = match_starts(hay@, needle@, i + len);
            proof {
                let ms = match_starts(hay@, needle@, i as int);
                assert(ms == seq![i as int] + rest);
                assert(ms[0] == i as int);
                assert(ms.drop_first() =~= rest);
            }
            if i > last {
                out.push((last, i, false));
            }
            out.push((i, i + len, true));
            proof {
                let pre = if i > last {
                    seq![(last as int, i as int, false)]
                } else {
                    Seq::<(int, int, bool)>::empty()
                };
                assert(range_views(out@) =~= before + pre + seq![(i as int, i + len, true)]);
            }
            last = i + len;
            i = i + len;
        } else {
            i = i + 1;
        }
    }
    if last < total {
        out.push((last, total, false));
    }
    proof {
        assert(match_starts(hay@, needle@, i as int) =~= Seq::<int>::empty());
    }
    if out.len() == 0 {
        out.push((0, total, false));
    }
    proof {
        assert(range_views(out@) =~= highlight_spec(text@, filter@));
    }
    out
}

} // verus!
