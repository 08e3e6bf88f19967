//! Character-level string helpers with exact specifications.
//!
//! Strings are modelled by their view, a `Seq<char>`.  Case mappings follow
//! the Unicode tables of the standard library and are named (`lowercase`,
//! `uppercase`, `uppercase_char`, `alphanumeric`) rather than written out.

use vstd::prelude::*;

verus! {

// ---------------------------------------------------------------------------
// Names for what the standard library's Unicode-table functions return
// ---------------------------------------------------------------------------

/// The Unicode lowercase mapping of a whole string (`str::to_lowercase`).
pub uninterp spec fn lowercase(s: Seq<char>) -> Seq<char>;

/// The Unicode uppercase mapping of a whole string (`str::to_uppercase`).
pub uninterp spec fn uppercase(s: Seq<char>) -> Seq<char>;

/// The Unicode uppercase mapping of one character (`char::to_uppercase`),
/// which may be several characters long.
pub uninterp spec fn uppercase_char(c: char) -> Seq<char>;

/// Whether a character is alphabetic or numeric in Unicode
/// (`char::is_alphanumeric`).
pub uninterp spec fn alphanumeric(c: char) -> bool;

/// Calls `str::to_lowercase`; the result is the string's Unicode lowercase
/// mapping, named `lowercase`, and the empty string stays empty.
#[verifier::external_body]
pub(crate) fn to_lowercase(s: &str) -> (r: String)
    ensures
        r@ == lowercase(s@),
        s@.len() == 0 ==> r@.len() == 0,
{
    s.to_lowercase()
}

/// Calls `str::to_uppercase`; the result is the string's Unicode uppercase
/// mapping, named `uppercase`.
#[verifier::external_body]
pub(crate) fn to_uppercase(s: &str) -> (r: String)
    ensures
        r@ == uppercase(s@),
{
    s.to_uppercase()
}

/// Calls `char::to_uppercase` and collects the characters it yields; the
/// result is named `uppercase_char`, and it is one or more characters long,
/// as std documents for that iterator.
#[verifier::external_body]
pub(crate) fn char_to_uppercase(c: char) -> (r: String)
    ensures
        r@ == uppercase_char(c),
        r@.len() >= 1,
{
    c.to_uppercase().collect::<String>()
}

/// Calls `char::is_alphanumeric`; the result is named `alphanumeric`.
#[verifier::external_body]
pub(crate) fn is_alphanumeric(c: char) -> (r: bool)
    ensures
        r == alphanumeric(c),
{
    c.is_alphanumeric()
}

/// Calls `String::push`, which appends one character.
#[verifier::external_body]
pub(crate) fn push_char(s: &mut String, c: char)
    ensures
        final(s)@ == old(s)@.push(c),
{
    s.push(c);
}

// ---------------------------------------------------------------------------
// Conversions between strings and character vectors
// ---------------------------------------------------------------------------

/// The characters of a string, in order.
pub fn chars_of(s: &str) -> (r: Vec<char>)
    ensures
        r@ == s@,
{
    let mut out: Vec<char> = Vec::new();
    for c in it: s.chars()
        invariant
            out@ == it.seq().take(it.index() as int),
            it.seq() == s@,
    {
        out.push(c);
    }
    proof {
        assert(out@ =~= s@);
    }
    out
}

/// Appends a whole string to `out`.
pub fn push_str(out: &mut String, s: &str)
    ensures
        final(out)@ == old(out)@ + s@,
{
    let ghost start = out@;
    for c in it: s.chars()
        invariant
            out@ == start + it.seq().take(it.index() as int),
            it.seq() == s@,
    {
        push_char(out, c);
        proof {
            assert(start + it.seq().take(it.index() + 1) =~= start + it.seq().take(
                it.index() as int,
            ).push(c));
        }
    }
    proof {
        assert(out@ =~= start + s@);
    }
}

/// A new string holding the characters `v[from..to]`.
pub fn string_from_range(v: &Vec<char>, from: usize, to: usize) -> (r: String)
    requires
        from <= to <= v.len(),
    ensures
        r@ == v@.subrange(from as int, to as int),
{
    let mut out = String::new();
    let mut i = from;
    while i < to
        invariant
            from <= i <= to <= v.len(),
            out@ == v@.subrange(from as int, i as int),
        decreases to - i,
    {
        push_char(&mut out, v[i]);
        proof {
            assert(v@.subrange(from as int, i + 1) =~= v@.subrange(from as int, i as int).push(
                v@[i as int],
            ));
        }
        i += 1;
    }
    out
}

/// The text without its last character (unchanged when empty), as
/// `String::pop` leaves it.
pub open spec fn without_last(s: Seq<char>) -> Seq<char> {
    if s.len() == 0 {
        s
    } else {
        s.drop_last()
    }
}

/// Removes the last character of `s`, if any.
pub fn pop_char(s: &mut String)
    ensures
        final(s)@ == without_last(old(s)@),
{
    let v = chars_of(s.as_str());
    if v.len() > 0 {
        *s = string_from_range(&v, 0, v.len() - 1);
        proof {
            assert(v@.subrange(0, v@.len() - 1) =~= v@.drop_last());
        }
    }
}

/// A copy of a string slice.
pub fn owned(s: &str) -> (r: String)
    ensures
        r@ == s@,
{
    let mut out = String::new();
    push_str(&mut out, s);
    proof {
        assert(Seq::<char>::empty() + s@ =~= s@);
    }
    out
}

// ---------------------------------------------------------------------------
// Comparison and search
// ---------------------------------------------------------------------------

/// Whether two character sequences are equal, compared character by
/// character.
pub fn chars_eq(a: &Vec<char>, b: &Vec<char>) -> (r: bool)
    ensures
        r == (a@ == b@),
{
    if a.len() != b.len() {
        return false;
    }
    let mut i: usize = 0;
    while i < a.len()
        invariant
            a.len() == b.len(),
            i <= a.len(),
            forall|j: int| 0 <= j < i ==> a@[j] == b@[j],
        decreases a.len() - i,
    {
        if a[i] != b[i] {
            return false;
        }
        i += 1;
    }
    proof {
        assert(a@ =~= b@);
    }
    true
}

/// Whether two strings are equal.
pub fn str_eq(a: &str, b: &str) -> (r: bool)
    ensures
        r == (a@ == b@),
{
    let va = chars_of(a);
    let vb = chars_of(b);
    chars_eq(&va, &vb)
}

/// `needle` occurs in `hay` starting at position `i`.
pub open spec fn occurs_at(hay: Seq<char>, needle: Seq<char>, i: int) -> bool {
    &&& 0 <= i
    &&& i + needle.len() <= hay.len()
    &&& hay.subrange(i, i + needle.len()) == needle
}

/// `needle` occurs somewhere in `hay` (the empty string occurs everywhere).
pub open spec fn contains_seq(hay: Seq<char>, needle: Seq<char>) -> bool {
    exists|i: int| occurs_at(hay, needle, i)
}

/// `hay` begins with `prefix`.
pub open spec fn starts_with_seq(hay: Seq<char>, prefix: Seq<char>) -> bool {
    occurs_at(hay, prefix, 0)
}

/// `hay` ends with `suffix`.
pub open spec fn ends_with_seq(hay: Seq<char>, suffix: Seq<char>) -> bool {
    occurs_at(hay, suffix, hay.len() - suffix.len())
}

/// Whether `needle` occurs in `hay` at position `i`.
pub fn occurs_at_exec(hay: &Vec<char>, needle: &Vec<char>, i: usize) -> (r: bool)
    ensures
        r == occurs_at(hay@, needle@, i as int),
{
    if i > hay.len() || needle.len() > hay.len() - i {
        proof {
            assert(!occurs_at(hay@, needle@, i as int));
        }
        return false;
    }
    let mut k: usize = 0;
    while k < needle.len()
        invariant
            i + needle.len() <= hay.len(),
            k <= needle.len(),
            forall|j: int| 0 <= j < k ==> hay@[i + j] == needle@[j],
        decreases needle.len() - k,
    {
        if hay[i + k] != needle[k] {
            proof {
                assert(hay@.subrange(i as int, i + needle.len())[k as int] != needle@[k as int]);
            }
            return false;
        }
        k += 1;
    }
    proof {
        assert(hay@.subrange(i as int, i + needle.len()) =~= needle@);
    }
    true
}

/// Whether `needle` occurs anywhere in `hay`.
pub fn contains_chars(hay: &Vec<char>, needle: &Vec<char>) -> (r: bool)
    ensures
        r == contains_seq(hay@, needle@),
{
    if needle.len() > hay.len() {
        proof {
            assert forall|i: int| !occurs_at(hay@, needle@, i) by {}
        }
        return false;
    }
    let last = hay.len() - needle.len();
    let mut i: usize = 0;
    while i < last
        invariant
            last == hay.len() - needle.len(),
            i <= last,
            forall|j: int| 0 <= j < i ==> !occurs_at(hay@, needle@, j),
        decreases last - i,
    {
        if occurs_at_exec(hay, needle, i) {
            return true;
        }
        i += 1;
    }
    if occurs_at_exec(hay, needle, last) {
        return true;
    }
    proof {
        assert forall|j: int| !occurs_at(hay@, needle@, j) by {
            if 0 <= j < i {
            } else if j == last {
            }
        }
    }
    false
}

/// Whether `needle` occurs anywhere in `hay` (`str::contains`).
pub fn str_contains(hay: &str, needle: &str) -> (r: bool)
    ensures
        r == contains_seq(hay@, needle@),
{
    let h = chars_of(hay);
    let n = chars_of(needle);
    contains_chars(&h, &n)
}

/// Whether `hay` begins with `prefix` (`str::starts_with`).
pub fn str_starts_with(hay: &str, prefix: &str) -> (r: bool)
    ensures
        r == starts_with_seq(hay@, prefix@),
{
    let h = chars_of(hay);
    let p = chars_of(prefix);
    occurs_at_exec(&h, &p, 0)
}

/// Whether `hay` ends with `suffix` (`str::ends_with`).
pub fn str_ends_with(hay: &str, suffix: &str) -> (r: bool)
    ensures
        r == ends_with_seq(hay@, suffix@),
{
    let h = chars_of(hay);
    let s = chars_of(suffix);
    if s.len() > h.len() {
        return false;
    }
    occurs_at_exec(&h, &s, h.len() - s.len())
}

/// `hay` with `suffix` removed from its end, when it ends with it
/// (`str::strip_suffix`).
pub fn str_strip_suffix(hay: &str, suffix: &str) -> (r: Option<String>)
    ensures
        r is Some <==> ends_with_seq(hay@, suffix@),
        r matches Some(base) ==> base@ == hay@.subrange(0, hay@.len() - suffix@.len()),
{
    let h = chars_of(hay);
    let s = chars_of(suffix);
    if s.len() > h.len() {
        return None;
    }
    if occurs_at_exec(&h, &s, h.len() - s.len()) {
        Some(string_from_range(&h, 0, h.len() - s.len()))
    } else {
        None
    }
}

/// The position of the last occurrence of `c` in `s`, if any.
pub open spec fn last_index_of(s: Seq<char>, c: char) -> Option<int>
    decreases s.len(),
{
    if s.len() == 0 {
        None
    } else if s.last() == c {
        Some(s.len() - 1)
    } else {
        last_index_of(s.drop_last(), c)
    }
}

pub proof fn lemma_last_index_of(s: Seq<char>, c: char)
    ensures
        last_index_of(s, c) matches Some(i) ==> 0 <= i < s.len() && s[i] == c && forall|j: int|
            i < j < s.len() ==> s[j] != c,
        last_index_of(s, c) is None ==> forall|j: int| 0 <= j < s.len() ==> s[j] != c,
    decreases s.len(),
{
    if s.len() > 0 && s.last() != c {
        lemma_last_index_of(s.drop_last(), c);
        assert forall|j: int| 0 <= j < s.len() - 1 implies s[j] == s.drop_last()[j] by {}
    }
}

/// The position of the last occurrence of `c` in `v` (`str::rfind` on a
/// character, counted in characters).
pub fn rfind_char(v: &Vec<char>, c: char) -> (r: Option<usize>)
    ensures
        r matches Some(i) ==> last_index_of(v@, c) == Some(i as int),
        r is None ==> last_index_of(v@, c) is None,
{
    let mut i = v.len();
    while i > 0
        invariant
            i <= v.len(),
            forall|j: int| i <= j < v.len() ==> v@[j] != c,
        decreases i,
    {
        if v[i - 1] == c {
            proof {
                lemma_last_index_of(v@, c);
                lemma_last_index_of_unique(v@, c, i - 1);
            }
            return Some(i - 1);
        }
        i -= 1;
    }
    proof {
        lemma_last_index_of(v@, c);
        if last_index_of(v@, c) is Some {
            let k = last_index_of(v@, c)->0;
            assert(v@[k] == c);
        }
    }
    None
}

proof fn lemma_last_index_of_unique(s: Seq<char>, c: char, i: int)
    requires
        0 <= i < s.len(),
        s[i] == c,
        forall|j: int| i < j < s.len() ==> s[j] != c,
    ensures
        last_index_of(s, c) == Some(i),
    decreases s.len(),
{
    if i < s.len() - 1 {
        lemma_last_index_of_unique(s.drop_last(), c, i);
    }
}

// ---------------------------------------------------------------------------
// Trimming
// ---------------------------------------------------------------------------

/// `s` with every trailing `c` removed (`str::trim_end_matches` with a char).
pub open spec fn trim_end_char(s: Seq<char>, c: char) -> Seq<char>
    decreases s.len(),
{
    if s.len() > 0 && s.last() == c {
        trim_end_char(s.drop_last(), c)
    } else {
        s
    }
}

/// `s` with every trailing `c` removed.
pub fn trim_end_matches_char(s: &str, c: char) -> (r: String)
    ensures
        r@ == trim_end_char(s@, c),
{
    let v = chars_of(s);
    let mut end = v.len();
    proof {
        assert(v@.subrange(0, end as int) =~= v@);
    }
    while end > 0 && v[end - 1] == c
        invariant
            end <= v.len(),
            trim_end_char(v@.subrange(0, end as int), c) == trim_end_char(v@, c),
        decreases end,
    {
        proof {
            assert(v@.subrange(0, end as int).drop_last() =~= v@.subrange(0, end - 1));
        }
        end -= 1;
    }
    string_from_range(&v, 0, end)
}

/// The characters with the Unicode `White_Space` property, which is what
/// `char::is_whitespace` tests.
pub open spec fn is_white_space(c: char) -> bool {
    let n = c as u32;
    ||| 0x09 <= n <= 0x0D
    ||| n == 0x20
    ||| n == 0x85
    ||| n == 0xA0
    ||| n == 0x1680
    ||| 0x2000 <= n <= 0x200A
    ||| n == 0x2028
    ||| n == 0x2029
    ||| n == 0x202F
    ||| n == 0x205F
    ||| n == 0x3000
}

/// Whether a character is white space.
pub fn is_white_space_exec(c: char) -> (r: bool)
    ensures
        r == is_white_space(c),
{
    let n = c as u32;
    (0x09 <= n && n <= 0x0D) || n == 0x20 || n == 0x85 || n == 0xA0 || n == 0x1680 || (0x2000 <= n
        && n <= 0x200A) || n == 0x2028 || n == 0x2029 || n == 0x202F || n == 0x205F || n == 0x3000
}

/// `s` without leading and trailing white space (`str::trim`): the
/// subrange from the first to the last character that is not white space.
pub open spec fn is_trim_of(s: Seq<char>, t: Seq<char>) -> bool {
    exists|a: int, b: int|
        0 <= a <= b <= s.len() && t == s.subrange(a, b) && (forall|j: int|
            0 <= j < a ==> is_white_space(#[trigger] s[j])) && (forall|j: int|
            b <= j < s.len() ==> is_white_space(#[trigger] s[j])) && (a < b ==> !is_white_space(
            s[a]) && !is_white_space(s[b - 1])) && (a == b ==> forall|j: int|
            0 <= j < s.len() ==> is_white_space(#[trigger] s[j]))
}

/// The text `s` trims to (there is exactly one, see `lemma_trim_unique`).
pub open spec fn trimmed(s: Seq<char>) -> Seq<char> {
    choose|t: Seq<char>| is_trim_of(s, t)
}

/// A text trims to one text only.
pub proof fn lemma_trim_unique(s: Seq<char>, t1: Seq<char>, t2: Seq<char>)
    requires
        is_trim_of(s, t1),
        is_trim_of(s, t2),
    ensures
        t1 == t2,
{
    let (a1, b1) = choose|a: int, b: int|
        0 <= a <= b <= s.len() && t1 == s.subrange(a, b) && (forall|j: int|
            0 <= j < a ==> is_white_space(#[trigger] s[j])) && (forall|j: int|
            b <= j < s.len() ==> is_white_space(#[trigger] s[j])) && (a < b ==> !is_white_space(
            s[a]) && !is_white_space(s[b - 1])) && (a == b ==> forall|j: int|
            0 <= j < s.len() ==> is_white_space(#[trigger] s[j]));
    let (a2, b2) = choose|a: int, b: int|
        0 <= a <= b <= s.len() && t2 == s.subrange(a, b) && (forall|j: int|
            0 <= j < a ==> is_white_space(#[trigger] s[j])) && (forall|j: int|
            b <= j < s.len() ==> is_white_space(#[trigger] s[j])) && (a < b ==> !is_white_space(
            s[a]) && !is_white_space(s[b - 1])) && (a == b ==> forall|j: int|
            0 <= j < s.len() ==> is_white_space(#[trigger] s[j]));
    if a1 < b1 {
        assert(!is_white_space(s[a1]));
        if a2 == b2 {
            assert(is_white_space(s[a1]));
        }
        if a2 > a1 {
            assert(is_white_space(s[a1]));
        }
        if a1 > a2 {
            assert(is_white_space(s[a2]));
        }
        if b2 < b1 {
            assert(is_white_space(s[b1 - 1]));
        }
        if b1 < b2 {
            assert(is_white_space(s[b2 - 1]));
        }
        assert(a1 == a2 && b1 == b2);
    } else {
        if a2 < b2 {
            assert(is_white_space(s[a2]));
        }
        assert(t1 =~= t2);
    }
}

/// `s` without leading and trailing white space.
pub fn trim(s: &str) -> (r: String)
    ensures
        is_trim_of(s@, r@),
        r@ == trimmed(s@),
{
    let v = chars_of(s);
    let mut a: usize = 0;
    while a < v.len() && is_white_space_exec(v[a])
        invariant
            a <= v.len(),
            forall|j: int| 0 <= j < a ==> is_white_space(#[trigger] v@[j]),
        decreases v.len() - a,
    {
        a += 1;
    }
    let mut b = v.len();
    while b > a && is_white_space_exec(v[b - 1])
        invariant
            a <= b <= v.len(),
            forall|j: int| b <= j < v.len() ==> is_white_space(#[trigger] v@[j]),
        decreases b,
    {
        b -= 1;
    }
    let r = string_from_range(&v, a, b);
    proof {
        assert(a < b ==> !is_white_space(v@[a as int]));
        if a == b {
            assert forall|j: int| 0 <= j < v@.len() implies is_white_space(#[trigger] v@[j]) by {
                if j < a {
                } else {
                }
            }
        }
        assert(is_trim_of(s@, r@)) by {
            assert(0 <= a <= b <= v@.len());
        }
        lemma_trim_unique(s@, r@, trimmed(s@));
    }
    r
}

// ---------------------------------------------------------------------------
// Decimal rendering of integers
// ---------------------------------------------------------------------------

/// The ASCII digit for `d < 10`.
pub open spec fn digit_char(d: nat) -> char {
    if d == 0 {
        '0'
    } else if d == 1 {
        '1'
    } else if d == 2 {
        '2'
    } else if d == 3 {
        '3'
    } else if d == 4 {
        '4'
    } else if d == 5 {
        '5'
    } else if d == 6 {
        '6'
    } else if d == 7 {
        '7'
    } else if d == 8 {
        '8'
    } else {
        '9'
    }
}

/// The decimal digits of `n`, without leading zeros (`"0"` for zero).
pub open spec fn decimal(n: nat) -> Seq<char>
    decreases n,
{
    if n < 10 {
        seq![digit_char(n)]
    } else {
        decimal(n / 10).push(digit_char(n % 10))
    }
}

/// The decimal text of an integer, with a leading `-` when negative.
pub open spec fn signed_decimal(n: int) -> Seq<char> {
    if n < 0 {
        seq!['-'] + decimal((-n) as nat)
    } else {
        decimal(n as nat)
    }
}

fn digit_exec(d: u64) -> (c: char)
    requires
        d < 10,
    ensures
        c == digit_char(d as nat),
{
    if d == 0 {
        '0'
    } else if d == 1 {
        '1'
    } else if d == 2 {
        '2'
    } else if d == 3 {
        '3'
    } else if d == 4 {
        '4'
    } else if d == 5 {
        '5'
    } else if d == 6 {
        '6'
    } else if d == 7 {
        '7'
    } else if d == 8 {
        '8'
    } else {
        '9'
    }
}

/// Appends the decimal digits of `n` to `out` (as `{}` formatting writes
/// an unsigned integer).
pub fn push_decimal(out: &mut String, n: u64)
    ensures
        final(out)@ == old(out)@ + decimal(n as nat),
    decreases n,
{
    if n >= 10 {
        push_decimal(out, n / 10);
    }
    let c = digit_exec(n % 10);
    push_char(out, c);
    proof {
        if n >= 10 {
            assert(old(out)@ + decimal(n as nat) =~= old(out)@ + decimal((n / 10) as nat) + seq![
                c,
            ]);
        } else {
            assert(old(out)@ + decimal(n as nat) =~= old(out)@.push(c));
        }
    }
}

/// Appends the decimal text of a signed integer to `out` (as `{}`
/// formatting writes it).
pub fn push_signed_decimal(out: &mut String, n: i64)
    ensures
        final(out)@ == old(out)@ + signed_decimal(n as int),
{
    if n < 0 {
        push_char(out, '-');
        let m: i128 = -(n as i128);
        let mu: u64 = m as u64;
        push_decimal(out, mu);
        proof {
            assert(old(out)@ + signed_decimal(n as int) =~= old(out)@.push('-') + decimal(
                mu as nat,
            ));
        }
    } else {
        push_decimal(out, n as u64);
    }
}

} // verus!
