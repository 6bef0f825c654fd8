//! Character-level text utilities.
//!
//! Everything here works over `Seq<char>` views so that the filter engine
//! and the parsers can state exact contracts about string contents.

use vstd::prelude::*;
use vstd::string::StrSliceExecFns;

verus! {

/// The whitespace characters that token trimming removes.
pub open spec fn is_space(c: char) -> bool {
    c == ' ' || c == '\t' || c == '\n' || c == '\r'
}

/// ASCII lowercasing of a single character; non-ASCII-uppercase characters
/// are left unchanged, matching `u8::to_ascii_lowercase` on ASCII text.
pub open spec fn ascii_lower(c: char) -> char {
    if 'A' <= c && c <= 'Z' {
        ((c as u8) + 32) as char
    } else {
        c
    }
}

/// Executable counterpart of [`ascii_lower`].
pub fn ascii_lower_char(c: char) -> (r: char)
    ensures
        r == ascii_lower(c),
{
    if 'A' <= c && c <= 'Z' {
        ((c as u8) + 32) as char
    } else {
        c
    }
}

// ── Trimming ────────────────────────────────────────────────────────────

/// `s` with leading whitespace removed.
pub open spec fn trim_left(s: Seq<char>) -> Seq<char>
    decreases s.len(),
{
    if s.len() > 0 && is_space(s[0]) {
        trim_left(s.drop_first())
    } else {
        s
    }
}

/// `s` with trailing whitespace removed.
pub open spec fn trim_right(s: Seq<char>) -> Seq<char>
    decreases s.len(),
{
    if s.len() > 0 && is_space(s.last()) {
        trim_right(s.drop_last())
    } else {
        s
    }
}

/// `s` with leading and trailing whitespace removed.
pub open spec fn trim_spec(s: Seq<char>) -> Seq<char> {
    trim_right(trim_left(s))
}

/// Executable trim over a character vector.
pub fn trim_chars(v: &Vec<char>) -> (r: Vec<char>)
    ensures
        r@ == trim_spec(v@),
{
    let mut lo: usize = 0;
    proof {
        assert(v@.skip(0) =~= v@);
    }
    while lo < v.len() && is_space_char(v[lo])
        invariant
            lo <= v.len(),
            trim_left(v@) == trim_left(v@.skip(lo as int)),
        decreases v.len() - lo,
    {
        proof {
            assert(v@.skip(lo as int).drop_first() =~= v@.skip(lo as int + 1));
        }
        lo = lo + 1;
    }
    proof {
        assert(trim_left(v@) =~= v@.subrange(lo as int, v.len() as int));
    }
    let mut hi: usize = v.len();
    while hi > lo && is_space_char(v[hi - 1])
        invariant
            lo <= hi <= v.len(),
            trim_right(trim_left(v@)) == trim_right(v@.subrange(lo as int, hi as int)),
        decreases hi,
    {
        proof {
            assert(v@.subrange(lo as int, hi as int).drop_last() =~= v@.subrange(
                lo as int,
                hi as int - 1,
            ));
        }
        hi = hi - 1;
    }
    proof {
        assert(trim_right(v@.subrange(lo as int, hi as int)) =~= v@.subrange(
            lo as int,
            hi as int,
        ));
    }
    let mut r: Vec<char> = Vec::new();
    let mut i: usize = lo;
    while i < hi
        invariant
            lo <= i <= hi <= v.len(),
            r@ == v@.subrange(lo as int, i as int),
        decreases hi - i,
    {
        r.push(v[i]);
        proof {
            assert(v@.subrange(lo as int, i as int).push(v@[i as int]) =~= v@.subrange(
                lo as int,
                i as int + 1,
            ));
        }
        i = i + 1;
    }
    r
}

/// Executable counterpart of [`is_space`].
pub fn is_space_char(c: char) -> (r: bool)
    ensures
        r == is_space(c),
{
    c == ' ' || c == '\t' || c == '\n' || c == '\r'
}

// ── Splitting at commas ─────────────────────────────────────────────────

/// The pieces of `s` between commas, in order; mirrors `str::split(',')`,
/// so an empty input yields one empty piece and `n` commas yield `n + 1`
/// pieces.
pub open spec fn split_commas(s: Seq<char>) -> Seq<Seq<char>>
    decreases s.len(),
{
    if s.len() == 0 {
        seq![Seq::<char>::empty()]
    } else if s[0] == ',' {
        seq![Seq::<char>::empty()] + split_commas(s.drop_first())
    } else {
        let rest = split_commas(s.drop_first());
        seq![seq![s[0]] + rest[0]] + rest.drop_first()
    }
}

pub proof fn lemma_split_commas_len(s: Seq<char>)
    ensures
        split_commas(s).len() >= 1,
    decreases s.len(),
{
    if s.len() > 0 {
        lemma_split_commas_len(s.drop_first());
    }
}

/// A comma-free piece splits to just itself.
pub proof fn lemma_split_commas_no_comma(s: Seq<char>)
    requires
        forall|i: int| 0 <= i < s.len() ==> s[i] != ',',
    ensures
        split_commas(s) == seq![s],
    decreases s.len(),
{
    if s.len() == 0 {
        assert(split_commas(s) =~~= seq![s]);
    } else {
        lemma_split_commas_no_comma(s.drop_first());
        assert(seq![s[0]] + s.drop_first() =~= s);
        assert(split_commas(s) =~~= seq![s]);
    }
}

/// Splitting distributes over a comma.
pub proof fn lemma_split_commas_concat(x: Seq<char>, y: Seq<char>)
    ensures
        split_commas(x + seq![','] + y) == split_commas(x) + split_commas(y),
    decreases x.len(),
{
    let s = x + seq![','] + y;
    if x.len() == 0 {
        assert(s.drop_first() =~= y);
        assert(split_commas(s) =~~= split_commas(x) + split_commas(y));
    } else {
        lemma_split_commas_concat(x.drop_first(), y);
        assert(s.drop_first() =~= x.drop_first() + seq![','] + y);
        lemma_split_commas_len(x.drop_first());
        if x[0] == ',' {
            assert(split_commas(s) =~~= split_commas(x) + split_commas(y));
        } else {
            assert(split_commas(s) =~~= split_commas(x) + split_commas(y));
        }
    }
}

/// Split a character vector at commas; result views equal [`split_commas`].
pub fn split_commas_exec(v: &Vec<char>) -> (r: Vec<Vec<char>>)
    ensures
        r@.map_values(|t: Vec<char>| t@) == split_commas(v@),
{
    let mut done: Vec<Vec<char>> = Vec::new();
    let mut cur: Vec<char> = Vec::new();
    let mut i: usize = 0;
    let ghost mut st: int = 0;
    proof {
        assert(v@.skip(0) =~= v@);
    }
    while i < v.len()
        invariant
            0 <= st <= i <= v.len(),
            cur@ == v@.subrange(st, i as int),
            split_commas(v@) == done@.map_values(|t: Vec<char>| t@) + split_commas(
                v@.skip(st),
            ),
            forall|k: int| st <= k < i ==> v@[k] != ',',
        decreases v.len() - i,
    {
        let c = v[i];
        if c == ',' {
            proof {
                assert(v@.skip(st) =~= v@.subrange(st, i as int) + seq![','] + v@.skip(
                    i as int + 1,
                ));
                lemma_split_commas_concat(v@.subrange(st, i as int), v@.skip(i as int + 1));
                lemma_split_commas_no_comma(v@.subrange(st, i as int));
            }
            done.push(cur);
            proof {
                assert(done@.map_values(|t: Vec<char>| t@) =~= done@.map_values(
                    |t: Vec<char>| t@,
                ).drop_last() + seq![v@.subrange(st, i as int)]);
            }
            cur = Vec::new();
            proof {
                st = i as int + 1;
                assert(cur@ =~= v@.subrange(st, i as int + 1));
            }
        } else {
            cur.push(c);
            proof {
                assert(cur@ =~= v@.subrange(st, i as int + 1));
            }
        }
        i = i + 1;
    }
    proof {
        assert(v@.skip(st) =~= v@.subrange(st, i as int));
        lemma_split_commas_no_comma(v@.subrange(st, i as int));
    }
    done.push(cur);
    proof {
        assert(done@.map_values(|t: Vec<char>| t@) =~= done@.map_values(
            |t: Vec<char>| t@,
        ).drop_last() + seq![v@.subrange(st, i as int)]);
        assert(done@.map_values(|t: Vec<char>| t@) =~= split_commas(v@));
    }
    done
}

// ── Unsigned decimal parsing ────────────────────────────────────────────

/// Whether `c` is an ASCII decimal digit.
pub open spec fn is_digit(c: char) -> bool {
    '0' <= c && c <= '9'
}

/// Numeric value of an ASCII digit.
pub open spec fn digit_val(c: char) -> nat {
    (c as nat - '0' as nat) as nat
}

/// Value of a sequence of ASCII digits, most significant first.
pub open spec fn digits_val(s: Seq<char>) -> nat
    decreases s.len(),
{
    if s.len() == 0 {
        0
    } else {
        digits_val(s.drop_last()) * 10 + digit_val(s.last())
    }
}

/// Whether every character of `s` is an ASCII digit.
pub open spec fn all_digits(s: Seq<char>) -> bool {
    forall|i: int| 0 <= i < s.len() ==> is_digit(#[trigger] s[i])
}

/// The value `str::parse::<u32>` gives to `s`: an optional `+` sign, then
/// one or more digits, failing on anything else or on overflow.
pub open spec fn parse_u32_spec(s: Seq<char>) -> Option<u32> {
    let t = if s.len() > 0 && s[0] == '+' {
        s.drop_first()
    } else {
        s
    };
    if t.len() > 0 && all_digits(t) && digits_val(t) <= u32::MAX {
        Some(digits_val(t) as u32)
    } else {
        None
    }
}

proof fn lemma_digits_val_append(s: Seq<char>, c: char)
    ensures
        digits_val(s.push(c)) == digits_val(s) * 10 + digit_val(c),
{
    assert(s.push(c).drop_last() =~= s);
}

/// Parse a digit string (with optional leading `+`) as a `u32`, as
/// `str::parse::<u32>` does.
pub fn parse_u32_chars(v: &Vec<char>) -> (r: Option<u32>)
    ensures
        r == parse_u32_spec(v@),
{
    let start: usize = if v.len() > 0 && v[0] == '+' {
        1
    } else {
        0
    };
    let ghost t = if v@.len() > 0 && v@[0] == '+' {
        v@.drop_first()
    } else {
        v@
    };
    proof {
        assert(t =~= v@.skip(start as int));
    }
    if v.len() == start {
        return None;
    }
    let mut acc: u64 = 0;
    let mut over: bool = false;
    let mut i: usize = start;
    while i < v.len()
        invariant
            start <= i <= v.len(),
            t == v@.skip(start as int),
            t == (if v@.len() > 0 && v@[0] == '+' {
                v@.drop_first()
            } else {
                v@
            }),
            all_digits(t.take(i - start)),
            over == (digits_val(t.take(i - start)) > u32::MAX),
            !over ==> acc == digits_val(t.take(i - start)),
            acc <= u32::MAX,
        decreases v.len() - i,
    {
        let c = v[i];
        if !('0' <= c && c <= '9') {
            proof {
                assert(t[i - start] == v@[i as int]);
                assert(!is_digit(t[i - start]));
                assert(!all_digits(t));
            }
            return None;
        }
        let d: u64 = (c as u8 - 48) as u64;
        proof {
            assert(t.take(i - start + 1) =~= t.take(i - start).push(t[i - start]));
            lemma_digits_val_append(t.take(i - start), t[i - start]);
        }
        if !over {
            let next: u64 = acc * 10 + d;
            if next > u32::MAX as u64 {
                over = true;
            } else {
                acc = next;
            }
        }
        i = i + 1;
    }
    proof {
        assert(t.take(i - start) =~= t);
    }
    if over {
        None
    } else {
        Some(acc as u32)
    }
}


/// Whether `c` is an ASCII hex digit.
pub open spec fn is_hex_digit(c: char) -> bool {
    ('0' <= c && c <= '9') || ('a' <= c && c <= 'f') || ('A' <= c && c <= 'F')
}

/// Numeric value of an ASCII hex digit.
pub open spec fn hex_digit_val(c: char) -> nat {
    if '0' <= c && c <= '9' {
        (c as nat - '0' as nat) as nat
    } else if 'a' <= c && c <= 'f' {
        (c as nat - 'a' as nat + 10) as nat
    } else {
        (c as nat - 'A' as nat + 10) as nat
    }
}

/// Value of a sequence of hex digits, most significant first.
pub open spec fn hex_digits_val(s: Seq<char>) -> nat
    decreases s.len(),
{
    if s.len() == 0 {
        0
    } else {
        hex_digits_val(s.drop_last()) * 16 + hex_digit_val(s.last())
    }
}

/// Whether every character of `s` is a hex digit.
pub open spec fn all_hex_digits(s: Seq<char>) -> bool {
    forall|i: int| 0 <= i < s.len() ==> is_hex_digit(#[trigger] s[i])
}

/// The value `u64::from_str_radix(s, 16)` gives to `s`: an optional `+`
/// sign, then one or more hex digits, failing on anything else or on
/// overflow.
pub open spec fn parse_hex_u64_spec(s: Seq<char>) -> Option<u64> {
    let t = if s.len() > 0 && s[0] == '+' {
        s.drop_first()
    } else {
        s
    };
    if t.len() > 0 && all_hex_digits(t) && hex_digits_val(t) <= u64::MAX {
        Some(hex_digits_val(t) as u64)
    } else {
        None
    }
}

proof fn lemma_hex_digits_val_append(s: Seq<char>, c: char)
    ensures
        hex_digits_val(s.push(c)) == hex_digits_val(s) * 16 + hex_digit_val(c),
{
    assert(s.push(c).drop_last() =~= s);
}

fn hex_digit_value(c: char) -> (r: Option<u64>)
    ensures
        r is Some ==> is_hex_digit(c) && r->Some_0 == hex_digit_val(c) && r->Some_0 <= 15,
        r is None ==> !is_hex_digit(c),
{
    if '0' <= c && c <= '9' {
        Some(((c as u8) - 48) as u64)
    } else if 'a' <= c && c <= 'f' {
        Some(((c as u8) - 97 + 10) as u64)
    } else if 'A' <= c && c <= 'F' {
        Some(((c as u8) - 65 + 10) as u64)
    } else {
        None
    }
}

/// Parse a hex digit string (with optional leading `+`) as a `u64`, as
/// `u64::from_str_radix(_, 16)` does.
#[verifier::loop_isolation(false)]
pub fn parse_hex_u64_chars(v: &Vec<char>) -> (r: Option<u64>)
    ensures
        r == parse_hex_u64_spec(v@),
{
    let start: usize = if v.len() > 0 && v[0] == '+' {
        1
    } else {
        0
    };
    let ghost t = if v@.len() > 0 && v@[0] == '+' {
        v@.drop_first()
    } else {
        v@
    };
    proof {
        assert(t =~= v@.skip(start as int));
    }
    if v.len() == start {
        return None;
    }
    let mut acc: u64 = 0;
    let mut over: bool = false;
    let mut i: usize = start;
    while i < v.len()
        invariant
            start <= i <= v.len(),
            all_hex_digits(t.take(i - start)),
            over == (hex_digits_val(t.take(i - start)) > u64::MAX),
            !over ==> acc == hex_digits_val(t.take(i - start)),
        decreases v.len() - i,
    {
        let c = v[i];
        let d = match hex_digit_value(c) {
            Some(d) => d,
            None => {
                proof {
                    assert(t[i - start] == v@[i as int]);
                    assert(!is_hex_digit(t[i - start]));
                }
                return None;
            },
        };
        proof {
            assert(t.take(i - start + 1) =~= t.take(i - start).push(t[i - start]));
            lemma_hex_digits_val_append(t.take(i - start), t[i - start]);
        }
        if !over {
            if acc > 0xFFF_FFFF_FFFF_FFFF {
                over = true;
            } else {
                acc = acc * 16 + d;
            }
        }
        i = i + 1;
    }
    proof {
        assert(t.take(i - start) =~= t);
    }
    if over {
        None
    } else {
        Some(acc)
    }
}

// ── Substring search ────────────────────────────────────────────────────

/// `n` occurs verbatim in `h` starting at offset `i`.
pub open spec fn match_at(h: Seq<char>, n: Seq<char>, i: int) -> bool {
    forall|j: int| 0 <= j < n.len() ==> h[i + j] == #[trigger] n[j]
}

/// `n` occurs verbatim somewhere in `h`.
pub open spec fn contains_seq(h: Seq<char>, n: Seq<char>) -> bool {
    exists|i: int| 0 <= i && i + n.len() <= h.len() && match_at(h, n, i)
}

/// `n` occurs in `h` at offset `i` up to ASCII lowercasing of the
/// haystack; `n` is assumed already lowercased.
pub open spec fn ci_match_at(h: Seq<char>, n: Seq<char>, i: int) -> bool {
    forall|j: int| 0 <= j < n.len() ==> ascii_lower(h[i + j]) == #[trigger] n[j]
}

/// `n` occurs in `h` somewhere, up to ASCII lowercasing of the haystack.
pub open spec fn ascii_ci_contains(h: Seq<char>, n: Seq<char>) -> bool {
    exists|i: int| 0 <= i && i + n.len() <= h.len() && ci_match_at(h, n, i)
}

pub fn window_matches_exact(h: &Vec<char>, n: &Vec<char>, i: usize) -> (r: bool)
    requires
        i + n@.len() <= h@.len(),
    ensures
        r == match_at(h@, n@, i as int),
{
    let hlen: usize = h.len();
    let mut j: usize = 0;
    while j < n.len()
        invariant
            i + n@.len() <= h@.len(),
            h@.len() == hlen,
            j <= n.len(),
            forall|q: int| 0 <= q < j ==> h@[i + q] == #[trigger] n@[q],
        decreases n.len() - j,
    {
        proof {
            assert(i + j < hlen);
        }
        if h[i + j] != n[j] {
            return false;
        }
        j = j + 1;
    }
    true
}

fn window_matches_ci(h: &Vec<char>, n: &Vec<char>, i: usize) -> (r: bool)
    requires
        i + n@.len() <= h@.len(),
    ensures
        r == ci_match_at(h@, n@, i as int),
{
    let hlen: usize = h.len();
    let mut j: usize = 0;
    while j < n.len()
        invariant
            i + n@.len() <= h@.len(),
            h@.len() == hlen,
            j <= n.len(),
            forall|q: int| 0 <= q < j ==> ascii_lower(h@[i + q]) == #[trigger] n@[q],
        decreases n.len() - j,
    {
        proof {
            assert(i + j < hlen);
        }
        if ascii_lower_char(h[i + j]) != n[j] {
            return false;
        }
        j = j + 1;
    }
    true
}

/// Verbatim substring search.
pub fn find_exact(h: &Vec<char>, n: &Vec<char>) -> (r: bool)
    ensures
        r == contains_seq(h@, n@),
{
    if n.len() > h.len() {
        return false;
    }
    let mut i: usize = 0;
    while i <= h.len() - n.len()
        invariant
            n@.len() <= h@.len(),
            i <= h@.len() - n@.len() + 1,
            forall|k: int| 0 <= k < i ==> !match_at(h@, n@, k),
        decreases h.len() + 1 - n.len() - i,
    {
        if window_matches_exact(h, n, i) {
            return true;
        }
        i = i + 1;
    }
    false
}

/// Case-insensitive (ASCII) substring search; `n` must already be
/// lowercase for a hit to be found, as with the derived caches.
pub fn find_ascii_ci(h: &Vec<char>, n: &Vec<char>) -> (r: bool)
    ensures
        r == ascii_ci_contains(h@, n@),
{
    if n.len() > h.len() {
        return false;
    }
    let mut i: usize = 0;
    while i <= h.len() - n.len()
        invariant
            n@.len() <= h@.len(),
            i <= h@.len() - n@.len() + 1,
            forall|k: int| 0 <= k < i ==> !ci_match_at(h@, n@, k),
        decreases h.len() + 1 - n.len() - i,
    {
        if window_matches_ci(h, n, i) {
            return true;
        }
        i = i + 1;
    }
    false
}

/// Copy of `v[from..to]`.
pub fn slice_chars(v: &Vec<char>, from: usize, to: usize) -> (r: Vec<char>)
    requires
        from <= to <= v@.len(),
    ensures
        r@ == v@.subrange(from as int, to as int),
{
    let mut r: Vec<char> = Vec::new();
    let mut i: usize = from;
    while i < to
        invariant
            from <= i <= to <= v@.len(),
            r@ == v@.subrange(from as int, i as int),
        decreases to - i,
    {
        r.push(v[i]);
        proof {
            assert(v@.subrange(from as int, i as int).push(v@[i as int]) =~= v@.subrange(
                from as int,
                i as int + 1,
            ));
        }
        i = i + 1;
    }
    r
}


/// Exact equality of two character vectors.
pub fn eq_chars(a: &Vec<char>, b: &Vec<char>) -> (r: bool)
    ensures
        r == (a@ == b@),
{
    if a.len() != b.len() {
        proof {
            assert(a@.len() != b@.len());
        }
        return false;
    }
    let mut i: usize = 0;
    while i < a.len()
        invariant
            a@.len() == b@.len(),
            i <= a@.len(),
            forall|q: int| 0 <= q < i ==> a@[q] == #[trigger] b@[q],
        decreases a@.len() - i,
    {
        if a[i] != b[i] {
            return false;
        }
        i = i + 1;
    }
    proof {
        assert(a@ =~= b@);
    }
    true
}

// ── Case-insensitive equality ───────────────────────────────────────────

/// Equality of two character sequences up to ASCII case.
pub open spec fn eq_ignore_ascii(a: Seq<char>, b: Seq<char>) -> bool {
    a.len() == b.len() && forall|i: int|
        0 <= i < a.len() ==> ascii_lower(a[i]) == ascii_lower(#[trigger] b[i])
}

/// Executable counterpart of [`eq_ignore_ascii`].
pub fn eq_ignore_ascii_case_chars(a: &Vec<char>, b: &Vec<char>) -> (r: bool)
    ensures
        r == eq_ignore_ascii(a@, b@),
{
    if a.len() != b.len() {
        return false;
    }
    let mut i: usize = 0;
    while i < a.len()
        invariant
            a@.len() == b@.len(),
            i <= a.len(),
            forall|q: int| 0 <= q < i ==> ascii_lower(a@[q]) == ascii_lower(#[trigger] b@[q]),
        decreases a.len() - i,
    {
        if ascii_lower_char(a[i]) != ascii_lower_char(b[i]) {
            return false;
        }
        i = i + 1;
    }
    true
}

// ── Decimal and hexadecimal rendering ───────────────────────────────────

/// The ASCII digit for `d` (`d < 10`).
pub open spec fn digit_char(d: nat) -> char {
    ((d + 48) as u8) as char
}

/// Decimal rendering of `n`, most significant digit first, no leading
/// zeros (except for `n == 0` itself).
pub open spec fn dec_of(n: nat) -> Seq<char>
    decreases n,
{
    if n < 10 {
        seq![digit_char(n)]
    } else {
        dec_of(n / 10).push(digit_char(n % 10))
    }
}

/// Render a `u64` in decimal.
pub fn u64_to_dec(n: u64) -> (r: Vec<char>)
    ensures
        r@ == dec_of(n as nat),
    decreases n,
{
    if n < 10 {
        let mut v: Vec<char> = Vec::new();
        v.push(((n as u8) + 48) as char);
        proof {
            assert(v@ =~= dec_of(n as nat));
        }
        v
    } else {
        let mut v = u64_to_dec(n / 10);
        v.push((((n % 10) as u8) + 48) as char);
        v
    }
}

/// The uppercase hex digit for `d` (`d < 16`).
pub open spec fn hex_digit(d: nat) -> char {
    if d < 10 {
        ((d + 48) as u8) as char
    } else {
        ((d + 55) as u8) as char
    }
}

/// The low `k` hex digits of `n`, most significant first.
pub open spec fn hex_of(n: nat, k: nat) -> Seq<char>
    decreases k,
{
    if k == 0 {
        Seq::empty()
    } else {
        hex_of(n / 16, (k - 1) as nat).push(hex_digit(n % 16))
    }
}

fn hex_digit_exec(d: u32) -> (r: char)
    requires
        d < 16,
    ensures
        r == hex_digit(d as nat),
{
    if d < 10 {
        ((d as u8) + 48) as char
    } else {
        ((d as u8) + 55) as char
    }
}

/// Render a `u32` as eight uppercase hex digits, as an `HRESULT` is shown.
pub fn u32_to_hex8(n: u32) -> (r: Vec<char>)
    ensures
        r@ == hex_of(n as nat, 8),
{
    hex_rec(n, 8)
}

fn hex_rec(n: u32, k: u32) -> (r: Vec<char>)
    requires
        k <= 8,
    ensures
        r@ == hex_of(n as nat, k as nat),
    decreases k,
{
    if k == 0 {
        Vec::new()
    } else {
        let mut v = hex_rec(n / 16, k - 1);
        v.push(hex_digit_exec(n % 16));
        v
    }
}

// ── UTF-16 encoding ─────────────────────────────────────────────────────

/// UTF-16 code units for one character.
pub open spec fn utf16_of_char(c: char) -> Seq<u16> {
    let u = c as u32;
    if u < 0x10000 {
        seq![(u as u16)]
    } else {
        seq![
            ((0xD800 + (u - 0x10000) / 0x400) as u16),
            ((0xDC00 + (u - 0x10000) % 0x400) as u16),
        ]
    }
}

/// UTF-16 code units of a character sequence.
pub open spec fn utf16_of(s: Seq<char>) -> Seq<u16>
    decreases s.len(),
{
    if s.len() == 0 {
        Seq::empty()
    } else {
        utf16_of(s.drop_last()) + utf16_of_char(s.last())
    }
}

/// Encode a character vector as UTF-16 code units.
pub fn utf16_units(v: &Vec<char>) -> (r: Vec<u16>)
    ensures
        r@ == utf16_of(v@),
{
    let mut r: Vec<u16> = Vec::new();
    let mut i: usize = 0;
    while i < v.len()
        invariant
            i <= v.len(),
            r@ == utf16_of(v@.take(i as int)),
        decreases v.len() - i,
    {
        let c = v[i];
        proof {
            vstd::utf8::char_is_scalar(c);
        }
        let u: u32 = c as u32;
        if u < 0x10000 {
            r.push(u as u16);
        } else {
            let x: u32 = u - 0x10000;
            r.push((0xD800 + x / 0x400) as u16);
            r.push((0xDC00 + x % 0x400) as u16);
        }
        proof {
            assert(v@.take(i as int + 1).drop_last() =~= v@.take(i as int));
            assert(v@.take(i as int + 1).last() == v@[i as int]);
            assert(utf16_of(v@.take(i as int + 1)) == utf16_of(v@.take(i as int))
                + utf16_of_char(v@[i as int]));
            assert(r@ =~= utf16_of(v@.take(i as int + 1)));
        }
        i = i + 1;
    }
    proof {
        assert(v@.take(v@.len() as int) =~= v@);
    }
    r
}

// ── Unicode lowercasing (outside call) ──────────────────────────────────

/// What `str::to_lowercase` returns: a function of the characters alone.
pub uninterp spec fn lower_of(s: Seq<char>) -> Seq<char>;

/// Relies on `str::to_lowercase`: the Unicode lowercase of the string,
/// which depends on its characters alone; an empty string stays empty,
/// and on ASCII text the result is the character-wise ASCII lowering.
#[verifier::external_body]
pub(crate) fn lowercase(s: &str) -> (r: String)
    ensures
        r@ == lower_of(s@),
        s@.len() == 0 ==> r@.len() == 0,
        vstd::utf8::is_ascii_chars(s@) ==> r@ == s@.map_values(|c: char| ascii_lower(c)),
{
    s.to_lowercase()
}

/// The characters of a string slice, in order.
pub(crate) fn chars_of(s: &str) -> (r: Vec<char>)
    ensures
        r@ == s@,
{
    let n = s.unicode_len();
    let mut r: Vec<char> = Vec::new();
    let mut i: usize = 0;
    while i < n
        invariant
            i <= n,
            n == s@.len(),
            r@ == s@.take(i as int),
        decreases n - i,
    {
        r.push(s.get_char(i));
        proof {
            assert(s@.take(i as int).push(s@[i as int]) =~= s@.take(i as int + 1));
        }
        i = i + 1;
    }
    proof {
        assert(s@.take(n as int) =~= s@);
    }
    r
}

/// Relies on `FromIterator<char> for String`: collecting characters
/// yields the string with exactly those characters.
#[verifier::external_body]
pub(crate) fn string_from_chars(v: &Vec<char>) -> (r: String)
    ensures
        r@ == v@,
{
    v.iter().collect()
}

} // verus!
