//! Character-level text primitives shared by both parsers: substring search,
//! whitespace tokenization and decimal-number parsing, each with a
//! mathematical specification over `Seq<char>`.

use vstd::prelude::*;

verus! {

// ---------------------------------------------------------------------------
// Searching
// ---------------------------------------------------------------------------

/// Index of the first occurrence of `c` in `s` at or after `from`.
pub open spec fn find_char_from(s: Seq<char>, c: char, from: int) -> Option<int>
    decreases s.len() - from,
{
    if from < 0 || from >= s.len() {
        None
    } else if s[from] == c {
        Some(from)
    } else {
        find_char_from(s, c, from + 1)
    }
}

/// What `find_char_from` returns: the first occurrence, or none at all.
pub proof fn lemma_find_char_from(s: Seq<char>, c: char, from: int)
    requires
        0 <= from <= s.len(),
    ensures
        match find_char_from(s, c, from) {
            Some(i) => from <= i < s.len() && s[i] == c && (forall|j: int|
                from <= j < i ==> s[j] != c),
            None => forall|j: int| from <= j < s.len() ==> s[j] != c,
        },
    decreases s.len() - from,
{
    if from < s.len() && s[from] != c {
        lemma_find_char_from(s, c, from + 1);
    }
}

/// Index of the first occurrence of `pat` as a contiguous subsequence of `s`
/// at or after `from`.
pub open spec fn find_seq_from(s: Seq<char>, pat: Seq<char>, from: int) -> Option<int>
    decreases s.len() - from,
{
    if from < 0 || from + pat.len() > s.len() {
        None
    } else if s.subrange(from, from + pat.len() as int) == pat {
        Some(from)
    } else {
        proof {
            assert(pat.len() > 0) by {
                if pat.len() == 0 {
                    assert(s.subrange(from, from + pat.len() as int) =~= pat);
                }
            }
        }
        find_seq_from(s, pat, from + 1)
    }
}

/// What `find_seq_from` returns: the first match position, or none at all.
pub proof fn lemma_find_seq_from(s: Seq<char>, pat: Seq<char>, from: int)
    requires
        0 <= from <= s.len(),
    ensures
        match find_seq_from(s, pat, from) {
            Some(i) => from <= i && i + pat.len() <= s.len() && s.subrange(
                i,
                i + pat.len() as int,
            ) == pat,
            None => forall|j: int|
                from <= j && j + pat.len() <= s.len() ==> #[trigger] s.subrange(
                    j,
                    j + pat.len() as int,
                ) != pat,
        },
    decreases s.len() - from,
{
    if from + pat.len() <= s.len() && s.subrange(from, from + pat.len() as int) != pat {
        assert(pat.len() > 0) by {
            if pat.len() == 0 {
                assert(s.subrange(from, from + pat.len() as int) =~= pat);
            }
        }
        lemma_find_seq_from(s, pat, from + 1);
    }
}

/// True when `pat` occurs at position `i` of `s`.
fn matches_at(s: &str, i: usize, pat: &str) -> (r: bool)
    requires
        i + pat@.len() <= s@.len(),
        s@.len() <= usize::MAX,
    ensures
        r == (s@.subrange(i as int, i as int + pat@.len() as int) == pat@),
{
    let m = pat.unicode_len();
    let ghost sub = s@.subrange(i as int, i as int + pat@.len() as int);
    let mut k: usize = 0;
    while k < m
        invariant
            0 <= k <= m,
            m == pat@.len(),
            i + m <= s@.len() <= usize::MAX,
            sub == s@.subrange(i as int, i as int + pat@.len() as int),
            forall|j: int| 0 <= j < k ==> s@[i + j] == pat@[j],
        decreases m - k,
    {
        if s.get_char(i + k) != pat.get_char(k) {
            proof {
                assert(sub[k as int] == s@[i + k]);
            }
            return false;
        }
        k = k + 1;
    }
    proof {
        assert(sub =~= pat@);
    }
    true
}

/// First occurrence of the character `c` in `s` at or after `from`.
pub fn find_char(s: &str, c: char, from: usize) -> (r: Option<usize>)
    requires
        from <= s@.len(),
    ensures
        match find_char_from(s@, c, from as int) {
            Some(i) => r == Some(i as usize),
            None => r is None,
        },
{
    let n = s.unicode_len();
    let mut i: usize = from;
    while i < n
        invariant
            from <= i <= n,
            n == s@.len(),
            find_char_from(s@, c, from as int) == find_char_from(s@, c, i as int),
        decreases n - i,
    {
        if s.get_char(i) == c {
            assert(find_char_from(s@, c, i as int) == Some(i as int));
            return Some(i);
        }
        i = i + 1;
    }
    assert(find_char_from(s@, c, i as int) is None);
    None
}

/// First occurrence of the substring `pat` in `s` at or after `from`.
pub fn find_sub(s: &str, pat: &str, from: usize) -> (r: Option<usize>)
    requires
        from <= s@.len(),
    ensures
        match find_seq_from(s@, pat@, from as int) {
            Some(i) => r == Some(i as usize),
            None => r is None,
        },
{
    let n = s.unicode_len();
    let m = pat.unicode_len();
    if m == 0 {
        assert(s@.subrange(from as int, from as int) =~= pat@);
        return Some(from);
    }
    if m > n || from > n - m {
        assert(find_seq_from(s@, pat@, from as int) is None);
        return None;
    }
    let last = n - m;
    let mut i: usize = from;
    while i <= last
        invariant
            from <= i <= last + 1,
            n == s@.len(),
            m == pat@.len(),
            1 <= m <= n,
            last == n - m,
            find_seq_from(s@, pat@, from as int) == find_seq_from(s@, pat@, i as int),
        decreases last + 1 - i,
    {
        if matches_at(s, i, pat) {
            assert(find_seq_from(s@, pat@, i as int) == Some(i as int));
            return Some(i);
        }
        assert(find_seq_from(s@, pat@, i as int) == find_seq_from(s@, pat@, i + 1));
        i = i + 1;
    }
    assert(find_seq_from(s@, pat@, i as int) is None);
    None
}

/// Character-wise equality of two string slices.
pub fn eq_str(a: &str, b: &str) -> (r: bool)
    ensures
        r == (a@ == b@),
{
    let n = a.unicode_len();
    let m = b.unicode_len();
    if n != m {
        return false;
    }
    let mut k: usize = 0;
    while k < n
        invariant
            0 <= k <= n,
            n == a@.len(),
            n == b@.len(),
            forall|j: int| 0 <= j < k ==> a@[j] == b@[j],
        decreases n - k,
    {
        if a.get_char(k) != b.get_char(k) {
            return false;
        }
        k = k + 1;
    }
    proof {
        assert(a@ =~= b@);
    }
    true
}

// ---------------------------------------------------------------------------
// Tokenization
// ---------------------------------------------------------------------------

/// The maximal non-empty runs of non-space characters of `s` from `from` on,
/// in order.
pub open spec fn tokens_from(s: Seq<char>, from: int) -> Seq<Seq<char>>
    decreases s.len() - from,
{
    if from < 0 || from >= s.len() {
        Seq::empty()
    } else if s[from] == ' ' {
        tokens_from(s, from + 1)
    } else {
        match find_char_from(s, ' ', from) {
            None => seq![s.subrange(from, s.len() as int)],
            Some(i) => {
                proof {
                    lemma_find_char_from(s, ' ', from);
                }
                seq![s.subrange(from, i)] + tokens_from(s, i + 1)
            },
        }
    }
}

/// The whitespace tokens of the whole of `s`.
pub open spec fn tokens_of(s: Seq<char>) -> Seq<Seq<char>> {
    tokens_from(s, 0)
}

/// Splits `s` on spaces into its non-empty tokens, each an owned copy.
pub fn tokenize(s: &str) -> (r: Vec<String>)
    ensures
        r.deep_view() == tokens_of(s@),
{
    let n = s.unicode_len();
    let mut toks: Vec<String> = Vec::new();
    let mut i: usize = 0;
    while i < n
        invariant
            0 <= i <= n,
            n == s@.len(),
            toks.deep_view() + tokens_from(s@, i as int) == tokens_of(s@),
        decreases n - i,
    {
        if s.get_char(i) == ' ' {
            assert(tokens_from(s@, i as int) == tokens_from(s@, i + 1));
            i = i + 1;
        } else {
            let j = match find_char(s, ' ', i) {
                Some(j) => j,
                None => n,
            };
            proof {
                lemma_find_char_from(s@, ' ', i as int);
            }
            let tok = s.substring_char(i, j).to_owned();
            proof {
                assert(tokens_from(s@, i as int) == seq![s@.subrange(i as int, j as int)]
                    + tokens_from(s@, j + 1));
            }
            let ghost prev = toks.deep_view();
            toks.push(tok);
            proof {
                assert(toks.deep_view() =~= prev + seq![s@.subrange(i as int, j as int)]);
                assert(toks.deep_view() + tokens_from(s@, j + 1) =~= prev + tokens_from(
                    s@,
                    i as int,
                ));
            }
            if j >= n {
                i = n;
                assert(tokens_from(s@, n as int) =~= Seq::<Seq<char>>::empty());
                assert(toks.deep_view() + tokens_from(s@, i as int) =~= toks.deep_view());
            } else {
                i = j + 1;
            }
        }
    }
    assert(tokens_from(s@, i as int) =~= Seq::<Seq<char>>::empty());
    assert(toks.deep_view() =~= toks.deep_view() + tokens_from(s@, i as int));
    toks
}

// ---------------------------------------------------------------------------
// Decimal numbers
// ---------------------------------------------------------------------------

/// True when `c` is an ASCII decimal digit.
pub open spec fn is_digit_char(c: char) -> bool {
    48 <= c as int <= 57
}

/// The numeric value of a digit character.
pub open spec fn digit_value(c: char) -> int {
    c as int - 48
}

/// True when every character of `s` is an ASCII decimal digit.
pub open spec fn all_digit_chars(s: Seq<char>) -> bool {
    forall|i: int| 0 <= i < s.len() ==> is_digit_char(s[i])
}

/// The value of a digit string read in base ten.
pub open spec fn digits_value(s: Seq<char>) -> int
    decreases s.len(),
{
    if s.len() == 0 {
        0
    } else {
        digits_value(s.drop_last()) * 10 + digit_value(s.last())
    }
}

/// A digit string's value is never negative.
pub proof fn lemma_digits_value_nonneg(s: Seq<char>)
    requires
        all_digit_chars(s),
    ensures
        digits_value(s) >= 0,
    decreases s.len(),
{
    if s.len() > 0 {
        assert(all_digit_chars(s.drop_last()));
        lemma_digits_value_nonneg(s.drop_last());
    }
}

/// Reading more digits can only grow the value.
pub proof fn lemma_digits_value_prefix_le(s: Seq<char>, i: int)
    requires
        all_digit_chars(s),
        0 <= i <= s.len(),
    ensures
        digits_value(s.take(i)) <= digits_value(s),
    decreases s.len() - i,
{
    if i == s.len() {
        assert(s.take(i) =~= s);
    } else {
        assert(s.take(i + 1).drop_last() =~= s.take(i));
        assert(s.take(i + 1).last() == s[i]);
        assert(all_digit_chars(s.take(i)));
        lemma_digits_value_nonneg(s.take(i));
        assert(digits_value(s.take(i)) <= digits_value(s.take(i + 1)));
        lemma_digits_value_prefix_le(s, i + 1);
    }
}

/// The value of the token `s` read as Rust reads an unsigned decimal integer:
/// an optional leading `+`, then one or more digits.
pub open spec fn parse_u64_spec(s: Seq<char>) -> Option<u64> {
    if s.len() >= 2 && s[0] == '+' {
        dec_value_from_to(s, 1, s.len() as int)
    } else {
        dec_value_from_to(s, 0, s.len() as int)
    }
}

/// Reads a whole token as an unsigned 64-bit decimal integer.
pub fn parse_u64(s: &str) -> (r: Option<u64>)
    ensures
        r == parse_u64_spec(s@),
{
    let n = s.unicode_len();
    if n >= 2 && s.get_char(0) == '+' {
        parse_digits_upto(s, 1, s.unicode_len())
    } else {
        parse_digits_upto(s, 0, s.unicode_len())
    }
}

/// `parse_u64_spec` narrowed to `u32`: the token parses and its value fits.
pub open spec fn parse_u32_spec(s: Seq<char>) -> Option<u32> {
    match parse_u64_spec(s) {
        Some(v) => if v <= u32::MAX {
            Some(v as u32)
        } else {
            None
        },
        None => None,
    }
}

/// Reads a whole token as an unsigned 32-bit decimal integer.
pub fn parse_u32(s: &str) -> (r: Option<u32>)
    ensures
        r == parse_u32_spec(s@),
{
    match parse_u64(s) {
        Some(v) => if v <= u32::MAX as u64 {
            Some(v as u32)
        } else {
            None
        },
        None => None,
    }
}

/// `parse_u64_spec` narrowed to `u16`: the token parses and its value fits.
pub open spec fn parse_u16_spec(s: Seq<char>) -> Option<u16> {
    match parse_u64_spec(s) {
        Some(v) => if v <= u16::MAX {
            Some(v as u16)
        } else {
            None
        },
        None => None,
    }
}

/// Reads a whole token as an unsigned 16-bit decimal integer.
pub fn parse_u16(s: &str) -> (r: Option<u16>)
    ensures
        r == parse_u16_spec(s@),
{
    match parse_u64(s) {
        Some(v) => if v <= u16::MAX as u64 {
            Some(v as u16)
        } else {
            None
        },
        None => None,
    }
}

/// The whole seconds of a decimal numeral with an optional sign and an
/// optional fractional part, truncated toward zero: the value of the integer
/// digits, negated after a leading `-`. `None` when the token is not such a
/// numeral or the result does not fit in an `i64`.
pub open spec fn parse_seconds_spec(s: Seq<char>) -> Option<i64> {
    let bs: int = if s.len() > 0 && (s[0] == '-' || s[0] == '+') {
        1
    } else {
        0
    };
    let neg = s.len() > 0 && s[0] == '-';
    let ipe: int = match find_char_from(s, '.', bs) {
        None => s.len() as int,
        Some(d) => d,
    };
    let ip = s.subrange(bs, ipe);
    let fp = s.subrange(if ipe < s.len() { ipe + 1 } else { ipe }, s.len() as int);
    if bs <= ipe && all_digit_chars(ip) && all_digit_chars(fp) && ip.len() + fp.len() > 0 {
        let v: int = if neg {
            -digits_value(ip)
        } else {
            digits_value(ip)
        };
        if i64::MIN <= v <= i64::MAX {
            Some(v as i64)
        } else {
            None
        }
    } else {
        None
    }
}

/// A token that parses as a fractional-seconds numeral starts with a sign, a
/// dot or a digit.
pub proof fn lemma_seconds_first_char(t: Seq<char>)
    requires
        parse_seconds_spec(t) is Some,
    ensures
        t.len() > 0,
        t[0] == '+' || t[0] == '-' || t[0] == '.' || is_digit_char(t[0]),
{
    if t.len() == 0 {
        assert(t.subrange(0, 0) =~= Seq::<char>::empty());
        assert(false);
    }
    if !(t[0] == '+' || t[0] == '-') {
        lemma_find_char_from(t, '.', 0);
        match find_char_from(t, '.', 0) {
            None => {
                let ip = t.subrange(0, t.len() as int);
                assert(ip =~= t);
                assert(t.len() > 0 && all_digit_chars(t));
                assert(is_digit_char(t[0]));
            },
            Some(d) => {
                if d == 0 {
                    assert(t[0] == '.');
                } else {
                    let ip = t.subrange(0, d);
                    assert(all_digit_chars(ip));
                    assert(ip[0] == t[0]);
                    assert(is_digit_char(t[0]));
                }
            },
        }
    }
}

/// True when every character of `s[from..to]` is a digit.
fn check_digits(s: &str, from: usize, to: usize) -> (r: bool)
    requires
        from <= to <= s@.len(),
    ensures
        r == all_digit_chars(s@.subrange(from as int, to as int)),
{
    let ghost d = s@.subrange(from as int, to as int);
    let mut i: usize = from;
    while i < to
        invariant
            from <= i <= to <= s@.len(),
            d == s@.subrange(from as int, to as int),
            forall|j: int| 0 <= j < i - from ==> is_digit_char(d[j]),
        decreases to - i,
    {
        let u = s.get_char(i) as u32;
        if u < 48 || u > 57 {
            assert(d[i - from] == s@[i as int]);
            return false;
        }
        i = i + 1;
    }
    true
}

/// Reads a token as a fractional-seconds decimal numeral, truncated toward
/// zero to whole seconds.
pub fn parse_seconds(s: &str) -> (r: Option<i64>)
    ensures
        r == parse_seconds_spec(s@),
{
    let n = s.unicode_len();
    let (bs, neg): (usize, bool) = if n > 0 && (s.get_char(0) == '-' || s.get_char(0) == '+') {
        (1, s.get_char(0) == '-')
    } else {
        (0, false)
    };
    let ipe: usize = match find_char(s, '.', bs) {
        Some(d) => d,
        None => n,
    };
    proof {
        lemma_find_char_from(s@, '.', bs as int);
    }
    let fps: usize = if ipe < n {
        ipe + 1
    } else {
        ipe
    };
    if !check_digits(s, bs, ipe) {
        return None;
    }
    if !check_digits(s, fps, n) {
        return None;
    }
    if ipe - bs == 0 && n - fps == 0 {
        return None;
    }
    let ghost ip = s@.subrange(bs as int, ipe as int);
    proof {
        lemma_digits_value_nonneg(ip);
    }
    let mag: u64 = if ipe == bs {
        assert(ip =~= Seq::<char>::empty());
        0
    } else {
        match parse_digits_upto(s, bs, ipe) {
            Some(v) => v,
            None => {
                proof {
                    if digits_value(ip) <= u64::MAX {
                        assert(dec_value_from_to(s@, bs as int, ipe as int) is Some);
                    }
                    assert(digits_value(ip) > u64::MAX >= i64::MAX);
                }
                return None;
            },
        }
    };
    if neg {
        if mag > 9223372036854775808u64 {
            return None;
        }
        if mag == 9223372036854775808u64 {
            Some(i64::MIN)
        } else {
            Some(-(mag as i64))
        }
    } else {
        if mag > i64::MAX as u64 {
            return None;
        }
        Some(mag as i64)
    }
}

/// The value of the digit string `s[from..to]`, when it is non-empty, holds
/// digits only, and fits in a `u64`.
pub open spec fn dec_value_from_to(s: Seq<char>, from: int, to: int) -> Option<u64> {
    let d = s.subrange(from, to);
    if d.len() > 0 && all_digit_chars(d) && digits_value(d) <= u64::MAX {
        Some(digits_value(d) as u64)
    } else {
        None
    }
}

/// Reads `s[from..to]` as an unsigned decimal numeral.
fn parse_digits_upto(s: &str, from: usize, to: usize) -> (r: Option<u64>)
    requires
        from <= to <= s@.len(),
    ensures
        r == dec_value_from_to(s@, from as int, to as int),
{
    let ghost d = s@.subrange(from as int, to as int);
    if from == to {
        return None;
    }
    let mut acc: u64 = 0;
    let mut i: usize = from;
    while i < to
        invariant
            from <= i <= to <= s@.len(),
            from < to,
            d == s@.subrange(from as int, to as int),
            all_digit_chars(d.take(i - from)),
            acc == digits_value(d.take(i - from)),
        decreases to - i,
    {
        let c = s.get_char(i);
        let u = c as u32;
        proof {
            assert(d.take(i + 1 - from).drop_last() =~= d.take(i - from));
            assert(d.take(i + 1 - from).last() == s@[i as int]);
        }
        if u < 48 || u > 57 {
            assert(!all_digit_chars(d));
            return None;
        }
        let dv: u64 = (u - 48) as u64;
        let wide: u128 = acc as u128 * 10 + dv as u128;
        if wide > u64::MAX as u128 {
            proof {
                assert(digits_value(d.take(i + 1 - from)) > u64::MAX);
                if all_digit_chars(d) {
                    lemma_digits_value_prefix_le(d, i + 1 - from);
                }
            }
            return None;
        }
        acc = wide as u64;
        i = i + 1;
    }
    proof {
        assert(d.take(to - from) =~= d);
    }
    Some(acc)
}

} // verus!
