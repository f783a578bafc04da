//! Character-level helpers: whitespace trimming, ASCII classes, decimal
//! parsing and decimal rendering, each against a specification on `Seq<char>`.

use vstd::prelude::*;
use vstd::utf8::encode_utf8;

verus! {

/// The characters with the Unicode `White_Space` property, which is what
/// `char::is_whitespace` (and so `str::trim`) tests.
pub open spec fn is_ws(c: char) -> bool {
    let u = c as u32;
    ||| 0x09 <= u <= 0x0D
    ||| u == 0x20
    ||| u == 0x85
    ||| u == 0xA0
    ||| u == 0x1680
    ||| 0x2000 <= u <= 0x200A
    ||| u == 0x2028
    ||| u == 0x2029
    ||| u == 0x202F
    ||| u == 0x205F
    ||| u == 0x3000
}

/// `s` without its leading whitespace.
pub open spec fn trim_start(s: Seq<char>) -> Seq<char>
    decreases s.len(),
{
    if s.len() > 0 && is_ws(s[0]) {
        trim_start(s.drop_first())
    } else {
        s
    }
}

/// `s` without its trailing whitespace.
pub open spec fn trim_end(s: Seq<char>) -> Seq<char>
    decreases s.len(),
{
    if s.len() > 0 && is_ws(s.last()) {
        trim_end(s.drop_last())
    } else {
        s
    }
}

/// `s` without leading and trailing whitespace, as `str::trim` gives it.
pub open spec fn trimmed(s: Seq<char>) -> Seq<char> {
    trim_end(trim_start(s))
}

pub open spec fn is_ascii_digit(c: char) -> bool {
    '0' <= c <= '9'
}

pub open spec fn is_ascii_upper(c: char) -> bool {
    'A' <= c <= 'Z'
}

pub open spec fn is_ascii_lower(c: char) -> bool {
    'a' <= c <= 'z'
}

pub open spec fn all_digits(s: Seq<char>) -> bool {
    forall|i: int| 0 <= i < s.len() ==> #[trigger] is_ascii_digit(s[i])
}

/// The number that a string of decimal digits denotes.
pub open spec fn digits_value(s: Seq<char>) -> nat
    decreases s.len(),
{
    if s.len() == 0 {
        0
    } else {
        digits_value(s.drop_last()) * 10 + ((s.last() as u32) - ('0' as u32)) as nat
    }
}

/// What `i32::from_str` makes of `s`: an optional sign, then at least one
/// decimal digit, and a value in range; `None` for anything else.
pub open spec fn parse_i32_spec(s: Seq<char>) -> Option<i32> {
    if s.len() == 0 {
        None
    } else {
        let neg = s[0] == '-';
        let d = if s[0] == '+' || s[0] == '-' {
            s.drop_first()
        } else {
            s
        };
        if d.len() == 0 || !all_digits(d) {
            None
        } else {
            let v: int = if neg {
                -(digits_value(d) as int)
            } else {
                digits_value(d) as int
            };
            if i32::MIN <= v <= i32::MAX {
                Some(v as i32)
            } else {
                None
            }
        }
    }
}

/// What `usize::from_str` makes of `s`: an optional `+`, then at least one
/// decimal digit, and a value that fits; `None` for anything else.
pub open spec fn parse_usize_spec(s: Seq<char>) -> Option<usize> {
    let d = if s.len() > 0 && s[0] == '+' {
        s.drop_first()
    } else {
        s
    };
    if d.len() == 0 || !all_digits(d) || digits_value(d) > usize::MAX {
        None
    } else {
        Some(digits_value(d) as usize)
    }
}

pub open spec fn digit_char(d: nat) -> char {
    (('0' as u32) + d) as char
}

/// The decimal rendering of `n`, most significant digit first.
pub open spec fn decimal(n: nat) -> Seq<char>
    decreases n,
{
    if n < 10 {
        seq![digit_char(n)]
    } else {
        decimal(n / 10).push(digit_char(n % 10))
    }
}

/// The decimal rendering of a signed number, as `i32`'s `Display` writes it.
pub open spec fn decimal_i32(n: i32) -> Seq<char> {
    if n < 0 {
        seq!['-'] + decimal((-n) as nat)
    } else {
        decimal(n as nat)
    }
}

/// The decimal rendering of a number is a non-empty string of digits that
/// denotes that number.
pub proof fn lemma_decimal_digits(n: nat)
    ensures
        decimal(n).len() > 0,
        all_digits(decimal(n)),
        digits_value(decimal(n)) == n,
    decreases n,
{
    let s = decimal(n);
    let d: nat = n % 10;
    assert(digit_char(d) as u32 == 48 + d);
    if n < 10 {
        assert(s.drop_last() =~= Seq::<char>::empty());
        assert(is_ascii_digit(s[0]));
        assert(digits_value(s) == digits_value(s.drop_last()) * 10 + d);
    } else {
        lemma_decimal_digits(n / 10);
        let p = decimal(n / 10);
        assert(s.drop_last() =~= p);
        assert forall|i: int| 0 <= i < s.len() implies #[trigger] is_ascii_digit(s[i]) by {
            if i < p.len() {
                assert(s[i] == p[i]);
                assert(is_ascii_digit(p[i]));
            }
        }
        assert(s.last() == digit_char(d));
        assert(digits_value(s) == digits_value(p) * 10 + d);
        assert((n / 10) * 10 + d == n) by (nonlinear_arith)
            requires
                d == n % 10,
        ;
    }
}

/// Reading back the decimal rendering of any `i32` gives the same number.
pub proof fn lemma_parse_decimal_i32(v: i32)
    ensures
        parse_i32_spec(decimal_i32(v)) == Some(v),
{
    if v < 0 {
        let m: nat = (-v) as nat;
        lemma_decimal_digits(m);
        let s = decimal_i32(v);
        assert(s[0] == '-');
        assert(s.drop_first() =~= decimal(m));
    } else {
        let m: nat = v as nat;
        lemma_decimal_digits(m);
        let s = decimal(m);
        assert(is_ascii_digit(s[0]));
    }
}

/// Reading back the decimal rendering of any `usize` gives the same number.
pub proof fn lemma_parse_decimal_usize(n: usize)
    ensures
        parse_usize_spec(decimal(n as nat)) == Some(n),
{
    lemma_decimal_digits(n as nat);
    assert(is_ascii_digit(decimal(n as nat)[0]));
}

/// Tests for the Unicode `White_Space` property.
pub fn is_whitespace(c: char) -> (r: bool)
    ensures
        r == is_ws(c),
        c == ' ' || c == '\t' || c == '\n' || c == '\r' ==> r,
        ('0' <= c <= '9') || ('a' <= c <= 'z') || ('A' <= c <= 'Z') ==> !r,
{
    let u = c as u32;
    (0x09 <= u && u <= 0x0D) || u == 0x20 || u == 0x85 || u == 0xA0 || u == 0x1680 || (0x2000
        <= u && u <= 0x200A) || u == 0x2028 || u == 0x2029 || u == 0x202F || u == 0x205F || u
        == 0x3000
}

proof fn lemma_trim_start_skip(s: Seq<char>, i: int)
    requires
        0 <= i < s.len(),
        is_ws(s[i]),
    ensures
        trim_start(s.skip(i)) == trim_start(s.skip(i + 1)),
{
    assert(s.skip(i).drop_first() =~= s.skip(i + 1));
}

proof fn lemma_trim_end_take(s: Seq<char>, i: int, j: int)
    requires
        0 <= i < j <= s.len(),
        is_ws(s[j - 1]),
    ensures
        trim_end(s.subrange(i, j)) == trim_end(s.subrange(i, j - 1)),
{
    assert(s.subrange(i, j).drop_last() =~= s.subrange(i, j - 1));
}

/// The bounds, in characters, of `s` with its surrounding whitespace removed.
pub fn trim_bounds(s: &str) -> (r: (usize, usize))
    ensures
        r.0 <= r.1 <= s@.len(),
        s@.subrange(r.0 as int, r.1 as int) == trimmed(s@),
        forall|k: int| 0 <= k < r.0 ==> is_ws(#[trigger] s@[k]),
        forall|k: int| r.1 <= k < s@.len() ==> is_ws(#[trigger] s@[k]),
        r.0 < r.1 ==> !is_ws(s@[r.0 as int]) && !is_ws(s@[r.1 - 1]),
{
    let n = s.unicode_len();
    let mut i: usize = 0;
    assert(s@.skip(0) =~= s@);
    while i < n && is_whitespace(s.get_char(i))
        invariant
            n == s@.len(),
            i <= n,
            trim_start(s@) == trim_start(s@.skip(i as int)),
            forall|k: int| 0 <= k < i ==> is_ws(#[trigger] s@[k]),
        decreases n - i,
    {
        proof {
            lemma_trim_start_skip(s@, i as int);
        }
        i = i + 1;
    }
    assert(trim_start(s@) == s@.subrange(i as int, n as int)) by {
        assert(s@.skip(i as int) =~= s@.subrange(i as int, n as int));
    }
    let mut j: usize = n;
    while j > i && is_whitespace(s.get_char(j - 1))
        invariant
            n == s@.len(),
            i <= j <= n,
            trimmed(s@) == trim_end(s@.subrange(i as int, j as int)),
            forall|k: int| 0 <= k < i ==> is_ws(#[trigger] s@[k]),
            forall|k: int| j <= k < n ==> is_ws(#[trigger] s@[k]),
            i < n ==> !is_ws(s@[i as int]),
        decreases j - i,
    {
        proof {
            lemma_trim_end_take(s@, i as int, j as int);
        }
        j = j - 1;
    }
    (i, j)
}

/// `str::trim`: the slice of `s` between its leading and trailing whitespace.
pub fn trim(s: &str) -> (r: &str)
    ensures
        r@ == trimmed(s@),
        exists|i: int, j: int|
            0 <= i <= j <= s@.len() && r@ == s@.subrange(i, j) && (forall|k: int|
                0 <= k < i ==> is_ws(#[trigger] s@[k])) && (forall|k: int|
                j <= k < s@.len() ==> is_ws(#[trigger] s@[k])) && (i < j ==> !is_ws(s@[i])
                && !is_ws(s@[j - 1])),
{
    let (i, j) = trim_bounds(s);
    s.substring_char(i, j)
}

proof fn lemma_digits_value_prefix(t: Seq<char>, k: int)
    requires
        0 <= k <= t.len(),
        all_digits(t),
    ensures
        digits_value(t.take(k)) <= digits_value(t),
    decreases t.len(),
{
    if k < t.len() {
        let u = t.drop_last();
        assert(all_digits(u)) by {
            assert forall|i: int| 0 <= i < u.len() implies #[trigger] is_ascii_digit(u[i]) by {
                assert(is_ascii_digit(t[i]));
            }
        }
        lemma_digits_value_prefix(u, k);
        assert(u.take(k) =~= t.take(k));
    } else {
        assert(t.take(k) =~= t);
    }
}

/// Reads the decimal digits of `s` from character `start` on: their value when
/// there is at least one, all are digits and the value is at most `limit`.
fn parse_digits(s: &str, start: usize, limit: u64) -> (r: Option<u64>)
    requires
        start <= s@.len(),
    ensures
        ({
            let d = s@.skip(start as int);
            r == if d.len() > 0 && all_digits(d) && digits_value(d) <= limit {
                Some(digits_value(d) as u64)
            } else {
                None::<u64>
            }
        }),
{
    let n = s.unicode_len();
    let ghost d = s@.skip(start as int);
    if start == n {
        return None;
    }
    let mut acc: u64 = 0;
    let mut i: usize = start;
    assert(s@.subrange(start as int, start as int) =~= Seq::<char>::empty());
    while i < n
        invariant
            n == s@.len(),
            start <= i <= n,
            d == s@.skip(start as int),
            all_digits(s@.subrange(start as int, i as int)),
            acc == digits_value(s@.subrange(start as int, i as int)),
            acc <= limit,
        decreases n - i,
    {
        let c = s.get_char(i);
        let ghost pre = s@.subrange(start as int, i as int);
        let ghost next = s@.subrange(start as int, i + 1);
        assert(next.drop_last() =~= pre);
        assert(next.last() == c);
        assert(d.take(i + 1 - start) =~= next);
        if !('0' <= c && c <= '9') {
            assert(d[i - start] == c);
            assert(!is_ascii_digit(d[i - start]));
            return None;
        }
        let dv: u64 = (c as u32 - '0' as u32) as u64;
        assert(all_digits(next)) by {
            assert forall|k: int| 0 <= k < next.len() implies #[trigger] is_ascii_digit(next[k]) by {
                if k < pre.len() {
                    assert(next[k] == pre[k]);
                }
            }
        }
        if dv > limit || acc > (limit - dv) / 10 {
            proof {
                assert(acc * 10 + dv > limit) by (nonlinear_arith)
                    requires
                        dv > limit || acc > (limit - dv) / 10,
                        dv <= 9,
                ;
                if all_digits(d) {
                    lemma_digits_value_prefix(d, i + 1 - start);
                }
            }
            return None;
        }
        assert(acc * 10 + dv <= limit) by (nonlinear_arith)
            requires
                dv <= limit,
                acc <= (limit - dv) / 10,
        ;
        acc = acc * 10 + dv;
        i = i + 1;
    }
    assert(d =~= s@.subrange(start as int, n as int));
    Some(acc)
}

/// `i32::from_str`, with any error reported as `None`.
pub fn parse_i32(s: &str) -> (r: Option<i32>)
    ensures
        r == parse_i32_spec(s@),
        forall|v: i32| s@ == #[trigger] decimal_i32(v) ==> r == Some(v),
        s@.len() == 0 ==> r is None,
{
    proof {
        assert forall|v: i32| s@ == #[trigger] decimal_i32(v) implies parse_i32_spec(s@) == Some(v) by {
            lemma_parse_decimal_i32(v);
        }
    }
    let n = s.unicode_len();
    if n == 0 {
        return None;
    }
    let c0 = s.get_char(0);
    let neg = c0 == '-';
    let start: usize = if c0 == '+' || c0 == '-' {
        1
    } else {
        0
    };
    assert(s@.skip(1) =~= s@.drop_first());
    assert(s@.skip(0) =~= s@);
    let limit: u64 = if neg {
        2147483648
    } else {
        2147483647
    };
    match parse_digits(s, start, limit) {
        None => None,
        Some(v) => {
            if neg {
                let w: i64 = 0i64 - (v as i64);
                Some(w as i32)
            } else {
                Some(v as i32)
            }
        },
    }
}

/// `usize::from_str`, with any error reported as `None`.
pub fn parse_usize(s: &str) -> (r: Option<usize>)
    ensures
        r == parse_usize_spec(s@),
        forall|v: usize| s@ == #[trigger] decimal(v as nat) ==> r == Some(v),
        s@.len() == 0 ==> r is None,
{
    proof {
        assert forall|v: usize| s@ == #[trigger] decimal(v as nat) implies parse_usize_spec(s@)
            == Some(v) by {
            lemma_parse_decimal_usize(v);
        }
    }
    let n = s.unicode_len();
    let start: usize = if n > 0 && s.get_char(0) == '+' {
        1
    } else {
        0
    };
    assert(s@.skip(1) =~= s@.drop_first());
    assert(s@.skip(0) =~= s@);
    match parse_digits(s, start, usize::MAX as u64) {
        None => None,
        Some(v) => Some(v as usize),
    }
}

/// `str::len`, which returns the length of `s` in bytes: the contract says
/// that the result is the length of the UTF-8 encoding of `s`. vstd's own
/// specification of `str::len` gives that length cast to `usize`, with no bound
/// saying that the cast keeps it, which is too weak to compare it with a number.
#[verifier::external_body]
pub(crate) fn byte_len(s: &str) -> (n: usize)
    ensures
        n as nat == encode_utf8(s@).len(),
{
    s.len()
}

/// `String::push`, which appends `c` at the end of `s`: the contract says
/// that the new contents are the old ones followed by `c`.
#[verifier::external_body]
pub(crate) fn push_char(s: &mut String, c: char)
    ensures
        final(s)@ == old(s)@.push(c),
{
    s.push(c);
}

/// The decimal rendering of `n`.
pub fn decimal_string(n: u64) -> (r: String)
    ensures
        r@ == decimal(n as nat),
    decreases n,
{
    let d: u32 = (n % 10) as u32;
    let c = char_from_digit(d);
    if n < 10 {
        let mut s = String::new();
        push_char(&mut s, c);
        assert(s@ =~= seq![digit_char(n as nat)]);
        s
    } else {
        let mut s = decimal_string(n / 10);
        push_char(&mut s, c);
        s
    }
}

/// The digit character for `d`.
fn char_from_digit(d: u32) -> (c: char)
    requires
        d < 10,
    ensures
        c == digit_char(d as nat),
{
    let b: u8 = (48 + d) as u8;
    b as char
}

/// The decimal rendering of a signed number, with a leading `-` when negative.
pub fn decimal_string_i32(n: i32) -> (r: String)
    ensures
        r@ == decimal_i32(n),
{
    if n < 0 {
        let m: u64 = (0i64 - (n as i64)) as u64;
        let digits = decimal_string(m);
        let mut s = String::new();
        push_char(&mut s, '-');
        s.append(digits.as_str());
        assert(s@ =~= seq!['-'] + decimal((-n) as nat));
        s
    } else {
        decimal_string(n as u64)
    }
}

} // verus!
