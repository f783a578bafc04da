//! Identifier codes (`UCIS1234`, `PCIS5678`, `ORD4321`): a prefix and a random
//! four-digit number, never handed out twice.

use vstd::prelude::*;
use rand::Rng;
use crate::model::IDCodes;
use crate::text::{decimal, decimal_string};

verus! {

/// What `str::to_uppercase` gives for a string: its characters mapped to
/// their Unicode upper-case forms.
pub uninterp spec fn uppercase(s: Seq<char>) -> Seq<char>;

/// The ASCII upper-case form of a string of ASCII characters: `a` to `z`
/// become `A` to `Z`, every other character stays.
pub open spec fn ascii_upper(s: Seq<char>) -> Seq<char> {
    s.map_values(|c: char| if 'a' <= c <= 'z' { ((c as u32) - 32) as char } else { c })
}

/// `str::to_uppercase`. Its result depends on the string alone and is named
/// `uppercase`; the Unicode case tables that define it are not written out,
/// except on ASCII strings, whose Unicode upper-case forms are the ASCII ones.
#[verifier::external_body]
fn to_uppercase(s: &str) -> (r: String)
    ensures
        r@ == uppercase(s@),
        vstd::utf8::is_ascii_chars(s@) ==> r@ == ascii_upper(s@),
{
    s.to_uppercase()
}

/// A number drawn with `rand::thread_rng().gen_range(1000..=9999)`. What is
/// drawn is left open; that it lies in the range is what `gen_range` documents.
#[verifier::external_body]
fn draw_code_number() -> (n: u32)
    ensures
        1000 <= n <= 9999,
{
    rand::thread_rng().gen_range(1000..=9999)
}

/// The code made of `prefix` in upper case followed by the number `n`.
pub open spec fn code_of(prefix: Seq<char>, n: nat) -> Seq<char> {
    uppercase(prefix) + decimal(n)
}

/// Whether some entry of `codes` is the code `c`.
pub open spec fn code_taken(codes: Seq<IDCodes>, c: Seq<char>) -> bool {
    exists|k: int| 0 <= k < codes.len() && (#[trigger] codes[k]).code@ == c
}

/// No code occurs twice in `codes`.
pub open spec fn distinct_codes(codes: Seq<IDCodes>) -> bool {
    forall|i: int, j: int|
        0 <= i < codes.len() && 0 <= j < codes.len() && i != j ==> (#[trigger] codes[i]).code@
            != (#[trigger] codes[j]).code@
}

/// Records the code made of `initial` and the number `n`, when it is not
/// yet in `codes`, and returns it; returns `None`, leaving `codes` as it was,
/// when the code is taken.
pub fn try_code(codes: &mut Vec<IDCodes>, initial: &str, n: u32) -> (r: Option<String>)
    ensures
        r is Some <==> !code_taken(old(codes)@, code_of(initial@, n as nat)),
        r matches Some(c) ==> c@ == code_of(initial@, n as nat) && final(codes)@ == old(
            codes,
        )@.push(IDCodes { code: c }),
        r is None ==> final(codes)@ == old(codes)@,
        distinct_codes(old(codes)@) ==> distinct_codes(final(codes)@),
        r is Some <==> forall|k: int|
            0 <= k < old(codes)@.len() ==> (#[trigger] old(codes)@[k]).code@ != uppercase(initial@)
                + decimal(n as nat),
        r matches Some(c) ==> c@ == uppercase(initial@) + decimal(n as nat) && final(codes)@.len()
            == old(codes)@.len() + 1 && final(codes)@.last().code@ == c@,
        r matches Some(c) ==> (vstd::utf8::is_ascii_chars(initial@) ==> c@ == ascii_upper(initial@)
            + decimal(n as nat)),
{
    let mut new_code = to_uppercase(initial);
    let digits = decimal_string(n as u64);
    new_code.append(digits.as_str());
    assert(new_code@ == code_of(initial@, n as nat));
    let mut i: usize = 0;
    while i < codes.len()
        invariant
            i <= codes.len(),
            codes@ == old(codes)@,
            new_code@ == code_of(initial@, n as nat),
            forall|k: int| 0 <= k < i ==> (#[trigger] codes@[k]).code@ != new_code@,
        decreases codes.len() - i,
    {
        if codes[i].code == new_code {
            assert(old(codes)@[i as int].code@ == new_code@);
            return None;
        }
        i = i + 1;
    }
    codes.push(IDCodes::new(new_code.clone()));
    Some(new_code)
}

/// One attempt at a fresh code: draws a number from 1000 to 9999 and tries
/// the code made of `initial` and that number with `try_code`. The number
/// drawn comes back with the outcome; on `None` the caller draws again.
pub fn generate_code(codes: &mut Vec<IDCodes>, initial: &str) -> (r: (u32, Option<String>))
    ensures
        1000 <= r.0 <= 9999,
        r.1 is Some <==> !code_taken(old(codes)@, code_of(initial@, r.0 as nat)),
        r.1 matches Some(c) ==> c@ == code_of(initial@, r.0 as nat) && final(codes)@ == old(
            codes,
        )@.push(IDCodes { code: c }),
        r.1 is None ==> final(codes)@ == old(codes)@,
        distinct_codes(old(codes)@) ==> distinct_codes(final(codes)@),
{
    let number = draw_code_number();
    let code = try_code(codes, initial, number);
    (number, code)
}

} // verus!
