//! The rules that user input must pass: e-mail, password and phone-number
//! checks, account numbers, stock quantities, categories and order statuses.

use vstd::prelude::*;
use vstd::utf8::*;
use crate::error::ShopError;
use crate::text::{
    all_digits, byte_len, decimal_i32, is_ascii_digit, lemma_parse_decimal_i32, parse_i32,
    parse_i32_spec, trim, trimmed,
};

verus! {

broadcast use vstd::utf8::group_utf8_lib;

/// The order status chosen by a menu answer.
#[derive(Debug, Clone, Copy, PartialEq, Eq, Structural)]
pub enum OrderStatus {
    Paid,
    Processing,
    Shipped,
    Delivered,
    Cancelled,
}

/// The category chosen by a menu answer.
#[derive(Debug, Clone, Copy, PartialEq, Eq, Structural)]
pub enum Category {
    Food,
    Electronics,
    Fashion,
    Grocery,
    Computing,
}

pub open spec fn contains_char(s: Seq<char>, c: char) -> bool {
    exists|i: int| 0 <= i < s.len() && s[i] == c
}

pub open spec fn any_in(s: Seq<char>, lo: char, hi: char) -> bool {
    exists|i: int| 0 <= i < s.len() && lo <= #[trigger] s[i] <= hi
}

/// An e-mail address is accepted when, once trimmed, it holds an `@` and a
/// `.` and neither starts nor ends with `@`.
pub open spec fn email_ok(s: Seq<char>) -> bool {
    let t = trimmed(s);
    &&& contains_char(t, '@')
    &&& contains_char(t, '.')
    &&& !(t.len() > 0 && t[0] == '@')
    &&& !(t.len() > 0 && t.last() == '@')
}

/// The verdict on a password: at least four bytes long, then an upper-case,
/// a lower-case letter and a digit, each checked in that order.
pub open spec fn password_verdict(p: Seq<char>) -> Result<(), ShopError> {
    if encode_utf8(p).len() < 4 {
        Err(ShopError::PasswordTooShort)
    } else if !any_in(p, 'A', 'Z') {
        Err(ShopError::PasswordNoUppercase)
    } else if !any_in(p, 'a', 'z') {
        Err(ShopError::PasswordNoLowercase)
    } else if !any_in(p, '0', '9') {
        Err(ShopError::PasswordNoDigit)
    } else {
        Ok(())
    }
}

/// The verdict on a phone number: once trimmed, digits only, and at least
/// eleven of them.
pub open spec fn phone_verdict(p: Seq<char>) -> Result<(), ShopError> {
    let t = trimmed(p);
    if !all_digits(t) {
        Err(ShopError::PhoneNotDigits)
    } else if encode_utf8(t).len() < 11 {
        Err(ShopError::PhoneTooShort)
    } else {
        Ok(())
    }
}

/// The phone numbers that have an account number: the trimmed number is at
/// least ten bytes long and its last ten bytes start on a character boundary.
pub open spec fn has_account_number(p: Seq<char>) -> bool {
    let b = encode_utf8(trimmed(p));
    b.len() >= 10 && is_char_boundary(b, b.len() - 10)
}

/// The account number of a phone number: the characters of the last ten bytes
/// of the trimmed number.
pub open spec fn account_number_of(p: Seq<char>) -> Seq<char> {
    let b = encode_utf8(trimmed(p));
    decode_utf8(b.subrange(b.len() - 10, b.len() as int))
}

/// The verdict on a stock or quantity answer: a whole number, above zero.
pub open spec fn stock_verdict(s: Seq<char>) -> Result<i32, ShopError> {
    match parse_i32_spec(trimmed(s)) {
        None => Err(ShopError::StockNotNumber),
        Some(v) => if v <= 0 {
            Err(ShopError::StockNotPositive)
        } else {
            Ok(v)
        },
    }
}

/// The order status that a menu answer selects.
pub open spec fn order_status_choice(s: Seq<char>) -> Option<OrderStatus> {
    let t = trimmed(s);
    if t == "1"@ {
        Some(OrderStatus::Processing)
    } else if t == "2"@ {
        Some(OrderStatus::Shipped)
    } else if t == "3"@ {
        Some(OrderStatus::Delivered)
    } else if t == "4"@ {
        Some(OrderStatus::Cancelled)
    } else {
        None
    }
}

/// No menu answer sets an order back to paid: that status is for new orders alone.
pub proof fn lemma_status_choice_not_paid(s: Seq<char>)
    ensures
        order_status_choice(s) != Some(OrderStatus::Paid),
{
}

/// The category that a menu answer selects.
pub open spec fn category_choice(s: Seq<char>) -> Option<Category> {
    let t = trimmed(s);
    if t == "1"@ {
        Some(Category::Food)
    } else if t == "2"@ {
        Some(Category::Electronics)
    } else if t == "3"@ {
        Some(Category::Fashion)
    } else if t == "5"@ {
        Some(Category::Computing)
    } else if t == "4"@ {
        Some(Category::Grocery)
    } else {
        None
    }
}

/// The one-digit answers `1` to `5`, as string literals, are the one-character
/// sequences of those digits, and no two of them are equal.
pub proof fn lemma_digit_answers()
    ensures
        "1"@ == seq!['1'],
        "2"@ == seq!['2'],
        "3"@ == seq!['3'],
        "4"@ == seq!['4'],
        "5"@ == seq!['5'],
        seq!['1'][0] == '1',
        seq!['2'][0] == '2',
        seq!['3'][0] == '3',
        seq!['4'][0] == '4',
        seq!['5'][0] == '5',
{
    reveal_strlit("1");
    reveal_strlit("2");
    reveal_strlit("3");
    reveal_strlit("4");
    reveal_strlit("5");
    assert("1"@ =~= seq!['1']);
    assert("2"@ =~= seq!['2']);
    assert("3"@ =~= seq!['3']);
    assert("4"@ =~= seq!['4']);
    assert("5"@ =~= seq!['5']);
}

/// Character-wise equality of two string slices.
pub fn str_eq(a: &str, b: &str) -> (r: bool)
    ensures
        r == (a@ == b@),
{
    let n = a.unicode_len();
    let m = b.unicode_len();
    if n != m {
        return false;
    }
    let mut i: usize = 0;
    while i < n
        invariant
            n == a@.len(),
            m == b@.len(),
            n == m,
            i <= n,
            forall|k: int| 0 <= k < i ==> a@[k] == b@[k],
        decreases n - i,
    {
        if a.get_char(i) != b.get_char(i) {
            return false;
        }
        i = i + 1;
    }
    assert(a@ =~= b@);
    true
}

fn has_char(s: &str, c: char) -> (r: bool)
    ensures
        r == contains_char(s@, c),
{
    let n = s.unicode_len();
    let mut i: usize = 0;
    while i < n
        invariant
            n == s@.len(),
            i <= n,
            forall|k: int| 0 <= k < i ==> s@[k] != c,
        decreases n - i,
    {
        if s.get_char(i) == c {
            return true;
        }
        i = i + 1;
    }
    false
}

fn has_char_in(s: &str, lo: char, hi: char) -> (r: bool)
    ensures
        r == any_in(s@, lo, hi),
{
    let n = s.unicode_len();
    let mut i: usize = 0;
    while i < n
        invariant
            n == s@.len(),
            i <= n,
            forall|k: int| 0 <= k < i ==> !(lo <= #[trigger] s@[k] <= hi),
        decreases n - i,
    {
        let c = s.get_char(i);
        if lo <= c && c <= hi {
            return true;
        }
        i = i + 1;
    }
    false
}

fn only_digits(s: &str) -> (r: bool)
    ensures
        r == all_digits(s@),
{
    let n = s.unicode_len();
    let mut i: usize = 0;
    while i < n
        invariant
            n == s@.len(),
            i <= n,
            forall|k: int| 0 <= k < i ==> #[trigger] is_ascii_digit(s@[k]),
        decreases n - i,
    {
        let c = s.get_char(i);
        if !('0' <= c && c <= '9') {
            assert(!is_ascii_digit(s@[i as int]));
            return false;
        }
        i = i + 1;
    }
    true
}

/// A string of ASCII digits takes one byte per character.
pub proof fn lemma_digits_bytes(t: Seq<char>)
    requires
        all_digits(t),
    ensures
        is_ascii_chars(t),
        encode_utf8(t).len() == t.len(),
{
    assert(is_ascii_chars(t)) by {
        assert forall|i: int| 0 <= i < t.len() implies '\0' <= #[trigger] t[i] <= '\u{7f}' by {
            assert(is_ascii_digit(t[i]));
        }
    }
    is_ascii_chars_encode_utf8(t);
}

/// Whether `email` is accepted as an e-mail address.
pub fn validate_email(email: &str) -> (r: bool)
    ensures
        r == email_ok(email@),
        r <==> {
            let t = trimmed(email@);
            &&& exists|i: int| 0 <= i < t.len() && t[i] == '@'
            &&& exists|i: int| 0 <= i < t.len() && t[i] == '.'
            &&& t.len() > 0 ==> t[0] != '@' && t[t.len() - 1] != '@'
        },
{
    let t = trim(email);
    let n = t.unicode_len();
    has_char(t, '@') && has_char(t, '.') && !(n > 0 && t.get_char(0) == '@') && !(n > 0
        && t.get_char(n - 1) == '@')
}

/// Checks a password against the password rules, reporting the first rule it breaks.
pub fn validate_password(password: &str) -> (r: Result<(), ShopError>)
    ensures
        r == password_verdict(password@),
        r is Ok <==> {
            &&& encode_utf8(password@).len() >= 4
            &&& exists|i: int| 0 <= i < password@.len() && 'A' <= #[trigger] password@[i] <= 'Z'
            &&& exists|i: int| 0 <= i < password@.len() && 'a' <= #[trigger] password@[i] <= 'z'
            &&& exists|i: int| 0 <= i < password@.len() && '0' <= #[trigger] password@[i] <= '9'
        },
        r matches Err(e) ==> {
            ||| e == ShopError::PasswordTooShort && encode_utf8(password@).len() < 4
            ||| e == ShopError::PasswordNoUppercase && forall|i: int|
                0 <= i < password@.len() ==> !('A' <= #[trigger] password@[i] <= 'Z')
            ||| e == ShopError::PasswordNoLowercase && forall|i: int|
                0 <= i < password@.len() ==> !('a' <= #[trigger] password@[i] <= 'z')
            ||| e == ShopError::PasswordNoDigit && forall|i: int|
                0 <= i < password@.len() ==> !('0' <= #[trigger] password@[i] <= '9')
        },
{
    if byte_len(password) < 4 {
        return Err(ShopError::PasswordTooShort);
    }
    if !has_char_in(password, 'A', 'Z') {
        return Err(ShopError::PasswordNoUppercase);
    }
    if !has_char_in(password, 'a', 'z') {
        return Err(ShopError::PasswordNoLowercase);
    }
    if !has_char_in(password, '0', '9') {
        return Err(ShopError::PasswordNoDigit);
    }
    Ok(())
}

/// Checks a phone number: digits only, at least eleven of them.
pub fn check_phone_number(phone_no: &str) -> (r: Result<(), ShopError>)
    ensures
        r == phone_verdict(phone_no@),
        r is Ok <==> {
            let t = trimmed(phone_no@);
            &&& forall|i: int| 0 <= i < t.len() ==> '0' <= #[trigger] t[i] <= '9'
            &&& t.len() >= 11
        },
        r == Err::<(), ShopError>(ShopError::PhoneNotDigits) <==> exists|i: int|
            0 <= i < trimmed(phone_no@).len() && !('0' <= #[trigger] trimmed(phone_no@)[i] <= '9'),
{
    proof {
        let t = trimmed(phone_no@);
        if all_digits(t) {
            lemma_digits_bytes(t);
            assert forall|i: int| 0 <= i < t.len() implies '0' <= #[trigger] t[i] <= '9' by {
                assert(is_ascii_digit(t[i]));
            }
        } else {
            let i = choose|i: int| 0 <= i < t.len() && !#[trigger] is_ascii_digit(t[i]);
            assert(!('0' <= t[i] <= '9'));
        }
    }
    let t = trim(phone_no);
    if !only_digits(t) {
        return Err(ShopError::PhoneNotDigits);
    }
    if byte_len(t) < 11 {
        return Err(ShopError::PhoneTooShort);
    }
    Ok(())
}

/// Every phone number that `check_phone_number` accepts has an account number,
/// and that number is the last ten digits of the trimmed phone number.
pub proof fn lemma_valid_phone_has_account_number(p: Seq<char>)
    requires
        phone_verdict(p) is Ok,
    ensures
        has_account_number(p),
        account_number_of(p) == trimmed(p).subrange(
            trimmed(p).len() - 10,
            trimmed(p).len() as int,
        ),
{
    let t = trimmed(p);
    lemma_digits_bytes(t);
    let b = encode_utf8(t);
    let k = b.len() - 10;
    assert(t[k] as u8 == b[k]);
    assert(is_ascii_digit(t[k]));
    assert(!is_continuation_byte(b[k]));
    let tail = t.subrange(k, t.len() as int);
    assert(all_digits(tail)) by {
        assert forall|i: int| 0 <= i < tail.len() implies #[trigger] is_ascii_digit(tail[i]) by {
            assert(tail[i] == t[k + i]);
        }
    }
    lemma_digits_bytes(tail);
    let tb = encode_utf8(tail);
    assert(tb =~= b.subrange(k, b.len() as int)) by {
        assert forall|i: int| 0 <= i < tb.len() implies tb[i] == b[k + i] by {
            assert(tail[i] as u8 == tb[i]);
            assert(t[k + i] as u8 == b[k + i]);
        }
    }
}

/// Whether the phone number has an account number, that is, whether
/// `generate_account_number` can be applied to it.
pub fn phone_has_account_number(phone_no: &str) -> (r: bool)
    ensures
        r == has_account_number(phone_no@),
{
    let t = trim(phone_no);
    let n = byte_len(t);
    n >= 10 && t.is_char_boundary(n - 10)
}

/// The account number of a phone number: the last ten bytes of the trimmed number.
pub fn generate_account_number(phone_no: &str) -> (r: String)
    requires
        has_account_number(phone_no@),
    ensures
        r@ == account_number_of(phone_no@),
{
    let t = trim(phone_no);
    let n = byte_len(t);
    let (_, tail) = t.split_at(n - 10);
    proof {
        assert(tail@ == decode_utf8(encode_utf8(tail@)));
    }
    tail.to_owned()
}

/// Reads a stock quantity: a whole number above zero.
pub fn check_stock(stock: &str) -> (r: Result<i32, ShopError>)
    ensures
        r == stock_verdict(stock@),
        forall|v: i32|
            trimmed(stock@) == #[trigger] decimal_i32(v) ==> r == if v <= 0 {
                Err::<i32, ShopError>(ShopError::StockNotPositive)
            } else {
                Ok::<i32, ShopError>(v)
            },
        r matches Ok(v) ==> v >= 1,
{
    proof {
        assert forall|v: i32| trimmed(stock@) == #[trigger] decimal_i32(v) implies parse_i32_spec(
            trimmed(stock@),
        ) == Some(v) by {
            lemma_parse_decimal_i32(v);
        }
    }
    match parse_i32(trim(stock)) {
        None => Err(ShopError::StockNotNumber),
        Some(v) => if v <= 0 {
            Err(ShopError::StockNotPositive)
        } else {
            Ok(v)
        },
    }
}

/// The order status that a menu answer selects, if any.
pub fn get_order_status(input: &str) -> (r: Option<OrderStatus>)
    ensures
        r == order_status_choice(input@),
        ({
            let t = trimmed(input@);
            &&& t == seq!['1'] ==> r == Some(OrderStatus::Processing)
            &&& t == seq!['2'] ==> r == Some(OrderStatus::Shipped)
            &&& t == seq!['3'] ==> r == Some(OrderStatus::Delivered)
            &&& t == seq!['4'] ==> r == Some(OrderStatus::Cancelled)
            &&& t != seq!['1'] && t != seq!['2'] && t != seq!['3'] && t != seq!['4'] ==> r is None
        }),
{
    proof {
        lemma_digit_answers();
    }
    let t = trim(input);
    if str_eq(t, "1") {
        Some(OrderStatus::Processing)
    } else if str_eq(t, "2") {
        Some(OrderStatus::Shipped)
    } else if str_eq(t, "3") {
        Some(OrderStatus::Delivered)
    } else if str_eq(t, "4") {
        Some(OrderStatus::Cancelled)
    } else {
        None
    }
}

/// The category that a menu answer selects, if any. The answer is compared
/// after trimming; lower-casing it first, as a case-insensitive reading
/// would, cannot turn any other string into one of these digits.
pub fn get_category(input: &str) -> (r: Option<Category>)
    ensures
        r == category_choice(input@),
        ({
            let t = trimmed(input@);
            &&& t == seq!['1'] ==> r == Some(Category::Food)
            &&& t == seq!['2'] ==> r == Some(Category::Electronics)
            &&& t == seq!['3'] ==> r == Some(Category::Fashion)
            &&& t == seq!['4'] ==> r == Some(Category::Grocery)
            &&& t == seq!['5'] ==> r == Some(Category::Computing)
            &&& t != seq!['1'] && t != seq!['2'] && t != seq!['3'] && t != seq!['4'] && t != seq!['5']
                ==> r is None
        }),
{
    proof {
        lemma_digit_answers();
    }
    let t = trim(input);
    if str_eq(t, "1") {
        Some(Category::Food)
    } else if str_eq(t, "2") {
        Some(Category::Electronics)
    } else if str_eq(t, "3") {
        Some(Category::Fashion)
    } else if str_eq(t, "5") {
        Some(Category::Computing)
    } else if str_eq(t, "4") {
        Some(Category::Grocery)
    } else {
        None
    }
}

} // verus!
