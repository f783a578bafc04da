use inventory::error::ShopError;
use inventory::text::{decimal_string, decimal_string_i32, parse_i32, parse_usize, trim};
use inventory::validation::{
    check_phone_number, check_stock, phone_has_account_number, generate_account_number, get_category, get_order_status,
    validate_email, validate_password, Category, OrderStatus,
};

#[test]
fn account_number_is_last_ten_digits() {
    assert_eq!(generate_account_number("08143122946\r\n"), "8143122946");
    assert_eq!(generate_account_number("  0123456789  "), "0123456789");
}

#[test]
fn account_number_cuts_bytes_after_a_wide_char() {
    assert_eq!(generate_account_number("\u{e9}0123456789"), "0123456789");
}

#[test]
fn trim_removes_unicode_whitespace() {
    assert_eq!(trim("\u{3000} a b\t\n"), "a b");
    assert_eq!(trim("   "), "");
    assert_eq!(trim("x"), "x");
}

#[test]
fn email_rules() {
    assert!(validate_email("ada@example.com"));
    assert!(validate_email("  ada@example.com \n"));
    assert!(!validate_email("ada.example.com"));
    assert!(!validate_email("ada@example"));
    assert!(!validate_email("@example.com"));
    assert!(!validate_email("ada.example.com@"));
    assert!(!validate_email(""));
}

#[test]
fn password_rules_in_order() {
    assert!(matches!(validate_password("Ab1"), Err(ShopError::PasswordTooShort)));
    assert!(matches!(validate_password("abcd1"), Err(ShopError::PasswordNoUppercase)));
    assert!(matches!(validate_password("ABCD1"), Err(ShopError::PasswordNoLowercase)));
    assert!(matches!(validate_password("Abcd"), Err(ShopError::PasswordNoDigit)));
    assert!(validate_password("Abc1").is_ok());
    // four bytes suffice even when they are fewer characters
    assert!(matches!(validate_password("\u{e9}\u{e9}"), Err(ShopError::PasswordNoUppercase)));
}

#[test]
fn phone_rules() {
    assert!(check_phone_number("08143122946\n").is_ok());
    assert!(matches!(check_phone_number("0814312294"), Err(ShopError::PhoneTooShort)));
    assert!(matches!(check_phone_number("0814-3122946"), Err(ShopError::PhoneNotDigits)));
    assert!(matches!(check_phone_number(""), Err(ShopError::PhoneTooShort)));
}

#[test]
fn stock_rules() {
    assert_eq!(check_stock(" 12 \n").unwrap(), 12);
    assert_eq!(check_stock("+7").unwrap(), 7);
    assert!(matches!(check_stock("0"), Err(ShopError::StockNotPositive)));
    assert!(matches!(check_stock("-3"), Err(ShopError::StockNotPositive)));
    assert!(matches!(check_stock("three"), Err(ShopError::StockNotNumber)));
    assert!(matches!(check_stock("2147483648"), Err(ShopError::StockNotNumber)));
    assert_eq!(check_stock("2147483647").unwrap(), i32::MAX);
}

#[test]
fn integer_parsing_matches_std() {
    for s in ["", "+", "-", "0", "-0", "+12", "-2147483648", "2147483647", "2147483648", "-2147483649", "1x", "00012", " 1", "9999999999999999999999"] {
        assert_eq!(parse_i32(s), s.parse::<i32>().ok(), "{:?}", s);
        assert_eq!(parse_usize(s), s.parse::<usize>().ok(), "{:?}", s);
    }
}

#[test]
fn decimal_rendering() {
    assert_eq!(decimal_string(0), "0");
    assert_eq!(decimal_string(4021), "4021");
    assert_eq!(decimal_string_i32(-305), "-305");
    assert_eq!(decimal_string_i32(i32::MIN), "-2147483648");
}

#[test]
fn order_status_answers() {
    assert_eq!(get_order_status("1\n"), Some(OrderStatus::Processing));
    assert_eq!(get_order_status("2"), Some(OrderStatus::Shipped));
    assert_eq!(get_order_status(" 3"), Some(OrderStatus::Delivered));
    assert_eq!(get_order_status("4"), Some(OrderStatus::Cancelled));
    assert_eq!(get_order_status("5"), None);
    assert_eq!(get_order_status("0"), None);
}

#[test]
fn category_answers() {
    assert_eq!(get_category("1"), Some(Category::Food));
    assert_eq!(get_category("2"), Some(Category::Electronics));
    assert_eq!(get_category("3\r\n"), Some(Category::Fashion));
    assert_eq!(get_category("4"), Some(Category::Grocery));
    assert_eq!(get_category("5"), Some(Category::Computing));
    assert_eq!(get_category("6"), None);
    assert_eq!(get_category("food"), None);
}

#[test]
fn error_messages() {
    assert_eq!(ShopError::LoginFailed.message(), "Invalid Phone Number or Passowrd");
    assert_eq!(ShopError::CartProductNotFound("PCIS1234".to_string()).message(), "Product PCIS1234 was not found.");
    assert_eq!(
        ShopError::InsufficientStock { name: "Rice".to_string(), available: 2, requested: 5 }.message(),
        "Insufficient stock for Rice. Available: 2, Requested: 5"
    );
}

#[test]
fn no_answer_sets_an_order_back_to_paid() {
    for s in ["0", "1", "2", "3", "4", "5", "paid", "", " 1 "] {
        assert_ne!(get_order_status(s), Some(OrderStatus::Paid));
    }
}

#[test]
fn which_phones_have_account_numbers() {
    assert!(phone_has_account_number("0123456789"));
    assert!(phone_has_account_number(" 08143122946\n"));
    assert!(!phone_has_account_number("012345678"));
    // ten bytes from the end falls inside the two-byte character
    assert!(!phone_has_account_number("\u{e9}012345678"));
    assert!(phone_has_account_number("\u{e9}0123456789"));
}
