//! The ways in which a store operation is refused, and the message shown for each.

use vstd::prelude::*;
use crate::text::{decimal_i32, decimal_string_i32};

verus! {

/// Why a store operation did not go through.
#[derive(Debug)]
pub enum ShopError {
    InvalidEmail,
    PasswordTooShort,
    PasswordNoUppercase,
    PasswordNoLowercase,
    PasswordNoDigit,
    PhoneNotDigits,
    PhoneTooShort,
    AccountExists,
    LoginFailed,
    NotLoggedIn,
    LoggedOut,
    NotAuthorized,
    UserNotFound,
    AccountNotFound,
    StockNotNumber,
    StockNotPositive,
    PriceNotNumber,
    PriceNotPositive,
    InvalidCategory,
    ProductNotFound,
    ProductNotFoundForUpdate,
    OutOfStock,
    QuantityAboveStock,
    NotAdminRestock,
    AdminOnly,
    InvalidProductAction,
    CartNotFound,
    CartEmpty,
    NoCart,
    NoSuchCartItem,
    CartProductNotFound(String),
    InsufficientStock { name: String, available: i32, requested: i32 },
    InvalidStatus,
    InvalidOrderSelection,
    InvalidOrderInput,
    OrderNotFound,
    NoOrders,
}

/// The message shown for each refusal.
pub open spec fn error_text(e: ShopError) -> Seq<char> {
    match e {
        ShopError::InvalidEmail => "Invalid Email"@,
        ShopError::PasswordTooShort => "Password must be at least 8 characters long"@,
        ShopError::PasswordNoUppercase => "Password must contain an uppercase letter"@,
        ShopError::PasswordNoLowercase => "Password must contain a lowercase letter"@,
        ShopError::PasswordNoDigit => "Password must contain a digit"@,
        ShopError::PhoneNotDigits => "Phone number should contain only digits"@,
        ShopError::PhoneTooShort => "Phone number must be 11 digits"@,
        ShopError::AccountExists => "Account Already Existed!"@,
        ShopError::LoginFailed => "Invalid Phone Number or Passowrd"@,
        ShopError::NotLoggedIn => "You can't Access This Page because you are not logged in"@,
        ShopError::LoggedOut => "Please Login to Access this Page"@,
        ShopError::NotAuthorized => "Only Authorized User can perform this action!"@,
        ShopError::UserNotFound => "User Not Found"@,
        ShopError::AccountNotFound => "Account was not found in account database."@,
        ShopError::StockNotNumber => "Only Digits is accepted"@,
        ShopError::StockNotPositive => "Number cannot be less than or equall to zero"@,
        ShopError::PriceNotNumber => "Only Digits is accepted for price"@,
        ShopError::PriceNotPositive => "Price cannot be less than or equall to zero"@,
        ShopError::InvalidCategory => "Invalid Category"@,
        ShopError::ProductNotFound => "Product not Found!"@,
        ShopError::ProductNotFoundForUpdate => "Product not Found"@,
        ShopError::OutOfStock => "Product Out of Stock"@,
        ShopError::QuantityAboveStock => "The requesting quantity is more than the Available stock"@,
        ShopError::NotAdminRestock => "Only Admin can restock a product"@,
        ShopError::AdminOnly => "Only Admin has the Permission to Perform the action"@,
        ShopError::InvalidProductAction => "Invalid Input for Product Actions"@,
        ShopError::CartNotFound => "Your cart was not found "@,
        ShopError::CartEmpty => "Your cart is empty."@,
        ShopError::NoCart => "Your Cart is Empty!"@,
        ShopError::NoSuchCartItem => "You don't have any product in your cart"@,
        ShopError::CartProductNotFound(id) => "Product "@ + id@ + " was not found."@,
        ShopError::InsufficientStock { name, available, requested } => "Insufficient stock for "@
            + name@ + ". Available: "@ + decimal_i32(available) + ", Requested: "@ + decimal_i32(
            requested,
        ),
        ShopError::InvalidStatus => "Invalid Status Selection"@,
        ShopError::InvalidOrderSelection => "Invalid Selection of Order"@,
        ShopError::InvalidOrderInput => "Invalid Input Selection"@,
        ShopError::OrderNotFound => "Order not found!"@,
        ShopError::NoOrders => "There is no Available Order"@,
    }
}

fn owned(s: &str) -> (r: String)
    ensures
        r@ == s@,
{
    s.to_owned()
}

impl ShopError {
    /// The message shown for this refusal.
    pub fn message(&self) -> (r: String)
        ensures
            r@ == error_text(*self),
    {
        match self {
            ShopError::InvalidEmail => owned("Invalid Email"),
            ShopError::PasswordTooShort => owned("Password must be at least 8 characters long"),
            ShopError::PasswordNoUppercase => owned("Password must contain an uppercase letter"),
            ShopError::PasswordNoLowercase => owned("Password must contain a lowercase letter"),
            ShopError::PasswordNoDigit => owned("Password must contain a digit"),
            ShopError::PhoneNotDigits => owned("Phone number should contain only digits"),
            ShopError::PhoneTooShort => owned("Phone number must be 11 digits"),
            ShopError::AccountExists => owned("Account Already Existed!"),
            ShopError::LoginFailed => owned("Invalid Phone Number or Passowrd"),
            ShopError::NotLoggedIn => owned(
                "You can't Access This Page because you are not logged in",
            ),
            ShopError::LoggedOut => owned("Please Login to Access this Page"),
            ShopError::NotAuthorized => owned("Only Authorized User can perform this action!"),
            ShopError::UserNotFound => owned("User Not Found"),
            ShopError::AccountNotFound => owned("Account was not found in account database."),
            ShopError::StockNotNumber => owned("Only Digits is accepted"),
            ShopError::StockNotPositive => owned("Number cannot be less than or equall to zero"),
            ShopError::PriceNotNumber => owned("Only Digits is accepted for price"),
            ShopError::PriceNotPositive => owned("Price cannot be less than or equall to zero"),
            ShopError::InvalidCategory => owned("Invalid Category"),
            ShopError::ProductNotFound => owned("Product not Found!"),
            ShopError::ProductNotFoundForUpdate => owned("Product not Found"),
            ShopError::OutOfStock => owned("Product Out of Stock"),
            ShopError::QuantityAboveStock => owned(
                "The requesting quantity is more than the Available stock",
            ),
            ShopError::NotAdminRestock => owned("Only Admin can restock a product"),
            ShopError::AdminOnly => owned("Only Admin has the Permission to Perform the action"),
            ShopError::InvalidProductAction => owned("Invalid Input for Product Actions"),
            ShopError::CartNotFound => owned("Your cart was not found "),
            ShopError::CartEmpty => owned("Your cart is empty."),
            ShopError::NoCart => owned("Your Cart is Empty!"),
            ShopError::NoSuchCartItem => owned("You don't have any product in your cart"),
            ShopError::CartProductNotFound(id) => {
                let mut s = owned("Product ");
                s.append(id.as_str());
                s.append(" was not found.");
                s
            },
            ShopError::InsufficientStock { name, available, requested } => {
                let mut s = owned("Insufficient stock for ");
                s.append(name.as_str());
                s.append(". Available: ");
                let a = decimal_string_i32(*available);
                s.append(a.as_str());
                s.append(", Requested: ");
                let q = decimal_string_i32(*requested);
                s.append(q.as_str());
                s
            },
            ShopError::InvalidStatus => owned("Invalid Status Selection"),
            ShopError::InvalidOrderSelection => owned("Invalid Selection of Order"),
            ShopError::InvalidOrderInput => owned("Invalid Input Selection"),
            ShopError::OrderNotFound => owned("Order not found!"),
            ShopError::NoOrders => owned("There is no Available Order"),
        }
    }
}

} // verus!
