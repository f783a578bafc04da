//! Properties of the store's operations, each stated over what one call of an
//! operation is allowed to give back, whatever its implementation.

use vstd::prelude::*;
use vstd::utf8::*;
use crate::accounts::{login, login_matches, require_admin};
use crate::cart::find_cart;
use crate::commands::{single_product_commands, ProductCommand};
use crate::error::ShopError;
use crate::model::{Account, ActiveStatus, Cart, Product, UserType};
use crate::orders::{plan_checkout, CheckoutPlan};
use crate::text::{decimal_i32, trimmed};
use crate::validation::{
    check_stock, get_category, lemma_digit_answers, validate_password, Category,
};

verus! {

/// A cart belongs to a user only when its user identifier equals the user's
/// identifier character for character: the cart found for a user carries
/// exactly that identifier and is the first such cart, and when no cart
/// carries it, none is found.
pub proof fn law_cart_found_is_the_users(carts: &Vec<Cart>, user_id: &str, r: Option<usize>)
    requires
        call_ensures(find_cart, (carts, user_id), r),
    ensures
        r matches Some(i) ==> i < carts@.len() && carts@[i as int].user_id@ == user_id@ && forall|j: int|
            0 <= j < i ==> (#[trigger] carts@[j]).user_id@ != user_id@,
        (forall|j: int| 0 <= j < carts@.len() ==> (#[trigger] carts@[j]).user_id@ != user_id@)
            <==> r is None,
{
}

/// Checking out is only ever planned on the user's own cart: when no cart
/// carries the user's identifier the answer is `CartNotFound`, and a plan
/// names the first cart whose identifier is exactly the user's, with one
/// line for each of its lines.
pub proof fn law_checkout_uses_own_cart<M>(
    carts: &Vec<Cart>,
    products: &Vec<Product<M>>,
    user_id: &str,
    r: Result<CheckoutPlan, ShopError>,
)
    requires
        call_ensures(plan_checkout::<M>, (carts, products, user_id), r),
    ensures
        (forall|j: int| 0 <= j < carts@.len() ==> (#[trigger] carts@[j]).user_id@ != user_id@) ==> r
            == Err::<CheckoutPlan, ShopError>(ShopError::CartNotFound),
        r matches Ok(plan) ==> {
            &&& plan.cart_index < carts@.len()
            &&& carts@[plan.cart_index as int].user_id@ == user_id@
            &&& forall|j: int| 0 <= j < plan.cart_index ==> (#[trigger] carts@[j]).user_id@ != user_id@
            &&& plan.lines@.len() == carts@[plan.cart_index as int].products@.len()
        },
{
}

/// Every logged-in session, whatever its user type, may add a product to
/// its cart: the answer `3` to the single-product menu selects it.
pub proof fn law_any_logged_in_user_adds_to_cart<M>(
    input: &str,
    account: &Option<Account<M>>,
    r: Result<ProductCommand, ShopError>,
)
    requires
        call_ensures(single_product_commands::<M>, (input, account), r),
        account is Some,
        account->0.user.status == ActiveStatus::LoggedIn,
        trimmed(input@) == seq!['3'],
    ensures
        r == Ok::<ProductCommand, ShopError>(ProductCommand::AddToCart),
{
}

/// A password passes the password rules exactly when it is at least four
/// bytes long and holds an ASCII upper-case letter, an ASCII lower-case
/// letter and an ASCII digit, any of `0` to `9`.
pub proof fn law_password_rules(password: &str, r: Result<(), ShopError>)
    requires
        call_ensures(validate_password, (password,), r),
    ensures
        r is Ok <==> {
            &&& encode_utf8(password@).len() >= 4
            &&& exists|i: int| 0 <= i < password@.len() && 'A' <= #[trigger] password@[i] <= 'Z'
            &&& exists|i: int| 0 <= i < password@.len() && 'a' <= #[trigger] password@[i] <= 'z'
            &&& exists|i: int| 0 <= i < password@.len() && '0' <= #[trigger] password@[i] <= '9'
        },
{
}

/// Logging in hands back a stored account whose phone number and password
/// match, unchanged but for its status, which is `LoggedIn`.
pub proof fn law_login_keeps_the_account<M: Copy>(
    db: &Vec<Account<M>>,
    phone_no: &str,
    password: &str,
    r: Result<Account<M>, ShopError>,
)
    requires
        call_ensures(login::<M>, (db, phone_no, password), r),
    ensures
        r matches Ok(a) ==> a.user.status == ActiveStatus::LoggedIn && exists|i: int|
            0 <= i < db@.len() && login_matches(#[trigger] db@[i], phone_no@, password@) && {
                &&& a.user.id == db@[i].user.id
                &&& a.user.name == db@[i].user.name
                &&& a.user.address == db@[i].user.address
                &&& a.user.email == db@[i].user.email
                &&& a.user.user_type == db@[i].user.user_type
                &&& a.user.password_hash == db@[i].user.password_hash
                &&& a.account_number == db@[i].account_number
                &&& a.balance == db@[i].balance
            },
{
}

/// A stock answer that reads, once trimmed, as the decimal rendering of a
/// number is read as that number: accepted when it is at least one, refused
/// as not positive otherwise.
pub proof fn law_stock_reads_its_number(stock: &str, v: i32, r: Result<i32, ShopError>)
    requires
        call_ensures(check_stock, (stock,), r),
        trimmed(stock@) == decimal_i32(v),
    ensures
        v >= 1 ==> r == Ok::<i32, ShopError>(v),
        v <= 0 ==> r == Err::<i32, ShopError>(ShopError::StockNotPositive),
{
}

/// Only a logged-in administrator passes the administrator check.
pub proof fn law_admin_check<M>(account: &Option<Account<M>>, r: Result<(), ShopError>)
    requires
        call_ensures(require_admin::<M>, (account,), r),
    ensures
        r is Ok <==> account is Some && account->0.user.status == ActiveStatus::LoggedIn
            && account->0.user.user_type == UserType::Admin,
{
}

/// The category menu numbers its entries `1` Food, `2` Electronics,
/// `3` Fashion, `4` Grocery and `5` Computing; no other answer selects one.
pub proof fn law_category_answers(input: &str, r: Option<Category>)
    requires
        call_ensures(get_category, (input,), r),
    ensures
        ({
            let t = trimmed(input@);
            &&& t == seq!['1'] ==> r == Some(Category::Food)
            &&& t == seq!['2'] ==> r == Some(Category::Electronics)
            &&& t == seq!['3'] ==> r == Some(Category::Fashion)
            &&& t == seq!['4'] ==> r == Some(Category::Grocery)
            &&& t == seq!['5'] ==> r == Some(Category::Computing)
            &&& r is Some ==> t.len() == 1 && '1' <= t[0] <= '5'
        }),
{
    lemma_digit_answers();
}

} // verus!
