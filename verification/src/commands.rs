//! Reading menu answers: which main-menu entry, and which action on a single
//! product, an answer selects, and whether the session may perform it.

use vstd::prelude::*;
use crate::accounts::session_verdict;
use crate::error::ShopError;
use crate::model::{menu_spec, Account, ActiveStatus, Command, UserType};
use crate::text::{decimal, digit_char, is_ws, trim, trim_end, trim_start, trimmed};
use crate::validation::{lemma_digit_answers, str_eq};

verus! {

/// The actions offered on a single product.
#[derive(Debug, Clone, Copy, PartialEq, Eq, Structural)]
pub enum ProductCommand {
    Restock,
    Update,
    AddToCart,
    Delete,
}

/// The main-menu entry that an answer selects: the entry's number, from 1 to 12.
pub open spec fn menu_choice(input: Seq<char>) -> Option<Command> {
    let t = trimmed(input);
    if t == "1"@ {
        Some(menu_spec()[0])
    } else if t == "2"@ {
        Some(menu_spec()[1])
    } else if t == "3"@ {
        Some(menu_spec()[2])
    } else if t == "4"@ {
        Some(menu_spec()[3])
    } else if t == "5"@ {
        Some(menu_spec()[4])
    } else if t == "6"@ {
        Some(menu_spec()[5])
    } else if t == "7"@ {
        Some(menu_spec()[6])
    } else if t == "8"@ {
        Some(menu_spec()[7])
    } else if t == "9"@ {
        Some(menu_spec()[8])
    } else if t == "10"@ {
        Some(menu_spec()[9])
    } else if t == "11"@ {
        Some(menu_spec()[10])
    } else if t == "12"@ {
        Some(menu_spec()[11])
    } else {
        None
    }
}

/// The main-menu entry that an answer selects, if any.
pub fn menu_command(input: &str) -> (r: Option<Command>)
    ensures
        r == menu_choice(input@),
        ({
            let t = trimmed(input@);
            &&& t == seq!['1'] ==> r == Some(Command::AddProduct)
            &&& t == seq!['2'] ==> r == Some(Command::ViewAllProducts)
            &&& t == seq!['3'] ==> r == Some(Command::ViewSingleProduct)
            &&& t == seq!['4'] ==> r == Some(Command::ViewAllCart)
            &&& t == seq!['5'] ==> r == Some(Command::ViewMyCart)
            &&& t == seq!['6'] ==> r == Some(Command::ViewAllOrders)
            &&& t == seq!['7'] ==> r == Some(Command::ViewMyOrders)
            &&& t == seq!['8'] ==> r == Some(Command::CreateAccount)
            &&& t == seq!['9'] ==> r == Some(Command::ChangeUserType)
            &&& t == seq!['1', '0'] ==> r == Some(Command::Login)
            &&& t == seq!['1', '1'] ==> r == Some(Command::FundAccount)
            &&& t == seq!['1', '2'] ==> r == Some(Command::Exit)
            &&& r is Some ==> 1 <= t.len() <= 2
        }),
{
    proof {
        reveal_strlit("1");
        reveal_strlit("2");
        reveal_strlit("3");
        reveal_strlit("4");
        reveal_strlit("5");
        reveal_strlit("6");
        reveal_strlit("7");
        reveal_strlit("8");
        reveal_strlit("9");
        reveal_strlit("10");
        reveal_strlit("11");
        reveal_strlit("12");
        assert("1"@ =~= seq!['1']);
        assert("2"@ =~= seq!['2']);
        assert("3"@ =~= seq!['3']);
        assert("4"@ =~= seq!['4']);
        assert("5"@ =~= seq!['5']);
        assert("6"@ =~= seq!['6']);
        assert("7"@ =~= seq!['7']);
        assert("8"@ =~= seq!['8']);
        assert("9"@ =~= seq!['9']);
        assert("10"@ =~= seq!['1', '0']);
        assert("11"@ =~= seq!['1', '1']);
        assert("12"@ =~= seq!['1', '2']);
        assert(seq!['1'][0] == '1' && seq!['2'][0] == '2' && seq!['3'][0] == '3' && seq!['4'][0]
            == '4' && seq!['5'][0] == '5' && seq!['6'][0] == '6' && seq!['7'][0] == '7'
            && seq!['8'][0] == '8' && seq!['9'][0] == '9');
        assert(seq!['1', '0'][1] == '0' && seq!['1', '1'][1] == '1' && seq!['1', '2'][1] == '2');
    }
    let t = trim(input);
    if str_eq(t, "1") {
        Some(Command::AddProduct)
    } else if str_eq(t, "2") {
        Some(Command::ViewAllProducts)
    } else if str_eq(t, "3") {
        Some(Command::ViewSingleProduct)
    } else if str_eq(t, "4") {
        Some(Command::ViewAllCart)
    } else if str_eq(t, "5") {
        Some(Command::ViewMyCart)
    } else if str_eq(t, "6") {
        Some(Command::ViewAllOrders)
    } else if str_eq(t, "7") {
        Some(Command::ViewMyOrders)
    } else if str_eq(t, "8") {
        Some(Command::CreateAccount)
    } else if str_eq(t, "9") {
        Some(Command::ChangeUserType)
    } else if str_eq(t, "10") {
        Some(Command::Login)
    } else if str_eq(t, "11") {
        Some(Command::FundAccount)
    } else if str_eq(t, "12") {
        Some(Command::Exit)
    } else {
        None
    }
}

/// Answering the main menu with the number that it shows beside an entry
/// selects that entry.
pub proof fn lemma_menu_numbers(n: nat)
    requires
        1 <= n <= 12,
    ensures
        menu_choice(decimal(n)) == Some(menu_spec()[n - 1]),
{
    let d = decimal(n);
    if n >= 10 {
        assert(decimal(n / 10) == seq![digit_char(1)]);
    }
    assert(d.len() > 0 && !is_ws(d[0]) && !is_ws(d.last()));
    assert(trim_start(d) == d);
    assert(trim_end(d) == d);
    reveal_strlit("1");
    reveal_strlit("2");
    reveal_strlit("3");
    reveal_strlit("4");
    reveal_strlit("5");
    reveal_strlit("6");
    reveal_strlit("7");
    reveal_strlit("8");
    reveal_strlit("9");
    reveal_strlit("10");
    reveal_strlit("11");
    reveal_strlit("12");
    if n == 1 {
        assert(d =~= "1"@);
    } else if n == 2 {
        assert(d =~= "2"@);
    } else if n == 3 {
        assert(d =~= "3"@);
    } else if n == 4 {
        assert(d =~= "4"@);
    } else if n == 5 {
        assert(d =~= "5"@);
    } else if n == 6 {
        assert(d =~= "6"@);
    } else if n == 7 {
        assert(d =~= "7"@);
    } else if n == 8 {
        assert(d =~= "8"@);
    } else if n == 9 {
        assert(d =~= "9"@);
    } else if n == 10 {
        assert(d =~= "10"@);
    } else if n == 11 {
        assert(d =~= "11"@);
    } else {
        assert(d =~= "12"@);
    }
}

/// The verdict on an answer to the single-product menu, for the session's
/// account: someone must be logged in; restocking, updating and deleting are
/// for administrators; adding to the cart is for everyone.
pub open spec fn product_command_verdict<M>(input: Seq<char>, account: Option<Account<M>>) -> Result<
    ProductCommand,
    ShopError,
> {
    let t = trimmed(input);
    if let Err(e) = session_verdict(account) {
        Err(e)
    } else {
        let admin = account->0.user.user_type == UserType::Admin;
        if t == "1"@ {
            if admin {
                Ok(ProductCommand::Restock)
            } else {
                Err(ShopError::NotAdminRestock)
            }
        } else if t == "2"@ {
            if admin {
                Ok(ProductCommand::Update)
            } else {
                Err(ShopError::AdminOnly)
            }
        } else if t == "3"@ {
            Ok(ProductCommand::AddToCart)
        } else if t == "4"@ {
            if admin {
                Ok(ProductCommand::Delete)
            } else {
                Err(ShopError::AdminOnly)
            }
        } else {
            Err(ShopError::InvalidProductAction)
        }
    }
}

/// Decides what an answer to the single-product menu asks for, and whether
/// the session's account may do it.
pub fn single_product_commands<M>(input: &str, logged_in_account: &Option<Account<M>>) -> (r:
    Result<ProductCommand, ShopError>)
    ensures
        r == product_command_verdict(input@, *logged_in_account),
        logged_in_account is None ==> r == Err::<ProductCommand, ShopError>(ShopError::NotLoggedIn),
        logged_in_account matches Some(a) && a.user.status != ActiveStatus::LoggedIn ==> r == Err::<
            ProductCommand,
            ShopError,
        >(ShopError::LoggedOut),
        logged_in_account is Some && logged_in_account->0.user.status == ActiveStatus::LoggedIn ==> {
            let t = trimmed(input@);
            let admin = logged_in_account->0.user.user_type == UserType::Admin;
            &&& t == seq!['1'] ==> r == if admin {
                Ok::<ProductCommand, ShopError>(ProductCommand::Restock)
            } else {
                Err::<ProductCommand, ShopError>(ShopError::NotAdminRestock)
            }
            &&& t == seq!['2'] ==> r == if admin {
                Ok::<ProductCommand, ShopError>(ProductCommand::Update)
            } else {
                Err::<ProductCommand, ShopError>(ShopError::AdminOnly)
            }
            &&& t == seq!['3'] ==> r == Ok::<ProductCommand, ShopError>(ProductCommand::AddToCart)
            &&& t == seq!['4'] ==> r == if admin {
                Ok::<ProductCommand, ShopError>(ProductCommand::Delete)
            } else {
                Err::<ProductCommand, ShopError>(ShopError::AdminOnly)
            }
            &&& t != seq!['1'] && t != seq!['2'] && t != seq!['3'] && t != seq!['4'] ==> r == Err::<
                ProductCommand,
                ShopError,
            >(ShopError::InvalidProductAction)
        },
{
    proof {
        lemma_digit_answers();
    }
    let admin = match logged_in_account {
        None => {
            return Err(ShopError::NotLoggedIn);
        },
        Some(a) => {
            if a.user.status != ActiveStatus::LoggedIn {
                return Err(ShopError::LoggedOut);
            }
            a.user.user_type == UserType::Admin
        },
    };
    let t = trim(input);
    if str_eq(t, "1") {
        if admin {
            Ok(ProductCommand::Restock)
        } else {
            Err(ShopError::NotAdminRestock)
        }
    } else if str_eq(t, "2") {
        if admin {
            Ok(ProductCommand::Update)
        } else {
            Err(ShopError::AdminOnly)
        }
    } else if str_eq(t, "3") {
        Ok(ProductCommand::AddToCart)
    } else if str_eq(t, "4") {
        if admin {
            Ok(ProductCommand::Delete)
        } else {
            Err(ShopError::AdminOnly)
        }
    } else {
        Err(ShopError::InvalidProductAction)
    }
}

} // verus!
