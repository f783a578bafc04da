//! Accounts: opening one, logging in, the logged-in session, and promoting a
//! user to administrator.

use vstd::prelude::*;
use vstd::utf8::encode_utf8;
use crate::error::ShopError;
use crate::model::{copy_account, Account, ActiveStatus, User, UserType};
use crate::password::{default_phc_prefix, password_matches, verify_password};
use crate::text::{all_digits, is_ascii_digit, trimmed};
use crate::validation::{
    account_number_of, check_phone_number, email_ok, generate_account_number,
    has_account_number, lemma_digits_bytes, lemma_valid_phone_has_account_number,
    password_verdict, phone_verdict, str_eq, validate_email, validate_password,
};

verus! {

/// The verdict on the details of a new account: the e-mail address, then the
/// password, then the phone number.
pub open spec fn account_details_verdict(
    email: Seq<char>,
    password: Seq<char>,
    phone: Seq<char>,
) -> Result<(), ShopError> {
    if !email_ok(email) {
        Err(ShopError::InvalidEmail)
    } else if password_verdict(password) is Err {
        password_verdict(password)
    } else {
        phone_verdict(phone)
    }
}

/// Whether some account in `db` has the account number `num`.
pub open spec fn number_taken<M>(db: Seq<Account<M>>, num: Seq<char>) -> bool {
    exists|k: int| 0 <= k < db.len() && (#[trigger] db[k]).account_number@ == num
}

/// No two accounts in `db` share an account number.
pub open spec fn distinct_numbers<M>(db: Seq<Account<M>>) -> bool {
    forall|i: int, j: int|
        0 <= i < db.len() && 0 <= j < db.len() && i != j ==> (#[trigger] db[i]).account_number@
            != (#[trigger] db[j]).account_number@
}

/// `a` is the account that `create_account` opens for these details: a logged
/// out guest whose stored hash checks out against `password`.
pub open spec fn opened_account<M>(
    a: Account<M>,
    name: Seq<char>,
    email: Seq<char>,
    address: Seq<char>,
    password: Seq<char>,
    phone: Seq<char>,
    code: Seq<char>,
    balance: M,
) -> bool {
    &&& a.user.id@ == code
    &&& a.user.name@ == name
    &&& a.user.email@ == email
    &&& a.user.address@ == address
    &&& a.user.user_type == UserType::Guest
    &&& a.user.status == ActiveStatus::LoggedOut
    &&& password_matches(password, a.user.password_hash@)
    &&& a.user.password_hash@.len() >= default_phc_prefix().len()
    &&& a.user.password_hash@.subrange(0, default_phc_prefix().len() as int) == default_phc_prefix()
    &&& a.account_number@ == account_number_of(phone)
    &&& a.balance == balance
}

/// Checks the details of a new account, reporting the first rule they break.
pub fn check_account_details(email: &str, password: &str, phone_no: &str) -> (r: Result<
    (),
    ShopError,
>)
    ensures
        r == account_details_verdict(email@, password@, phone_no@),
        r is Ok <==> {
            let t = trimmed(phone_no@);
            &&& email_ok(email@)
            &&& encode_utf8(password@).len() >= 4
            &&& exists|i: int| 0 <= i < password@.len() && 'A' <= #[trigger] password@[i] <= 'Z'
            &&& exists|i: int| 0 <= i < password@.len() && 'a' <= #[trigger] password@[i] <= 'z'
            &&& exists|i: int| 0 <= i < password@.len() && '0' <= #[trigger] password@[i] <= '9'
            &&& forall|i: int| 0 <= i < t.len() ==> '0' <= #[trigger] t[i] <= '9'
            &&& t.len() >= 11
        },
        !email_ok(email@) ==> r == Err::<(), ShopError>(ShopError::InvalidEmail),
{
    if !validate_email(email) {
        return Err(ShopError::InvalidEmail);
    }
    match validate_password(password) {
        Ok(()) => {},
        Err(e) => {
            return Err(e);
        },
    }
    check_phone_number(phone_no)
}

/// Opens an account for a new user with the identifier `code`: the details
/// must pass `check_account_details`, and no account may have the account
/// number of `phone_no` yet. The new account goes at the end of `db`.
pub fn create_account<M: Copy>(
    db: &mut Vec<Account<M>>,
    name: &str,
    email: &str,
    address: &str,
    password: &str,
    phone_no: &str,
    code: &str,
    opening_balance: M,
) -> (r: Result<(), ShopError>)
    requires
        account_details_verdict(email@, password@, phone_no@) is Ok && !number_taken(
            old(db)@,
            account_number_of(phone_no@),
        ) ==> encode_utf8(password@).len() <= 0xFFFF_FFFF,
    ensures
        account_details_verdict(email@, password@, phone_no@) is Err ==> {
            &&& r == account_details_verdict(email@, password@, phone_no@)
            &&& final(db)@ == old(db)@
        },
        account_details_verdict(email@, password@, phone_no@) is Ok && number_taken(
            old(db)@,
            account_number_of(phone_no@),
        ) ==> {
            &&& r == Err::<(), ShopError>(ShopError::AccountExists)
            &&& final(db)@ == old(db)@
        },
        account_details_verdict(email@, password@, phone_no@) is Ok && !number_taken(
            old(db)@,
            account_number_of(phone_no@),
        ) ==> {
            &&& r is Ok
            &&& final(db)@.len() == old(db)@.len() + 1
            &&& final(db)@.drop_last() == old(db)@
            &&& opened_account(
                final(db)@.last(),
                name@,
                email@,
                address@,
                password@,
                phone_no@,
                code@,
                opening_balance,
            )
        },
        distinct_numbers(old(db)@) ==> distinct_numbers(final(db)@),
        r is Ok ==> {
            let a = final(db)@.last();
            &&& final(db)@.len() == old(db)@.len() + 1
            &&& final(db)@.drop_last() == old(db)@
            &&& a.user.id@ == code@ && a.user.name@ == name@ && a.user.email@ == email@
            &&& a.user.address@ == address@ && a.balance == opening_balance
            &&& a.user.user_type == UserType::Guest && a.user.status == ActiveStatus::LoggedOut
            &&& a.account_number@ == account_number_of(phone_no@)
            &&& password_matches(password@, a.user.password_hash@)
            &&& forall|k: int| 0 <= k < old(db)@.len() ==> (#[trigger] old(db)@[k]).account_number@
                != a.account_number@
            &&& encode_utf8(password@).len() >= 4
            &&& exists|i: int| 0 <= i < password@.len() && 'A' <= #[trigger] password@[i] <= 'Z'
            &&& exists|i: int| 0 <= i < password@.len() && 'a' <= #[trigger] password@[i] <= 'z'
            &&& exists|i: int| 0 <= i < password@.len() && '0' <= #[trigger] password@[i] <= '9'
        },
        r is Err ==> final(db)@ == old(db)@,
        ({
            let t = trimmed(phone_no@);
            &&& email_ok(email@)
            &&& encode_utf8(password@).len() >= 4
            &&& exists|i: int| 0 <= i < password@.len() && 'A' <= #[trigger] password@[i] <= 'Z'
            &&& exists|i: int| 0 <= i < password@.len() && 'a' <= #[trigger] password@[i] <= 'z'
            &&& exists|i: int| 0 <= i < password@.len() && '0' <= #[trigger] password@[i] <= '9'
            &&& forall|i: int| 0 <= i < t.len() ==> '0' <= #[trigger] t[i] <= '9'
            &&& t.len() >= 11
            &&& forall|k: int| 0 <= k < old(db)@.len() ==> (#[trigger] old(db)@[k]).account_number@
                != account_number_of(phone_no@)
        }) ==> r is Ok,
{
    proof {
        let t = trimmed(phone_no@);
        if forall|i: int| 0 <= i < t.len() ==> '0' <= #[trigger] t[i] <= '9' {
            assert(all_digits(t)) by {
                assert forall|i: int| 0 <= i < t.len() implies #[trigger] is_ascii_digit(t[i]) by {
                    assert('0' <= t[i] <= '9');
                }
            }
            lemma_digits_bytes(t);
        }
    }
    match check_account_details(email, password, phone_no) {
        Ok(()) => {},
        Err(e) => {
            return Err(e);
        },
    }
    proof {
        lemma_valid_phone_has_account_number(phone_no@);
    }
    let number = generate_account_number(phone_no);
    let mut i: usize = 0;
    while i < db.len()
        invariant
            i <= db.len(),
            db@ == old(db)@,
            number@ == account_number_of(phone_no@),
            account_details_verdict(email@, password@, phone_no@) is Ok,
            forall|k: int| 0 <= k < i ==> (#[trigger] db@[k]).account_number@ != number@,
        decreases db.len() - i,
    {
        if db[i].account_number == number {
            assert(number_taken(old(db)@, account_number_of(phone_no@))) by {
                assert(db@[i as int].account_number@ == number@);
            }
            return Err(ShopError::AccountExists);
        }
        i = i + 1;
    }
    let user = User::new(
        name.to_owned(),
        address.to_owned(),
        code,
        email.to_owned(),
        password.to_owned(),
    );
    let acct = Account::new(&user, phone_no, opening_balance);
    let ghost before = db@;
    db.push(acct);
    assert(db@.drop_last() =~= before);
    Ok(())
}

/// The account as it is once its user has logged in.
pub open spec fn logged_in<M>(a: Account<M>) -> Account<M> {
    Account {
        user: User {
            id: a.user.id,
            name: a.user.name,
            address: a.user.address,
            email: a.user.email,
            user_type: a.user.user_type,
            password_hash: a.user.password_hash,
            status: ActiveStatus::LoggedIn,
        },
        account_number: a.account_number,
        balance: a.balance,
    }
}

/// Whether the account `a` is the one of phone number `phone` and its stored
/// hash checks out against `password`.
pub open spec fn login_matches<M>(a: Account<M>, phone: Seq<char>, password: Seq<char>) -> bool {
    a.account_number@ == account_number_of(phone) && password_matches(password, a.user.password_hash@)
}

/// Logs in: the first account in `db` with the account number of `phone_no`
/// whose password checks out, marked logged in; `LoginFailed` when none does.
pub fn login<M: Copy>(db: &Vec<Account<M>>, phone_no: &str, password: &str) -> (r: Result<
    Account<M>,
    ShopError,
>)
    requires
        db@.len() > 0 ==> has_account_number(phone_no@),
    ensures
        r is Ok <==> exists|i: int| 0 <= i < db@.len() && login_matches(#[trigger] db@[i], phone_no@, password@),
        r matches Ok(a) ==> exists|i: int|
            0 <= i < db@.len() && login_matches(#[trigger] db@[i], phone_no@, password@) && (forall|j: int|
                0 <= j < i ==> !login_matches(#[trigger] db@[j], phone_no@, password@)) && a == logged_in(db@[i]),
        r matches Ok(a) ==> a.user.status == ActiveStatus::LoggedIn && exists|i: int|
            0 <= i < db@.len() && login_matches(#[trigger] db@[i], phone_no@, password@) && {
                &&& a.user.id == db@[i].user.id
                &&& a.user.name == db@[i].user.name
                &&& a.user.address == db@[i].user.address
                &&& a.user.email == db@[i].user.email
                &&& a.user.user_type == db@[i].user.user_type
                &&& a.user.password_hash == db@[i].user.password_hash
                &&& a.account_number == db@[i].account_number
                &&& a.balance == db@[i].balance
            },
        r matches Err(e) ==> e == ShopError::LoginFailed,
{
    if db.len() == 0 {
        return Err(ShopError::LoginFailed);
    }
    let number = generate_account_number(phone_no);
    let mut i: usize = 0;
    while i < db.len()
        invariant
            i <= db.len(),
            number@ == account_number_of(phone_no@),
            forall|j: int| 0 <= j < i ==> !login_matches(#[trigger] db@[j], phone_no@, password@),
        decreases db.len() - i,
    {
        if db[i].account_number == number && verify_password(
            password,
            db[i].user.password_hash.as_str(),
        ) {
            let mut a = copy_account(&db[i]);
            a.user.status = ActiveStatus::LoggedIn;
            return Ok(a);
        }
        i = i + 1;
    }
    Err(ShopError::LoginFailed)
}

/// The verdict on the session: someone is logged in.
pub open spec fn session_verdict<M>(account: Option<Account<M>>) -> Result<(), ShopError> {
    match account {
        Some(a) => if a.user.status == ActiveStatus::LoggedIn {
            Ok(())
        } else {
            Err(ShopError::LoggedOut)
        },
        None => Err(ShopError::NotLoggedIn),
    }
}

/// The verdict on the session for an administrator's action.
pub open spec fn admin_verdict<M>(account: Option<Account<M>>) -> Result<(), ShopError> {
    if session_verdict(account) is Err {
        session_verdict(account)
    } else if account->0.user.user_type == UserType::Admin {
        Ok(())
    } else {
        Err(ShopError::NotAuthorized)
    }
}

/// The session's account, when its user is logged in.
pub fn verify_login<M>(account: Option<Account<M>>) -> (r: Result<Account<M>, ShopError>)
    ensures
        match session_verdict(account) {
            Ok(()) => r == Ok::<Account<M>, ShopError>(account->0),
            Err(e) => r == Err::<Account<M>, ShopError>(e),
        },
        account is None ==> r == Err::<Account<M>, ShopError>(ShopError::NotLoggedIn),
        account is Some && account->0.user.status == ActiveStatus::LoggedOut ==> r == Err::<
            Account<M>,
            ShopError,
        >(ShopError::LoggedOut),
        account is Some && account->0.user.status == ActiveStatus::LoggedIn ==> r == Ok::<
            Account<M>,
            ShopError,
        >(account->0),
{
    match account {
        Some(a) => match a.user.status {
            ActiveStatus::LoggedIn => Ok(a),
            ActiveStatus::LoggedOut => Err(ShopError::LoggedOut),
        },
        None => Err(ShopError::NotLoggedIn),
    }
}

/// Checks that the session belongs to a logged-in administrator.
pub fn require_admin<M>(account: &Option<Account<M>>) -> (r: Result<(), ShopError>)
    ensures
        r == admin_verdict(*account),
        r is Ok <==> account is Some && account->0.user.status == ActiveStatus::LoggedIn
            && account->0.user.user_type == UserType::Admin,
        account is None ==> r == Err::<(), ShopError>(ShopError::NotLoggedIn),
        account is Some && account->0.user.status == ActiveStatus::LoggedOut ==> r == Err::<
            (),
            ShopError,
        >(ShopError::LoggedOut),
        account is Some && account->0.user.status == ActiveStatus::LoggedIn
            && account->0.user.user_type == UserType::Guest ==> r == Err::<(), ShopError>(
            ShopError::NotAuthorized,
        ),
{
    match account {
        Some(a) => match a.user.status {
            ActiveStatus::LoggedIn => match a.user.user_type {
                UserType::Admin => Ok(()),
                UserType::Guest => Err(ShopError::NotAuthorized),
            },
            ActiveStatus::LoggedOut => Err(ShopError::LoggedOut),
        },
        None => Err(ShopError::NotLoggedIn),
    }
}

/// The account with its user made an administrator.
pub open spec fn promoted<M>(a: Account<M>) -> Account<M> {
    Account {
        user: User {
            id: a.user.id,
            name: a.user.name,
            address: a.user.address,
            email: a.user.email,
            user_type: UserType::Admin,
            password_hash: a.user.password_hash,
            status: a.user.status,
        },
        account_number: a.account_number,
        balance: a.balance,
    }
}

/// Makes the user of the `user_index`-th account (counting from 1) an
/// administrator, when the session belongs to a logged-in administrator.
pub fn change_user_type<M: Copy>(
    account: &Option<Account<M>>,
    db: &mut Vec<Account<M>>,
    user_index: usize,
) -> (r: Result<(), ShopError>)
    requires
        admin_verdict(*account) is Ok ==> user_index >= 1,
    ensures
        admin_verdict(*account) is Err ==> r == admin_verdict(*account) && final(db)@ == old(db)@,
        admin_verdict(*account) is Ok && user_index > old(db)@.len() ==> r == Err::<(), ShopError>(
            ShopError::UserNotFound,
        ) && final(db)@ == old(db)@,
        admin_verdict(*account) is Ok && user_index <= old(db)@.len() ==> r is Ok && final(db)@
            == old(db)@.update(user_index - 1, promoted(old(db)@[user_index - 1])),
        r is Ok ==> {
            let a = old(db)@[user_index - 1];
            let b = final(db)@[user_index - 1];
            &&& account is Some && account->0.user.status == ActiveStatus::LoggedIn
                && account->0.user.user_type == UserType::Admin
            &&& 1 <= user_index <= old(db)@.len()
            &&& final(db)@.len() == old(db)@.len()
            &&& forall|j: int| 0 <= j < old(db)@.len() && j != user_index - 1 ==> final(db)@[j] == old(db)@[j]
            &&& b.user.user_type == UserType::Admin
            &&& b.user.id == a.user.id && b.user.name == a.user.name && b.user.address == a.user.address
            &&& b.user.email == a.user.email && b.user.password_hash == a.user.password_hash
            &&& b.user.status == a.user.status
            &&& b.account_number == a.account_number && b.balance == a.balance
        },
{
    match require_admin(account) {
        Ok(()) => {},
        Err(e) => {
            return Err(e);
        },
    }
    if user_index - 1 >= db.len() {
        return Err(ShopError::UserNotFound);
    }
    let mut a = copy_account(&db[user_index - 1]);
    a.user.user_type = UserType::Admin;
    db.set(user_index - 1, a);
    Ok(())
}

/// An account that `create_account` has just opened is the one that logging
/// in with its phone number and password finds: it matches, and no other
/// account in the store does, so `login` returns it, marked logged in.
pub proof fn lemma_login_after_create<M>(
    before: Seq<Account<M>>,
    after: Seq<Account<M>>,
    name: Seq<char>,
    email: Seq<char>,
    address: Seq<char>,
    password: Seq<char>,
    phone: Seq<char>,
    code: Seq<char>,
    balance: M,
)
    requires
        account_details_verdict(email, password, phone) is Ok,
        !number_taken(before, account_number_of(phone)),
        after.len() == before.len() + 1,
        after.drop_last() == before,
        opened_account(after.last(), name, email, address, password, phone, code, balance),
    ensures
        has_account_number(phone),
        login_matches(after.last(), phone, password),
        forall|i: int|
            0 <= i < after.len() && login_matches(#[trigger] after[i], phone, password) ==> i
                == after.len() - 1,
{
    lemma_valid_phone_has_account_number(phone);
    assert forall|i: int|
        0 <= i < after.len() && login_matches(#[trigger] after[i], phone, password) implies i
        == after.len() - 1 by {
        if i < after.len() - 1 {
            assert(after[i] == before[i]);
        }
    }
}

/// An account that `login` returns passes the session check of `verify_login`.
pub proof fn lemma_login_opens_session<M>(a: Account<M>)
    ensures
        session_verdict(Some(logged_in(a))) is Ok,
{
}

/// The position of the first account whose account number is `number`.
pub fn find_account_by_number<M>(db: &Vec<Account<M>>, number: &str) -> (r: Option<usize>)
    ensures
        match r {
            Some(i) => i < db@.len() && db@[i as int].account_number@ == number@ && forall|j: int|
                0 <= j < i ==> (#[trigger] db@[j]).account_number@ != number@,
            None => forall|j: int| 0 <= j < db@.len() ==> (#[trigger] db@[j]).account_number@ != number@,
        },
{
    let mut i: usize = 0;
    while i < db.len()
        invariant
            i <= db.len(),
            forall|j: int| 0 <= j < i ==> (#[trigger] db@[j]).account_number@ != number@,
        decreases db.len() - i,
    {
        if str_eq(db[i].account_number.as_str(), number) {
            return Some(i);
        }
        i = i + 1;
    }
    None
}

/// The position of the first account whose user has the identifier `user_id`.
pub fn find_account_by_user_id<M>(db: &Vec<Account<M>>, user_id: &str) -> (r: Option<usize>)
    ensures
        match r {
            Some(i) => i < db@.len() && db@[i as int].user.id@ == user_id@ && forall|j: int|
                0 <= j < i ==> (#[trigger] db@[j]).user.id@ != user_id@,
            None => forall|j: int| 0 <= j < db@.len() ==> (#[trigger] db@[j]).user.id@ != user_id@,
        },
{
    let mut i: usize = 0;
    while i < db.len()
        invariant
            i <= db.len(),
            forall|j: int| 0 <= j < i ==> (#[trigger] db@[j]).user.id@ != user_id@,
        decreases db.len() - i,
    {
        if str_eq(db[i].user.id.as_str(), user_id) {
            return Some(i);
        }
        i = i + 1;
    }
    None
}

} // verus!
