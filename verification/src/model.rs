//! The records of the store: users and their accounts, products, carts and
//! orders, the generated identifier codes, and the main menu.
//!
//! Money amounts are of a type `M` chosen by the caller; the library moves them
//! between records and never computes on them.

use vstd::prelude::*;
use vstd::utf8::encode_utf8;
use crate::password::{default_phc_prefix, hash_password, password_matches};
use crate::validation::{
    account_number_of, generate_account_number, has_account_number, Category, OrderStatus,
};

verus! {

/// A generated identifier code, kept so that no code is handed out twice.
#[derive(Debug)]
pub struct IDCodes {
    pub code: String,
}

impl IDCodes {
    pub fn new(code: String) -> (r: IDCodes)
        ensures
            r.code == code,
    {
        IDCodes { code }
    }
}

/// The entries of the main menu.
#[derive(Debug, Clone, Copy, PartialEq, Eq, Structural)]
pub enum Command {
    AddProduct,
    ViewAllProducts,
    ViewSingleProduct,
    ViewAllCart,
    ViewMyCart,
    ViewAllOrders,
    ViewMyOrders,
    CreateAccount,
    ChangeUserType,
    Login,
    FundAccount,
    Exit,
}

/// The label of each menu entry.
pub open spec fn menu_label(c: Command) -> Seq<char> {
    match c {
        Command::AddProduct => "Add Product"@,
        Command::ViewAllProducts => "View All Products"@,
        Command::ViewSingleProduct => "View Single Product"@,
        Command::ViewAllCart => "View All Cart"@,
        Command::ViewMyCart => "View My Cart"@,
        Command::ViewAllOrders => "View All Orders"@,
        Command::ViewMyOrders => "View My Orders"@,
        Command::CreateAccount => "Create Account"@,
        Command::ChangeUserType => "Change User Type"@,
        Command::Login => "Login"@,
        Command::FundAccount => "Fund my Account"@,
        Command::Exit => "Exit"@,
    }
}

/// The main menu, in the order in which it is shown and numbered from 1.
pub open spec fn menu_spec() -> Seq<Command> {
    seq![
        Command::AddProduct,
        Command::ViewAllProducts,
        Command::ViewSingleProduct,
        Command::ViewAllCart,
        Command::ViewMyCart,
        Command::ViewAllOrders,
        Command::ViewMyOrders,
        Command::CreateAccount,
        Command::ChangeUserType,
        Command::Login,
        Command::FundAccount,
        Command::Exit,
    ]
}

impl Command {
    /// The label shown for this entry in the main menu.
    pub fn menu_item_name(self) -> (r: &'static str)
        ensures
            r@ == menu_label(self),
    {
        match self {
            Command::AddProduct => "Add Product",
            Command::ViewAllProducts => "View All Products",
            Command::ViewSingleProduct => "View Single Product",
            Command::ViewAllCart => "View All Cart",
            Command::ViewMyCart => "View My Cart",
            Command::ViewAllOrders => "View All Orders",
            Command::ViewMyOrders => "View My Orders",
            Command::CreateAccount => "Create Account",
            Command::ChangeUserType => "Change User Type",
            Command::Login => "Login",
            Command::FundAccount => "Fund my Account",
            Command::Exit => "Exit",
        }
    }
}

/// The entries of the main menu, in order.
pub fn menu_contents() -> (r: Vec<Command>)
    ensures
        r@ == menu_spec(),
{
    vec![
        Command::AddProduct,
        Command::ViewAllProducts,
        Command::ViewSingleProduct,
        Command::ViewAllCart,
        Command::ViewMyCart,
        Command::ViewAllOrders,
        Command::ViewMyOrders,
        Command::CreateAccount,
        Command::ChangeUserType,
        Command::Login,
        Command::FundAccount,
        Command::Exit,
    ]
}

#[derive(Debug, Clone, Copy, PartialEq, Eq, Structural)]
pub enum UserType {
    Admin,
    Guest,
}

#[derive(Debug, Clone, Copy, PartialEq, Eq, Structural)]
pub enum ActiveStatus {
    LoggedIn,
    LoggedOut,
}

#[derive(Debug)]
pub struct User {
    pub id: String,
    pub name: String,
    pub address: String,
    pub email: String,
    pub user_type: UserType,
    pub password_hash: String,
    pub status: ActiveStatus,
}

impl User {
    /// A new guest user, logged out, whose stored hash checks out against `password`.
    pub fn new(name: String, address: String, code: &str, email: String, password: String) -> (r:
        User)
        requires
            encode_utf8(password@).len() <= 0xFFFF_FFFF,
        ensures
            r.id@ == code@,
            r.name == name,
            r.address == address,
            r.email == email,
            r.user_type == UserType::Guest,
            password_matches(password@, r.password_hash@),
            r.password_hash@.len() >= default_phc_prefix().len(),
            r.password_hash@.subrange(0, default_phc_prefix().len() as int) == default_phc_prefix(),
            r.status == ActiveStatus::LoggedOut,
    {
        let hashed = hash_password(password.as_str());
        User {
            id: code.to_owned(),
            name: name,
            address: address,
            email: email,
            user_type: UserType::Guest,
            password_hash: hashed,
            status: ActiveStatus::LoggedOut,
        }
    }
}

/// A field-for-field copy of a user.
pub fn copy_user(u: &User) -> (r: User)
    ensures
        r == *u,
{
    User {
        id: u.id.clone(),
        name: u.name.clone(),
        address: u.address.clone(),
        email: u.email.clone(),
        user_type: u.user_type,
        password_hash: u.password_hash.clone(),
        status: u.status,
    }
}

/// A user's account: the user, the account number taken from the phone
/// number, and the balance.
#[derive(Debug)]
pub struct Account<M> {
    pub user: User,
    pub account_number: String,
    pub balance: M,
}

impl<M: Copy> Account<M> {
    /// The account of `user` for the phone number `phone_no`, opened with `balance`.
    pub fn new(user: &User, phone_no: &str, balance: M) -> (r: Account<M>)
        requires
            has_account_number(phone_no@),
        ensures
            r.user == *user,
            r.account_number@ == account_number_of(phone_no@),
            r.balance == balance,
    {
        let acc_no = generate_account_number(phone_no);
        Account { user: copy_user(user), account_number: acc_no, balance }
    }
}

/// A field-for-field copy of an account.
pub fn copy_account<M: Copy>(a: &Account<M>) -> (r: Account<M>)
    ensures
        r == *a,
{
    Account {
        user: copy_user(&a.user),
        account_number: a.account_number.clone(),
        balance: a.balance,
    }
}

#[derive(Debug)]
pub struct Product<M> {
    pub id: String,
    pub name: String,
    pub price: M,
    pub stock: i32,
    pub category: Category,
}

impl<M> Product<M> {
    pub fn new(id: &str, name: &str, price: M, stock: i32, category: Category) -> (r: Product<M>)
        ensures
            r.id@ == id@,
            r.name@ == name@,
            r.price == price,
            r.stock == stock,
            r.category == category,
    {
        Product { id: id.to_owned(), name: name.to_owned(), price, stock, category }
    }
}

/// A field-for-field copy of a product.
pub fn copy_product<M: Copy>(p: &Product<M>) -> (r: Product<M>)
    ensures
        r == *p,
{
    Product {
        id: p.id.clone(),
        name: p.name.clone(),
        price: p.price,
        stock: p.stock,
        category: p.category,
    }
}

/// A line of a cart or of an order: a product and how many of it.
#[derive(Debug)]
pub struct CartProduct {
    pub product_id: String,
    pub quantity: i32,
}

impl CartProduct {
    pub fn new(id: String, quantity: i32) -> (r: CartProduct)
        ensures
            r.product_id == id,
            r.quantity == quantity,
    {
        CartProduct { product_id: id, quantity }
    }
}

/// A copy of a list of cart lines.
pub fn copy_cart_products(v: &Vec<CartProduct>) -> (r: Vec<CartProduct>)
    ensures
        r@ == v@,
{
    let mut r: Vec<CartProduct> = Vec::new();
    let mut i: usize = 0;
    while i < v.len()
        invariant
            i <= v.len(),
            r@ == v@.take(i as int),
        decreases v.len() - i,
    {
        let c = CartProduct { product_id: v[i].product_id.clone(), quantity: v[i].quantity };
        r.push(c);
        i = i + 1;
        assert(r@ =~= v@.take(i as int));
    }
    assert(v@.take(i as int) =~= v@);
    r
}

/// A user's cart.
#[derive(Debug)]
pub struct Cart {
    pub user_id: String,
    pub products: Vec<CartProduct>,
    pub active: bool,
}

impl Cart {
    /// An active cart of the account's user holding `product`.
    pub fn new<M>(user: &Account<M>, product: Vec<CartProduct>) -> (r: Cart)
        ensures
            r.user_id == user.user.id,
            r.products == product,
            r.active,
    {
        Cart { user_id: user.user.id.clone(), products: product, active: true }
    }
}

/// A placed order.
#[derive(Debug)]
pub struct Order<M> {
    pub order_id: String,
    pub user_id: String,
    pub products: Vec<CartProduct>,
    pub grand_total: M,
    pub status: OrderStatus,
}

impl<M> Order<M> {
    /// A new order, marked paid.
    pub fn new(products: Vec<CartProduct>, grand_total: M, user_id: &str, order_id: &str) -> (r:
        Order<M>)
        ensures
            r.order_id@ == order_id@,
            r.user_id@ == user_id@,
            r.products == products,
            r.grand_total == grand_total,
            r.status == OrderStatus::Paid,
    {
        Order {
            order_id: order_id.to_owned(),
            user_id: user_id.to_owned(),
            products,
            grand_total,
            status: OrderStatus::Paid,
        }
    }
}

/// The label under which an order status is shown.
pub open spec fn status_label(s: OrderStatus) -> Seq<char> {
    match s {
        OrderStatus::Cancelled => "Cancelled"@,
        OrderStatus::Delivered => "Delivered"@,
        OrderStatus::Paid => "Paid"@,
        OrderStatus::Processing => "Processing"@,
        OrderStatus::Shipped => "Shipped"@,
    }
}

/// The label under which an order status is shown.
pub fn order_status_name(s: OrderStatus) -> (r: &'static str)
    ensures
        r@ == status_label(s),
{
    match s {
        OrderStatus::Cancelled => "Cancelled",
        OrderStatus::Delivered => "Delivered",
        OrderStatus::Paid => "Paid",
        OrderStatus::Processing => "Processing",
        OrderStatus::Shipped => "Shipped",
    }
}

} // verus!
