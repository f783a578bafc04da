use inventory::accounts::{
    change_user_type, check_account_details, create_account, find_account_by_number,
    find_account_by_user_id, login, require_admin, verify_login,
};
use inventory::cart::{add_item_to_cart, add_to_cart, clear_my_cart, delete_item_from_my_cart, find_cart};
use inventory::catalog::{add_product, check_new_product, delete_product, find_product, restock, update_product, view_product};
use inventory::codes::{generate_code, try_code};
use inventory::commands::{menu_command, single_product_commands, ProductCommand};
use inventory::error::ShopError;
use inventory::listing::{cart_lines_listing, carts_listing, orders_listing};
use inventory::model::{
    menu_contents, order_status_name, Account, ActiveStatus, Cart, CartProduct, Command, IDCodes,
    Order, Product, User, UserType,
};
use inventory::orders::{checkout, has_orders, plan_checkout, update_order_status, view_my_single_order, CheckoutLine};
use inventory::validation::{Category, OrderStatus};

fn open_account(db: &mut Vec<Account<f64>>, phone: &str, code: &str) {
    create_account(db, "Ada Obi", "ada@example.com", "1 Marina", "Secret1", phone, code, 0.0).unwrap();
}

fn logged_in_admin() -> Account<f64> {
    let mut db = Vec::new();
    open_account(&mut db, "08143122946", "UCIS1000");
    let mut a = login(&db, "08143122946", "Secret1").unwrap();
    a.user.user_type = UserType::Admin;
    a
}

fn product(id: &str, name: &str, price: f64, stock: i32) -> Product<f64> {
    Product::new(id, name, price, stock, Category::Food)
}

#[test]
fn new_user_is_logged_out_guest_with_hashed_password() {
    let u = User::new("Ada".to_string(), "Lagos".to_string(), "UCIS1234", "a@b.c".to_string(), "Secret1".to_string());
    assert_eq!(u.id, "UCIS1234");
    assert_eq!(u.user_type, UserType::Guest);
    assert_eq!(u.status, ActiveStatus::LoggedOut);
    assert_ne!(u.password_hash, "Secret1");
    assert!(u.password_hash.starts_with("$argon2id$v=19$m=19456,t=2,p=1$"));
}

#[test]
fn account_takes_number_from_phone() {
    let u = User::new("Ada".to_string(), "Lagos".to_string(), "UCIS1234", "a@b.c".to_string(), "Secret1".to_string());
    let a = Account::new(&u, "08143122946", 0.0);
    assert_eq!(a.account_number, "8143122946");
    assert_eq!(a.balance, 0.0);
    assert_eq!(a.user.id, "UCIS1234");
}

#[test]
fn create_then_login() {
    let mut db: Vec<Account<f64>> = Vec::new();
    open_account(&mut db, "08143122946", "UCIS1000");
    assert_eq!(db.len(), 1);
    assert_eq!(db[0].account_number, "8143122946");
    let a = login(&db, " 08143122946\n", "Secret1").unwrap();
    assert_eq!(a.user.status, ActiveStatus::LoggedIn);
    assert_eq!(a.user.id, "UCIS1000");
    assert_eq!(db[0].user.status, ActiveStatus::LoggedOut);
    assert!(verify_login(Some(a)).is_ok());
}

#[test]
fn login_refuses_wrong_password_or_phone() {
    let mut db: Vec<Account<f64>> = Vec::new();
    open_account(&mut db, "08143122946", "UCIS1000");
    assert!(matches!(login(&db, "08143122946", "Secret2"), Err(ShopError::LoginFailed)));
    assert!(matches!(login(&db, "08000000000", "Secret1"), Err(ShopError::LoginFailed)));
    let empty: Vec<Account<f64>> = Vec::new();
    assert!(matches!(login(&empty, "x", "Secret1"), Err(ShopError::LoginFailed)));
}

#[test]
fn duplicate_account_refused() {
    let mut db: Vec<Account<f64>> = Vec::new();
    open_account(&mut db, "08143122946", "UCIS1000");
    // same last ten digits
    let r = create_account(&mut db, "B", "b@x.io", "addr", "Secret1", "98143122946", "UCIS2000", 0.0);
    assert!(matches!(r, Err(ShopError::AccountExists)));
    assert_eq!(db.len(), 1);
}

#[test]
fn account_details_checked_in_order() {
    let mut db: Vec<Account<f64>> = Vec::new();
    let r = create_account(&mut db, "B", "bad", "addr", "x", "12", "UCIS2000", 0.0);
    assert!(matches!(r, Err(ShopError::InvalidEmail)));
    let r = create_account(&mut db, "B", "b@x.io", "addr", "x", "12", "UCIS2000", 0.0);
    assert!(matches!(r, Err(ShopError::PasswordTooShort)));
    let r = create_account(&mut db, "B", "b@x.io", "addr", "Secret1", "12", "UCIS2000", 0.0);
    assert!(matches!(r, Err(ShopError::PhoneTooShort)));
    assert!(db.is_empty());
    assert!(check_account_details("b@x.io", "Secret1", "08143122946").is_ok());
}

#[test]
fn session_checks() {
    assert!(matches!(verify_login::<f64>(None), Err(ShopError::NotLoggedIn)));
    let mut db: Vec<Account<f64>> = Vec::new();
    open_account(&mut db, "08143122946", "UCIS1000");
    let guest = login(&db, "08143122946", "Secret1").unwrap();
    let mut out = Account::new(&guest.user, "08143122946", 0.0);
    out.user.status = ActiveStatus::LoggedOut;
    assert!(matches!(verify_login(Some(out)), Err(ShopError::LoggedOut)));
    assert!(matches!(require_admin(&Some(guest)), Err(ShopError::NotAuthorized)));
    assert!(require_admin(&Some(logged_in_admin())).is_ok());
}

#[test]
fn promote_user() {
    let mut db: Vec<Account<f64>> = Vec::new();
    open_account(&mut db, "08143122946", "UCIS1000");
    open_account(&mut db, "08011111111", "UCIS1001");
    let admin = Some(logged_in_admin());
    assert!(matches!(change_user_type(&admin, &mut db, 3), Err(ShopError::UserNotFound)));
    change_user_type(&admin, &mut db, 2).unwrap();
    assert_eq!(db[1].user.user_type, UserType::Admin);
    assert_eq!(db[0].user.user_type, UserType::Guest);
    let guest = Some(login(&db, "08143122946", "Secret1").unwrap());
    assert!(matches!(change_user_type(&guest, &mut db, 1), Err(ShopError::NotAuthorized)));
    assert!(matches!(change_user_type::<f64>(&None, &mut db, 1), Err(ShopError::NotLoggedIn)));
}

#[test]
fn finding_accounts() {
    let mut db: Vec<Account<f64>> = Vec::new();
    open_account(&mut db, "08143122946", "UCIS1000");
    open_account(&mut db, "08011111111", "UCIS1001");
    assert_eq!(find_account_by_number(&db, "8011111111"), Some(1));
    assert_eq!(find_account_by_number(&db, "0000000000"), None);
    assert_eq!(find_account_by_user_id(&db, "UCIS1000"), Some(0));
    assert_eq!(find_account_by_user_id(&db, "UCIS9999"), None);
}

#[test]
fn codes_are_fresh_and_prefixed() {
    let mut codes: Vec<IDCodes> = Vec::new();
    let (n0, c) = generate_code(&mut codes, "ucis");
    let c = c.unwrap();
    assert_eq!(c, format!("UCIS{}", n0));
    assert!(c.starts_with("UCIS"));
    assert_eq!(c.len(), 8);
    let n: u32 = c[4..].parse().unwrap();
    assert!((1000..=9999).contains(&n));
    assert_eq!(codes.len(), 1);
    assert_eq!(codes[0].code, c);
}

#[test]
fn taken_codes_are_not_reissued() {
    let mut codes: Vec<IDCodes> = (1000..=9999).map(|n| IDCodes::new(format!("ORD{}", n))).collect();
    let (n, r) = generate_code(&mut codes, "ord");
    assert!((1000..=9999).contains(&n));
    assert_eq!(r, None);
    assert_eq!(codes.len(), 9000);
}

#[test]
fn trying_a_number() {
    let mut codes: Vec<IDCodes> = vec![IDCodes::new("PCIS1000".to_string())];
    assert_eq!(try_code(&mut codes, "pcis", 1000), None);
    assert_eq!(codes.len(), 1);
    assert_eq!(try_code(&mut codes, "pcis", 1001), Some("PCIS1001".to_string()));
    assert_eq!(codes.len(), 2);
    assert_eq!(codes[1].code, "PCIS1001");
    assert_eq!(try_code(&mut codes, "Ord", 1000), Some("ORD1000".to_string()));
}

#[test]
fn add_and_view_products() {
    let mut db: Vec<Product<f64>> = Vec::new();
    add_product(&mut db, Ok(2.5), " 10\n", "Rice", "1", "PCIS1111").unwrap();
    assert_eq!(db.len(), 1);
    assert_eq!(db[0].id, "PCIS1111");
    assert_eq!(db[0].stock, 10);
    assert_eq!(db[0].category, Category::Food);
    assert_eq!(db[0].price, 2.5);
    let p = view_product(&db, 1).unwrap();
    assert_eq!(p.name, "Rice");
    assert!(matches!(view_product(&db, 2), Err(ShopError::ProductNotFound)));
}

#[test]
fn product_fields_checked_in_order() {
    let mut db: Vec<Product<f64>> = Vec::new();
    assert!(matches!(add_product(&mut db, Err(ShopError::PriceNotNumber), "x", "Rice", "9", "P"), Err(ShopError::StockNotNumber)));
    assert!(matches!(add_product(&mut db, Err(ShopError::PriceNotPositive), "3", "Rice", "9", "P"), Err(ShopError::PriceNotPositive)));
    assert!(matches!(add_product(&mut db, Ok(1.0), "3", "Rice", "9", "P"), Err(ShopError::InvalidCategory)));
    assert!(db.is_empty());
    let (p, s, c) = check_new_product(Ok(4.0), "3", "5").unwrap();
    assert_eq!((p, s, c), (4.0, 3, Category::Computing));
}

#[test]
fn update_product_fields() {
    let mut db = vec![product("P1", "Rice", 2.0, 5)];
    assert!(matches!(update_product(&mut db, 2, "Beans", Ok(3.0), "4", "2"), Err(ShopError::ProductNotFoundForUpdate)));
    assert!(matches!(update_product(&mut db, 1, "Beans", Err(ShopError::PriceNotNumber), "x", "9"), Err(ShopError::PriceNotNumber)));
    assert!(matches!(update_product(&mut db, 1, "Beans", Ok(3.0), "x", "9"), Err(ShopError::StockNotNumber)));
    assert!(matches!(update_product(&mut db, 1, "Beans", Ok(3.0), "4", "9"), Err(ShopError::InvalidCategory)));
    assert_eq!(db[0].name, "Rice");
    update_product(&mut db, 1, "Beans\n", Ok(3.0), "4", "2").unwrap();
    assert_eq!(db[0].id, "P1");
    assert_eq!(db[0].name, "Beans\n");
    assert_eq!(db[0].price, 3.0);
    assert_eq!(db[0].stock, 4);
    assert_eq!(db[0].category, Category::Electronics);
}

#[test]
fn restock_adds_to_stock() {
    let mut db = vec![product("P1", "Rice", 2.0, 5), product("P2", "Beans", 1.0, 1)];
    assert_eq!(restock(&mut db, "7", 2).unwrap(), "Beans Product Restocked Successfully");
    assert_eq!(db[1].stock, 8);
    assert_eq!(db[0].stock, 5);
    assert!(matches!(restock(&mut db, "7", 3), Err(ShopError::ProductNotFound)));
    assert!(matches!(restock(&mut db, "0", 1), Err(ShopError::StockNotPositive)));
    assert_eq!(db[0].stock, 5);
}

#[test]
fn delete_and_find_products() {
    let mut db = vec![product("P1", "Rice", 2.0, 5), product("P2", "Beans", 1.0, 1)];
    assert_eq!(find_product(&db, "P2"), Some(1));
    assert_eq!(find_product(&db, "P3"), None);
    assert!(matches!(delete_product(&mut db, 3), Err(ShopError::ProductNotFound)));
    delete_product(&mut db, 1).unwrap();
    assert_eq!(db.len(), 1);
    assert_eq!(db[0].id, "P2");
}

#[test]
fn cart_lines_merge_per_product() {
    let user = logged_in_admin();
    let rice = product("P1", "Rice", 2.0, 5);
    let beans = product("P2", "Beans", 1.0, 3);
    let mut carts: Vec<Cart> = Vec::new();
    add_item_to_cart(&mut carts, &user, &rice, 2).unwrap();
    assert_eq!(carts.len(), 1);
    add_item_to_cart(&mut carts, &user, &rice, 3).unwrap();
    add_item_to_cart(&mut carts, &user, &beans, 1).unwrap();
    assert_eq!(carts.len(), 1);
    assert_eq!(carts[0].products.len(), 2);
    assert_eq!(carts[0].products[0].quantity, 5);
    assert_eq!(carts[0].products[1].product_id, "P2");
    assert!(matches!(add_item_to_cart(&mut carts, &user, &beans, 4), Err(ShopError::QuantityAboveStock)));
    assert_eq!(find_cart(&carts, &user.user.id), Some(0));
}

#[test]
fn new_cart_needs_stock() {
    let user = logged_in_admin();
    let beans = product("P2", "Beans", 1.0, 3);
    let mut carts: Vec<Cart> = Vec::new();
    assert!(matches!(add_to_cart(&mut carts, &user, 4, &beans), Err(ShopError::OutOfStock)));
    assert!(carts.is_empty());
    add_to_cart(&mut carts, &user, 3, &beans).unwrap();
    assert!(carts[0].active);
    assert_eq!(carts[0].user_id, user.user.id);
}

#[test]
fn removing_from_carts() {
    let mut carts = vec![Cart {
        user_id: "U1".to_string(),
        products: vec![CartProduct::new("P1".to_string(), 1), CartProduct::new("P2".to_string(), 2)],
        active: true,
    }];
    assert!(matches!(delete_item_from_my_cart(&mut carts, "U2", 1), Err(ShopError::NoCart)));
    assert!(matches!(delete_item_from_my_cart(&mut carts, "U1", 3), Err(ShopError::NoSuchCartItem)));
    delete_item_from_my_cart(&mut carts, "U1", 1).unwrap();
    assert_eq!(carts[0].products.len(), 1);
    assert_eq!(carts[0].products[0].product_id, "P2");
    assert!(matches!(clear_my_cart(&mut carts, "U2"), Err(ShopError::NoCart)));
    clear_my_cart(&mut carts, "U1").unwrap();
    assert!(carts.is_empty());
}

fn cart_of(user: &str, lines: &[(&str, i32)]) -> Cart {
    Cart {
        user_id: user.to_string(),
        products: lines.iter().map(|(p, q)| CartProduct::new(p.to_string(), *q)).collect(),
        active: true,
    }
}

#[test]
fn checkout_plan_errors() {
    let products = vec![product("P1", "Rice", 2.0, 5)];
    let carts = vec![cart_of("U1", &[]), cart_of("U2", &[("P1", 2), ("P9", 1)]), cart_of("U3", &[("P1", 6)])];
    assert!(matches!(plan_checkout(&carts, &products, "U0"), Err(ShopError::CartNotFound)));
    assert!(matches!(plan_checkout(&carts, &products, "U1"), Err(ShopError::CartEmpty)));
    match plan_checkout(&carts, &products, "U2") {
        Err(ShopError::CartProductNotFound(id)) => assert_eq!(id, "P9"),
        other => panic!("{:?}", other),
    }
    match plan_checkout(&carts, &products, "U3") {
        Err(e @ ShopError::InsufficientStock { .. }) => {
            assert_eq!(e.message(), "Insufficient stock for Rice. Available: 5, Requested: 6")
        },
        other => panic!("{:?}", other),
    }
}

#[test]
fn checkout_moves_cart_into_order() {
    let mut accounts: Vec<Account<f64>> = Vec::new();
    open_account(&mut accounts, "08143122946", "UCIS1000");
    accounts[0].balance = 100.0;
    let mut active = login(&accounts, "08143122946", "Secret1").unwrap();
    let mut products = vec![product("P1", "Rice", 2.0, 5), product("P2", "Beans", 1.5, 4)];
    let mut carts = vec![cart_of("OTHER", &[("P1", 1)]), cart_of("UCIS1000", &[("P1", 2), ("P2", 4), ("P1", 1)])];
    let mut orders: Vec<Order<f64>> = Vec::new();
    let plan = plan_checkout(&carts, &products, "UCIS1000").unwrap();
    assert_eq!(plan.cart_index, 1);
    assert_eq!(plan.lines, vec![
        CheckoutLine { product_index: 0, quantity: 2 },
        CheckoutLine { product_index: 1, quantity: 4 },
        CheckoutLine { product_index: 0, quantity: 1 },
    ]);
    let total: f64 = plan.lines.iter().map(|l| l.quantity as f64 * products[l.product_index].price).sum();
    assert_eq!(total, 12.0);
    checkout(&mut carts, &mut products, &mut orders, &mut accounts, &mut active, &plan, "ORD1234", total, 88.0).unwrap();
    assert_eq!(products[0].stock, 2);
    assert_eq!(products[1].stock, 0);
    assert_eq!(accounts[0].balance, 88.0);
    assert_eq!(active.balance, 88.0);
    assert_eq!(orders.len(), 1);
    assert_eq!(orders[0].order_id, "ORD1234");
    assert_eq!(orders[0].user_id, "UCIS1000");
    assert_eq!(orders[0].grand_total, 12.0);
    assert_eq!(orders[0].status, OrderStatus::Paid);
    assert_eq!(orders[0].products.len(), 3);
    assert_eq!(carts.len(), 1);
    assert_eq!(carts[0].user_id, "OTHER");
    assert!(has_orders(&orders, "UCIS1000"));
    assert!(!has_orders(&orders, "OTHER"));
}

#[test]
fn checkout_without_account_changes_nothing() {
    let mut accounts: Vec<Account<f64>> = Vec::new();
    open_account(&mut accounts, "08143122946", "UCIS1000");
    let mut active = login(&accounts, "08143122946", "Secret1").unwrap();
    accounts.clear();
    let mut products = vec![product("P1", "Rice", 2.0, 5)];
    let mut carts = vec![cart_of("UCIS1000", &[("P1", 2)])];
    let mut orders: Vec<Order<f64>> = Vec::new();
    let plan = plan_checkout(&carts, &products, "UCIS1000").unwrap();
    let r = checkout(&mut carts, &mut products, &mut orders, &mut accounts, &mut active, &plan, "ORD1", 4.0, 0.0);
    assert!(matches!(r, Err(ShopError::AccountNotFound)));
    assert_eq!(products[0].stock, 5);
    assert_eq!(carts.len(), 1);
    assert!(orders.is_empty());
    assert_eq!(active.balance, 0.0);
}

fn order(id: &str) -> Order<f64> {
    Order::new(vec![CartProduct::new("P1".to_string(), 1)], 2.0, "U1", id)
}

#[test]
fn order_status_updates() {
    let mut orders = vec![order("O1"), order("O2")];
    assert!(matches!(update_order_status(&mut orders, 1, "9"), Err(ShopError::InvalidStatus)));
    assert!(matches!(update_order_status(&mut orders, 3, "2"), Err(ShopError::InvalidOrderSelection)));
    update_order_status(&mut orders, 2, "3\n").unwrap();
    assert_eq!(orders[1].status, OrderStatus::Delivered);
    assert_eq!(orders[0].status, OrderStatus::Paid);
    assert_eq!(order_status_name(orders[1].status), "Delivered");
}

#[test]
fn selecting_an_order() {
    let orders = vec![order("O1"), order("O2")];
    assert_eq!(view_my_single_order(&orders, " 2\n").unwrap(), 2);
    assert!(matches!(view_my_single_order(&orders, "3"), Err(ShopError::OrderNotFound)));
    assert!(matches!(view_my_single_order(&orders, "two"), Err(ShopError::InvalidOrderInput)));
}

#[test]
fn menu_numbering() {
    let menu = menu_contents();
    assert_eq!(menu.len(), 12);
    assert_eq!(menu[0].menu_item_name(), "Add Product");
    assert_eq!(menu[10].menu_item_name(), "Fund my Account");
    for (i, c) in menu.iter().enumerate() {
        assert_eq!(menu_command(&format!("{}\n", i + 1)), Some(*c));
    }
    assert_eq!(menu_command("13"), None);
    assert_eq!(menu_command("01"), None);
    assert_eq!(menu_command("12"), Some(Command::Exit));
}

#[test]
fn product_menu_permissions() {
    let admin = Some(logged_in_admin());
    let mut guest_acct = logged_in_admin();
    guest_acct.user.user_type = UserType::Guest;
    let guest = Some(guest_acct);
    assert_eq!(single_product_commands("1", &admin).unwrap(), ProductCommand::Restock);
    assert_eq!(single_product_commands("2", &admin).unwrap(), ProductCommand::Update);
    assert_eq!(single_product_commands("3", &guest).unwrap(), ProductCommand::AddToCart);
    assert_eq!(single_product_commands("4", &admin).unwrap(), ProductCommand::Delete);
    assert!(matches!(single_product_commands("1", &guest), Err(ShopError::NotAdminRestock)));
    assert!(matches!(single_product_commands("2", &guest), Err(ShopError::AdminOnly)));
    assert!(matches!(single_product_commands("4", &guest), Err(ShopError::AdminOnly)));
    assert!(matches!(single_product_commands("5", &admin), Err(ShopError::InvalidProductAction)));
    assert!(matches!(single_product_commands::<f64>("1", &None), Err(ShopError::NotLoggedIn)));
}

#[test]
fn listings_pair_rows_with_what_they_show() {
    let products = vec![product("P1", "Rice", 2.0, 5), product("P2", "Beans", 1.0, 1), product("P1", "Dup", 9.0, 1)];
    let lines = vec![
        CartProduct::new("P2".to_string(), 1),
        CartProduct::new("P9".to_string(), 1),
        CartProduct::new("P1".to_string(), 2),
    ];
    assert_eq!(cart_lines_listing(&lines, &products), vec![(0, 1), (2, 0)]);
    let mut accounts: Vec<Account<f64>> = Vec::new();
    open_account(&mut accounts, "08143122946", "UCIS1000");
    open_account(&mut accounts, "08011111111", "UCIS1001");
    let carts = vec![cart_of("UCIS1001", &[]), cart_of("NOBODY", &[]), cart_of("UCIS1000", &[])];
    assert_eq!(carts_listing(&carts, &accounts), vec![(0, 1), (2, 0)]);
    let orders = vec![order("O1"), Order::new(Vec::new(), 1.0, "UCIS1000", "O2")];
    assert_eq!(orders_listing(&orders, &accounts), vec![(1, 0)]);
}

#[test]
fn per_user_selections() {
    let carts = vec![cart_of("U1", &[]), cart_of("U2", &[]), cart_of("U1", &[])];
    assert_eq!(inventory::listing::user_cart_indices(&carts, "U1"), vec![0, 2]);
    assert_eq!(inventory::listing::user_cart_indices(&carts, "U9"), Vec::<usize>::new());
    let orders = vec![order("O1"), Order::new(Vec::new(), 1.0, "U2", "O2"), order("O3")];
    assert_eq!(inventory::listing::user_order_indices(&orders, "U1"), vec![0, 2]);
    let accounts: Vec<Account<f64>> = Vec::new();
    let empty: Vec<Order<f64>> = Vec::new();
    match inventory::listing::view_all_order(&empty, &accounts) {
        Err(e) => assert_eq!(e.message(), "There is no Available Order"),
        Ok(_) => panic!("orders listed from an empty store"),
    }
    assert_eq!(inventory::listing::view_all_order(&orders, &accounts).unwrap(), Vec::<(usize, usize)>::new());
}

#[test]
fn carts_stay_one_per_user_with_distinct_lines() {
    let user = logged_in_admin();
    let rice = product("P1", "Rice", 2.0, 9);
    let beans = product("P2", "Beans", 1.0, 9);
    let mut carts = vec![cart_of("OTHER", &[("P1", 1)])];
    for (p, q) in [(&rice, 1), (&beans, 2), (&rice, 3), (&beans, 20)] {
        let _ = add_item_to_cart(&mut carts, &user, p, q);
    }
    assert_eq!(carts.iter().filter(|c| c.user_id == user.user.id).count(), 1);
    let mine = &carts[1];
    assert_eq!(mine.products.len(), 2);
    assert_ne!(mine.products[0].product_id, mine.products[1].product_id);
    assert_eq!(mine.products[0].quantity, 4);
}

#[test]
fn new_accounts_store_default_argon2_hashes() {
    let mut db: Vec<Account<f64>> = Vec::new();
    open_account(&mut db, "08143122946", "UCIS1000");
    assert!(db[0].user.password_hash.starts_with("$argon2id$v=19$m=19456,t=2,p=1$"));
}
