//! Checking out a cart into an order, and working with placed orders.
//!
//! Checking out goes in two steps around the money arithmetic, which the
//! caller does: `plan_checkout` finds the cart and the product of each of its
//! lines and checks the stock; `checkout` then records the order, takes the
//! quantities from stock, charges the account and empties the cart.

use vstd::prelude::*;
use crate::cart::{find_cart, is_first_cart, lines_distinct, no_cart};
use crate::catalog::find_product;
use crate::error::ShopError;
use crate::model::{copy_cart_products, copy_product, Account, Cart, CartProduct, Order, Product};
use crate::text::{decimal, parse_usize, parse_usize_spec, trim, trimmed};
use crate::validation::{get_order_status, order_status_choice, str_eq, OrderStatus};
use crate::accounts::find_account_by_user_id;

verus! {

/// One line of a checkout: the position of the product in the catalogue and
/// the quantity taken.
#[derive(Debug, Clone, Copy, PartialEq, Eq, Structural)]
pub struct CheckoutLine {
    pub product_index: usize,
    pub quantity: i32,
}

/// What a checkout will do: which cart it empties and which products it takes from.
#[derive(Debug)]
pub struct CheckoutPlan {
    pub cart_index: usize,
    pub lines: Vec<CheckoutLine>,
}

/// `i` is the position of the first product with the identifier `pid`.
pub open spec fn is_first_product<M>(products: Seq<Product<M>>, pid: Seq<char>, i: int) -> bool {
    &&& 0 <= i < products.len()
    &&& products[i].id@ == pid
    &&& forall|j: int| 0 <= j < i ==> (#[trigger] products[j]).id@ != pid
}

/// No product has the identifier `pid`.
pub open spec fn no_product<M>(products: Seq<Product<M>>, pid: Seq<char>) -> bool {
    forall|j: int| 0 <= j < products.len() ==> (#[trigger] products[j]).id@ != pid
}

/// A cart line can be checked out: its product exists and its stock covers the quantity.
pub open spec fn line_ok<M>(products: Seq<Product<M>>, item: CartProduct) -> bool {
    exists|i: int|
        is_first_product(products, item.product_id@, i) && (#[trigger] products[i]).stock
            >= item.quantity
}

/// The refusal for a cart line that cannot be checked out.
pub open spec fn line_error<M>(products: Seq<Product<M>>, item: CartProduct, e: ShopError) -> bool {
    if no_product(products, item.product_id@) {
        e matches ShopError::CartProductNotFound(id) && id@ == item.product_id@
    } else {
        exists|i: int|
            is_first_product(products, item.product_id@, i) && (e matches ShopError::InsufficientStock {
                name,
                available,
                requested,
            } && name@ == (#[trigger] products[i]).name@ && available == products[i].stock
                && requested == item.quantity)
    }
}

/// The checkout lines of a plan follow the cart's lines one for one.
pub open spec fn plan_follows<M>(
    lines: Seq<CheckoutLine>,
    items: Seq<CartProduct>,
    products: Seq<Product<M>>,
) -> bool {
    &&& lines.len() == items.len()
    &&& forall|k: int|
        0 <= k < lines.len() ==> is_first_product(
            products,
            items[k].product_id@,
            (#[trigger] lines[k]).product_index as int,
        ) && lines[k].quantity == items[k].quantity
}

/// Plans the checkout of the cart of the user `user_id`: the user's first
/// cart must exist and hold lines, and each line's product must exist and
/// have the quantity in stock; the first line that fails is reported.
pub fn plan_checkout<M>(carts: &Vec<Cart>, products: &Vec<Product<M>>, user_id: &str) -> (r: Result<
    CheckoutPlan,
    ShopError,
>)
    ensures
        no_cart(carts@, user_id@) ==> r == Err::<CheckoutPlan, ShopError>(ShopError::CartNotFound),
        (forall|j: int| 0 <= j < carts@.len() ==> (#[trigger] carts@[j]).user_id@ != user_id@) ==> r
            == Err::<CheckoutPlan, ShopError>(ShopError::CartNotFound),
        r matches Ok(plan) ==> {
            &&& plan.cart_index < carts@.len()
            &&& carts@[plan.cart_index as int].user_id@ == user_id@
            &&& forall|j: int| 0 <= j < plan.cart_index ==> (#[trigger] carts@[j]).user_id@ != user_id@
            &&& plan.lines@.len() == carts@[plan.cart_index as int].products@.len()
            &&& plan.lines@.len() > 0
        },
        forall|ci: int|
            #[trigger] is_first_cart(carts@, user_id@, ci) ==> {
                let items = carts@[ci].products@;
                &&& items.len() == 0 ==> r == Err::<CheckoutPlan, ShopError>(ShopError::CartEmpty)
                &&& items.len() > 0 ==> (r is Ok <==> forall|k: int|
                    0 <= k < items.len() ==> line_ok(products@, #[trigger] items[k]))
                &&& r matches Ok(plan) ==> plan.cart_index == ci && plan_follows(
                    plan.lines@,
                    items,
                    products@,
                )
                &&& items.len() > 0 ==> (r matches Err(e) ==> exists|k: int|
                    0 <= k < items.len() && (forall|j: int|
                        0 <= j < k ==> line_ok(products@, #[trigger] items[j])) && !line_ok(
                        products@,
                        #[trigger] items[k],
                    ) && line_error(products@, items[k], e))
            },
{
    let ci = match find_cart(carts, user_id) {
        Some(ci) => ci,
        None => {
            return Err(ShopError::CartNotFound);
        },
    };
    let items = &carts[ci].products;
    if items.len() == 0 {
        return Err(ShopError::CartEmpty);
    }
    let mut lines: Vec<CheckoutLine> = Vec::new();
    let mut k: usize = 0;
    while k < items.len()
        invariant
            k <= items.len(),
            is_first_cart(carts@, user_id@, ci as int),
            items@ == carts@[ci as int].products@,
            forall|j: int| 0 <= j < k ==> line_ok(products@, #[trigger] items@[j]),
            plan_follows(lines@, items@.take(k as int), products@),
        decreases items.len() - k,
    {
        let item = &items[k];
        match find_product(products, item.product_id.as_str()) {
            None => {
                assert(!line_ok(products@, items@[k as int]));
                return Err(ShopError::CartProductNotFound(item.product_id.clone()));
            },
            Some(pi) => {
                if products[pi].stock < item.quantity {
                    assert(!line_ok(products@, items@[k as int])) by {
                        assert forall|i: int|
                            is_first_product(products@, item.product_id@, i) implies (
                            #[trigger] products@[i]).stock < item.quantity by {
                            assert(products@[pi as int].id@ == item.product_id@);
                            if i < pi {
                                assert(products@[i].id@ != item.product_id@);
                            } else if i > pi {
                                assert(products@[pi as int].id@ != item.product_id@);
                            } else {
                                assert(products@[i].stock < item.quantity);
                            }
                        }
                    }
                    assert(!no_product(products@, item.product_id@)) by {
                        assert(products@[pi as int].id@ == item.product_id@);
                    }
                    return Err(
                        ShopError::InsufficientStock {
                            name: products[pi].name.clone(),
                            available: products[pi].stock,
                            requested: item.quantity,
                        },
                    );
                }
                assert(line_ok(products@, items@[k as int])) by {
                    assert(is_first_product(products@, item.product_id@, pi as int));
                }
                let ghost prev = lines@;
                lines.push(CheckoutLine { product_index: pi, quantity: item.quantity });
                assert(plan_follows(lines@, items@.take(k + 1), products@)) by {
                    assert forall|j: int| 0 <= j < lines@.len() implies is_first_product(
                        products@,
                        items@.take(k + 1)[j].product_id@,
                        (#[trigger] lines@[j]).product_index as int,
                    ) && lines@[j].quantity == items@.take(k + 1)[j].quantity by {
                        if j < k {
                            assert(lines@[j] == prev[j]);
                            assert(items@.take(k + 1)[j] == items@.take(k as int)[j]);
                        }
                    }
                }
            },
        }
        k = k + 1;
    }
    assert(items@.take(k as int) =~= items@);
    Ok(CheckoutPlan { cart_index: ci, lines })
}

/// A plan that `plan_checkout` made can be carried out by `checkout`: the
/// cart it empties and every product it takes from exist.
pub proof fn lemma_plan_applies<M>(
    carts: Seq<Cart>,
    products: Seq<Product<M>>,
    user_id: Seq<char>,
    ci: int,
    lines: Seq<CheckoutLine>,
)
    requires
        is_first_cart(carts, user_id, ci),
        plan_follows(lines, carts[ci].products@, products),
    ensures
        0 <= ci < carts.len(),
        lines_in_range(products, lines),
{
    assert forall|k: int| 0 <= k < lines.len() implies (#[trigger] lines[k]).product_index
        < products.len() by {
        assert(is_first_product(products, carts[ci].products@[k].product_id@, lines[k].product_index as int));
    }
}

/// The catalogue after each checkout line has taken its quantity from its
/// product's stock, line by line.
pub open spec fn apply_lines<M>(products: Seq<Product<M>>, lines: Seq<CheckoutLine>) -> Seq<
    Product<M>,
>
    decreases lines.len(),
{
    if lines.len() == 0 {
        products
    } else {
        let q = apply_lines(products, lines.drop_last());
        let l = lines.last();
        let p = q[l.product_index as int];
        q.update(
            l.product_index as int,
            Product {
                id: p.id,
                name: p.name,
                price: p.price,
                stock: (p.stock - l.quantity) as i32,
                category: p.category,
            },
        )
    }
}

/// Taking the quantities line by line never leaves the range of `i32`.
pub open spec fn deductions_fit<M>(products: Seq<Product<M>>, lines: Seq<CheckoutLine>) -> bool {
    forall|k: int|
        0 <= k < lines.len() ==> {
            let q = apply_lines(products, lines.take(k));
            i32::MIN <= q[(#[trigger] lines[k]).product_index as int].stock - lines[k].quantity
                <= i32::MAX
        }
}

/// Every line names a product of the catalogue.
pub open spec fn lines_in_range<M>(products: Seq<Product<M>>, lines: Seq<CheckoutLine>) -> bool {
    forall|k: int| 0 <= k < lines.len() ==> (#[trigger] lines[k]).product_index < products.len()
}

proof fn lemma_apply_lines_len<M>(products: Seq<Product<M>>, lines: Seq<CheckoutLine>)
    requires
        lines_in_range(products, lines),
    ensures
        apply_lines(products, lines).len() == products.len(),
    decreases lines.len(),
{
    if lines.len() > 0 {
        assert(lines_in_range(products, lines.drop_last())) by {
            assert forall|k: int| 0 <= k < lines.drop_last().len() implies (
            #[trigger] lines.drop_last()[k]).product_index < products.len() by {
                assert(lines.drop_last()[k] == lines[k]);
            }
        }
        lemma_apply_lines_len(products, lines.drop_last());
    }
}

/// Takes each line's quantity from its product's stock, line by line.
fn take_stock<M: Copy>(products: &mut Vec<Product<M>>, lines: &Vec<CheckoutLine>)
    requires
        lines_in_range(old(products)@, lines@),
        deductions_fit(old(products)@, lines@),
    ensures
        final(products)@ == apply_lines(old(products)@, lines@),
{
    let ghost start = products@;
    let mut k: usize = 0;
    assert(lines@.take(0) =~= Seq::<CheckoutLine>::empty());
    while k < lines.len()
        invariant
            k <= lines@.len(),
            start == old(products)@,
            lines_in_range(start, lines@),
            deductions_fit(start, lines@),
            products@ == apply_lines(start, lines@.take(k as int)),
        decreases lines.len() - k,
    {
        let line = lines[k];
        proof {
            assert(lines_in_range(start, lines@.take(k as int))) by {
                assert forall|j: int| 0 <= j < lines@.take(k as int).len() implies (
                #[trigger] lines@.take(k as int)[j]).product_index < start.len() by {
                    assert(lines@.take(k as int)[j] == lines@[j]);
                }
            }
            lemma_apply_lines_len(start, lines@.take(k as int));
            assert(lines@.take(k + 1).drop_last() =~= lines@.take(k as int));
            assert(lines@.take(k + 1).last() == line);
        }
        let mut p = copy_product(&products[line.product_index]);
        p.stock = p.stock - line.quantity;
        products.set(line.product_index, p);
        k = k + 1;
    }
    assert(lines@.take(k as int) =~= lines@);
}

/// The order that checking out the cart `cart` gives.
pub open spec fn placed_order<M>(
    o: Order<M>,
    cart: Cart,
    user_id: Seq<char>,
    order_id: Seq<char>,
    grand_total: M,
) -> bool {
    &&& o.order_id@ == order_id
    &&& o.user_id@ == user_id
    &&& o.products@ == cart.products@
    &&& o.grand_total == grand_total
    &&& o.status == OrderStatus::Paid
}

/// Completes a planned checkout, with the order identifier, the order's total
/// and the account's balance after paying it. The account is the first in
/// `accounts` whose user is the active account's user; when there is none,
/// nothing changes. Otherwise both copies of the account get the new balance,
/// each line's quantity is taken from its product's stock, the order is
/// recorded, marked paid, and the cart is removed.
pub fn checkout<M: Copy>(
    carts: &mut Vec<Cart>,
    products: &mut Vec<Product<M>>,
    orders: &mut Vec<Order<M>>,
    accounts: &mut Vec<Account<M>>,
    active_account: &mut Account<M>,
    plan: &CheckoutPlan,
    order_id: &str,
    grand_total: M,
    new_balance: M,
) -> (r: Result<(), ShopError>)
    requires
        plan.cart_index < old(carts)@.len(),
        lines_in_range(old(products)@, plan.lines@),
        deductions_fit(old(products)@, plan.lines@),
    ensures
        (forall|j: int|
            0 <= j < old(accounts)@.len() ==> (#[trigger] old(accounts)@[j]).user.id@ != old(
                active_account,
            ).user.id@) ==> {
            &&& r == Err::<(), ShopError>(ShopError::AccountNotFound)
            &&& final(carts)@ == old(carts)@
            &&& final(products)@ == old(products)@
            &&& final(orders)@ == old(orders)@
            &&& final(accounts)@ == old(accounts)@
            &&& *final(active_account) == *old(active_account)
        },
        forall|ai: int|
            0 <= ai < old(accounts)@.len() && (#[trigger] old(accounts)@[ai]).user.id@ == old(
                active_account,
            ).user.id@ && (forall|j: int|
                0 <= j < ai ==> (#[trigger] old(accounts)@[j]).user.id@ != old(
                    active_account,
                ).user.id@) ==> {
                &&& r is Ok
                &&& final(active_account).user == old(active_account).user
                &&& final(active_account).account_number == old(active_account).account_number
                &&& final(active_account).balance == new_balance
                &&& final(accounts)@ == old(accounts)@.update(
                    ai,
                    Account {
                        user: old(accounts)@[ai].user,
                        account_number: old(accounts)@[ai].account_number,
                        balance: new_balance,
                    },
                )
                &&& final(products)@ == apply_lines(old(products)@, plan.lines@)
                &&& final(orders)@.len() == old(orders)@.len() + 1
                &&& final(orders)@.drop_last() == old(orders)@
                &&& placed_order(
                    final(orders)@.last(),
                    old(carts)@[plan.cart_index as int],
                    old(active_account).user.id@,
                    order_id@,
                    grand_total,
                )
                &&& final(carts)@ == old(carts)@.remove(plan.cart_index as int)
            },
        r is Ok && (forall|i: int|
            0 <= i < old(products)@.len() ==> (#[trigger] old(products)@[i]).stock >= 0)
            && lines_distinct(old(carts)@[plan.cart_index as int].products@) && plan_follows(
            plan.lines@,
            old(carts)@[plan.cart_index as int].products@,
            old(products)@,
        ) && (forall|k: int|
            0 <= k < old(carts)@[plan.cart_index as int].products@.len() ==> line_ok(
                old(products)@,
                #[trigger] old(carts)@[plan.cart_index as int].products@[k],
            )) ==> forall|j: int|
            0 <= j < final(products)@.len() ==> (#[trigger] final(products)@[j]).stock >= 0,
        r is Ok ==> {
            let o = final(orders)@.last();
            &&& final(orders)@.len() == old(orders)@.len() + 1
            &&& final(orders)@.drop_last() == old(orders)@
            &&& o.status == OrderStatus::Paid
            &&& o.user_id@ == old(active_account).user.id@
            &&& o.order_id@ == order_id@
            &&& o.products@ == old(carts)@[plan.cart_index as int].products@
            &&& o.grand_total == grand_total
            &&& final(carts)@ == old(carts)@.remove(plan.cart_index as int)
            &&& final(active_account).balance == new_balance
            &&& final(products)@.len() == old(products)@.len()
        },
        r is Err ==> final(carts)@ == old(carts)@ && final(products)@ == old(products)@
            && final(orders)@ == old(orders)@,
{
    let ghost start_products = products@;
    let ghost start_items = carts@[plan.cart_index as int].products@;
    let ai = match find_account_by_user_id(accounts, active_account.user.id.as_str()) {
        Some(ai) => ai,
        None => {
            return Err(ShopError::AccountNotFound);
        },
    };
    let cart_products = copy_cart_products(&carts[plan.cart_index].products);
    let new_order = Order::new(
        cart_products,
        grand_total,
        active_account.user.id.as_str(),
        order_id,
    );
    active_account.balance = new_balance;
    let mut acct = crate::model::copy_account(&accounts[ai]);
    acct.balance = new_balance;
    accounts.set(ai, acct);
    take_stock(products, &plan.lines);
    proof {
        lemma_apply_lines_len(start_products, plan.lines@);
        if (forall|i: int| 0 <= i < start_products.len() ==> (#[trigger] start_products[i]).stock >= 0)
            && lines_distinct(start_items) && plan_follows(plan.lines@, start_items, start_products)
            && (forall|k: int| 0 <= k < start_items.len() ==> line_ok(start_products, #[trigger] start_items[k])) {
            lemma_checkout_keeps_stock_nonnegative(start_products, start_items, plan.lines@);
        }
    }
    let ghost before_orders = orders@;
    orders.push(new_order);
    assert(orders@.drop_last() =~= before_orders);
    carts.remove(plan.cart_index);
    Ok(())
}

/// The stock that the checkout lines take from the product at position `j`.
pub open spec fn quantity_taken(lines: Seq<CheckoutLine>, j: int) -> int
    decreases lines.len(),
{
    if lines.len() == 0 {
        0
    } else {
        quantity_taken(lines.drop_last(), j) + if lines.last().product_index == j {
            lines.last().quantity as int
        } else {
            0
        }
    }
}

/// Checking out takes from each product's stock exactly the quantities that
/// the checkout lines ask of it, and changes nothing else about the catalogue.
pub proof fn lemma_checkout_stock<M>(products: Seq<Product<M>>, lines: Seq<CheckoutLine>, j: int)
    requires
        lines_in_range(products, lines),
        deductions_fit(products, lines),
        0 <= j < products.len(),
    ensures
        apply_lines(products, lines).len() == products.len(),
        apply_lines(products, lines)[j].stock == products[j].stock - quantity_taken(lines, j),
        apply_lines(products, lines)[j].id == products[j].id,
        apply_lines(products, lines)[j].name == products[j].name,
        apply_lines(products, lines)[j].price == products[j].price,
        apply_lines(products, lines)[j].category == products[j].category,
    decreases lines.len(),
{
    lemma_apply_lines_len(products, lines);
    if lines.len() > 0 {
        let init = lines.drop_last();
        assert(lines_in_range(products, init)) by {
            assert forall|k: int| 0 <= k < init.len() implies (#[trigger] init[k]).product_index
                < products.len() by {
                assert(init[k] == lines[k]);
            }
        }
        assert(deductions_fit(products, init)) by {
            assert forall|k: int| 0 <= k < init.len() implies {
                let q = apply_lines(products, init.take(k));
                i32::MIN <= q[(#[trigger] init[k]).product_index as int].stock - init[k].quantity
                    <= i32::MAX
            } by {
                assert(init.take(k) =~= lines.take(k));
                assert(init[k] == lines[k]);
            }
        }
        lemma_checkout_stock(products, init, j);
        let last = lines.len() - 1;
        assert(lines.take(last) =~= init);
        let l = lines[last];
        assert(i32::MIN <= apply_lines(products, init)[l.product_index as int].stock - l.quantity
            <= i32::MAX);
        lemma_checkout_stock(products, init, l.product_index as int);
    }
}

proof fn lemma_quantity_taken_none(lines: Seq<CheckoutLine>, j: int)
    requires
        forall|k: int| 0 <= k < lines.len() ==> (#[trigger] lines[k]).product_index != j,
    ensures
        quantity_taken(lines, j) == 0,
    decreases lines.len(),
{
    if lines.len() > 0 {
        let init = lines.drop_last();
        assert forall|k: int| 0 <= k < init.len() implies (#[trigger] init[k]).product_index != j by {
            assert(init[k] == lines[k]);
        }
        lemma_quantity_taken_none(init, j);
        assert(lines.last() == lines[lines.len() - 1]);
    }
}

proof fn lemma_quantity_taken_single(lines: Seq<CheckoutLine>, j: int, k0: int)
    requires
        0 <= k0 < lines.len(),
        lines[k0].product_index == j,
        forall|k: int| 0 <= k < lines.len() && k != k0 ==> (#[trigger] lines[k]).product_index != j,
    ensures
        quantity_taken(lines, j) == lines[k0].quantity,
    decreases lines.len(),
{
    let init = lines.drop_last();
    let last = lines.len() - 1;
    assert(lines.last() == lines[last]);
    if k0 == last {
        assert forall|k: int| 0 <= k < init.len() implies (#[trigger] init[k]).product_index != j by {
            assert(init[k] == lines[k]);
        }
        lemma_quantity_taken_none(init, j);
    } else {
        assert(init[k0] == lines[k0]);
        assert forall|k: int| 0 <= k < init.len() && k != k0 implies (
        #[trigger] init[k]).product_index != j by {
            assert(init[k] == lines[k]);
        }
        lemma_quantity_taken_single(init, j, k0);
    }
}

/// Checking out a cart that names no product twice, with a plan that
/// `plan_checkout` made for it, leaves no product with a negative stock when
/// none had one before: nothing is sold beyond the stock.
pub proof fn lemma_checkout_keeps_stock_nonnegative<M>(
    products: Seq<Product<M>>,
    items: Seq<CartProduct>,
    lines: Seq<CheckoutLine>,
)
    requires
        forall|i: int| 0 <= i < products.len() ==> (#[trigger] products[i]).stock >= 0,
        lines_distinct(items),
        plan_follows(lines, items, products),
        forall|k: int| 0 <= k < items.len() ==> line_ok(products, #[trigger] items[k]),
        deductions_fit(products, lines),
    ensures
        apply_lines(products, lines).len() == products.len(),
        forall|j: int|
            0 <= j < products.len() ==> (#[trigger] apply_lines(products, lines)[j]).stock >= 0,
{
    assert(lines_in_range(products, lines)) by {
        assert forall|k: int| 0 <= k < lines.len() implies (#[trigger] lines[k]).product_index
            < products.len() by {
            assert(is_first_product(products, items[k].product_id@, lines[k].product_index as int));
        }
    }
    lemma_apply_lines_len(products, lines);
    assert forall|j: int| 0 <= j < products.len() implies (#[trigger] apply_lines(
        products,
        lines,
    )[j]).stock >= 0 by {
        lemma_checkout_stock(products, lines, j);
        if exists|k: int| 0 <= k < lines.len() && (#[trigger] lines[k]).product_index == j {
            let k0 = choose|k: int| 0 <= k < lines.len() && (#[trigger] lines[k]).product_index == j;
            assert(is_first_product(products, items[k0].product_id@, j));
            assert forall|k: int| 0 <= k < lines.len() && k != k0 implies (
            #[trigger] lines[k]).product_index != j by {
                assert(is_first_product(products, items[k].product_id@, lines[k].product_index as int));
                if lines[k].product_index == j {
                    assert(items[k].product_id@ == products[j].id@);
                    assert(items[k].product_id@ != items[k0].product_id@);
                }
            }
            lemma_quantity_taken_single(lines, j, k0);
            assert(line_ok(products, items[k0]));
            let i = choose|i: int|
                is_first_product(products, items[k0].product_id@, i) && (#[trigger] products[i]).stock
                    >= items[k0].quantity;
            if i < j {
                assert(products[i].id@ != items[k0].product_id@);
            } else if i > j {
                assert(products[j].id@ != items[k0].product_id@);
            }
        } else {
            lemma_quantity_taken_none(lines, j);
        }
    }
}

/// Whether some order belongs to the user `user_id`.
pub fn has_orders(orders: &Vec<Order<impl Sized>>, user_id: &str) -> (r: bool)
    ensures
        r == exists|j: int| 0 <= j < orders@.len() && (#[trigger] orders@[j]).user_id@ == user_id@,
{
    let mut i: usize = 0;
    while i < orders.len()
        invariant
            i <= orders.len(),
            forall|j: int| 0 <= j < i ==> (#[trigger] orders@[j]).user_id@ != user_id@,
        decreases orders.len() - i,
    {
        if str_eq(orders[i].user_id.as_str(), user_id) {
            return true;
        }
        i = i + 1;
    }
    false
}

/// Sets the status of the `index`-th order (counting from 1) to the status
/// that the menu answer `input` selects.
pub fn update_order_status<M: Copy>(orders: &mut Vec<Order<M>>, index: usize, input: &str) -> (r:
    Result<(), ShopError>)
    requires
        order_status_choice(input@) is Some ==> index >= 1,
    ensures
        order_status_choice(input@) is None ==> r == Err::<(), ShopError>(ShopError::InvalidStatus)
            && final(orders)@ == old(orders)@,
        order_status_choice(input@) is Some && index > old(orders)@.len() ==> r == Err::<(), ShopError>(
            ShopError::InvalidOrderSelection) && final(orders)@ == old(orders)@,
        order_status_choice(input@) matches Some(s) ==> index <= old(orders)@.len() ==> {
            let o = old(orders)@[index - 1];
            &&& r is Ok
            &&& final(orders)@.len() == old(orders)@.len()
            &&& forall|j: int|
                0 <= j < old(orders)@.len() && j != index - 1 ==> final(orders)@[j] == old(
                    orders,
                )@[j]
            &&& final(orders)@[index - 1].order_id == o.order_id
            &&& final(orders)@[index - 1].user_id == o.user_id
            &&& final(orders)@[index - 1].products == o.products
            &&& final(orders)@[index - 1].grand_total == o.grand_total
            &&& final(orders)@[index - 1].status == s
        },
        1 <= index <= old(orders)@.len() ==> {
            let t = trimmed(input@);
            let st = final(orders)@[index - 1].status;
            &&& t == seq!['1'] ==> r is Ok && st == OrderStatus::Processing
            &&& t == seq!['2'] ==> r is Ok && st == OrderStatus::Shipped
            &&& t == seq!['3'] ==> r is Ok && st == OrderStatus::Delivered
            &&& t == seq!['4'] ==> r is Ok && st == OrderStatus::Cancelled
        },
        r is Err ==> final(orders)@ == old(orders)@,
{
    let new_status = match get_order_status(input) {
        Some(s) => s,
        None => {
            return Err(ShopError::InvalidStatus);
        },
    };
    if index - 1 >= orders.len() {
        return Err(ShopError::InvalidOrderSelection);
    }
    let ghost before = orders@;
    let mut o = orders.remove(index - 1);
    assert(o == before[index - 1]);
    o.status = new_status;
    orders.insert(index - 1, o);
    assert forall|j: int| 0 <= j < before.len() && j != index - 1 implies orders@[j] == before[j] by {
        if j < index - 1 {
        } else {
        }
    }
    Ok(())
}

/// The number of the order that the answer `input` selects (counting from 1),
/// when it is a number and such an order exists.
pub fn view_my_single_order<M>(orders: &Vec<Order<M>>, input: &str) -> (r: Result<
    usize,
    ShopError,
>)
    requires
        parse_usize_spec(trimmed(input@)) != Some(0usize),
    ensures
        parse_usize_spec(trimmed(input@)) is None ==> r == Err::<usize, ShopError>(
            ShopError::InvalidOrderInput),
        parse_usize_spec(trimmed(input@)) matches Some(n) ==> (n <= orders@.len() ==> r
            == Ok::<usize, ShopError>(n)) && (n > orders@.len() ==> r == Err::<usize, ShopError>(
            ShopError::OrderNotFound)),
        forall|n: usize|
            trimmed(input@) == #[trigger] decimal(n as nat) && 1 <= n ==> (n <= orders@.len() ==> r
                == Ok::<usize, ShopError>(n)) && (n > orders@.len() ==> r == Err::<usize, ShopError>(
                ShopError::OrderNotFound)),
        r matches Ok(n) ==> 1 <= n <= orders@.len(),
{
    let index = match parse_usize(trim(input)) {
        Some(n) => n,
        None => {
            return Err(ShopError::InvalidOrderInput);
        },
    };
    if index - 1 < orders.len() {
        Ok(index)
    } else {
        Err(ShopError::OrderNotFound)
    }
}

} // verus!

