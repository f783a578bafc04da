//! What the store's listings show: which cart lines, carts and orders can be
//! listed with their product or owner, and where that product or owner is.

use vstd::prelude::*;
use crate::accounts::find_account_by_user_id;
use crate::catalog::find_product;
use crate::model::{Account, Cart, CartProduct, Order, Product};
use crate::orders::{is_first_product, no_product};
use crate::error::ShopError;
use crate::validation::str_eq;

verus! {

/// `i` is the position of the first account of the user `uid`.
pub open spec fn is_first_account<M>(accounts: Seq<Account<M>>, uid: Seq<char>, i: int) -> bool {
    &&& 0 <= i < accounts.len()
    &&& accounts[i].user.id@ == uid
    &&& forall|j: int| 0 <= j < i ==> (#[trigger] accounts[j]).user.id@ != uid
}

/// No account belongs to the user `uid`.
pub open spec fn no_account<M>(accounts: Seq<Account<M>>, uid: Seq<char>) -> bool {
    forall|j: int| 0 <= j < accounts.len() ==> (#[trigger] accounts[j]).user.id@ != uid
}

/// The first components of `pairs` go up strictly and stay below `n`.
pub open spec fn ascending_below(pairs: Seq<(usize, usize)>, n: int) -> bool {
    &&& forall|a: int, b: int|
        0 <= a < b < pairs.len() ==> (#[trigger] pairs[a]).0 < (#[trigger] pairs[b]).0
    &&& forall|a: int| 0 <= a < pairs.len() ==> (#[trigger] pairs[a]).0 < n
}

/// Some pair of `pairs` starts with `k`.
pub open spec fn listed(pairs: Seq<(usize, usize)>, k: int) -> bool {
    exists|a: int| 0 <= a < pairs.len() && (#[trigger] pairs[a]).0 == k
}

/// Appending a pair for `k` to a list whose first components lie below `k`
/// lists `k` and keeps which of the smaller numbers are listed.
proof fn lemma_listed_push(prev: Seq<(usize, usize)>, k: usize, i: usize)
    requires
        ascending_below(prev, k as int),
    ensures
        ascending_below(prev.push((k, i)), k + 1),
        listed(prev.push((k, i)), k as int),
        forall|j: int| 0 <= j < k ==> (listed(prev.push((k, i)), j) <==> listed(prev, j)),
{
    let r = prev.push((k, i));
    assert(r[r.len() - 1].0 == k);
    assert forall|j: int| 0 <= j < k implies (listed(r, j) <==> listed(prev, j)) by {
        if listed(r, j) {
            let a = choose|a: int| 0 <= a < r.len() && (#[trigger] r[a]).0 == j;
            if a < prev.len() {
                assert(prev[a] == r[a]);
            }
        }
        if listed(prev, j) {
            let a = choose|a: int| 0 <= a < prev.len() && (#[trigger] prev[a]).0 == j;
            assert(r[a] == prev[a]);
        }
    }
    assert forall|a: int, b: int| 0 <= a < b < r.len() implies (#[trigger] r[a]).0 < (
    #[trigger] r[b]).0 by {
        if b < prev.len() {
            assert(r[a] == prev[a]);
            assert(r[b] == prev[b]);
        } else {
            assert(r[a] == prev[a]);
        }
    }
    assert forall|a: int| 0 <= a < r.len() implies (#[trigger] r[a]).0 < k + 1 by {
        if a < prev.len() {
            assert(r[a] == prev[a]);
        }
    }
}

/// The lines of a cart that can be shown, each with the position of its
/// product: in order, the lines whose product exists, paired with the first
/// product that has the line's product identifier.
pub fn cart_lines_listing<M>(lines: &Vec<CartProduct>, products: &Vec<Product<M>>) -> (r: Vec<
    (usize, usize),
>)
    ensures
        ascending_below(r@, lines@.len() as int),
        forall|a: int|
            0 <= a < r@.len() ==> is_first_product(
                products@,
                lines@[(#[trigger] r@[a]).0 as int].product_id@,
                r@[a].1 as int,
            ),
        forall|k: int|
            0 <= k < lines@.len() ==> (listed(r@, k) <==> !no_product(
                products@,
                (#[trigger] lines@[k]).product_id@,
            )),
        forall|a: int|
            0 <= a < r@.len() ==> (#[trigger] r@[a]).0 < lines@.len() && r@[a].1 < products@.len()
                && products@[r@[a].1 as int].id@ == lines@[r@[a].0 as int].product_id@,
        forall|k: int|
            0 <= k < lines@.len() ==> ((exists|a: int| 0 <= a < r@.len() && (#[trigger] r@[a]).0 == k)
                <==> exists|j: int| 0 <= j < products@.len() && (#[trigger] products@[j]).id@
                == (#[trigger] lines@[k]).product_id@),
{
    let mut r: Vec<(usize, usize)> = Vec::new();
    let mut k: usize = 0;
    while k < lines.len()
        invariant
            k <= lines@.len(),
            ascending_below(r@, k as int),
            forall|a: int|
                0 <= a < r@.len() ==> is_first_product(
                    products@,
                    lines@[(#[trigger] r@[a]).0 as int].product_id@,
                    r@[a].1 as int,
                ),
            forall|j: int|
                0 <= j < k ==> (listed(r@, j) <==> !no_product(
                    products@,
                    (#[trigger] lines@[j]).product_id@,
                )),
        decreases lines.len() - k,
    {
        let ghost prev = r@;
        match find_product(products, lines[k].product_id.as_str()) {
            Some(i) => {
                r.push((k, i));
                proof {
                    lemma_listed_push(prev, k, i);
                }
                assert(!no_product(products@, lines@[k as int].product_id@)) by {
                    assert(products@[i as int].id@ == lines@[k as int].product_id@);
                }
            },
            None => {
                assert(!listed(r@, k as int));
            },
        }
        k = k + 1;
    }
    r
}

/// The carts that can be shown with their owner: in order, the carts whose
/// user has an account, paired with the position of the first such account.
pub fn carts_listing<M>(carts: &Vec<Cart>, accounts: &Vec<Account<M>>) -> (r: Vec<(usize, usize)>)
    ensures
        ascending_below(r@, carts@.len() as int),
        forall|a: int|
            0 <= a < r@.len() ==> is_first_account(
                accounts@,
                carts@[(#[trigger] r@[a]).0 as int].user_id@,
                r@[a].1 as int,
            ),
        forall|k: int|
            0 <= k < carts@.len() ==> (listed(r@, k) <==> !no_account(
                accounts@,
                (#[trigger] carts@[k]).user_id@,
            )),
        forall|a: int|
            0 <= a < r@.len() ==> (#[trigger] r@[a]).0 < carts@.len() && r@[a].1 < accounts@.len()
                && accounts@[r@[a].1 as int].user.id@ == carts@[r@[a].0 as int].user_id@,
        forall|k: int|
            0 <= k < carts@.len() ==> ((exists|a: int| 0 <= a < r@.len() && (#[trigger] r@[a]).0 == k)
                <==> exists|j: int| 0 <= j < accounts@.len() && (#[trigger] accounts@[j]).user.id@
                == (#[trigger] carts@[k]).user_id@),
{
    let mut r: Vec<(usize, usize)> = Vec::new();
    let mut k: usize = 0;
    while k < carts.len()
        invariant
            k <= carts@.len(),
            ascending_below(r@, k as int),
            forall|a: int|
                0 <= a < r@.len() ==> is_first_account(
                    accounts@,
                    carts@[(#[trigger] r@[a]).0 as int].user_id@,
                    r@[a].1 as int,
                ),
            forall|j: int|
                0 <= j < k ==> (listed(r@, j) <==> !no_account(
                    accounts@,
                    (#[trigger] carts@[j]).user_id@,
                )),
        decreases carts.len() - k,
    {
        let ghost prev = r@;
        match find_account_by_user_id(accounts, carts[k].user_id.as_str()) {
            Some(i) => {
                r.push((k, i));
                proof {
                    lemma_listed_push(prev, k, i);
                }
                assert(!no_account(accounts@, carts@[k as int].user_id@)) by {
                    assert(accounts@[i as int].user.id@ == carts@[k as int].user_id@);
                }
            },
            None => {
                assert(!listed(r@, k as int));
            },
        }
        k = k + 1;
    }
    r
}

/// The orders that can be shown with their owner: in order, the orders whose
/// user has an account, paired with the position of the first such account.
pub fn orders_listing<M>(orders: &Vec<Order<M>>, accounts: &Vec<Account<M>>) -> (r: Vec<
    (usize, usize),
>)
    ensures
        ascending_below(r@, orders@.len() as int),
        forall|a: int|
            0 <= a < r@.len() ==> is_first_account(
                accounts@,
                orders@[(#[trigger] r@[a]).0 as int].user_id@,
                r@[a].1 as int,
            ),
        forall|k: int|
            0 <= k < orders@.len() ==> (listed(r@, k) <==> !no_account(
                accounts@,
                (#[trigger] orders@[k]).user_id@,
            )),
        forall|a: int|
            0 <= a < r@.len() ==> (#[trigger] r@[a]).0 < orders@.len() && r@[a].1 < accounts@.len()
                && accounts@[r@[a].1 as int].user.id@ == orders@[r@[a].0 as int].user_id@,
        forall|k: int|
            0 <= k < orders@.len() ==> ((exists|a: int| 0 <= a < r@.len() && (#[trigger] r@[a]).0 == k)
                <==> exists|j: int| 0 <= j < accounts@.len() && (#[trigger] accounts@[j]).user.id@
                == (#[trigger] orders@[k]).user_id@),
{
    let mut r: Vec<(usize, usize)> = Vec::new();
    let mut k: usize = 0;
    while k < orders.len()
        invariant
            k <= orders@.len(),
            ascending_below(r@, k as int),
            forall|a: int|
                0 <= a < r@.len() ==> is_first_account(
                    accounts@,
                    orders@[(#[trigger] r@[a]).0 as int].user_id@,
                    r@[a].1 as int,
                ),
            forall|j: int|
                0 <= j < k ==> (listed(r@, j) <==> !no_account(
                    accounts@,
                    (#[trigger] orders@[j]).user_id@,
                )),
        decreases orders.len() - k,
    {
        let ghost prev = r@;
        match find_account_by_user_id(accounts, orders[k].user_id.as_str()) {
            Some(i) => {
                r.push((k, i));
                proof {
                    lemma_listed_push(prev, k, i);
                }
                assert(!no_account(accounts@, orders@[k as int].user_id@)) by {
                    assert(accounts@[i as int].user.id@ == orders@[k as int].user_id@);
                }
            },
            None => {
                assert(!listed(r@, k as int));
            },
        }
        k = k + 1;
    }
    r
}

/// The positions, in order, of the carts of the user `user_id`.
pub fn user_cart_indices(carts: &Vec<Cart>, user_id: &str) -> (r: Vec<usize>)
    ensures
        forall|a: int, b: int| 0 <= a < b < r@.len() ==> r@[a] < r@[b],
        forall|a: int| 0 <= a < r@.len() ==> (#[trigger] r@[a]) < carts@.len(),
        forall|k: int|
            0 <= k < carts@.len() ==> (r@.contains(k as usize) <==> (#[trigger] carts@[k]).user_id@
                == user_id@),
{
    let mut r: Vec<usize> = Vec::new();
    let mut k: usize = 0;
    while k < carts.len()
        invariant
            k <= carts@.len(),
            forall|a: int, b: int| 0 <= a < b < r@.len() ==> r@[a] < r@[b],
            forall|a: int| 0 <= a < r@.len() ==> (#[trigger] r@[a]) < k,
            forall|j: int|
                0 <= j < k ==> (r@.contains(j as usize) <==> (#[trigger] carts@[j]).user_id@
                    == user_id@),
        decreases carts.len() - k,
    {
        if str_eq(carts[k].user_id.as_str(), user_id) {
            let ghost prev = r@;
            r.push(k);
            proof {
                lemma_contains_push(prev, k);
            }
        } else {
            assert(!r@.contains(k));
        }
        k = k + 1;
    }
    r
}

/// The positions, in order, of the orders of the user `user_id`.
pub fn user_order_indices<M>(orders: &Vec<Order<M>>, user_id: &str) -> (r: Vec<usize>)
    ensures
        forall|a: int, b: int| 0 <= a < b < r@.len() ==> r@[a] < r@[b],
        forall|a: int| 0 <= a < r@.len() ==> (#[trigger] r@[a]) < orders@.len(),
        forall|k: int|
            0 <= k < orders@.len() ==> (r@.contains(k as usize) <==> (#[trigger] orders@[k]).user_id@
                == user_id@),
{
    let mut r: Vec<usize> = Vec::new();
    let mut k: usize = 0;
    while k < orders.len()
        invariant
            k <= orders@.len(),
            forall|a: int, b: int| 0 <= a < b < r@.len() ==> r@[a] < r@[b],
            forall|a: int| 0 <= a < r@.len() ==> (#[trigger] r@[a]) < k,
            forall|j: int|
                0 <= j < k ==> (r@.contains(j as usize) <==> (#[trigger] orders@[j]).user_id@
                    == user_id@),
        decreases orders.len() - k,
    {
        if str_eq(orders[k].user_id.as_str(), user_id) {
            let ghost prev = r@;
            r.push(k);
            proof {
                lemma_contains_push(prev, k);
            }
        } else {
            assert(!r@.contains(k));
        }
        k = k + 1;
    }
    r
}

/// Appending `k` to an ascending list of positions below `k` keeps it
/// ascending, adds `k`, and keeps which smaller positions it holds.
proof fn lemma_contains_push(prev: Seq<usize>, k: usize)
    requires
        forall|a: int, b: int| 0 <= a < b < prev.len() ==> prev[a] < prev[b],
        forall|a: int| 0 <= a < prev.len() ==> (#[trigger] prev[a]) < k,
    ensures
        forall|a: int, b: int|
            0 <= a < b < prev.push(k).len() ==> prev.push(k)[a] < prev.push(k)[b],
        forall|a: int| 0 <= a < prev.push(k).len() ==> (#[trigger] prev.push(k)[a]) < k + 1,
        prev.push(k).contains(k),
        forall|j: usize| j < k ==> (prev.push(k).contains(j) <==> prev.contains(j)),
{
    let r = prev.push(k);
    assert(r[r.len() - 1] == k);
    assert forall|j: usize| j < k implies (r.contains(j) <==> prev.contains(j)) by {
        if r.contains(j) {
            let a = choose|a: int| 0 <= a < r.len() && r[a] == j;
            if a < prev.len() {
                assert(prev[a] == r[a]);
            }
        }
        if prev.contains(j) {
            let a = choose|a: int| 0 <= a < prev.len() && prev[a] == j;
            assert(r[a] == prev[a]);
        }
    }
}

/// The orders to show in the list of all orders, each with the position of
/// its owner's account; `NoOrders` when there is no order at all.
pub fn view_all_order<M>(orders: &Vec<Order<M>>, accounts: &Vec<Account<M>>) -> (r: Result<
    Vec<(usize, usize)>,
    ShopError,
>)
    ensures
        orders@.len() == 0 ==> r == Err::<Vec<(usize, usize)>, ShopError>(ShopError::NoOrders),
        orders@.len() > 0 ==> r is Ok,
        r matches Ok(v) ==> {
            &&& ascending_below(v@, orders@.len() as int)
            &&& forall|a: int|
                0 <= a < v@.len() ==> is_first_account(
                    accounts@,
                    orders@[(#[trigger] v@[a]).0 as int].user_id@,
                    v@[a].1 as int,
                )
            &&& forall|k: int|
                0 <= k < orders@.len() ==> (listed(v@, k) <==> !no_account(
                    accounts@,
                    (#[trigger] orders@[k]).user_id@,
                ))
        },
{
    if orders.len() == 0 {
        Err(ShopError::NoOrders)
    } else {
        Ok(orders_listing(orders, accounts))
    }
}

} // verus!
