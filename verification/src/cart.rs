//! Carts: each user's cart is the first cart in the store with that user's
//! identifier; its lines name products by identifier.

use vstd::prelude::*;
use crate::error::ShopError;
use crate::model::{Account, Cart, CartProduct, Product};
use crate::validation::str_eq;

verus! {

/// `i` is the position of the first cart of the user `uid`.
pub open spec fn is_first_cart(carts: Seq<Cart>, uid: Seq<char>, i: int) -> bool {
    &&& 0 <= i < carts.len()
    &&& carts[i].user_id@ == uid
    &&& forall|j: int| 0 <= j < i ==> (#[trigger] carts[j]).user_id@ != uid
}

/// The user `uid` has no cart.
pub open spec fn no_cart(carts: Seq<Cart>, uid: Seq<char>) -> bool {
    forall|j: int| 0 <= j < carts.len() ==> (#[trigger] carts[j]).user_id@ != uid
}

/// `i` is the position of the first line for the product `pid`.
pub open spec fn is_first_line(lines: Seq<CartProduct>, pid: Seq<char>, i: int) -> bool {
    &&& 0 <= i < lines.len()
    &&& lines[i].product_id@ == pid
    &&& forall|j: int| 0 <= j < i ==> (#[trigger] lines[j]).product_id@ != pid
}

/// No line is for the product `pid`.
pub open spec fn no_line(lines: Seq<CartProduct>, pid: Seq<char>) -> bool {
    forall|j: int| 0 <= j < lines.len() ==> (#[trigger] lines[j]).product_id@ != pid
}

/// No two lines of a cart are for the same product.
pub open spec fn lines_distinct(lines: Seq<CartProduct>) -> bool {
    forall|a: int, b: int|
        0 <= a < lines.len() && 0 <= b < lines.len() && a != b ==> (#[trigger] lines[a]).product_id@
            != (#[trigger] lines[b]).product_id@
}

/// Each user has at most one cart, and each cart at most one line per product.
pub open spec fn carts_well_formed(carts: Seq<Cart>) -> bool {
    &&& forall|a: int, b: int|
        0 <= a < carts.len() && 0 <= b < carts.len() && a != b ==> (#[trigger] carts[a]).user_id@
            != (#[trigger] carts[b]).user_id@
    &&& forall|a: int| 0 <= a < carts.len() ==> lines_distinct((#[trigger] carts[a]).products@)
}

/// Removing a line keeps a cart's lines distinct.
proof fn lemma_lines_remove(lines: Seq<CartProduct>, k: int)
    requires
        lines_distinct(lines),
        0 <= k < lines.len(),
    ensures
        lines_distinct(lines.remove(k)),
{
    let n = lines.remove(k);
    assert forall|a: int, b: int|
        0 <= a < n.len() && 0 <= b < n.len() && a != b implies (#[trigger] n[a]).product_id@ != (
        #[trigger] n[b]).product_id@ by {
        let oa = if a < k { a } else { a + 1 };
        let ob = if b < k { b } else { b + 1 };
        assert(n[a] == lines[oa]);
        assert(n[b] == lines[ob]);
    }
}

/// Changing a line's quantity, or appending a line for a product that the
/// cart does not hold, keeps a cart's lines distinct.
proof fn lemma_lines_grow(old_lines: Seq<CartProduct>, new_lines: Seq<CartProduct>)
    requires
        lines_distinct(old_lines),
        new_lines.len() == old_lines.len() || new_lines.len() == old_lines.len() + 1,
        forall|a: int| 0 <= a < old_lines.len() ==> (#[trigger] new_lines[a]).product_id@
            == old_lines[a].product_id@,
        new_lines.len() == old_lines.len() + 1 ==> no_line(old_lines, new_lines.last().product_id@),
    ensures
        lines_distinct(new_lines),
{
    assert forall|a: int, b: int|
        0 <= a < new_lines.len() && 0 <= b < new_lines.len() && a != b implies (
        #[trigger] new_lines[a]).product_id@ != (#[trigger] new_lines[b]).product_id@ by {
        if a < old_lines.len() && b < old_lines.len() {
            assert(new_lines[a].product_id@ == old_lines[a].product_id@);
            assert(new_lines[b].product_id@ == old_lines[b].product_id@);
        } else if a < old_lines.len() {
            assert(new_lines[a].product_id@ == old_lines[a].product_id@);
        } else {
            assert(new_lines[b].product_id@ == old_lines[b].product_id@);
        }
    }
}

/// Replacing one cart by a cart of the same user with distinct lines keeps
/// the carts well formed.
proof fn lemma_wf_replace(before: Seq<Cart>, after: Seq<Cart>, ci: int)
    requires
        carts_well_formed(before),
        0 <= ci < before.len(),
        after.len() == before.len(),
        forall|j: int| 0 <= j < before.len() && j != ci ==> after[j] == before[j],
        after[ci].user_id@ == before[ci].user_id@,
        lines_distinct(after[ci].products@),
    ensures
        carts_well_formed(after),
{
    assert forall|a: int, b: int|
        0 <= a < after.len() && 0 <= b < after.len() && a != b implies (
        #[trigger] after[a]).user_id@ != (#[trigger] after[b]).user_id@ by {
        assert(after[a].user_id@ == before[a].user_id@);
        assert(after[b].user_id@ == before[b].user_id@);
    }
    assert forall|a: int| 0 <= a < after.len() implies lines_distinct(
        (#[trigger] after[a]).products@,
    ) by {
        if a != ci {
            assert(after[a] == before[a]);
        }
    }
}

/// Adding a cart for a user who has none, with distinct lines, keeps the
/// carts well formed.
proof fn lemma_wf_push(before: Seq<Cart>, after: Seq<Cart>)
    requires
        carts_well_formed(before),
        after.len() == before.len() + 1,
        after.drop_last() == before,
        no_cart(before, after.last().user_id@),
        lines_distinct(after.last().products@),
    ensures
        carts_well_formed(after),
{
    let last = before.len() as int;
    assert forall|a: int| 0 <= a < last implies after[a] == before[a] by {
        assert(after.drop_last()[a] == after[a]);
    }
    assert forall|a: int, b: int|
        0 <= a < after.len() && 0 <= b < after.len() && a != b implies (
        #[trigger] after[a]).user_id@ != (#[trigger] after[b]).user_id@ by {
        if a < last && b < last {
            assert(after[a] == before[a]);
            assert(after[b] == before[b]);
        } else if a < last {
            assert(after[a] == before[a]);
        } else {
            assert(after[b] == before[b]);
        }
    }
    assert forall|a: int| 0 <= a < after.len() implies lines_distinct(
        (#[trigger] after[a]).products@,
    ) by {
        if a < last {
            assert(after[a] == before[a]);
        }
    }
}

/// Removing a cart keeps the carts well formed.
proof fn lemma_wf_remove(before: Seq<Cart>, ci: int)
    requires
        carts_well_formed(before),
        0 <= ci < before.len(),
    ensures
        carts_well_formed(before.remove(ci)),
{
    let after = before.remove(ci);
    assert forall|a: int, b: int|
        0 <= a < after.len() && 0 <= b < after.len() && a != b implies (
        #[trigger] after[a]).user_id@ != (#[trigger] after[b]).user_id@ by {
        let oa = if a < ci { a } else { a + 1 };
        let ob = if b < ci { b } else { b + 1 };
        assert(after[a] == before[oa]);
        assert(after[b] == before[ob]);
    }
    assert forall|a: int| 0 <= a < after.len() implies lines_distinct(
        (#[trigger] after[a]).products@,
    ) by {
        let oa = if a < ci { a } else { a + 1 };
        assert(after[a] == before[oa]);
    }
}

/// The position of the first cart of the user `user_id`.
pub fn find_cart(carts: &Vec<Cart>, user_id: &str) -> (r: Option<usize>)
    ensures
        match r {
            Some(i) => is_first_cart(carts@, user_id@, i as int),
            None => no_cart(carts@, user_id@),
        },
        r matches Some(i) ==> i < carts@.len() && carts@[i as int].user_id@ == user_id@ && forall|j: int|
            0 <= j < i ==> (#[trigger] carts@[j]).user_id@ != user_id@,
        r is None <==> forall|j: int| 0 <= j < carts@.len() ==> (#[trigger] carts@[j]).user_id@ != user_id@,
{
    let mut i: usize = 0;
    while i < carts.len()
        invariant
            i <= carts.len(),
            forall|j: int| 0 <= j < i ==> (#[trigger] carts@[j]).user_id@ != user_id@,
        decreases carts.len() - i,
    {
        if str_eq(carts[i].user_id.as_str(), user_id) {
            return Some(i);
        }
        i = i + 1;
    }
    None
}

fn find_line(lines: &Vec<CartProduct>, product_id: &str) -> (r: Option<usize>)
    ensures
        match r {
            Some(i) => is_first_line(lines@, product_id@, i as int),
            None => no_line(lines@, product_id@),
        },
{
    let mut i: usize = 0;
    while i < lines.len()
        invariant
            i <= lines.len(),
            forall|j: int| 0 <= j < i ==> (#[trigger] lines@[j]).product_id@ != product_id@,
        decreases lines.len() - i,
    {
        if str_eq(lines[i].product_id.as_str(), product_id) {
            return Some(i);
        }
        i = i + 1;
    }
    None
}

/// `c` is a new, active cart of the user `uid` holding one line: `quantity`
/// of the product `pid`.
pub open spec fn new_cart_with(c: Cart, uid: Seq<char>, pid: Seq<char>, quantity: i32) -> bool {
    &&& c.user_id@ == uid
    &&& c.active
    &&& c.products@.len() == 1
    &&& c.products@[0].product_id@ == pid
    &&& c.products@[0].quantity == quantity
}

/// Opens a new cart for the account's user holding `quantity` of `product`,
/// when the product's stock covers the quantity.
pub fn add_to_cart<M>(carts: &mut Vec<Cart>, user: &Account<M>, quantity: i32, product: &Product<
    M,
>) -> (r: Result<(), ShopError>)
    ensures
        product.stock >= quantity ==> {
            &&& r is Ok
            &&& final(carts)@.len() == old(carts)@.len() + 1
            &&& final(carts)@.drop_last() == old(carts)@
            &&& new_cart_with(final(carts)@.last(), user.user.id@, product.id@, quantity)
        },
        product.stock < quantity ==> r == Err::<(), ShopError>(ShopError::OutOfStock) && final(carts)@ == old(carts)@,
        no_cart(old(carts)@, user.user.id@) && carts_well_formed(old(carts)@) ==> carts_well_formed(
            final(carts)@,
        ),
        r is Ok ==> {
            let c = final(carts)@.last();
            &&& quantity <= product.stock
            &&& final(carts)@.len() == old(carts)@.len() + 1
            &&& final(carts)@.drop_last() == old(carts)@
            &&& c.user_id@ == user.user.id@ && c.active
            &&& c.products@.len() == 1
            &&& c.products@[0].product_id@ == product.id@ && c.products@[0].quantity == quantity
        },
        r is Err ==> final(carts)@ == old(carts)@,
{
    let mut cart_product: Vec<CartProduct> = Vec::new();
    let new_product = CartProduct::new(product.id.clone(), quantity);
    cart_product.push(new_product);
    if product.stock >= quantity {
        let cart = Cart::new(user, cart_product);
        let ghost before = carts@;
        carts.push(cart);
        assert(carts@.drop_last() =~= before);
        proof {
            if no_cart(before, user.user.id@) && carts_well_formed(before) {
                assert(lines_distinct(carts@.last().products@));
                lemma_wf_push(before, carts@);
            }
        }
        Ok(())
    } else {
        Err(ShopError::OutOfStock)
    }
}

/// Puts `quantity` of `product` in the cart of the account's user. When the
/// user has a cart, the quantity must not exceed the product's stock; it is
/// added to the cart's first line for the product, or to a new line at the
/// end. When the user has no cart, `add_to_cart` opens one.
pub fn add_item_to_cart<M>(
    carts: &mut Vec<Cart>,
    user: &Account<M>,
    product: &Product<M>,
    quantity: i32,
) -> (r: Result<(), ShopError>)
    requires
        forall|ci: int, li: int|
            is_first_cart(old(carts)@, user.user.id@, ci) && is_first_line(
                old(carts)@[ci].products@,
                product.id@,
                li,
            ) && quantity <= product.stock ==> i32::MIN <= old(carts)@[ci].products@[li].quantity
                + quantity <= i32::MAX,
    ensures
        no_cart(old(carts)@, user.user.id@) && product.stock >= quantity ==> {
            &&& r is Ok
            &&& final(carts)@.len() == old(carts)@.len() + 1
            &&& final(carts)@.drop_last() == old(carts)@
            &&& new_cart_with(final(carts)@.last(), user.user.id@, product.id@, quantity)
        },
        no_cart(old(carts)@, user.user.id@) && product.stock < quantity ==> r == Err::<
            (),
            ShopError,
        >(ShopError::OutOfStock) && final(carts)@ == old(carts)@,
        forall|ci: int|
            is_first_cart(old(carts)@, user.user.id@, ci) && quantity > product.stock ==> r
                == Err::<(), ShopError>(ShopError::QuantityAboveStock) && final(carts)@ == old(carts)@,
        forall|ci: int|
            is_first_cart(old(carts)@, user.user.id@, ci) && quantity <= product.stock ==> {
                &&& r is Ok
                &&& final(carts)@.len() == old(carts)@.len()
                &&& forall|j: int|
                    0 <= j < old(carts)@.len() && j != ci ==> final(carts)@[j] == old(carts)@[j]
                &&& final(carts)@[ci].user_id == old(carts)@[ci].user_id
                &&& final(carts)@[ci].active == old(carts)@[ci].active
                &&& forall|li: int|
                    is_first_line(old(carts)@[ci].products@, product.id@, li) ==> final(carts)@[ci].products@ == old(carts)@[ci].products@.update(
                        li,
                        CartProduct {
                            product_id: old(carts)@[ci].products@[li].product_id,
                            quantity: (old(carts)@[ci].products@[li].quantity + quantity) as i32,
                        },
                    )
                &&& no_line(old(carts)@[ci].products@, product.id@) ==> final(carts)@[ci].products@ == old(carts)@[ci].products@.push(
                    CartProduct { product_id: product.id, quantity },
                )
            },
        carts_well_formed(old(carts)@) ==> carts_well_formed(final(carts)@),
        (forall|j: int| 0 <= j < old(carts)@.len() ==> (#[trigger] old(carts)@[j]).user_id@ != user.user.id@)
            && product.stock >= quantity ==> {
            &&& r is Ok
            &&& final(carts)@.drop_last() == old(carts)@
            &&& final(carts)@.len() == old(carts)@.len() + 1
            &&& final(carts)@.last().user_id@ == user.user.id@
        },
        (exists|j: int| 0 <= j < old(carts)@.len() && (#[trigger] old(carts)@[j]).user_id@ == user.user.id@)
            ==> (r is Ok <==> quantity <= product.stock) && (r is Ok ==> final(carts)@.len() == old(carts)@.len() && exists|ci: int|
            0 <= ci < old(carts)@.len() && (#[trigger] old(carts)@[ci]).user_id@ == user.user.id@
                && final(carts)@[ci].user_id == old(carts)@[ci].user_id
                && forall|j: int| 0 <= j < old(carts)@.len() && j != ci ==> final(carts)@[j] == old(carts)@[j]),
{
    match find_cart(carts, user.user.id.as_str()) {
        None => add_to_cart(carts, user, quantity, product),
        Some(ci) => {
            if quantity > product.stock {
                return Err(ShopError::QuantityAboveStock);
            }
            let ghost before = carts@;
            let mut cart = carts.remove(ci);
            assert(cart == before[ci as int]);
            match find_line(&cart.products, product.id.as_str()) {
                Some(li) => {
                    let line = CartProduct {
                        product_id: cart.products[li].product_id.clone(),
                        quantity: cart.products[li].quantity + quantity,
                    };
                    cart.products.set(li, line);
                },
                None => {
                    cart.products.push(CartProduct::new(product.id.clone(), quantity));
                },
            }
            let ghost new_lines = cart.products@;
            carts.insert(ci, cart);
            assert forall|j: int| 0 <= j < before.len() && j != ci implies carts@[j] == before[j] by {
                if j < ci {
                } else {
                }
            }
            proof {
                if carts_well_formed(before) {
                    lemma_lines_grow(before[ci as int].products@, new_lines);
                    lemma_wf_replace(before, carts@, ci as int);
                }
            }
            Ok(())
        },
    }
}

/// Removes the `item`-th line (counting from 1) from the cart of the user `user_id`.
pub fn delete_item_from_my_cart(carts: &mut Vec<Cart>, user_id: &str, item: usize) -> (r: Result<
    (),
    ShopError,
>)
    requires
        !no_cart(old(carts)@, user_id@) ==> item >= 1,
    ensures
        no_cart(old(carts)@, user_id@) ==> r == Err::<(), ShopError>(ShopError::NoCart) && final(carts)@ == old(carts)@,
        forall|ci: int|
            is_first_cart(old(carts)@, user_id@, ci) && item > old(carts)@[ci].products@.len()
                ==> r == Err::<(), ShopError>(ShopError::NoSuchCartItem) && final(carts)@ == old(carts)@,
        forall|ci: int|
            is_first_cart(old(carts)@, user_id@, ci) && item <= old(carts)@[ci].products@.len()
                ==> {
                &&& r is Ok
                &&& final(carts)@.len() == old(carts)@.len()
                &&& forall|j: int|
                    0 <= j < old(carts)@.len() && j != ci ==> final(carts)@[j] == old(carts)@[j]
                &&& final(carts)@[ci].user_id == old(carts)@[ci].user_id
                &&& final(carts)@[ci].active == old(carts)@[ci].active
                &&& final(carts)@[ci].products@ == old(carts)@[ci].products@.remove(item - 1)
            },
        carts_well_formed(old(carts)@) ==> carts_well_formed(final(carts)@),
        (forall|j: int| 0 <= j < old(carts)@.len() ==> (#[trigger] old(carts)@[j]).user_id@ != user_id@)
            ==> r == Err::<(), ShopError>(ShopError::NoCart) && final(carts)@ == old(carts)@,
        r is Ok ==> final(carts)@.len() == old(carts)@.len() && exists|ci: int|
            0 <= ci < old(carts)@.len() && (#[trigger] old(carts)@[ci]).user_id@ == user_id@
                && final(carts)@[ci].user_id == old(carts)@[ci].user_id
                && final(carts)@[ci].products@ == old(carts)@[ci].products@.remove(item - 1)
                && forall|j: int| 0 <= j < old(carts)@.len() && j != ci ==> final(carts)@[j] == old(carts)@[j],
{
    match find_cart(carts, user_id) {
        None => Err(ShopError::NoCart),
        Some(ci) => {
            if item - 1 >= carts[ci].products.len() {
                return Err(ShopError::NoSuchCartItem);
            }
            let ghost before = carts@;
            let mut cart = carts.remove(ci);
            assert(cart == before[ci as int]);
            cart.products.remove(item - 1);
            carts.insert(ci, cart);
            assert forall|j: int| 0 <= j < before.len() && j != ci implies carts@[j] == before[j] by {
                if j < ci {
                } else {
                }
            }
            proof {
                if carts_well_formed(before) {
                    lemma_lines_remove(before[ci as int].products@, item - 1);
                    lemma_wf_replace(before, carts@, ci as int);
                }
            }
            Ok(())
        },
    }
}

/// Removes the cart of the user `user_id`.
pub fn clear_my_cart(carts: &mut Vec<Cart>, user_id: &str) -> (r: Result<(), ShopError>)
    ensures
        no_cart(old(carts)@, user_id@) ==> r == Err::<(), ShopError>(ShopError::NoCart) && final(carts)@ == old(carts)@,
        forall|ci: int|
            is_first_cart(old(carts)@, user_id@, ci) ==> r is Ok && final(carts)@ == old(carts)@.remove(ci),
        carts_well_formed(old(carts)@) ==> carts_well_formed(final(carts)@),
        (forall|j: int| 0 <= j < old(carts)@.len() ==> (#[trigger] old(carts)@[j]).user_id@ != user_id@)
            ==> r == Err::<(), ShopError>(ShopError::NoCart) && final(carts)@ == old(carts)@,
        r is Ok ==> exists|ci: int|
            0 <= ci < old(carts)@.len() && (#[trigger] old(carts)@[ci]).user_id@ == user_id@
                && final(carts)@ == old(carts)@.remove(ci),
{
    match find_cart(carts, user_id) {
        None => Err(ShopError::NoCart),
        Some(ci) => {
            let ghost before = carts@;
            carts.remove(ci);
            proof {
                if carts_well_formed(before) {
                    lemma_wf_remove(before, ci as int);
                }
            }
            Ok(())
        },
    }
}

} // verus!
