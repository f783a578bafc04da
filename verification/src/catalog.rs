//! The product catalogue: adding, showing, changing, restocking and removing
//! products. Products are addressed by their position counted from 1, as the
//! numbered product list shows them.

use vstd::prelude::*;
use crate::error::ShopError;
use crate::model::{copy_product, Product};
use crate::text::{decimal_i32, trimmed};
use crate::validation::{
    category_choice, check_stock, get_category, stock_verdict, str_eq, Category,
};

verus! {

/// The verdict on the fields of a new product: the stock, then the price
/// (as already read), then the category.
pub open spec fn new_product_verdict<M>(
    price: Result<M, ShopError>,
    stock: Seq<char>,
    category: Seq<char>,
) -> Result<(M, i32, Category), ShopError> {
    match stock_verdict(stock) {
        Err(e) => Err(e),
        Ok(s) => match price {
            Err(e) => Err(e),
            Ok(p) => match category_choice(category) {
                None => Err(ShopError::InvalidCategory),
                Some(c) => Ok((p, s, c)),
            },
        },
    }
}

/// The verdict on the new fields of an existing product: the price (as
/// already read), then the stock, then the category.
pub open spec fn product_update_verdict<M>(
    price: Result<M, ShopError>,
    stock: Seq<char>,
    category: Seq<char>,
) -> Result<(M, i32, Category), ShopError> {
    match price {
        Err(e) => Err(e),
        Ok(p) => match stock_verdict(stock) {
            Err(e) => Err(e),
            Ok(s) => match category_choice(category) {
                None => Err(ShopError::InvalidCategory),
                Some(c) => Ok((p, s, c)),
            },
        },
    }
}

/// Checks the fields of a new product, reporting the first one that is refused.
pub fn check_new_product<M>(price: Result<M, ShopError>, stock: &str, category: &str) -> (r: Result<
    (M, i32, Category),
    ShopError,
>)
    ensures
        r == new_product_verdict(price, stock@, category@),
{
    let s = match check_stock(stock) {
        Ok(s) => s,
        Err(e) => {
            return Err(e);
        },
    };
    let p = match price {
        Ok(p) => p,
        Err(e) => {
            return Err(e);
        },
    };
    match get_category(category) {
        Some(c) => Ok((p, s, c)),
        None => Err(ShopError::InvalidCategory),
    }
}

/// Adds a product with the identifier `code` at the end of the catalogue,
/// when its fields pass `check_new_product`.
pub fn add_product<M>(
    db: &mut Vec<Product<M>>,
    price: Result<M, ShopError>,
    stock: &str,
    name: &str,
    category: &str,
    code: &str,
) -> (r: Result<(), ShopError>)
    ensures
        match new_product_verdict(price, stock@, category@) {
            Err(e) => r == Err::<(), ShopError>(e) && final(db)@ == old(db)@,
            Ok((p, s, c)) => {
                &&& r is Ok
                &&& final(db)@.len() == old(db)@.len() + 1
                &&& final(db)@.drop_last() == old(db)@
                &&& final(db)@.last().id@ == code@
                &&& final(db)@.last().name@ == name@
                &&& final(db)@.last().price == p
                &&& final(db)@.last().stock == s
                &&& final(db)@.last().category == c
            },
        },
        r is Ok ==> {
            let p = final(db)@.last();
            &&& final(db)@.len() == old(db)@.len() + 1
            &&& final(db)@.drop_last() == old(db)@
            &&& p.id@ == code@ && p.name@ == name@ && p.stock >= 1
            &&& price == Ok::<M, ShopError>(p.price)
            &&& category_choice(category@) == Some(p.category)
        },
        r is Err ==> final(db)@ == old(db)@,
{
    match check_new_product(price, stock, category) {
        Err(e) => Err(e),
        Ok((p, s, c)) => {
            let ghost before = db@;
            db.push(Product::new(code, name, p, s, c));
            assert(db@.drop_last() =~= before);
            Ok(())
        },
    }
}

/// The `serial`-th product (counting from 1).
pub fn view_product<M: Copy>(db: &Vec<Product<M>>, serial: usize) -> (r: Result<
    Product<M>,
    ShopError,
>)
    requires
        serial >= 1,
    ensures
        serial <= db@.len() ==> r == Ok::<Product<M>, ShopError>(db@[serial - 1]),
        serial > db@.len() ==> r == Err::<Product<M>, ShopError>(ShopError::ProductNotFound),
{
    if serial - 1 < db.len() {
        Ok(copy_product(&db[serial - 1]))
    } else {
        Err(ShopError::ProductNotFound)
    }
}

/// The product with new name, price, stock and category, and the same identifier.
pub open spec fn updated_product<M>(
    p: Product<M>,
    name: Seq<char>,
    price: M,
    stock: i32,
    category: Category,
    q: Product<M>,
) -> bool {
    &&& q.id == p.id
    &&& q.name@ == name
    &&& q.price == price
    &&& q.stock == stock
    &&& q.category == category
}

/// Replaces the name, price, stock and category of the `index`-th product
/// (counting from 1); the new fields are checked price first, then stock,
/// then category, and nothing changes when one is refused.
pub fn update_product<M: Copy>(
    db: &mut Vec<Product<M>>,
    index: usize,
    name: &str,
    price: Result<M, ShopError>,
    stock: &str,
    category: &str,
) -> (r: Result<(), ShopError>)
    requires
        index >= 1,
    ensures
        index > old(db)@.len() ==> r == Err::<(), ShopError>(ShopError::ProductNotFoundForUpdate)
            && final(db)@ == old(db)@,
        index <= old(db)@.len() ==> match product_update_verdict(price, stock@, category@) {
            Err(e) => r == Err::<(), ShopError>(e) && final(db)@ == old(db)@,
            Ok((p, s, c)) => {
                &&& r is Ok
                &&& final(db)@.len() == old(db)@.len()
                &&& forall|j: int|
                    0 <= j < old(db)@.len() && j != index - 1 ==> final(db)@[j] == old(db)@[j]
                &&& updated_product(old(db)@[index - 1], name@, p, s, c, final(db)@[index - 1])
            },
        },
        r is Ok ==> {
            &&& final(db)@.len() == old(db)@.len()
            &&& final(db)@[index - 1].id == old(db)@[index - 1].id
            &&& final(db)@[index - 1].name@ == name@
            &&& price == Ok::<M, ShopError>(final(db)@[index - 1].price)
            &&& final(db)@[index - 1].stock >= 1
            &&& forall|j: int| 0 <= j < old(db)@.len() && j != index - 1 ==> final(db)@[j] == old(db)@[j]
        },
        r is Err ==> final(db)@ == old(db)@,
{
    if index - 1 >= db.len() {
        return Err(ShopError::ProductNotFoundForUpdate);
    }
    let p = match price {
        Ok(p) => p,
        Err(e) => {
            return Err(e);
        },
    };
    let s = match check_stock(stock) {
        Ok(s) => s,
        Err(e) => {
            return Err(e);
        },
    };
    let c = match get_category(category) {
        Some(c) => c,
        None => {
            return Err(ShopError::InvalidCategory);
        },
    };
    let old_id = db[index - 1].id.clone();
    let q = Product { id: old_id, name: name.to_owned(), price: p, stock: s, category: c };
    db.set(index - 1, q);
    Ok(())
}

/// Adds the quantity read from `stock` to the stock of the `serial_no`-th
/// product (counting from 1), and reports it under the product's name.
pub fn restock<M: Copy>(db: &mut Vec<Product<M>>, stock: &str, serial_no: usize) -> (r: Result<
    String,
    ShopError,
>)
    requires
        stock_verdict(stock@) matches Ok(v) ==> serial_no >= 1 && (serial_no <= old(db)@.len()
            ==> old(db)@[serial_no - 1].stock + v <= i32::MAX),
    ensures
        stock_verdict(stock@) matches Err(e) ==> r == Err::<String, ShopError>(e) && final(db)@
            == old(db)@,
        stock_verdict(stock@) is Ok && serial_no > old(db)@.len() ==> r == Err::<String, ShopError>(
            ShopError::ProductNotFound,
        ) && final(db)@ == old(db)@,
        stock_verdict(stock@) matches Ok(v) ==> serial_no <= old(db)@.len() ==> {
            let old_p = old(db)@[serial_no - 1];
            &&& final(db)@ == old(db)@.update(
                serial_no - 1,
                Product {
                    id: old_p.id,
                    name: old_p.name,
                    price: old_p.price,
                    stock: (old_p.stock + v) as i32,
                    category: old_p.category,
                },
            )
            &&& r matches Ok(m) && m@ == old_p.name@ + " Product Restocked Successfully"@
        },
        forall|v: i32|
            trimmed(stock@) == #[trigger] decimal_i32(v) && v >= 1 && serial_no <= old(db)@.len()
                ==> r is Ok && final(db)@.len() == old(db)@.len() && final(db)@[serial_no - 1].stock
                == old(db)@[serial_no - 1].stock + v,
        forall|v: i32|
            trimmed(stock@) == #[trigger] decimal_i32(v) && v <= 0 ==> r == Err::<String, ShopError>(
                ShopError::StockNotPositive,
            ) && final(db)@ == old(db)@,
{
    let new_stock = match check_stock(stock) {
        Ok(v) => v,
        Err(e) => {
            return Err(e);
        },
    };
    if serial_no - 1 >= db.len() {
        return Err(ShopError::ProductNotFound);
    }
    let mut p = copy_product(&db[serial_no - 1]);
    p.stock = p.stock + new_stock;
    let mut response = p.name.clone();
    response.append(" Product Restocked Successfully");
    db.set(serial_no - 1, p);
    Ok(response)
}

/// Removes the `serial`-th product (counting from 1).
pub fn delete_product<M>(db: &mut Vec<Product<M>>, serial: usize) -> (r: Result<(), ShopError>)
    requires
        serial >= 1,
    ensures
        serial <= old(db)@.len() ==> r is Ok && final(db)@ == old(db)@.remove(serial - 1),
        serial > old(db)@.len() ==> r == Err::<(), ShopError>(ShopError::ProductNotFound)
            && final(db)@ == old(db)@,
{
    if serial - 1 < db.len() {
        db.remove(serial - 1);
        Ok(())
    } else {
        Err(ShopError::ProductNotFound)
    }
}

/// The position of the first product with the identifier `id`.
pub fn find_product<M>(db: &Vec<Product<M>>, id: &str) -> (r: Option<usize>)
    ensures
        match r {
            Some(i) => i < db@.len() && db@[i as int].id@ == id@ && forall|j: int|
                0 <= j < i ==> (#[trigger] db@[j]).id@ != id@,
            None => forall|j: int| 0 <= j < db@.len() ==> (#[trigger] db@[j]).id@ != id@,
        },
{
    let mut i: usize = 0;
    while i < db.len()
        invariant
            i <= db.len(),
            forall|j: int| 0 <= j < i ==> (#[trigger] db@[j]).id@ != id@,
        decreases db.len() - i,
    {
        if str_eq(db[i].id.as_str(), id) {
            return Some(i);
        }
        i = i + 1;
    }
    None
}

} // verus!
