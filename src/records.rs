use vstd::prelude::*;

verus! {

/// A menu item. Prices are held in cents.
#[derive(Debug, PartialEq)]
pub struct Product {
    pub id: Option<i32>,
    pub name: String,
    pub description: String,
    pub price_cents: i64,
    pub image_path: Option<String>,
}

/// One line of an order: a quantity of a product, with the product as it was
/// when the order was taken.
#[derive(Debug, PartialEq)]
pub struct OrderItem {
    pub product_id: i32,
    pub quantity: i32,
    pub product: Product,
}

/// A recorded purchase. The amounts are the caller's, kept as given.
#[derive(Debug, PartialEq)]
pub struct Order {
    pub id: Option<i32>,
    pub created_at: Option<String>,
    pub buyer: String,
    pub products: Vec<OrderItem>,
    pub payment_method: String,
    pub delivery_service: String,
    pub coupon_code: Option<String>,
    pub subtotal_cents: i64,
    pub tax_cents: i64,
    pub total_cents: i64,
}

/// A discount code. The discount is in hundredths of a percent; the
/// expiration date is kept as text.
#[derive(Debug, PartialEq)]
pub struct Coupon {
    pub id: Option<i32>,
    pub code: String,
    pub discount_hundredths: i64,
    pub expiration_date: String,
}

/// An order with its line items as a sequence.
pub struct OrderView {
    pub id: Option<i32>,
    pub created_at: Option<String>,
    pub buyer: String,
    pub products: Seq<OrderItem>,
    pub payment_method: String,
    pub delivery_service: String,
    pub coupon_code: Option<String>,
    pub subtotal_cents: i64,
    pub tax_cents: i64,
    pub total_cents: i64,
}

impl View for Order {
    type V = OrderView;

    open spec fn view(&self) -> OrderView {
        OrderView {
            id: self.id,
            created_at: self.created_at,
            buyer: self.buyer,
            products: self.products@,
            payment_method: self.payment_method,
            delivery_service: self.delivery_service,
            coupon_code: self.coupon_code,
            subtotal_cents: self.subtotal_cents,
            tax_cents: self.tax_cents,
            total_cents: self.total_cents,
        }
    }
}

pub fn copy_opt_text(t: &Option<String>) -> (r: Option<String>)
    ensures
        r == *t,
{
    match t {
        Some(s) => Some(s.clone()),
        None => None,
    }
}

impl Product {
    pub fn copy(&self) -> (r: Product)
        ensures
            r == *self,
    {
        Product {
            id: self.id,
            name: self.name.clone(),
            description: self.description.clone(),
            price_cents: self.price_cents,
            image_path: copy_opt_text(&self.image_path),
        }
    }
}

impl OrderItem {
    pub fn copy(&self) -> (r: OrderItem)
        ensures
            r == *self,
    {
        OrderItem { product_id: self.product_id, quantity: self.quantity, product: self.product.copy() }
    }
}

impl Order {
    pub fn copy(&self) -> (r: Order)
        ensures
            r@ == self@,
    {
        let mut items: Vec<OrderItem> = Vec::new();
        let mut i: usize = 0;
        while i < self.products.len()
            invariant
                i <= self.products@.len(),
                items@ == self.products@.take(i as int),
            decreases self.products@.len() - i,
        {
            items.push(self.products[i].copy());
            assert(self.products@.take(i + 1) =~= self.products@.take(i as int).push(self.products@[i as int]));
            i = i + 1;
        }
        assert(self.products@.take(i as int) =~= self.products@);
        Order {
            id: self.id,
            created_at: copy_opt_text(&self.created_at),
            buyer: self.buyer.clone(),
            products: items,
            payment_method: self.payment_method.clone(),
            delivery_service: self.delivery_service.clone(),
            coupon_code: copy_opt_text(&self.coupon_code),
            subtotal_cents: self.subtotal_cents,
            tax_cents: self.tax_cents,
            total_cents: self.total_cents,
        }
    }
}

impl Coupon {
    pub fn copy(&self) -> (r: Coupon)
        ensures
            r == *self,
    {
        Coupon {
            id: self.id,
            code: self.code.clone(),
            discount_hundredths: self.discount_hundredths,
            expiration_date: self.expiration_date.clone(),
        }
    }
}

} // verus!
