//! Data layer of a pizza shop's point of sale: products, orders and coupons
//! held as sorted tables with store-assigned identifiers, and the text of a
//! printed receipt.

pub mod catalog;
pub mod laws;
pub mod receipt;
pub mod records;
pub mod store;
pub mod table;
pub mod text;

pub use catalog::seed_catalog;
pub use receipt::format_receipt;
pub use records::{Coupon, Order, OrderItem, Product};
pub use store::{
    create_coupon, create_order, create_order_at, create_product, delete_product, get_coupons,
    get_orders, get_products, items_or_empty, restore_coupon, restore_order, restore_product,
    seed_if_empty, update_product, Database, StoreError,
};
