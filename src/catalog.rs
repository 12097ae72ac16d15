use vstd::prelude::*;
use crate::records::Product;

verus! {

/// An unsaved catalog product with the given name, description and price,
/// pictured by a pizza.
pub open spec fn catalog_row(p: Product, name: Seq<char>, description: Seq<char>, cents: int) -> bool {
    &&& p.id is None
    &&& p.name@ == name
    &&& p.description@ == description
    &&& p.price_cents == cents
    &&& p.image_path is Some
    &&& p.image_path->Some_0@ == "\u{1F355}"@
}

fn sample(name: &str, description: &str, cents: i64) -> (r: Product)
    ensures
        catalog_row(r, name@, description@, cents as int),
{
    proof {
        reveal_strlit("\u{1F355}");
    }
    Product {
        id: None,
        name: name.to_owned(),
        description: description.to_owned(),
        price_cents: cents,
        image_path: Some("\u{1F355}".to_owned()),
    }
}

/// The sample menu created into an empty product table.
pub fn seed_catalog() -> (r: Vec<Product>)
    ensures
        r@.len() == 6,
        catalog_row(r@[0], "Margherita Hardcore"@, "Classic tomato and mozzarella"@, 1299),
        catalog_row(r@[1], "Pepperoni Remaster"@, "Spicy pepperoni with cheese"@, 1499),
        catalog_row(r@[2], "Hawaiian Remaster"@, "Ham and pineapple"@, 1399),
        catalog_row(r@[3], "Supreme Remaster"@, "All toppings included"@, 1699),
        catalog_row(r@[4], "BBQ Chicken Remaster"@, "BBQ sauce with chicken"@, 1599),
        catalog_row(r@[5], "Veggie Delight Remaster"@, "Fresh vegetables only"@, 1399),
{
    let mut v: Vec<Product> = Vec::new();
    v.push(sample("Margherita Hardcore", "Classic tomato and mozzarella", 1299));
    v.push(sample("Pepperoni Remaster", "Spicy pepperoni with cheese", 1499));
    v.push(sample("Hawaiian Remaster", "Ham and pineapple", 1399));
    v.push(sample("Supreme Remaster", "All toppings included", 1699));
    v.push(sample("BBQ Chicken Remaster", "BBQ sauce with chicken", 1599));
    v.push(sample("Veggie Delight Remaster", "Fresh vegetables only", 1399));
    v
}

} // verus!
