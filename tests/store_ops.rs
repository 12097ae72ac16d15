use pizza_pos::{
    create_coupon, create_order, create_order_at, create_product, delete_product, get_coupons,
    get_orders, get_products, items_or_empty, restore_coupon, restore_order, restore_product,
    seed_catalog, seed_if_empty, update_product, Coupon, Database, Order, OrderItem, Product,
    StoreError,
};

fn product(name: &str, cents: i64) -> Product {
    Product {
        id: None,
        name: name.to_string(),
        description: format!("{} description", name),
        price_cents: cents,
        image_path: None,
    }
}

fn coupon(code: &str) -> Coupon {
    Coupon {
        id: None,
        code: code.to_string(),
        discount_hundredths: 1000,
        expiration_date: "2030-12-31".to_string(),
    }
}

fn order(buyer: &str, created_at: Option<&str>) -> Order {
    Order {
        id: None,
        created_at: created_at.map(|s| s.to_string()),
        buyer: buyer.to_string(),
        products: Vec::new(),
        payment_method: "cash".to_string(),
        delivery_service: "pickup".to_string(),
        coupon_code: None,
        subtotal_cents: 1000,
        tax_cents: 160,
        total_cents: 1160,
    }
}

fn names(db: &Database) -> Vec<String> {
    get_products(db).into_iter().map(|p| p.name).collect()
}

#[test]
fn created_product_is_listed_by_name() {
    let mut db = Database::new(0, 0, 0);
    create_product(&mut db, product("Pepperoni", 1499)).unwrap();
    create_product(&mut db, product("Calzone", 999)).unwrap();
    let made = create_product(&mut db, product("Margherita", 1299)).unwrap();
    assert_eq!(made.id, Some(3));
    assert_eq!(made.name, "Margherita");
    assert_eq!(made.price_cents, 1299);
    let listed = get_products(&db);
    assert!(listed.contains(&made));
    assert_eq!(names(&db), vec!["Calzone", "Margherita", "Pepperoni"]);
}

#[test]
fn equal_names_list_by_identifier() {
    let mut db = Database::new(0, 0, 0);
    create_product(&mut db, product("Same", 100)).unwrap();
    create_product(&mut db, product("Same", 200)).unwrap();
    let ids: Vec<Option<i32>> = get_products(&db).into_iter().map(|p| p.id).collect();
    assert_eq!(ids, vec![Some(1), Some(2)]);
}

#[test]
fn names_sort_by_code_point() {
    let mut db = Database::new(0, 0, 0);
    create_product(&mut db, product("b", 1)).unwrap();
    create_product(&mut db, product("B", 1)).unwrap();
    create_product(&mut db, product("", 1)).unwrap();
    create_product(&mut db, product("ab", 1)).unwrap();
    create_product(&mut db, product("a", 1)).unwrap();
    assert_eq!(names(&db), vec!["", "B", "a", "ab", "b"]);
}

#[test]
fn update_without_identifier_is_refused() {
    let mut db = Database::new(0, 0, 0);
    create_product(&mut db, product("Hawaiian", 1399)).unwrap();
    let r = update_product(&mut db, product("Other", 1));
    assert_eq!(r, Err(StoreError::MissingId));
    assert_eq!(StoreError::MissingId.message(), "Product ID is required");
    assert_eq!(names(&db), vec!["Hawaiian"]);
}

#[test]
fn update_changes_only_that_row() {
    let mut db = Database::new(0, 0, 0);
    let a = create_product(&mut db, product("Alpha", 100)).unwrap();
    let b = create_product(&mut db, product("Beta", 200)).unwrap();
    let c = create_product(&mut db, product("Gamma", 300)).unwrap();
    let mut changed = product("Zeta", 250);
    changed.id = b.id;
    assert_eq!(update_product(&mut db, changed), Ok(()));
    let listed = get_products(&db);
    assert_eq!(listed.len(), 3);
    assert_eq!(listed[0], a);
    assert_eq!(listed[1], c);
    assert_eq!(listed[2].id, Some(2));
    assert_eq!(listed[2].name, "Zeta");
    assert_eq!(listed[2].price_cents, 250);
}

#[test]
fn update_of_unknown_identifier_changes_nothing() {
    let mut db = Database::new(0, 0, 0);
    create_product(&mut db, product("Alpha", 100)).unwrap();
    let mut ghost_row = product("Nobody", 1);
    ghost_row.id = Some(42);
    assert_eq!(update_product(&mut db, ghost_row), Ok(()));
    assert_eq!(names(&db), vec!["Alpha"]);
}

#[test]
fn delete_of_unknown_identifier_succeeds() {
    let mut db = Database::new(0, 0, 0);
    create_product(&mut db, product("Alpha", 100)).unwrap();
    let before = get_products(&db);
    assert_eq!(delete_product(&mut db, 99), Ok(()));
    assert_eq!(get_products(&db), before);
}

#[test]
fn delete_removes_the_row_and_identifiers_are_not_reused() {
    let mut db = Database::new(0, 0, 0);
    create_product(&mut db, product("Alpha", 100)).unwrap();
    let b = create_product(&mut db, product("Beta", 200)).unwrap();
    assert_eq!(delete_product(&mut db, b.id.unwrap()), Ok(()));
    assert_eq!(names(&db), vec!["Alpha"]);
    let next = create_product(&mut db, product("Gamma", 300)).unwrap();
    assert_eq!(next.id, Some(3));
}

#[test]
fn duplicate_coupon_code_is_refused() {
    let mut db = Database::new(0, 0, 0);
    let first = create_coupon(&mut db, coupon("PIZZA10")).unwrap();
    assert_eq!(first.id, Some(1));
    let second = create_coupon(&mut db, coupon("PIZZA10"));
    assert_eq!(second, Err(StoreError::DuplicateCode));
    let listed = get_coupons(&db);
    assert_eq!(listed.len(), 1);
    assert_eq!(listed[0], first);
}

#[test]
fn coupons_list_by_code() {
    let mut db = Database::new(0, 0, 0);
    create_coupon(&mut db, coupon("ZZZ")).unwrap();
    create_coupon(&mut db, coupon("AAA")).unwrap();
    create_coupon(&mut db, coupon("MMM")).unwrap();
    let codes: Vec<String> = get_coupons(&db).into_iter().map(|c| c.code).collect();
    assert_eq!(codes, vec!["AAA", "MMM", "ZZZ"]);
}

#[test]
fn created_order_gets_identifier_and_time() {
    let mut db = Database::new(0, 0, 0);
    let made = create_order(&mut db, order("Ana", Some("caller time"))).unwrap();
    assert_eq!(made.id, Some(1));
    let stamp = made.created_at.clone().unwrap();
    assert!(!stamp.is_empty());
    assert_ne!(stamp, "caller time");
    assert_eq!(made.buyer, "Ana");
    let listed = get_orders(&db);
    assert!(listed.iter().all(|o| o.id.is_some() && o.created_at.is_some()));
    assert_eq!(listed, vec![made]);
}

#[test]
fn created_order_at_given_time() {
    let mut db = Database::new(0, 7, 0);
    let made = create_order_at(&mut db, order("Ana", None), "2024-05-01T10:00:00+00:00".to_string()).unwrap();
    assert_eq!(made.id, Some(8));
    assert_eq!(made.created_at.as_deref(), Some("2024-05-01T10:00:00+00:00"));
}

#[test]
fn three_orders_list_newest_first() {
    let mut db = Database::new(0, 0, 0);
    create_order_at(&mut db, order("first", None), "2024-05-01T10:00:00+00:00".to_string()).unwrap();
    create_order_at(&mut db, order("second", None), "2024-05-01T11:00:00+00:00".to_string()).unwrap();
    create_order_at(&mut db, order("third", None), "2024-05-02T09:00:00+00:00".to_string()).unwrap();
    let buyers: Vec<String> = get_orders(&db).into_iter().map(|o| o.buyer).collect();
    assert_eq!(buyers, vec!["third", "second", "first"]);
}

#[test]
fn three_orders_now_list_newest_first() {
    let mut db = Database::new(0, 0, 0);
    create_order(&mut db, order("first", None)).unwrap();
    create_order(&mut db, order("second", None)).unwrap();
    create_order(&mut db, order("third", None)).unwrap();
    let buyers: Vec<String> = get_orders(&db).into_iter().map(|o| o.buyer).collect();
    assert_eq!(buyers, vec!["third", "second", "first"]);
}

#[test]
fn orders_at_the_same_time_list_latest_first() {
    let mut db = Database::new(0, 0, 0);
    let t = "2024-05-01T10:00:00+00:00";
    create_order_at(&mut db, order("first", None), t.to_string()).unwrap();
    create_order_at(&mut db, order("second", None), t.to_string()).unwrap();
    let buyers: Vec<String> = get_orders(&db).into_iter().map(|o| o.buyer).collect();
    assert_eq!(buyers, vec!["second", "first"]);
}

#[test]
fn seeding_twice_keeps_six_products() {
    let mut db = Database::new(0, 0, 0);
    let made = seed_if_empty(&mut db, &seed_catalog()).unwrap();
    assert_eq!(made.len(), 6);
    assert_eq!(made[0].id, Some(1));
    assert_eq!(made[5].id, Some(6));
    assert_eq!(get_products(&db).len(), 6);
    let again = seed_if_empty(&mut db, &seed_catalog()).unwrap();
    assert!(again.is_empty());
    assert_eq!(get_products(&db).len(), 6);
    assert_eq!(names(&db)[0], "BBQ Chicken Remaster");
}

#[test]
fn seeding_skips_a_table_with_rows() {
    let mut db = Database::new(0, 0, 0);
    create_product(&mut db, product("Own", 500)).unwrap();
    assert!(seed_if_empty(&mut db, &seed_catalog()).unwrap().is_empty());
    assert_eq!(names(&db), vec!["Own"]);
}

#[test]
fn seed_catalog_prices() {
    let cat = seed_catalog();
    let prices: Vec<i64> = cat.iter().map(|p| p.price_cents).collect();
    assert_eq!(prices, vec![1299, 1499, 1399, 1699, 1599, 1399]);
    assert_eq!(cat[0].name, "Margherita Hardcore");
    assert_eq!(cat[0].image_path.as_deref(), Some("\u{1F355}"));
}

#[test]
fn exhausted_identifiers_are_refused() {
    let mut db = Database::new(i32::MAX, i32::MAX, i32::MAX);
    assert_eq!(create_product(&mut db, product("A", 1)), Err(StoreError::IdsExhausted));
    assert_eq!(create_order_at(&mut db, order("A", None), "t".to_string()), Err(StoreError::IdsExhausted));
    assert_eq!(create_coupon(&mut db, coupon("A")), Err(StoreError::IdsExhausted));
    assert_eq!(seed_if_empty(&mut db, &seed_catalog()), Err(StoreError::IdsExhausted));
    assert!(get_products(&db).is_empty());
}

#[test]
fn restoring_rows() {
    let mut db = Database::new(0, 0, 0);
    let mut p = product("Stored", 700);
    p.id = Some(10);
    assert_eq!(restore_product(&mut db, p), Ok(()));
    let mut dup = product("Again", 700);
    dup.id = Some(10);
    assert_eq!(restore_product(&mut db, dup), Err(StoreError::DuplicateId));
    assert_eq!(restore_product(&mut db, product("NoId", 1)), Err(StoreError::MissingId));
    let next = create_product(&mut db, product("New", 1)).unwrap();
    assert_eq!(next.id, Some(11));

    let mut c = coupon("SAVE");
    c.id = Some(3);
    assert_eq!(restore_coupon(&mut db, c), Ok(()));
    let mut same_code = coupon("SAVE");
    same_code.id = Some(4);
    assert_eq!(restore_coupon(&mut db, same_code), Err(StoreError::DuplicateCode));

    let mut unstamped = order("NoTime", None);
    unstamped.id = Some(9);
    assert_eq!(restore_order(&mut db, unstamped), Err(StoreError::MissingTimestamp));
    assert!(get_orders(&db).is_empty());

    let mut o = order("Old", Some("2020-01-01T00:00:00+00:00"));
    o.id = Some(5);
    assert_eq!(restore_order(&mut db, o), Ok(()));
    let made = create_order_at(&mut db, order("New", None), "2021-01-01T00:00:00+00:00".to_string()).unwrap();
    assert_eq!(made.id, Some(6));
    let buyers: Vec<String> = get_orders(&db).into_iter().map(|o| o.buyer).collect();
    assert_eq!(buyers, vec!["New", "Old"]);
}

#[test]
fn undecodable_items_read_as_none() {
    assert!(items_or_empty(None).is_empty());
    let item = OrderItem { product_id: 1, quantity: 2, product: product("A", 100) };
    let kept = items_or_empty(Some(vec![item]));
    assert_eq!(kept.len(), 1);
    assert_eq!(kept[0].quantity, 2);
}

#[test]
fn error_messages() {
    assert_eq!(StoreError::DuplicateCode.message(), "UNIQUE constraint failed: coupons.code");
    assert!(!StoreError::DuplicateId.message().is_empty());
    assert!(!StoreError::IdsExhausted.message().is_empty());
    assert_eq!(StoreError::MissingTimestamp.message(), "NOT NULL constraint failed: orders.created_at");
}
