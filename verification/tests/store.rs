use midas::identity::{resolve, Actor};
use midas::price::Price;
use midas::store::{supported_retailers, Candidate, Store, ValidationError};

fn actor(name: &str) -> Actor {
    resolve(name, "pw").unwrap()
}

fn candidate(url: &str, name: &str, retailer: &str, target_price_text: &str) -> Candidate {
    Candidate {
        url: url.to_string(),
        name: name.to_string(),
        retailer: retailer.to_string(),
        target_price_text: target_price_text.to_string(),
    }
}

#[test]
fn unsupported_retailer_is_rejected() {
    let mut store = Store::new();
    let r = store.add(&candidate("https://www.walmart.com/ip/1", "TV", "Walmart", ""), &actor("alice"));
    assert_eq!(r, Err(ValidationError::InvalidRetailer));
    assert!(store.list_visible(&actor("admin")).is_empty());
}

#[test]
fn retailer_match_is_case_sensitive() {
    let mut store = Store::new();
    let r = store.add(&candidate("https://www.amazon.com/dp/1", "TV", "amazon", ""), &actor("alice"));
    assert_eq!(r, Err(ValidationError::InvalidRetailer));
    assert!(store.list_visible(&actor("admin")).is_empty());
}

#[test]
fn amazon_candidate_with_foreign_url_is_rejected() {
    let mut store = Store::new();
    let r = store.add(&candidate("https://www.ebay.com/itm/1", "TV", "Amazon", ""), &actor("alice"));
    assert_eq!(r, Err(ValidationError::InvalidUrl));
    assert!(store.list_visible(&actor("admin")).is_empty());
}

#[test]
fn best_buy_candidate_with_foreign_url_is_rejected() {
    let mut store = Store::new();
    let r = store.add(&candidate("https://www.amazon.com/dp/1", "TV", "Best Buy", ""), &actor("alice"));
    assert_eq!(r, Err(ValidationError::InvalidUrl));
    assert!(store.list_visible(&actor("admin")).is_empty());
}

#[test]
fn url_domain_match_ignores_ascii_case() {
    let mut store = Store::new();
    let r = store.add(
        &candidate("HTTPS://WWW.BESTBUY.COM/SITE/PS5", "PS5", "Best Buy", ""),
        &actor("alice"),
    );
    assert_eq!(r, Ok(()));
}

#[test]
fn amazon_short_domains_are_accepted() {
    let mut store = Store::new();
    assert_eq!(store.add(&candidate("https://amzn.to/3abc", "X", "Amazon", ""), &actor("alice")), Ok(()));
    assert_eq!(store.add(&candidate("https://a.co/d/xyz", "Y", "Amazon", ""), &actor("alice")), Ok(()));
    assert_eq!(store.list_visible(&actor("alice")).len(), 2);
}

#[test]
fn added_product_visible_to_owner_and_admin_not_to_others() {
    let mut store = Store::new();
    let alice = actor("alice");
    let r = store.add(
        &candidate("https://www.amazon.com/dp/B08FC6MR62", "PS5", "Amazon", "399.99"),
        &alice,
    );
    assert_eq!(r, Ok(()));

    let own = store.list_visible(&alice);
    assert_eq!(own.len(), 1);
    assert_eq!(own[0].url, "https://www.amazon.com/dp/B08FC6MR62");
    assert_eq!(own[0].name, "PS5");
    assert_eq!(own[0].retailer, "Amazon");
    assert_eq!(own[0].added_by, "alice");
    assert_eq!(own[0].target_price, Some(Price { mantissa: 39999, scale: 2 }));

    assert!(store.list_visible(&actor("bob")).is_empty());
    assert_eq!(store.list_visible(&actor("admin")).len(), 1);
}

#[test]
fn non_admin_never_sees_other_users_products() {
    let mut store = Store::new();
    let alice = actor("alice");
    let bob = actor("bob");
    store.add(&candidate("https://www.amazon.com/dp/1", "A", "Amazon", ""), &alice).unwrap();
    store.add(&candidate("https://www.bestbuy.com/site/2", "B", "Best Buy", ""), &bob).unwrap();

    let seen_by_bob = store.list_visible(&bob);
    assert_eq!(seen_by_bob.len(), 1);
    assert_eq!(seen_by_bob[0].added_by, "bob");
}

#[test]
fn admin_sees_all_products_in_insertion_order() {
    let mut store = Store::new();
    store.add(&candidate("https://www.amazon.com/dp/1", "A", "Amazon", ""), &actor("alice")).unwrap();
    store.add(&candidate("https://www.bestbuy.com/site/2", "B", "Best Buy", ""), &actor("bob")).unwrap();

    let all = store.list_visible(&actor("Admin"));
    assert_eq!(all.len(), 2);
    assert_eq!(all[0].name, "A");
    assert_eq!(all[1].name, "B");
}

#[test]
fn listing_twice_gives_identical_sequences() {
    let mut store = Store::new();
    let alice = actor("alice");
    store.add(&candidate("https://www.amazon.com/dp/1", "A", "Amazon", "10"), &alice).unwrap();
    store.add(&candidate("https://www.amazon.com/dp/2", "B", "Amazon", ""), &alice).unwrap();

    let first = store.list_visible(&alice);
    let second = store.list_visible(&alice);
    assert_eq!(first, second);

    let admin = actor("admin");
    assert_eq!(store.list_visible(&admin), store.list_visible(&admin));
}

#[test]
fn failed_add_leaves_store_unchanged() {
    let mut store = Store::new();
    let alice = actor("alice");
    store.add(&candidate("https://www.amazon.com/dp/1", "A", "Amazon", ""), &alice).unwrap();
    let before = store.list_visible(&actor("admin"));

    assert!(store.add(&candidate("https://www.amazon.com/dp/2", "B", "eBay", ""), &alice).is_err());
    assert!(store.add(&candidate("https://www.ebay.com/itm/2", "B", "Amazon", ""), &alice).is_err());

    assert_eq!(store.list_visible(&actor("admin")), before);
}

#[test]
fn empty_or_unparsable_target_price_is_stored_as_none() {
    let mut store = Store::new();
    let alice = actor("alice");
    store.add(&candidate("https://www.amazon.com/dp/1", "A", "Amazon", ""), &alice).unwrap();
    store.add(&candidate("https://www.amazon.com/dp/2", "B", "Amazon", "make me an offer"), &alice).unwrap();

    let own = store.list_visible(&alice);
    assert_eq!(own[0].target_price, None);
    assert_eq!(own[1].target_price, None);
}

#[test]
fn add_at_stamps_the_given_creation_time() {
    let mut store = Store::new();
    let alice = actor("alice");
    store.add_at(&candidate("https://www.amazon.com/dp/1", "A", "Amazon", ""), &alice, 12345).unwrap();
    assert_eq!(store.list_visible(&alice)[0].created_at, 12345);
}

#[test]
fn supported_retailer_set_is_fixed() {
    assert_eq!(supported_retailers(), vec!["Best Buy", "Amazon"]);
}
