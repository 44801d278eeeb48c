use receipt_points::data::{Date, Item, Price, Receipt, Time};
use receipt_points::db::Connection;
use receipt_points::text::{letter_or_digit, space};

fn item(description: &str) -> Item {
    Item { short_description: description.to_string(), price: Price { dollars: 1, cents: 25 } }
}

fn receipt(retailer: &str, descriptions: &[&str]) -> Receipt {
    Receipt {
        retailer: retailer.to_string(),
        purchase_date: Date { year: 2022, month: 1, day: 2 },
        purchase_time: Time { hour: 13, minute: 13 },
        items: descriptions.iter().map(|d| item(d)).collect(),
        total: Price { dollars: 1, cents: 25 },
    }
}

#[test]
fn receipt_without_items_is_not_acceptable() {
    assert!(!receipt("Target", &[]).is_acceptable());
    assert!(receipt("Target", &["Pepsi"]).is_acceptable());
}

#[test]
fn retailer_class() {
    assert!(receipt("M&M Corner-Market 24", &["Pepsi"]).is_acceptable());
    assert!(receipt("Caf\u{e9}\t\u{4e2d}\u{6587}", &["Pepsi"]).is_acceptable());
    assert!(!receipt("", &["Pepsi"]).is_acceptable());
    assert!(!receipt("Target!", &["Pepsi"]).is_acceptable());
    assert!(!receipt("Tar.get", &["Pepsi"]).is_acceptable());
    assert!(!receipt("Tar_get", &["Pepsi"]).is_acceptable());
    assert!(!receipt("Target \u{20ac}", &["Pepsi"]).is_acceptable());
}

#[test]
fn description_class() {
    assert!(item("Pepsi - 12-oz").is_acceptable());
    assert!(item("pepsi_max 2").is_acceptable());
    assert!(item("   Klarbrunn 12-PK 12 FL OZ  ").is_acceptable());
    assert!(item("Cr\u{e8}me\u{a0}br\u{fb}l\u{e9}e").is_acceptable());
    assert!(!item("").is_acceptable());
    assert!(!item("M&M").is_acceptable());
    assert!(!item("Pepsi!").is_acceptable());
    assert!(!item("5\u{20ac}").is_acceptable());
}

#[test]
fn one_bad_item_spoils_the_receipt() {
    assert!(!receipt("Target", &["Pepsi", "M&M", "Cola"]).is_acceptable());
    assert!(!receipt("Target", &["Pepsi", "Cola", ""]).is_acceptable());
    assert!(receipt("Target", &["Pepsi", "Cola"]).is_acceptable());
}

#[test]
fn characters_above_ascii_follow_the_tables() {
    assert!(letter_or_digit('\u{e9}'));
    assert!(letter_or_digit('\u{663}'));
    assert!(!letter_or_digit('\u{20ac}'));
    assert!(!letter_or_digit('\u{a0}'));
    assert!(space('\u{a0}'));
    assert!(space('\u{2003}'));
    assert!(!space('\u{e9}'));
    assert!(!space('\u{200b}'));
}

#[test]
fn ascii_classes() {
    for c in ['0', '9', 'a', 'z', 'A', 'Z'] {
        assert!(letter_or_digit(c));
        assert!(!space(c));
    }
    for c in [' ', '\t', '\n', '\u{b}', '\u{c}', '\r'] {
        assert!(space(c));
        assert!(!letter_or_digit(c));
    }
    for c in ['/', ':', '@', '[', '`', '{', '_', '-', '&', '\u{8}', '\u{e}', '\u{7f}'] {
        assert!(!letter_or_digit(c));
        assert!(!space(c));
    }
    for n in 0u32..128 {
        let c = char::from_u32(n).unwrap();
        assert_eq!(letter_or_digit(c), c.is_alphanumeric());
        assert_eq!(space(c), c.is_whitespace());
    }
}

#[test]
fn load_returns_what_was_stored() {
    let mut connection = Connection::new();
    let first = receipt("Target", &["Pepsi"]);
    let second = receipt("M&M Corner Market", &["Gatorade", "Cola"]);
    let a = connection.store_receipt(first.clone()).unwrap();
    let b = connection.store_receipt(second.clone()).unwrap();
    assert_ne!(a, b);
    assert_eq!(connection.load_receipt(a), Some(first));
    assert_eq!(connection.load_receipt(b), Some(second));
}

#[test]
fn load_of_unknown_identifier_finds_nothing() {
    let mut connection = Connection::new();
    assert_eq!(connection.load_receipt(0), None);
    let id = connection.store_receipt(receipt("Target", &["Pepsi"])).unwrap();
    assert_eq!(connection.load_receipt(id.wrapping_add(1)), None);
}

#[test]
fn refused_receipt_is_not_stored() {
    let mut connection = Connection::new();
    assert_eq!(connection.store_receipt(receipt("Target!", &["Pepsi"])), None);
    assert!(!connection.store_with_id(7, receipt("Target", &[])));
    assert_eq!(connection.load_receipt(7), None);
}

#[test]
fn store_under_a_given_identifier() {
    let mut connection = Connection::new();
    let first = receipt("Target", &["Pepsi"]);
    let second = receipt("Walmart", &["Cola"]);
    assert!(connection.store_with_id(7, first.clone()));
    assert!(connection.store_with_id(8, second.clone()));
    assert_eq!(connection.load_receipt(7), Some(first));
    assert_eq!(connection.load_receipt(8), Some(second));
    assert_eq!(connection.load_receipt(9), None);
}

#[test]
fn fresh_identifiers_are_random_ones() {
    let mut connection = Connection::new();
    for _ in 0..50 {
        let id = connection.store_receipt(receipt("Target", &["Pepsi"])).unwrap();
        assert_eq!(id & 0xF000_C000_0000_0000_0000u128, 0x4000_8000_0000_0000_0000u128);
        assert_eq!(uuid::Uuid::from_u128(id).get_version_num(), 4);
    }
}

#[test]
fn copy_of_a_receipt_is_equal() {
    let first = receipt("M&M Corner Market", &["Gatorade", "  Cola  "]);
    assert_eq!(first.clone(), first);
}
