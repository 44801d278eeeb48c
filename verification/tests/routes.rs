use receipt_points::data::serialization::{date, time};
use receipt_points::data::{Item, Price, Receipt};
use receipt_points::db::Connection;
use receipt_points::routes::points::{calculate_points, get_points, PointsResponse};
use receipt_points::routes::process::{process_receipt, ProcessReceiptResponse};

fn receipt(retailer: &str, day: &str, clock: &str, items: &[(&str, &str)], total: &str) -> Receipt {
    Receipt {
        retailer: retailer.to_string(),
        purchase_date: date::deserialize(day).unwrap(),
        purchase_time: time::deserialize(clock).unwrap(),
        items: items
            .iter()
            .map(|(description, price)| Item {
                short_description: description.to_string(),
                price: Price::deserialize(price).unwrap(),
            })
            .collect(),
        total: Price::deserialize(total).unwrap(),
    }
}

/// Stores a receipt and asks for the points under the identifier it got.
fn run_full_trip(receipt: Receipt, expected_pts: u64) {
    let mut connection = Connection::new();
    let ProcessReceiptResponse { id } = process_receipt(&mut connection, receipt).unwrap();
    let PointsResponse { points } = get_points(&connection, id).unwrap();
    assert_eq!(points, expected_pts);
}

#[test]
fn simple_receipt() {
    run_full_trip(
        receipt("Target", "2022-01-02", "13:13", &[("Pepsi - 12-oz", "1.25")], "1.25"),
        31,
    );
}

#[test]
fn example_1() {
    run_full_trip(
        receipt(
            "Target",
            "2022-01-01",
            "13:01",
            &[
                ("Mountain Dew 12PK", "6.49"),
                ("Emils Cheese Pizza", "12.25"),
                ("Knorr Creamy Chicken", "1.26"),
                ("Doritos Nacho Cheese", "3.35"),
                ("   Klarbrunn 12-PK 12 FL OZ  ", "12.00"),
            ],
            "35.35",
        ),
        28,
    );
}

#[test]
fn example_2() {
    run_full_trip(
        receipt(
            "M&M Corner Market",
            "2022-03-20",
            "14:33",
            &[
                ("Gatorade", "2.25"),
                ("Gatorade", "2.25"),
                ("Gatorade", "2.25"),
                ("Gatorade", "2.25"),
            ],
            "9.00",
        ),
        109,
    );
}

#[test]
fn not_found() {
    let connection = Connection::new();
    let id = uuid::Uuid::new_v4().as_u128();
    assert!(get_points(&connection, id).is_none());
}

#[test]
fn bad_receipt() {
    let mut connection = Connection::new();
    let refused = receipt("Target!", "2022-01-02", "13:13", &[("Pepsi - 12-oz", "1.25")], "1.25");
    assert!(process_receipt(&mut connection, refused).is_none());
}

fn at(clock: &str) -> u64 {
    calculate_points(&receipt("-", "2022-01-02", clock, &[("ab", "1.01")], "1.01"))
}

#[test]
fn afternoon_window_excludes_its_ends() {
    assert_eq!(at("13:59"), 0);
    assert_eq!(at("14:00"), 0);
    assert_eq!(at("14:01"), 10);
    assert_eq!(at("15:00"), 10);
    assert_eq!(at("15:59"), 10);
    assert_eq!(at("16:00"), 0);
    assert_eq!(at("16:01"), 0);
}

fn bonus(description: &str, price: &str) -> u64 {
    calculate_points(&receipt("-", "2022-01-02", "10:00", &[(description, price)], "1.01"))
}

#[test]
fn exact_fifth_is_not_rounded_further() {
    assert_eq!(bonus("abc", "10.00"), 2);
    assert_eq!(bonus("abc", "5.00"), 1);
    assert_eq!(bonus("abc", "0.00"), 0);
}

#[test]
fn fifth_of_price_is_rounded_up() {
    assert_eq!(bonus("abc", "12.25"), 3);
    assert_eq!(bonus("abc", "10.01"), 3);
    assert_eq!(bonus("abc", "0.01"), 1);
    assert_eq!(bonus("abc", "4.99"), 1);
    assert_eq!(bonus("abc", "18446744073709551615.99"), 3689348814741910324);
}

#[test]
fn bonus_needs_trimmed_length_in_threes() {
    assert_eq!(bonus("ab", "10.00"), 0);
    assert_eq!(bonus("abcd", "10.00"), 0);
    assert_eq!(bonus("  abc \t", "10.00"), 2);
    assert_eq!(bonus(" a bc ", "10.00"), 0);
    assert_eq!(bonus(" a b ", "10.00"), 2);
    assert_eq!(bonus("   ", "10.00"), 2);
    assert_eq!(bonus("\u{a0}abc\u{2003}", "10.00"), 2);
}

#[test]
fn trimmed_length_is_counted_in_bytes() {
    assert_eq!(bonus("\u{e9}a", "10.00"), 2);
    assert_eq!(bonus("\u{e9}ab", "10.00"), 0);
    assert_eq!(bonus("\u{4e2d}", "10.00"), 2);
    assert_eq!(bonus("\u{1d7d8}ab", "10.00"), 2);
}

#[test]
fn retailer_points_count_letters_and_digits() {
    let score = |name: &str| {
        calculate_points(&receipt(name, "2022-01-02", "10:00", &[("ab", "1.01")], "1.01"))
    };
    assert_eq!(score("Target"), 6);
    assert_eq!(score("M&M Corner Market"), 14);
    assert_eq!(score("a-1 & b_2"), 4);
    assert_eq!(score("Caf\u{e9} \u{4e2d}\u{6587} \u{663}"), 7);
    assert_eq!(score("&- \u{20ac}"), 0);
}

#[test]
fn total_points_round_and_quarter() {
    let score = |total: &str| {
        calculate_points(&receipt("-", "2022-01-02", "10:00", &[("ab", "1.01")], total))
    };
    assert_eq!(score("9.00"), 75);
    assert_eq!(score("9.25"), 25);
    assert_eq!(score("9.50"), 25);
    assert_eq!(score("9.75"), 25);
    assert_eq!(score("9.24"), 0);
}

#[test]
fn odd_day_and_item_pairs() {
    let score = |day: &str, count: usize| {
        let items: Vec<(&str, &str)> = (0..count).map(|_| ("ab", "1.01")).collect();
        calculate_points(&receipt("-", day, "10:00", &items, "1.01"))
    };
    assert_eq!(score("2022-01-31", 1), 6);
    assert_eq!(score("2022-01-30", 1), 0);
    assert_eq!(score("2022-01-30", 2), 5);
    assert_eq!(score("2022-01-30", 3), 5);
    assert_eq!(score("2022-01-30", 10), 25);
}

#[test]
fn points_are_capped() {
    let items = [("abc", "18446744073709551615.99"); 6];
    let score = calculate_points(&receipt("-", "2022-01-02", "10:00", &items, "1.01"));
    assert_eq!(score, u64::MAX);
}

#[test]
fn scoring_twice_gives_the_same() {
    let value = receipt("M&M Corner Market", "2022-03-21", "14:33", &[("abc", "2.25")], "9.00");
    assert_eq!(calculate_points(&value), calculate_points(&value));
    assert_eq!(calculate_points(&value), calculate_points(&value.clone()));
}
