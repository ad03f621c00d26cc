use wasm_futures_executor::bignat::{product_of, BigNat};
use wasm_futures_executor::factorial::{factorial_chunks, factorial_range, factorial_single};

#[test]
fn factorial_single_small_values() {
    assert_eq!(factorial_single(0), "1");
    assert_eq!(factorial_single(1), "1");
    assert_eq!(factorial_single(5), "120");
    assert_eq!(factorial_single(10), "3628800");
}

#[test]
fn factorial_single_beyond_machine_words() {
    assert_eq!(factorial_single(20), "2432902008176640000");
    assert_eq!(factorial_single(25), "15511210043330985984000000");
}

#[test]
fn factorial_range_products() {
    assert_eq!(factorial_range(3, 5).to_decimal_string(), "60");
    assert_eq!(factorial_range(7, 7).to_decimal_string(), "7");
    assert_eq!(factorial_range(5, 3).to_decimal_string(), "1");
    assert_eq!(factorial_range(0, 4).to_decimal_string(), "0");
}

#[test]
fn bignat_arithmetic() {
    let a = BigNat::from_u32(u32::MAX);
    let b = a.mul(&a);
    assert_eq!(b.to_decimal_string(), "18446744065119617025");
    assert_eq!(BigNat::one().to_decimal_string(), "1");
    assert_eq!(BigNat::from_u32(0).to_decimal_string(), "0");
    let parts = vec![BigNat::from_u32(2), BigNat::from_u32(3), BigNat::from_u32(7)];
    assert_eq!(product_of(&parts).to_decimal_string(), "42");
    assert_eq!(product_of(&Vec::new()).to_decimal_string(), "1");
}

#[test]
fn chunks_of_small_numbers() {
    assert_eq!(factorial_chunks(0), vec![]);
    assert_eq!(factorial_chunks(1), vec![]);
    assert_eq!(factorial_chunks(2), vec![(1, 1)]);
    assert_eq!(factorial_chunks(5), vec![(1, 1), (2, 2), (3, 3), (4, 4)]);
}

#[test]
fn chunks_of_larger_numbers() {
    assert_eq!(factorial_chunks(8), vec![(1, 2), (3, 4), (5, 6), (7, 8)]);
    assert_eq!(factorial_chunks(16), vec![(1, 3), (4, 6), (7, 9), (10, 12), (13, 15)]);
    assert_eq!(factorial_chunks(17), vec![(1, 3), (4, 6), (7, 9), (10, 12), (13, 15), (16, 17)]);
}

#[test]
fn chunks_at_the_top_of_the_range() {
    let c = factorial_chunks(u32::MAX);
    assert_eq!(c.len(), 8);
    assert_eq!(c[0], (1, 536870912));
    assert_eq!(c[7], (3758096385, u32::MAX));
}

fn chunked(n: u32) -> String {
    let parts: Vec<BigNat> = factorial_chunks(n)
        .into_iter()
        .map(|(lo, hi)| factorial_range(lo, hi))
        .collect();
    product_of(&parts).to_decimal_string()
}

#[test]
fn chunked_product_matches_factorial_when_chunks_reach_n() {
    assert_eq!(chunked(8), factorial_single(8));
    assert_eq!(chunked(17), factorial_single(17));
    assert_eq!(chunked(1), factorial_single(1));
}

#[test]
fn chunked_product_leaves_out_n_when_chunks_stop_short() {
    assert_eq!(chunked(5), factorial_single(4));
    assert_eq!(chunked(16), factorial_single(15));
}
