use fenwick::low_bit::lowest_set_bit;
use fenwick::{Ftree, Summand};

/// The amounts of a fixed, irregular run of additions over `n` positions.
fn sample_calls(n: i64, count: i64) -> Vec<(i64, i64)> {
    let mut calls: Vec<(i64, i64)> = Vec::new();
    let mut seed: i64 = 12345;
    let mut i: i64 = 0;
    while i < count {
        seed = (seed * 1103515245 + 12345) % 2147483648;
        let idx = seed % n + 1;
        seed = (seed * 1103515245 + 12345) % 2147483648;
        let amount = seed % 2001 - 1000;
        calls.push((idx, amount));
        i += 1;
    }
    calls
}

#[test]
fn query_at_zero_of_new_tree_is_identity() {
    let sizes: Vec<i64> = vec![0, 1, 2, 3, 7, 8, 9, 100, 1000];
    for n in sizes {
        let f: Ftree<i64> = Ftree::new(n);
        assert_eq!(f.query(0), 0);
    }
}

#[test]
fn every_query_of_new_tree_is_identity() {
    let f: Ftree<i64> = Ftree::new(33);
    let mut k: i64 = 0;
    while k <= 33 {
        assert_eq!(f.query(k), 0);
        k += 1;
    }
}

#[test]
fn query_at_zero_stays_identity_after_additions() {
    let mut f: Ftree<i64> = Ftree::new(5);
    f.add(1, 9);
    f.add(5, -4);
    assert_eq!(f.query(0), 0);
}

#[test]
fn query_of_all_is_total_of_amounts() {
    let n: i64 = 37;
    let calls = sample_calls(n, 500);
    let mut f: Ftree<i64> = Ftree::new(n);
    let mut total: i64 = 0;
    for (idx, amount) in calls {
        f.add(idx, amount);
        total += amount;
        assert_eq!(f.query(n), total);
    }
}

#[test]
fn queries_match_plain_sums() {
    let n: i64 = 64;
    let calls = sample_calls(n, 300);
    let mut f: Ftree<i64> = Ftree::new(n);
    let mut items: Vec<i64> = vec![0; 64];
    for (idx, amount) in calls {
        f.add(idx, amount);
        items[(idx - 1) as usize] += amount;
    }
    let mut sum: i64 = 0;
    assert_eq!(f.query(0), 0);
    let mut k: i64 = 1;
    while k <= n {
        sum += items[(k - 1) as usize];
        assert_eq!(f.query(k), sum);
        k += 1;
    }
}

#[test]
fn difference_of_queries_is_sum_over_positions_between() {
    let n: i64 = 21;
    let calls = sample_calls(n, 200);
    let mut f: Ftree<i64> = Ftree::new(n);
    for (idx, amount) in calls.iter() {
        f.add(*idx, *amount);
    }
    let mut j: i64 = 0;
    while j <= n {
        let mut k: i64 = j;
        while k <= n {
            let mut between: i64 = 0;
            for (idx, amount) in calls.iter() {
                if j < *idx && *idx <= k {
                    between += *amount;
                }
            }
            assert_eq!(f.query(k) - f.query(j), between);
            k += 1;
        }
        j += 1;
    }
}

#[test]
fn difference_of_queries_on_given_values() {
    let mut f: Ftree<i64> = Ftree::new(6);
    f.add(2, 5);
    f.add(4, 7);
    f.add(4, 1);
    f.add(6, -2);
    assert_eq!(f.query(4) - f.query(1), 13);
    assert_eq!(f.query(6) - f.query(4), -2);
    assert_eq!(f.query(3) - f.query(2), 0);
    assert_eq!(f.query(5) - f.query(5), 0);
}

#[test]
fn repeated_query_gives_same_value() {
    let mut f: Ftree<i64> = Ftree::new(12);
    f.add(3, 4);
    f.add(7, -9);
    f.add(12, 100);
    let mut k: i64 = 0;
    while k <= 12 {
        let first = f.query(k);
        assert_eq!(f.query(k), first);
        assert_eq!(f.query(k), first);
        k += 1;
    }
    assert_eq!(f.query(12), 95);
    assert_eq!(f.query(12), 95);
}

#[test]
fn negated_addition_restores_every_query() {
    let n: i64 = 16;
    let mut f: Ftree<i64> = Ftree::new(n);
    for (idx, amount) in sample_calls(n, 50) {
        f.add(idx, amount);
    }
    let mut was: Vec<i64> = Vec::new();
    let mut k: i64 = 0;
    while k <= n {
        was.push(f.query(k));
        k += 1;
    }
    let mut idx: i64 = 1;
    while idx <= n {
        f.add(idx, 77);
        assert_eq!(f.query(n), was[n as usize] + 77);
        f.add(idx, -77);
        let mut k: i64 = 0;
        while k <= n {
            assert_eq!(f.query(k), was[k as usize]);
            k += 1;
        }
        idx += 1;
    }
}

#[test]
fn addition_reaches_queries_from_its_position_on_only() {
    let mut f: Ftree<i64> = Ftree::new(9);
    f.add(5, 11);
    let mut k: i64 = 0;
    while k <= 9 {
        assert_eq!(f.query(k), if k >= 5 { 11 } else { 0 });
        k += 1;
    }
}

#[test]
fn single_position() {
    let mut f: Ftree<i64> = Ftree::new(1);
    assert_eq!(f.query(1), 0);
    f.add(1, 42);
    assert_eq!(f.query(0), 0);
    assert_eq!(f.query(1), 42);
}

#[test]
fn last_position_of_power_of_two_size() {
    let mut f: Ftree<i64> = Ftree::new(8);
    f.add(8, 6);
    f.add(1, 2);
    assert_eq!(f.query(7), 2);
    assert_eq!(f.query(8), 8);
}

#[test]
fn amounts_at_the_ends_of_the_type() {
    let mut f: Ftree<i64> = Ftree::new(3);
    f.add(1, i64::MAX);
    f.add(3, i64::MIN);
    assert_eq!(f.query(1), i64::MAX);
    assert_eq!(f.query(2), i64::MAX);
    assert_eq!(f.query(3), -1);
}

#[test]
fn unsigned_bytes_up_to_the_largest() {
    let mut f: Ftree<u8> = Ftree::new(4);
    f.add(1, 100);
    f.add(2, 100);
    f.add(3, 55);
    assert_eq!(f.query(2), 200);
    assert_eq!(f.query(4), 255);
}

#[test]
fn other_integer_types() {
    let mut a: Ftree<i8> = Ftree::new(2);
    a.add(1, -128);
    a.add(2, 127);
    assert_eq!(a.query(2), -1);

    let mut b: Ftree<i16> = Ftree::new(2);
    b.add(2, -300);
    assert_eq!(b.query(1), 0);
    assert_eq!(b.query(2), -300);

    let mut c: Ftree<i32> = Ftree::new(3);
    c.add(1, 70000);
    c.add(3, -1);
    assert_eq!(c.query(3), 69999);

    let mut d: Ftree<i128> = Ftree::new(2);
    d.add(1, 170141183460469231731687303715884105727);
    d.add(2, -170141183460469231731687303715884105727);
    assert_eq!(d.query(1), 170141183460469231731687303715884105727);
    assert_eq!(d.query(2), 0);

    let mut e: Ftree<isize> = Ftree::new(2);
    e.add(1, -5);
    e.add(2, 3);
    assert_eq!(e.query(2), -2);

    let mut g: Ftree<u16> = Ftree::new(2);
    g.add(1, 65535);
    assert_eq!(g.query(2), 65535);

    let mut h: Ftree<u32> = Ftree::new(2);
    h.add(2, 4000000000);
    assert_eq!(h.query(1), 0);
    assert_eq!(h.query(2), 4000000000);

    let mut i: Ftree<u64> = Ftree::new(2);
    i.add(1, 18446744073709551615);
    assert_eq!(i.query(2), 18446744073709551615);

    let mut j: Ftree<u128> = Ftree::new(2);
    j.add(1, 1);
    j.add(2, 340282366920938463463374607431768211454);
    assert_eq!(j.query(2), 340282366920938463463374607431768211455);

    let mut k: Ftree<usize> = Ftree::new(3);
    k.add(1, 1);
    k.add(2, 2);
    k.add(3, 4);
    assert_eq!(k.query(3), 7);
}

#[test]
fn identity_and_accumulate() {
    assert_eq!(<i64 as Summand>::identity(), 0);
    assert_eq!(<u8 as Summand>::identity(), 0);
    let mut v: i64 = 40;
    v.accumulate(2);
    assert_eq!(v, 42);
    v.accumulate(-50);
    assert_eq!(v, -8);
    let mut w: u32 = 7;
    w.accumulate(0);
    assert_eq!(w, 7);
    w.accumulate(4294967288);
    assert_eq!(w, 4294967295);
}

#[test]
fn lowest_set_bit_values() {
    assert_eq!(lowest_set_bit(1), 1);
    assert_eq!(lowest_set_bit(2), 2);
    assert_eq!(lowest_set_bit(3), 1);
    assert_eq!(lowest_set_bit(4), 4);
    assert_eq!(lowest_set_bit(6), 2);
    assert_eq!(lowest_set_bit(12), 4);
    assert_eq!(lowest_set_bit(40), 8);
    assert_eq!(lowest_set_bit(1023), 1);
    assert_eq!(lowest_set_bit(1024), 1024);
    assert_eq!(lowest_set_bit(4611686018427387904), 4611686018427387904);
    assert_eq!(lowest_set_bit(i64::MAX), 1);
}
