use openflow::co2::{bucket_to_co2, co2_to_bucket, Co2, BUCKETS, HIGH, LOW, MAX_BUCKET};
use openflow::histogram::Histogram;

#[test]
fn test_co2_update_with_values_less_than_smallest_bucket() {
    let mut co2 = Co2::new();

    co2.update();
    assert_eq!(co2.value, 400);

    co2.add(390);
    co2.update();
    assert_eq!(co2.value, 400);
}

#[test]
fn test_co2_update_without_any_samples() {
    let mut co2 = Co2::new();

    co2.update();
    assert_eq!(co2.value, 400);
}

#[test]
fn test_co2_update_with_values_in_between_buckets() {
    let mut co2 = Co2::new();

    co2.add(720);
    co2.add(720);
    co2.update();
    assert_eq!(co2.value, 725);

    co2.add(735);
    co2.add(735);
    co2.update();
    assert_eq!(co2.value, 725);

    co2.add(760);
    co2.add(760);
    co2.update();
    assert_eq!(co2.value, 750);

    co2.add(775);
    co2.add(775);
    co2.update();
    assert_eq!(co2.value, 775);

    co2.add(785);
    co2.add(785);
    co2.update();
    assert_eq!(co2.value, 775);

    co2.add(740);
    co2.add(740);
    co2.update();
    assert_eq!(co2.value, 750);
}

#[test]
fn test_co2_update_with_samples() {
    let mut co2 = Co2::new();

    co2.add(710);
    co2.add(780);
    co2.update();
    assert_eq!(co2.value, 725);

    co2.add(750);
    co2.add(803);
    co2.add(810);
    co2.update();
    assert_eq!(co2.value, 775);

    co2.add(1250);
    co2.add(1500);
    co2.update();
    assert_eq!(co2.value, 1200);

    co2.update();
    assert_eq!(co2.value, 400);

    co2.add(2500);
    co2.add(2500);
    co2.update();
    assert_eq!(co2.value, 1200);
}

#[test]
fn test_co2_update_with_several_outliers() {
    let mut co2 = Co2::new();

    co2.add(725);
    co2.add(725);
    co2.add(725);
    co2.add(800);
    co2.add(875);
    co2.add(950);
    co2.add(950);
    co2.add(1200);
    co2.add(1200);
    co2.update();
    assert_eq!(co2.value, 900);
}

#[test]
fn test_co2_update_with_a_short_increase() {
    let mut co2 = Co2::new();

    co2.add(675);
    co2.add(675);
    co2.add(675);
    co2.add(675);
    co2.add(1200);
    co2.add(1200);
    co2.add(800);
    co2.update();

    assert_eq!(co2.value, 850);
}

#[test]
fn test_co2_update_with_an_even_distribution() {
    let mut co2 = Co2::new();

    co2.add(500);
    co2.add(500);
    co2.add(700);
    co2.add(700);
    co2.add(750);
    co2.add(750);
    co2.add(800);
    co2.add(800);
    co2.add(900);
    co2.add(900);

    co2.update();
    assert_eq!(co2.value, 725);
}

#[test]
fn co2_bucket_boundaries() {
    assert_eq!(BUCKETS, 33);
    assert_eq!(MAX_BUCKET, 32);
    assert_eq!(co2_to_bucket(0), 0);
    assert_eq!(co2_to_bucket(LOW), 0);
    assert_eq!(co2_to_bucket(412), 0);
    assert_eq!(co2_to_bucket(413), 1);
    assert_eq!(co2_to_bucket(737), 13);
    assert_eq!(co2_to_bucket(738), 14);
    assert_eq!(co2_to_bucket(HIGH), 32);
    assert_eq!(co2_to_bucket(HIGH + 1), 32);
    assert_eq!(co2_to_bucket(u64::MAX), 32);
    assert_eq!(bucket_to_co2(0), 400);
    assert_eq!(bucket_to_co2(13), 725);
    assert_eq!(bucket_to_co2(32), 1200);
}

#[test]
fn co2_bucket_round_trip_law() {
    for b in 0..=MAX_BUCKET {
        assert_eq!(co2_to_bucket(bucket_to_co2(b)), b);
    }
}

#[test]
fn co2_bucket_nearest_law() {
    for co2 in LOW..=HIGH {
        let rep = bucket_to_co2(co2_to_bucket(co2)) as i64;
        assert!((rep - co2 as i64).abs() <= 12);
    }
}

#[test]
fn co2_bucket_monotone_law() {
    let mut last = 0;
    for co2 in 0..1500u64 {
        let b = co2_to_bucket(co2);
        assert!(b >= last);
        last = b;
    }
}

#[test]
fn co2_single_bucket_law() {
    let mut co2 = Co2::new();
    for _ in 0..7 {
        co2.add(1010);
    }
    co2.update();
    assert_eq!(co2.value, 1000);
}

#[test]
fn co2_estimate_on_grid_law() {
    let mut co2 = Co2::new();
    co2.add(401);
    co2.add(999);
    co2.add(1111);
    co2.update();
    assert!(co2.value >= 400 && co2.value <= 1200);
    assert_eq!((co2.value - 400) % 25, 0);
}

#[test]
fn histogram_operations() {
    let mut h = Histogram::new(4);
    assert_eq!(h.iter(), vec![0, 0, 0, 0]);
    h.increment(1);
    h.increment(1);
    h.increment(3);
    assert_eq!(h.get(1), 2);
    assert_eq!(h.get(3), 1);
    assert_eq!(h.iter(), vec![0, 2, 0, 1]);
    h.remove(1);
    assert_eq!(h.iter(), vec![0, 0, 0, 1]);
    h.reset();
    assert_eq!(h.iter(), vec![0, 0, 0, 0]);
}
