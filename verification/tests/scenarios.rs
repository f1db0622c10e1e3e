use bucketize::Bucketizer;

#[test]
fn three_buckets_in_priority_order() {
    let b = Bucketizer::new()
        .bucket(Some(10.0), Some(20.0), 15.0)
        .bucket(Some(5.0), Some(10.0), 7.5)
        .bucket(None, Some(4.0), 0.0);

    assert_eq!(b.bucketize(12.34), Some(15.0));
    assert_eq!(b.bucketize(9999.99), None);
    assert_eq!(b.bucketize(7.0), Some(7.5));
    assert_eq!(b.bucketize(-3.0), Some(0.0));
    assert_eq!(b.bucketize(4.0), None);
    assert_eq!(b.bucketize(4.5), None);
    assert_eq!(b.bucketize(20.0), None);
}

#[test]
fn one_bucket_without_upper_bound() {
    let b = Bucketizer::new().bucket(Some(10.0), None, 10.0);

    assert_eq!(b.bucketize(12.0), Some(10.0));
    assert_eq!(b.bucketize(-10.0), None);
    assert_eq!(b.bucketize(10.0), Some(10.0));
    assert_eq!(b.bucketize(f64::INFINITY), Some(10.0));
}

#[test]
fn later_bucket_fills_the_gap_below() {
    let b = Bucketizer::new()
        .bucket(Some(10.0), None, 10.0)
        .bucket(Some(0.0), Some(10.0), 5.0);

    assert_eq!(b.bucketize(4.132), Some(5.0));
    assert_eq!(b.bucketize(12.0), Some(10.0));
    assert_eq!(b.bucketize(-10.0), None);
}

#[test]
fn unit_interval() {
    let b = Bucketizer::new().bucket(Some(0.0), Some(1.0), 0.5);

    assert_eq!(b.bucketize(0.0), Some(0.5));
    assert_eq!(b.bucketize(1.0), None);
}

#[test]
fn two_adjacent_closed_buckets() {
    let b = Bucketizer::new()
        .bucket(Some(-1.0), Some(0.0), -0.5)
        .bucket(Some(0.0), Some(1.0), 0.5);

    assert_eq!(b.bucketize(0.0), Some(0.5));
    assert_eq!(b.bucketize(-0.7), Some(-0.5));
    assert_eq!(b.bucketize(1.0), None);
}

#[test]
fn closed_bucket_then_open_ended_bucket() {
    let b = Bucketizer::new()
        .bucket(Some(0.0), Some(1.0), 0.5)
        .bucket(Some(1.0), None, 1.5);

    assert_eq!(b.bucketize(0.0), Some(0.5));
    assert_eq!(b.bucketize(-0.7), None);
    assert_eq!(b.bucketize(1.0), Some(1.5));
}
