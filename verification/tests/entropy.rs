use tropy::{slice_histogram, Calculator, Histogram};

/// Shannon entropy in bits per byte over a histogram: `-sum p * log2(p)`
/// over the buckets with a nonzero count. An empty histogram contributes no
/// terms, so its entropy is the empty sum, zero.
fn shannon(h: &Histogram) -> f64 {
    let total = h.total as f64;
    let mut e = 0.0;
    for &c in h.counts.iter() {
        if c > 0 {
            let p = c as f64 / total;
            e -= p * p.log2();
        }
    }
    e
}

#[test]
fn simple() {
    let x = [0u8, 23u8, 66u8, 1u8];
    let e = shannon(&slice_histogram(&x));
    assert_eq!(e, 2.0);

    let x = [0u8, 0u8, 66u8, 1u8];
    let e = shannon(&slice_histogram(&x));
    assert_eq!(e, 1.5);

    let x = [0u8, 1u8];
    let e = shannon(&slice_histogram(&x));
    assert_eq!(e, 1.0);
}

#[test]
fn empty_input_has_zero_entropy() {
    let h = slice_histogram(&[]);
    assert_eq!(h.total, 0);
    assert_eq!(shannon(&h), 0.0);
}

#[test]
fn single_value_has_zero_entropy() {
    assert_eq!(shannon(&slice_histogram(&[42u8])), 0.0);
    assert_eq!(shannon(&slice_histogram(&[7u8; 5])), 0.0);
    assert_eq!(shannon(&slice_histogram(&[255u8; 1024])), 0.0);
}

#[test]
fn all_byte_values_once_has_maximal_entropy() {
    let mut x = [0u8; 256];
    for (i, b) in x.iter_mut().enumerate() {
        *b = i as u8;
    }
    let h = slice_histogram(&x);
    assert_eq!(h.total, 256);
    assert_eq!(shannon(&h), 8.0);
}

#[test]
fn entropy_stays_between_zero_and_eight() {
    let samples: [&[u8]; 5] = [
        &[],
        &[0u8],
        &[1u8, 1, 2, 3, 5, 8, 13, 21, 34, 55, 89, 144, 233],
        &[0u8, 0, 0, 0, 0, 0, 0, 1],
        b"the quick brown fox jumps over the lazy dog",
    ];
    for s in samples {
        let e = shannon(&slice_histogram(s));
        assert!((0.0..=8.0).contains(&e));
    }
}

#[test]
fn histogram_counts_each_value() {
    let h = slice_histogram(&[0u8, 0u8, 66u8, 1u8]);
    assert_eq!(h.counts.len(), 256);
    assert_eq!(h.counts[0], 2);
    assert_eq!(h.counts[1], 1);
    assert_eq!(h.counts[66], 1);
    assert_eq!(h.counts[2], 0);
    assert_eq!(h.total, 4);
}

#[test]
fn write_reports_the_input_length() {
    let mut c = Calculator::new();
    assert_eq!(c.write(&[1u8, 2, 3]), Ok(3));
    assert_eq!(c.write(&[]), Ok(0));
    let h = c.compute_and_reset();
    assert_eq!(h.total, 3);
}

#[test]
fn reuse_without_ingest_returns_zero() {
    let mut c = Calculator::new();
    c.write(&[9u8, 9, 1, 4]).unwrap();
    let first = c.compute_and_reset();
    assert_eq!(first.total, 4);
    let second = c.compute_and_reset();
    assert_eq!(second.total, 0);
    assert!(second.counts.iter().all(|&n| n == 0));
    assert_eq!(shannon(&second), 0.0);
}

#[test]
fn ingestion_is_order_independent() {
    let (a, b) = (17u8, 200u8);

    let mut c = Calculator::new();
    c.write(&[a, b]).unwrap();
    let fwd = c.compute_and_reset();

    c.write(&[b, a]).unwrap();
    let rev = c.compute_and_reset();

    c.write(&[a]).unwrap();
    c.write(&[b]).unwrap();
    let split = c.compute_and_reset();

    assert_eq!(fwd.counts, rev.counts);
    assert_eq!(fwd.counts, split.counts);
    assert_eq!(fwd.total, rev.total);
    assert_eq!(fwd.total, split.total);
    assert_eq!(shannon(&fwd), shannon(&rev));
    assert_eq!(shannon(&fwd), shannon(&split));
}

#[test]
fn one_shot_matches_manual_use() {
    let x = b"abbcccdddd";

    let one_shot = slice_histogram(x);

    let mut c = Calculator::new();
    c.write(x).unwrap();
    let manual = c.compute_and_reset();

    assert_eq!(one_shot.counts, manual.counts);
    assert_eq!(one_shot.total, manual.total);
    assert_eq!(shannon(&one_shot), shannon(&manual));
}
