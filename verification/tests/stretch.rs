use resyn::stretch::stretch;

#[test]
fn stretches_500_samples_to_1000() {
    let mut source: Vec<i16> = Vec::new();
    let mut i: i16 = 0;
    while i < 500 {
        source.push(i * 3 - 700);
        i += 1;
    }
    let out = stretch(&source, 1000);
    assert_eq!(out.len(), 1000);
    assert_eq!(out[0], source[0]);
    assert_eq!(out[999], source[499]);
    let mut k: usize = 0;
    while k < 1000 {
        assert_eq!(out[k], source[k / 2]);
        k += 1;
    }
}

#[test]
fn stretches_by_an_uneven_ratio() {
    let out = stretch(&[10, 20, 30], 7);
    // source positions floor(i * 3 / 7) for i = 0..7
    assert_eq!(out, vec![10, 10, 10, 20, 20, 30, 30]);
}

#[test]
fn stretch_to_the_same_length_is_a_copy() {
    let source: Vec<i16> = vec![5, -4, 3, -2, 1];
    assert_eq!(stretch(&source, 5), source);
}

#[test]
fn stretch_to_a_shorter_length_skips_samples() {
    let out = stretch(&[1, 2, 3, 4, 5, 6], 3);
    assert_eq!(out, vec![1, 3, 5]);
}

#[test]
fn stretch_of_nothing_is_nothing() {
    let empty: Vec<i16> = Vec::new();
    assert_eq!(stretch(&empty, 10), empty);
    assert_eq!(stretch(&[1, 2], 0), empty);
}

#[test]
fn stretch_of_one_sample_repeats_it() {
    assert_eq!(stretch(&[-9], 3), vec![-9, -9, -9]);
}
