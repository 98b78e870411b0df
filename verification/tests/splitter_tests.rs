use dataset_engine::splitter::split_batch;

#[test]
fn batch_that_fits_is_one_request() {
    assert_eq!(split_batch(3, 4), vec![3]);
    assert_eq!(split_batch(4, 4), vec![4]);
    assert_eq!(split_batch(10, 10), vec![10]);
}

#[test]
fn large_batch_is_divided_and_last_takes_remainder() {
    assert_eq!(split_batch(10, 3), vec![3, 3, 4]);
    assert_eq!(split_batch(12, 4), vec![3, 3, 3, 3]);
    assert_eq!(split_batch(7, 4), vec![1, 1, 1, 4]);
    assert_eq!(split_batch(10, 1), vec![10]);
}

#[test]
fn sub_batches_cover_the_batch() {
    let mut entries: usize = 0;
    while entries < 60 {
        let mut fan_out: usize = 1;
        while fan_out < 9 {
            let sizes = split_batch(entries, fan_out);
            assert_eq!(sizes.iter().sum::<usize>(), entries);
            assert!(sizes.len() >= 1 && sizes.len() <= fan_out);
            fan_out += 1;
        }
        entries += 1;
    }
}

#[test]
fn empty_batch_is_one_empty_request() {
    assert_eq!(split_batch(0, 3), vec![0]);
}
