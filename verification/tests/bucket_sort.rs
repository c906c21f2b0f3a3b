use sapri::bucket::{counting_sort_u16, counting_sort_u16_stable, counting_sort_u8, sort_words_by_prefix};

#[test]
fn test_counting_sort_u8() {
    let mut data = vec![5, 2, 8, 1, 9, 3, 7, 4, 6, 0];
    let mut expected = data.clone();
    expected.sort();

    counting_sort_u8(&mut data);
    assert_eq!(data, expected);
}

#[test]
fn test_counting_sort_u8_with_duplicates() {
    let mut data = vec![5, 2, 5, 1, 2, 3, 1, 4, 1, 0];
    let mut expected = data.clone();
    expected.sort();

    counting_sort_u8(&mut data);
    assert_eq!(data, expected);
}

#[test]
fn test_counting_sort_u16() {
    let mut data = vec![0x0102, 0x00FF, 0xFFFF, 0x1234, 0x0001];
    let mut expected = data.clone();
    expected.sort();

    counting_sort_u16(&mut data);
    assert_eq!(data, expected);
}

#[test]
fn test_counting_sort_u16_large() {
    let mut data = Vec::with_capacity(1000);
    for i in 0..1000 {
        data.push((i * 257) & 0xFFFF);
    }
    let mut expected = data.clone();
    expected.sort();

    counting_sort_u16(&mut data);
    assert_eq!(data, expected);
}

#[test]
fn test_counting_sort_u16_stable() {
    let pairs: Vec<(u16, usize)> = (0..100).map(|i| ((i % 10) as u16, i)).collect();

    let mut keys: Vec<u32> = pairs.iter().map(|(k, _)| *k as u32).collect();

    counting_sort_u16_stable(&mut keys);
}

#[test]
fn test_sort_words_by_prefix() {
    let words = vec![
        b"zebra".to_vec(),
        b"apple".to_vec(),
        b"banana".to_vec(),
        b"cherry".to_vec(),
    ];

    let mut sorted = Vec::new();
    sort_words_by_prefix(&words, &mut sorted);

    assert_eq!(sorted.len(), words.len());
    assert_eq!(
        sorted,
        vec![b"apple".to_vec(), b"banana".to_vec(), b"cherry".to_vec(), b"zebra".to_vec()]
    );
}

#[test]
fn test_empty_input() {
    let mut data: Vec<u32> = vec![];
    counting_sort_u8(&mut data);
    assert!(data.is_empty());

    counting_sort_u16(&mut data);
    assert!(data.is_empty());

    counting_sort_u16_stable(&mut data);
    assert!(data.is_empty());
}

#[test]
fn u8_sort_keeps_only_the_low_byte() {
    let mut data = vec![0x0102, 0x00FF, 0x0123];
    counting_sort_u8(&mut data);
    assert_eq!(data, vec![0x02, 0x23, 0xFF]);
}

#[test]
fn u16_sort_keeps_only_the_low_16_bits() {
    let mut data = vec![0x1_0005, 0x0003, 0xABCD_0004];
    counting_sort_u16(&mut data);
    assert_eq!(data, vec![3, 4, 5]);
}

#[test]
fn stable_sort_keeps_whole_values_in_input_order_per_key() {
    let mut data = vec![0x2_0001, 0x0000, 0x1_0001, 0x3_0000, 0x0001];
    counting_sort_u16_stable(&mut data);
    assert_eq!(data, vec![0x0000, 0x3_0000, 0x2_0001, 0x1_0001, 0x0001]);
}

#[test]
fn sort_words_orders_by_first_two_bytes() {
    let words = vec![b"zebra".to_vec(), b"a".to_vec(), Vec::new(), b"ab".to_vec(), b"aa".to_vec()];
    let mut sorted = vec![b"old".to_vec()];
    sort_words_by_prefix(&words, &mut sorted);
    assert_eq!(
        sorted,
        vec![Vec::new(), b"a".to_vec(), b"aa".to_vec(), b"ab".to_vec(), b"zebra".to_vec()]
    );
    let mut two = Vec::new();
    sort_words_by_prefix(&[vec![2], vec![1]], &mut two);
    assert_eq!(two, vec![vec![1], vec![2]]);
}

#[test]
fn sort_words_with_no_words_gives_nothing() {
    let words: Vec<Vec<u8>> = Vec::new();
    let mut sorted = vec![b"old".to_vec()];
    sort_words_by_prefix(&words, &mut sorted);
    assert!(sorted.is_empty());
}
