use moreutils::common::{rotate_vector, strip_terminator, OsLinesExt, RingBuffer};

#[test]
fn ring_starts_empty() {
    assert_eq!(RingBuffer::new(8).to_vec(), Vec::<u8>::new());
    assert_eq!(RingBuffer::new(8).into_vec(), Vec::<u8>::new());
    assert_eq!(RingBuffer::new(0).to_vec(), Vec::<u8>::new());
    assert_eq!(RingBuffer::new(0).into_vec(), Vec::<u8>::new());
}

#[test]
fn ring_keeps_everything_until_it_is_full() {
    let mut ring = RingBuffer::new(4);
    ring.insert(1);
    assert_eq!(ring.to_vec(), vec![1]);
    ring.insert(2);
    ring.insert(3);
    assert_eq!(ring.to_vec(), vec![1, 2, 3]);
    ring.insert(4);
    assert_eq!(ring.to_vec(), vec![1, 2, 3, 4]);
    assert_eq!(ring.into_vec(), vec![1, 2, 3, 4]);
}

#[test]
fn ring_forgets_the_oldest_bytes() {
    let mut ring = RingBuffer::new(3);
    for byte in 1..=5u8 {
        ring.insert(byte);
    }
    assert_eq!(ring.to_vec(), vec![3, 4, 5]);
    ring.insert(6);
    assert_eq!(ring.to_vec(), vec![4, 5, 6]);
    assert_eq!(ring.into_vec(), vec![4, 5, 6]);
}

#[test]
fn ring_of_one_keeps_the_last_byte() {
    let mut ring = RingBuffer::new(1);
    ring.insert(7);
    assert_eq!(ring.to_vec(), vec![7]);
    ring.insert(8);
    assert_eq!(ring.to_vec(), vec![8]);
    assert_eq!(ring.into_vec(), vec![8]);
}

#[test]
fn ring_matches_a_model_at_every_step() {
    for capacity in 1..10usize {
        let mut ring = RingBuffer::new(capacity);
        let mut model: Vec<u8> = Vec::new();
        for byte in 0..40u8 {
            ring.insert(byte);
            model.push(byte);
            if model.len() > capacity {
                model.remove(0);
            }
            assert_eq!(ring.to_vec(), model);
        }
        assert_eq!(ring.into_vec(), model);
    }
}

#[test]
fn into_vec_after_a_partial_fill_and_at_every_wrap_position() {
    for inserted in 0..20u8 {
        let mut ring = RingBuffer::new(8);
        for byte in 0..inserted {
            ring.insert(byte);
        }
        let expected: Vec<u8> = (inserted.saturating_sub(8)..inserted).collect();
        assert_eq!(ring.into_vec(), expected);
    }
}

#[test]
fn rotate_turns_to_the_right() {
    let mut values = vec![1, 2, 3, 4, 5];
    rotate_vector(&mut values, 2);
    assert_eq!(values, vec![4, 5, 1, 2, 3]);
    rotate_vector(&mut values, 0);
    assert_eq!(values, vec![4, 5, 1, 2, 3]);
    rotate_vector(&mut values, 5);
    assert_eq!(values, vec![4, 5, 1, 2, 3]);
    rotate_vector(&mut values, 6);
    assert_eq!(values, vec![3, 4, 5, 1, 2]);
    let mut single = vec![9u8];
    rotate_vector(&mut single, 3);
    assert_eq!(single, vec![9]);
}

#[test]
fn rotate_agrees_with_the_standard_rotation() {
    for len in 1..9usize {
        for n in 0..20usize {
            let mut values: Vec<u32> = (0..len as u32).collect();
            let mut expected = values.clone();
            expected.rotate_right(n % len);
            rotate_vector(&mut values, n);
            assert_eq!(values, expected);
        }
    }
}

#[test]
fn terminator_is_stripped() {
    let cases: [(&[u8], &[u8]); 9] = [
        (b"abc\n", b"abc"),
        (b"abc\r\n", b"abc"),
        (b"abc", b"abc"),
        (b"abc\r", b"abc\r"),
        (b"\n", b""),
        (b"\r\n", b""),
        (b"", b""),
        (b"a\r\r\n", b"a\r"),
        (b"a\n\n", b"a\n"),
    ];
    for (input, expected) in cases {
        let mut line = input.to_vec();
        strip_terminator(&mut line);
        assert_eq!(line, expected.to_vec());
    }
}

fn lines_of(data: &[u8]) -> Vec<Vec<u8>> {
    let mut lines = data.to_vec().os_lines();
    let mut all = Vec::new();
    while let Some(line) = lines.next() {
        all.push(line);
        assert!(all.len() < 1000);
    }
    assert_eq!(lines.next(), None);
    all
}

#[test]
fn lines_are_split_at_newlines() {
    assert_eq!(lines_of(b""), Vec::<Vec<u8>>::new());
    assert_eq!(lines_of(b"one\ntwo\n"), vec![b"one".to_vec(), b"two".to_vec()]);
    assert_eq!(lines_of(b"one\ntwo"), vec![b"one".to_vec(), b"two".to_vec()]);
    assert_eq!(lines_of(b"one\r\ntwo\r\n"), vec![b"one".to_vec(), b"two".to_vec()]);
    assert_eq!(lines_of(b"\n\n"), vec![b"".to_vec(), b"".to_vec()]);
    assert_eq!(lines_of(b"a\rb\n"), vec![b"a\rb".to_vec()]);
    assert_eq!(lines_of(b"last\r"), vec![b"last\r".to_vec()]);
    assert_eq!(lines_of(&[0xff, 0x0a, 0xfe]), vec![vec![0xffu8], vec![0xfeu8]]);
}

#[test]
fn rotate_turns_values_that_cannot_be_copied() {
    let mut values = vec!["a".to_string(), "b".to_string(), "c".to_string(), "d".to_string()];
    rotate_vector(&mut values, 1);
    assert_eq!(values, vec!["d", "a", "b", "c"]);
    rotate_vector(&mut values, 7);
    assert_eq!(values, vec!["a", "b", "c", "d"]);
}
