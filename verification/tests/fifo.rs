use lc3_utp::fifo::{Fifo, DEFAULT_CAPACITY};

#[derive(Debug, Clone, PartialEq, Eq)]
struct Cloneable {
    a: usize,
    b: usize,
    c: usize,
}

impl Cloneable {
    fn new(n: usize) -> Self {
        Self { a: n, b: n, c: n }
    }
}

// A type that does *not* implement Clone.
#[derive(Debug, PartialEq, Eq)]
struct Uncloneable {
    inner: Cloneable,
}

impl Uncloneable {
    fn new(n: usize) -> Self {
        Self { inner: Cloneable::new(n) }
    }
}

// Also tests push_slice (requires Clone)
#[test]
fn new_with_values() {
    let c = Cloneable::new(78);
    let arr = Fifo::<Cloneable>::array_init_using_clone(c.clone());
    let mut fifo = Fifo::<Cloneable>::new();

    assert_eq!(Ok(()), fifo.push_slice(&arr));

    assert_eq!(fifo.length(), fifo.capacity());

    let mut count = 0;
    while let Some(i) = fifo.next() {
        assert_eq!(c, i);
        count += 1;
    }

    assert_eq!(count, fifo.capacity());
}

#[test]
fn push_slice_too_big() {
    let big_slice = [0u8; DEFAULT_CAPACITY + 2];
    let mut fifo = Fifo::<u8>::new();

    assert_eq!(0, fifo.length());
    assert_eq!(Err(()), fifo.push_slice(&big_slice));
    assert_eq!(0, fifo.length());
}

// Tests pushing cloneable values from a borrowed run
#[test]
fn push_iter_ref() {
    let mut fifo = Fifo::<u8>::new();

    let string: Vec<u8> = "Hello World!".bytes().collect();

    assert_eq!(Ok(()), fifo.push_iter_ref(&string));

    let mut idx = 0;
    while let Some(c) = fifo.next() {
        assert_eq!(string[idx], c);
        idx += 1;
    }
    assert_eq!(idx, string.len());
}

// Tests pushing owned values
#[test]
fn push_uncloneable() {
    let mut values: Vec<Uncloneable> = (0..DEFAULT_CAPACITY).map(Uncloneable::new).collect();
    let mut fifo = Fifo::<Uncloneable>::new();

    assert_eq!(Ok(()), fifo.push_iter(&mut values));

    let mut idx = 0;
    while let Some(uc) = fifo.next() {
        assert_eq!(Uncloneable::new(idx), uc);
        idx += 1;
    }
    assert_eq!(idx, DEFAULT_CAPACITY);
}

#[test]
fn overpush() {
    let mut fifo = Fifo::<usize>::new();

    for i in 0..fifo.capacity() {
        assert_eq!(Ok(()), fifo.push(i));
    }

    assert_eq!(Err(()), fifo.push(123));
    assert_eq!(Err(()), fifo.push(567));
}

#[test]
fn overpop() {
    let mut fifo = Fifo::<usize>::new();

    assert_eq!(None, fifo.pop());
    assert_eq!(None, fifo.pop());

    for i in 0..fifo.capacity() {
        assert_eq!(Ok(()), fifo.push(i));
    }

    // Also tests ordering!
    for i in 0..fifo.capacity() {
        assert_eq!(Some(i), fifo.pop());
    }

    assert_eq!(None, fifo.pop());
    assert_eq!(None, fifo.pop());
}

#[test]
fn peek() {
    let mut fifo = Fifo::<u16>::new();

    assert_eq!(Ok(()), fifo.push(278));
    assert_eq!(Ok(()), fifo.push(513));
    assert_eq!(2, fifo.length());

    assert_eq!(Some(&278), fifo.peek());
    assert_eq!(2, fifo.length());

    assert_eq!(Some(278), fifo.pop());
    assert_eq!(1, fifo.length());

    assert_eq!(Some(&513), fifo.peek());
    assert_eq!(1, fifo.length());

    assert_eq!(Some(513), fifo.pop());
    assert_eq!(0, fifo.length());

    assert_eq!(None, fifo.pop());
}

#[test]
fn by_ref() {
    let mut f = Fifo::<u8>::new();

    let mut values: Vec<u8> = (0..10).collect();
    assert_eq!(Ok(()), f.push_iter(&mut values));
    assert_eq!(10, f.length());

    let mut idx: u8 = 0;
    while let Some(i) = f.next() {
        assert_eq!(idx, i);
        idx += 1;
    }

    assert_eq!(0, f.length());
}

// Own tests below.

#[test]
fn wraps_around_and_keeps_order() {
    let mut fifo = Fifo::<u8>::with_capacity(4);
    for round in 0..10u8 {
        assert_eq!(Ok(()), fifo.push(round));
        assert_eq!(Ok(()), fifo.push(round.wrapping_add(100)));
        assert_eq!(Some(round), fifo.pop());
        assert_eq!(Some(round.wrapping_add(100)), fifo.pop());
    }
    assert!(fifo.is_empty());
    assert_eq!(4, fifo.remaining());
}

#[test]
fn as_slice_splits_at_the_wrap() {
    let mut fifo = Fifo::<u8>::with_capacity(4);
    for v in [1u8, 2, 3] {
        assert_eq!(Ok(()), fifo.push(v));
    }
    assert_eq!(Some(1), fifo.pop());
    assert_eq!(Some(2), fifo.pop());
    assert_eq!(Ok(()), fifo.push(4));
    assert_eq!(Ok(()), fifo.push(5));
    let (a, b) = fifo.as_slice();
    assert_eq!(vec![3u8, 4], a);
    assert_eq!(vec![5u8], b);
    assert_eq!(vec![3u8, 4, 5], fifo.to_vec());
    assert!(fifo.is_consistent());
}

#[test]
fn full_and_size_hint() {
    let mut fifo = Fifo::<u8>::with_capacity(2);
    assert!(!fifo.is_full());
    assert_eq!(Ok(()), fifo.push(9));
    assert_eq!((1, Some(1)), fifo.size_hint());
    assert_eq!(Ok(()), fifo.push(8));
    assert!(fifo.is_full());
    assert_eq!(0, fifo.remaining());
    let mut extra = vec![7u8];
    assert_eq!(Err(()), fifo.push_iter(&mut extra));
    assert_eq!(vec![7u8], extra);
    assert_eq!(Err(()), fifo.push_iter_ref(&[1u8]));
    assert_eq!(2, fifo.length());
}

#[test]
fn default_is_empty_with_default_capacity() {
    let fifo: Fifo<u32> = Default::default();
    assert!(fifo.is_empty());
    assert_eq!(DEFAULT_CAPACITY, fifo.capacity());
}

#[test]
fn an_element_changes_in_place_across_the_wrap() {
    let mut f = Fifo::<u8>::with_capacity(3);
    assert_eq!(Ok(()), f.push(1));
    assert_eq!(Ok(()), f.push(2));
    assert_eq!(Ok(()), f.push(3));
    assert_eq!(Some(1), f.pop());
    assert_eq!(Ok(()), f.push(4));
    *f.get_mut(2) = 9;
    *f.get_mut(0) += 10;
    assert_eq!(vec![12u8, 3, 9], f.to_vec());
}
