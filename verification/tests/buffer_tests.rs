use epicycles::buffer::Buffer;
use epicycles::point::Point;

fn pt(x: i64, y: i64) -> Point {
    Point { x, y }
}

#[test]
fn trace_scenario_capacity_ten() {
    // capacity 10, three pushed points: the padded read replicates the
    // last pushed point over the unfilled tail.
    let mut b = Buffer::new(10);
    b.push(pt(0, 0));
    b.push(pt(1, 1));
    b.push(pt(2, 2));
    let r = b.read_padded();
    let expected = vec![
        pt(0, 0),
        pt(1, 1),
        pt(2, 2),
        pt(2, 2),
        pt(2, 2),
        pt(2, 2),
        pt(2, 2),
        pt(2, 2),
        pt(2, 2),
        pt(2, 2),
    ];
    assert_eq!(r, expected);
}

#[test]
fn capacity_one_boundary() {
    let b = Buffer::new(1);
    // before any push: a single default (origin) point
    assert_eq!(b.read_padded(), vec![pt(0, 0)]);
    let mut b = Buffer::new(1);
    b.push(pt(7, 9));
    assert_eq!(b.read_padded(), vec![pt(7, 9)]);
    assert!(!b.has_capacity());
}

#[test]
fn capacity_zero_reads_empty() {
    let b = Buffer::new(0);
    assert!(!b.has_capacity());
    assert_eq!(b.read_padded(), Vec::<Point>::new());
}

#[test]
fn read_padded_idempotent() {
    let mut b = Buffer::new(5);
    b.push(pt(3, -4));
    b.push(pt(-5, 12));
    let first = b.read_padded();
    let second = b.read_padded();
    assert_eq!(first, second);
    let third = b.read_padded();
    assert_eq!(second, third);
}

#[test]
fn read_padded_always_full_length() {
    let mut b = Buffer::new(5);
    assert_eq!(b.read_padded().len(), 5);
    let mut i: i64 = 0;
    while b.has_capacity() {
        b.push(pt(i, -i));
        assert_eq!(b.read_padded().len(), 5);
        i += 1;
    }
    assert_eq!(b.cursor, 5);
}

#[test]
fn percent_full_in_unit_steps() {
    let mut b = Buffer::new(10);
    assert_eq!(b.percent_full(), 0);
    b.push(pt(0, 0));
    b.push(pt(1, 1));
    b.push(pt(2, 2));
    // 3/10 of a cycle, in 1/65536 steps, rounded down
    assert_eq!(b.percent_full(), 19660);
    assert!(b.has_capacity());
}

#[test]
fn padding_never_mutates_the_prefix() {
    let mut b = Buffer::new(4);
    b.push(pt(11, 12));
    let padded = b.read_padded();
    assert_eq!(padded, vec![pt(11, 12), pt(11, 12), pt(11, 12), pt(11, 12)]);
    // the authoritative prefix is still a single point: the next push
    // lands at position 1
    b.push(pt(20, 21));
    assert_eq!(
        b.read_padded(),
        vec![pt(11, 12), pt(20, 21), pt(20, 21), pt(20, 21)]
    );
}
