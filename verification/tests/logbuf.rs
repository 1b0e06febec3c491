use bitforge::logbuf::LogBuffer;

#[test]
fn appends_within_the_cap_extend_the_text() {
    let mut b = LogBuffer::new(4);
    b.append("one\n");
    b.append("two\npartial");
    assert_eq!(b.text(), "one\ntwo\npartial");
    assert_eq!(b.line_count(), 2);
}

#[test]
fn count_never_exceeds_the_cap() {
    let mut b = LogBuffer::new(4);
    for i in 0..100 {
        b.append(&format!("line {i}\n"));
        assert!(b.line_count() <= 4);
    }
}

#[test]
fn overflow_keeps_half_at_a_line_boundary() {
    let mut b = LogBuffer::new(4);
    b.append("1\n2\n3\n4\n5\n");
    // Five line breaks exceed the cap of four; half the cap (two) remains,
    // starting right after a line break.
    assert_eq!(b.line_count(), 2);
    assert_eq!(b.text(), "4\n5\n");
}

#[test]
fn one_huge_append_is_trimmed_in_one_pass() {
    let mut b = LogBuffer::new(10);
    let mut big = String::new();
    for i in 0..1000 {
        big.push_str(&format!("{i}\n"));
    }
    b.append(&big);
    assert_eq!(b.line_count(), 5);
    assert_eq!(b.text(), "995\n996\n997\n998\n999\n");
}

#[test]
fn trim_never_cuts_inside_a_line() {
    let mut b = LogBuffer::new(2);
    b.append("aaa\nbbb\nccc\ntail");
    // Three breaks exceed the cap of two; one remains, and the retained
    // text starts at a line boundary.
    assert_eq!(b.line_count(), 1);
    assert_eq!(b.text(), "ccc\ntail");
}
