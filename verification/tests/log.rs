use rystemd::log::{mgr_log, LogRing};

#[test]
fn ring_caps() {
    let mut r = LogRing::new(3);
    r.push("a".into());
    r.push("b".into());
    r.push("c".into());
    r.push("d".into());
    assert_eq!(r.snapshot(), vec!["b", "c", "d"]);
}

#[test]
fn chunk_split() {
    let mut r = LogRing::new(8);
    r.push_chunk("one\ntwo\nthree\n");
    assert_eq!(r.snapshot(), vec!["one", "two", "three"]);
    r.push_chunk("four");
    assert_eq!(r.snapshot(), vec!["one", "two", "three", "four"]);
}

#[test]
fn a_ring_without_room_keeps_nothing() {
    let mut r = LogRing::new(0);
    r.push("a".into());
    r.push_chunk("b\nc\n");
    assert!(r.snapshot().is_empty());
    assert!(r.lines().is_empty());
}

#[test]
fn manager_lines_carry_the_time() {
    assert_eq!(mgr_log(1700000000, "loaded 3 units"), "[1700000000] loaded 3 units");
    assert_eq!(mgr_log(0, ""), "[0] ");
}
