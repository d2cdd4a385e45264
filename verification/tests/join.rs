use cf_tunnel::join::Join;

#[test]
fn split_gives_back_the_halves() {
    let j = Join::new(vec![1u8], "reader");
    assert_eq!(j.split(), (vec![1u8], "reader"));
}

#[test]
fn halves_are_reachable() {
    let mut j = Join::new(1u8, 2u8);
    *j.writer_mut() = 3;
    *j.reader_mut() += 1;
    assert_eq!(j.split(), (3, 3));
}
