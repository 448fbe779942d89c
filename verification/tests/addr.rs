use gtirb::addr::Addr;

#[test]
fn adds() {
    assert_eq!(Addr(0x1000) + Addr(0x1000), Addr(0x2000));
}

#[test]
fn subtracts() {
    assert_eq!(Addr(0x2000) - Addr(0x1000), Addr(0x1000));
}

#[test]
fn add_wraps_around() {
    assert_eq!(Addr(u64::MAX) + Addr(2), Addr(1));
    assert_eq!(Addr(0) - Addr(1), Addr(u64::MAX));
}

#[test]
fn add_then_sub_gives_back_the_start() {
    let a = Addr(0xFFFF_FFFF_FFFF_FFF0);
    let b = Addr(0x1234);
    assert_eq!((a + b) - b, a);
}
