use rustation::memory::ram::Ram;
use rustation::memory::{Byte, HalfWord, Word};

#[test]
fn ram_read() {
    let mut ram = Ram::new();

    ram.store::<Word>(0, 0x12345678);
    ram.store::<Word>(32, 0x0abcdef0);

    assert!(ram.load::<Word>(0) == 0x12345678);

    assert!(ram.load::<Word>(32) == 0x0abcdef0);

    assert!(ram.load::<HalfWord>(0) == 0x5678);
    assert!(ram.load::<HalfWord>(2) == 0x1234);

    assert!(ram.load::<HalfWord>(32) == 0xdef0);
    assert!(ram.load::<HalfWord>(34) == 0x0abc);

    assert!(ram.load::<Byte>(0) == 0x78);
    assert!(ram.load::<Byte>(1) == 0x56);
    assert!(ram.load::<Byte>(2) == 0x34);
    assert!(ram.load::<Byte>(3) == 0x12);

    assert!(ram.load::<Byte>(32) == 0xf0);
    assert!(ram.load::<Byte>(33) == 0xde);
    assert!(ram.load::<Byte>(34) == 0xbc);
    assert!(ram.load::<Byte>(35) == 0x0a);
}

#[test]
fn ram_write() {
    let mut ram = Ram::new();

    ram.store::<Word>(32, 0x12345678);
    ram.store::<HalfWord>(32, 0xabcd);
    assert!(ram.load::<Word>(32) == 0x1234abcd);

    ram.store::<Word>(32, 0x12345678);
    ram.store::<HalfWord>(34, 0xabcd);
    assert!(ram.load::<Word>(32) == 0xabcd5678);

    ram.store::<Word>(32, 0x12345678);
    ram.store::<Byte>(32, 0xab);
    assert!(ram.load::<Word>(32) == 0x123456ab);

    ram.store::<Word>(32, 0x12345678);
    ram.store::<Byte>(33, 0xab);
    assert!(ram.load::<Word>(32) == 0x1234ab78);

    ram.store::<Word>(32, 0x12345678);
    ram.store::<Byte>(34, 0xab);
    assert!(ram.load::<Word>(32) == 0x12ab5678);

    ram.store::<Word>(32, 0x12345678);
    ram.store::<Byte>(35, 0xab);
    assert!(ram.load::<Word>(32) == 0xab345678);
}
