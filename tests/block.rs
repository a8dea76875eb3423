use network_wire::account::{association_address, AccountAddress, EventHandle, EventKey, HashValue};
use network_wire::block_metadata::{
    block_struct_name, libra_block_module_name, libra_block_tag, new_block_event_key, BlockMetadata,
    LibraBlockResource, NewBlockEvent,
};

fn addr(last: u8) -> AccountAddress {
    let mut a = [0u8; 16];
    a[15] = last;
    AccountAddress(a)
}

#[test]
fn new_block_event_key_bytes() {
    let k = new_block_event_key();
    let mut expected = vec![2u8, 0, 0, 0, 0, 0, 0, 0];
    expected.extend_from_slice(&[0u8; 12]);
    expected.extend_from_slice(&[0x0A, 0x55, 0x0C, 0x18]);
    assert_eq!(k.0.to_vec(), expected);
}

#[test]
fn event_key_salt_is_little_endian() {
    let k = EventKey::new_from_address(&addr(7), 0x0102030405060708);
    assert_eq!(&k.0[..8], &[8, 7, 6, 5, 4, 3, 2, 1]);
    assert_eq!(&k.0[8..], &addr(7).0[..]);
}

#[test]
fn association_address_value() {
    let a = association_address();
    assert_eq!(&a.0[12..], &[0x0A, 0x55, 0x0C, 0x18]);
    assert!(a.0[..12].iter().all(|b| *b == 0));
}

#[test]
fn block_tag_names() {
    assert_eq!(libra_block_module_name(), "LibraBlock");
    assert_eq!(block_struct_name(), "BlockMetadata");
    let t = libra_block_tag();
    assert_eq!(t.address, addr(1));
    assert_eq!(t.module, "LibraBlock");
    assert_eq!(t.name, "BlockMetadata");
}

#[test]
fn block_metadata_accessors() {
    let m = BlockMetadata::new(HashValue([3; 32]), 10, 1_000_000, vec![addr(1), addr(2)], addr(9));
    assert_eq!(m.id(), HashValue([3; 32]));
    assert_eq!(m.proposer(), addr(9));
    assert_eq!(m.voters(), vec![addr(1), addr(2)]);
    let (round, ts, votes, proposer) = m.into_inner();
    assert_eq!(round, 10);
    assert_eq!(ts, 1_000_000);
    assert_eq!(votes, vec![addr(1), addr(2)]);
    assert_eq!(proposer, addr(9));
}

#[test]
fn block_resource_event_handle() {
    let h = EventHandle { counter: 5, key: new_block_event_key() };
    let r = LibraBlockResource::new(12, h);
    assert_eq!(*r.new_block_events(), h);
    let e = NewBlockEvent { round: 1, proposer: addr(2), votes: vec![addr(3)], timestamp: 4 };
    assert_eq!(e.votes.len(), 1);
}
