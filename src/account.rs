//! Addresses, hashes, event keys and type tags that the on-chain block
//! records are built from.

use vstd::prelude::*;

verus! {

/// Address of an account on chain.
#[derive(Clone, Copy, Debug, PartialEq, Eq, Hash)]
pub struct AccountAddress(pub [u8; 16]);

/// The address `0x...0000` followed by the given last four bytes.
pub open spec fn address_ending(tail: Seq<u8>) -> Seq<u8> {
    Seq::new(12, |i: int| 0u8) + tail
}

/// Builds an address whose last four bytes are `tail` and the rest zero.
fn address_with_tail(t0: u8, t1: u8, t2: u8, t3: u8) -> (r: AccountAddress)
    ensures
        r.0@ == address_ending(seq![t0, t1, t2, t3]),
{
    let mut a = [0u8; 16];
    a[12] = t0;
    a[13] = t1;
    a[14] = t2;
    a[15] = t3;
    assert(a@ =~= address_ending(seq![t0, t1, t2, t3]));
    AccountAddress(a)
}

/// The association's account, `0xA550C18`.
pub fn association_address() -> (r: AccountAddress)
    ensures
        r.0@ == address_ending(seq![0x0Au8, 0x55u8, 0x0Cu8, 0x18u8]),
{
    address_with_tail(0x0A, 0x55, 0x0C, 0x18)
}

/// The account that holds the core code modules, `0x1`.
pub fn core_code_address() -> (r: AccountAddress)
    ensures
        r.0@ == address_ending(seq![0u8, 0u8, 0u8, 1u8]),
{
    address_with_tail(0, 0, 0, 1)
}

/// A 32-byte hash value.
#[derive(Clone, Copy, Debug, PartialEq, Eq, Hash)]
pub struct HashValue(pub [u8; 32]);

/// Little-endian bytes of a 64-bit integer.
pub open spec fn le64(x: u64) -> Seq<u8> {
    Seq::new(8, |i: int| (x >> (8 * i) as u64) as u8)
}

/// Key of an event stream: an 8-byte salt, little-endian, then the address
/// of the account that owns the stream.
#[derive(Clone, Copy, Debug, PartialEq, Eq, Hash)]
pub struct EventKey(pub [u8; 24]);

impl EventKey {
    /// The key of the stream numbered `salt` under `addr`.
    pub fn new_from_address(addr: &AccountAddress, salt: u64) -> (r: EventKey)
        ensures
            r.0@ == le64(salt) + addr.0@,
    {
        let mut k = [0u8; 24];
        let mut i: usize = 0;
        while i < 8
            invariant
                i <= 8,
                k@.len() == 24,
                forall|j: int| 0 <= j < i ==> k@[j] == le64(salt)[j],
            decreases 8 - i,
        {
            k[i] = (salt >> (8 * i as u64)) as u8;
            i += 1;
        }
        while i < 24
            invariant
                8 <= i <= 24,
                k@.len() == 24,
                forall|j: int| 0 <= j < 8 ==> k@[j] == le64(salt)[j],
                forall|j: int| 8 <= j < i ==> k@[j] == addr.0@[j - 8],
            decreases 24 - i,
        {
            k[i] = addr.0[i - 8];
            i += 1;
        }
        assert(k@ =~= le64(salt) + addr.0@);
        EventKey(k)
    }
}

/// Handle on an event stream: the number of events emitted so far and the
/// stream's key.
#[derive(Clone, Copy, Debug, PartialEq, Eq)]
pub struct EventHandle {
    pub counter: u64,
    pub key: EventKey,
}

/// Name of a struct type published in a module: the module's account, the
/// module's name and the struct's name.
#[derive(Clone, Debug)]
pub struct StructTag {
    pub address: AccountAddress,
    pub module: String,
    pub name: String,
}

} // verus!
