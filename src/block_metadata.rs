//! The record of the current block that is kept on chain, and where its
//! resource and events live.

use vstd::prelude::*;
use crate::account::{
    address_ending, association_address, core_code_address, le64, AccountAddress, EventHandle,
    EventKey, HashValue, StructTag,
};

verus! {

/// Salt of the new-block event stream under the association account.
pub const NEW_BLOCK_EVENT_SALT: u64 = 2;

/// Information on the current block, persisted on chain. The executor hands
/// it to the VM at the end of a block proposal; the VM turns it into a system
/// transaction that runs before the block's user transactions.
#[derive(Clone, Debug)]
pub struct BlockMetadata {
    id: HashValue,
    round: u64,
    timestamp_usecs: u64,
    // Sorted, so that every node computes the same result.
    previous_block_votes: Vec<AccountAddress>,
    proposer: AccountAddress,
}

/// Copies a list of addresses.
fn copy_addresses(v: &Vec<AccountAddress>) -> (r: Vec<AccountAddress>)
    ensures
        r@ == v@,
{
    let mut r: Vec<AccountAddress> = Vec::new();
    let mut i: usize = 0;
    while i < v.len()
        invariant
            i <= v@.len(),
            r@ == v@.subrange(0, i as int),
        decreases v@.len() - i,
    {
        r.push(v[i]);
        i += 1;
        assert(r@ =~= v@.subrange(0, i as int));
    }
    assert(v@.subrange(0, v@.len() as int) =~= v@);
    r
}

impl BlockMetadata {
    pub fn new(
        id: HashValue,
        round: u64,
        timestamp_usecs: u64,
        previous_block_votes: Vec<AccountAddress>,
        proposer: AccountAddress,
    ) -> (r: BlockMetadata)
        ensures
            r.id_spec() == id,
            r.round_spec() == round,
            r.timestamp_usecs_spec() == timestamp_usecs,
            r.votes_spec() == previous_block_votes@,
            r.proposer_spec() == proposer,
    {
        BlockMetadata { id, round, timestamp_usecs, previous_block_votes, proposer }
    }

    pub closed spec fn id_spec(&self) -> HashValue {
        self.id
    }

    pub closed spec fn round_spec(&self) -> u64 {
        self.round
    }

    pub closed spec fn timestamp_usecs_spec(&self) -> u64 {
        self.timestamp_usecs
    }

    pub closed spec fn votes_spec(&self) -> Seq<AccountAddress> {
        self.previous_block_votes@
    }

    pub closed spec fn proposer_spec(&self) -> AccountAddress {
        self.proposer
    }

    pub fn id(&self) -> (r: HashValue)
        ensures
            r == self.id_spec(),
    {
        self.id
    }

    /// Round, timestamp, votes and proposer, in that order.
    pub fn into_inner(self) -> (r: (u64, u64, Vec<AccountAddress>, AccountAddress))
        ensures
            r.0 == self.round_spec(),
            r.1 == self.timestamp_usecs_spec(),
            r.2@ == self.votes_spec(),
            r.3 == self.proposer_spec(),
    {
        (self.round, self.timestamp_usecs, self.previous_block_votes, self.proposer)
    }

    pub fn proposer(&self) -> (r: AccountAddress)
        ensures
            r == self.proposer_spec(),
    {
        self.proposer
    }

    pub fn voters(&self) -> (r: Vec<AccountAddress>)
        ensures
            r@ == self.votes_spec(),
    {
        copy_addresses(&self.previous_block_votes)
    }
}

/// Key of the stream of new-block events: the association account's stream
/// with salt 2.
pub fn new_block_event_key() -> (r: EventKey)
    ensures
        r.0@ == le64(NEW_BLOCK_EVENT_SALT) + address_ending(seq![0x0Au8, 0x55u8, 0x0Cu8, 0x18u8]),
{
    EventKey::new_from_address(&association_address(), NEW_BLOCK_EVENT_SALT)
}

/// Name of the module that publishes the block resource.
pub fn libra_block_module_name() -> (r: &'static str)
    ensures
        r@ == "LibraBlock"@,
{
    "LibraBlock"
}

/// Name of the struct that holds the block resource.
pub fn block_struct_name() -> (r: &'static str)
    ensures
        r@ == "BlockMetadata"@,
{
    "BlockMetadata"
}

/// Type of the block resource: `0x1::LibraBlock::BlockMetadata`.
pub fn libra_block_tag() -> (r: StructTag)
    ensures
        r.address.0@ == address_ending(seq![0u8, 0u8, 0u8, 1u8]),
        r.module@ == "LibraBlock"@,
        r.name@ == "BlockMetadata"@,
{
    StructTag {
        address: core_code_address(),
        name: block_struct_name().to_owned(),
        module: libra_block_module_name().to_owned(),
    }
}

/// The block resource as stored on chain: the block height and the handle
/// of the new-block event stream.
#[derive(Clone, Copy, Debug)]
pub struct LibraBlockResource {
    height: u64,
    new_block_events: EventHandle,
}

impl LibraBlockResource {
    pub fn new(height: u64, new_block_events: EventHandle) -> (r: LibraBlockResource)
        ensures
            r.height_spec() == height,
            r.new_block_events_spec() == new_block_events,
    {
        LibraBlockResource { height, new_block_events }
    }

    pub closed spec fn height_spec(&self) -> u64 {
        self.height
    }

    pub closed spec fn new_block_events_spec(&self) -> EventHandle {
        self.new_block_events
    }

    pub fn new_block_events(&self) -> (r: &EventHandle)
        ensures
            *r == self.new_block_events_spec(),
    {
        &self.new_block_events
    }
}

/// Event emitted for each new block.
#[derive(Clone, Debug)]
pub struct NewBlockEvent {
    pub round: u64,
    pub proposer: AccountAddress,
    pub votes: Vec<AccountAddress>,
    pub timestamp: u64,
}

} // verus!
