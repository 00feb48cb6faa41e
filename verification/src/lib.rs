//! A ledger that advances block by block.
//!
//! The store (`state`, `plugin`) holds bytes under bytes. The state transition function
//! (`stf`) validates blocks and executes them on the store: it records each block and
//! applies its extrinsics to the accounts. The import (`consensus`) puts blocks in sequence,
//! and the pool of a node feeds the blocks that are built. What is written to the store is
//! laid out by `codec` and `keys`; `ledger` holds what is proved of accounts and of the sum
//! of their balances. `blockchain` is a plain chain of blocks held in memory.

pub mod account;
pub mod block;
pub mod blockchain;
pub mod codec;
pub mod consensus;
pub mod extrinsics;
pub mod keys;
pub mod ledger;
pub mod plugin;
pub mod state;
pub mod stf;
pub mod types;
