use std::collections::VecDeque;
use vstd::prelude::*;

verus! {

/// A chain of blocks that grows at its end.
pub trait Blockchain<E> {
    type Block;

    /// The blocks of the chain, the oldest first.
    spec fn chain(&self) -> Seq<Self::Block>;

    /// The block that was added last.
    fn get_latest_block(&self) -> (latest: &Self::Block)
        requires
            self.chain().len() > 0,
        ensures
            *latest == self.chain().last(),
    ;

    /// Adds `block` at the end of the chain.
    fn add_block(&mut self, block: Self::Block)
        ensures
            final(self).chain() == old(self).chain().push(block),
    ;
}

/// A block of a chain that carries extrinsics of any kind.
#[derive(Debug, Clone)]
pub struct Block<E> {
    pub hash: [u8; 32],
    pub parent_hash: [u8; 32],
    pub state_root: [u8; 32],
    pub extrinsics: E,
}

/// A chain held in memory.
pub struct SimpleBlockchain<E> {
    pub blocks: VecDeque<Block<E>>,
}

impl<E> SimpleBlockchain<E> {
    /// The chain that holds the genesis block and nothing else.
    pub fn new(genesis_block: Block<E>) -> (chain: Self)
        ensures
            chain.blocks@ == seq![genesis_block],
    {
        let mut blocks = VecDeque::new();
        blocks.push_back(genesis_block);
        Self { blocks }
    }
}

impl<E> Blockchain<E> for SimpleBlockchain<E> {
    type Block = Block<E>;

    open spec fn chain(&self) -> Seq<Block<E>> {
        self.blocks@
    }

    fn get_latest_block(&self) -> (latest: &Block<E>) {
        &self.blocks[self.blocks.len() - 1]
    }

    fn add_block(&mut self, block: Block<E>) {
        self.blocks.push_back(block);
    }
}

} // verus!
