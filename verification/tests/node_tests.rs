use ledger_core::block::{Block, BlockTrait, Header};
use ledger_core::consensus::{
    Consensus, ConsensusT, ImportOutcome, Node, Nodes, RpcNode, ALICE_BALANCE, DAVE_BALANCE,
};
use ledger_core::extrinsics::SignedTransaction;
use ledger_core::plugin::Plugin;
use ledger_core::stf::{SimpleStf, Stf, ValidationError};
use ledger_core::types::{
    ConsensusError, Height, One, StfError, StorageError, TransactionType, Zero,
};
use std::collections::VecDeque;
use std::sync::{Arc, Mutex};

/// The node itself stands for the network of nodes.
struct Network(Arc<Mutex<Node>>);

impl Nodes for Network {
    fn request_block(&self, block_number: Height) -> Block {
        let _pool = self.0.lock().unwrap();
        block_at(block_number)
    }
}

fn block_at(block_height: Height) -> Block {
    Block {
        header: Header {
            block_height,
            parent_hash: [0; 32],
            state_root: [0; 32],
            extrinsics_root: [0; 32],
            block_weight: 0,
        },
        extrinsics: Vec::new(),
    }
}

fn consensus() -> Consensus<Network> {
    let node = Arc::new(Mutex::new(Node {
        transaction_pool: vec![].into(),
    }));
    Consensus {
        node_network: Network(Arc::clone(&node)),
    }
}

#[test]
fn test_import_genesis_block() {
    let block_height = Height::zero();

    let node = Arc::new(Mutex::new(Node {
        transaction_pool: vec![].into(),
    }));

    let consensus = Arc::new(Consensus {
        node_network: Network(Arc::clone(&node)), // Here, the node itself serves as the node network
    });

    let mut stf = SimpleStf::new(Plugin::new());
    let mut genesis_block = Block {
        header: Header {
            block_height,
            parent_hash: [0; 32],
            state_root: [0; 32],
            extrinsics_root: [0; 32],
            block_weight: 0,
        },
        extrinsics: Vec::new(),
    };

    assert!(consensus.import_block(&mut genesis_block, &mut stf).is_ok());

    // Because the genesis block is hardcoded to create accounts we will use these
    // to test functionality
    assert!(stf.get_account([0; 32]).is_ok());
    assert!(stf.get_account([1; 32]).is_ok());
}

#[test]
fn test_import_regular_block() {
    let mut block_height = Height::zero();

    let node = Arc::new(Mutex::new(Node {
        transaction_pool: vec![].into(),
    }));

    let consensus = Arc::new(Consensus {
        node_network: Network(Arc::clone(&node)), // Here, the node itself serves as the node network
    });
    let mut stf = SimpleStf::new(Plugin::new());

    // Import genesis block first
    let mut genesis_block = Block {
        header: Header {
            block_height,
            parent_hash: [0; 32],
            state_root: [0; 32],
            extrinsics_root: [0; 32],
            block_weight: 0,
        },
        extrinsics: Vec::new(),
    };
    consensus
        .import_block(&mut genesis_block, &mut stf)
        .unwrap();

    // Now import a regular block
    block_height += Height::one();
    let mut regular_block = Block {
        header: Header {
            block_height,
            parent_hash: genesis_block.hash(),
            state_root: [0; 32],
            extrinsics_root: [0; 32],
            block_weight: 0,
        },
        extrinsics: Vec::new(),
    };
    assert!(consensus.import_block(&mut regular_block, &mut stf).is_ok());
}

#[test]
fn test_import_block_with_invalid_height() {
    let mut block_height = Height::zero();

    let node = Arc::new(Mutex::new(Node {
        transaction_pool: vec![].into(),
    }));

    let consensus = Arc::new(Consensus {
        node_network: Network(Arc::clone(&node)), // Here, the node itself serves as the node network
    });
    let mut stf = SimpleStf::new(Plugin::new());

    // We need a prior block before knowing if the parent hash is invalid...
    let mut genesis_block: Block = Block {
        header: Header {
            block_height,
            parent_hash: [0; 32],
            state_root: [0; 32],
            extrinsics_root: [0; 32],
            block_weight: 0,
        },
        extrinsics: Vec::new(),
    };

    consensus
        .import_block(&mut genesis_block, &mut stf)
        .unwrap();

    block_height += Height::one();
    block_height += Height::one();

    // Try to import a block with an invalid height
    let mut invalid_block = Block {
        header: Header {
            block_height,
            parent_hash: [0; 32],
            state_root: [0; 32],
            extrinsics_root: [0; 32],
            block_weight: 0,
        },
        extrinsics: Vec::new(),
    };
    assert!(consensus
        .import_block(&mut invalid_block, &mut stf)
        .is_err());
}

#[test]
fn test_submit_single_extrinsic() {
    let mut node = Node {
        transaction_pool: VecDeque::new(),
    };

    let transaction = SignedTransaction::new(TransactionType::Transfer {
        from: [0; 32],
        to: [1; 32],
        amount: 100,
    });

    node.submit_extrinsic(transaction.clone());

    assert_eq!(node.transaction_pool.len(), 1);
    assert_eq!(node.transaction_pool[0], transaction);
}

#[test]
fn test_submit_multiple_extrinsics() {
    let mut node = Node {
        transaction_pool: VecDeque::new(),
    };

    let transaction1 = SignedTransaction::new(TransactionType::Transfer {
        from: [0; 32],
        to: [1; 32],
        amount: 100,
    });
    let transaction2 = SignedTransaction::new(TransactionType::Transfer {
        from: [1; 32],
        to: [0; 32],
        amount: 50,
    });

    node.submit_extrinsic(transaction1.clone());
    node.submit_extrinsic(transaction2.clone());

    assert_eq!(node.transaction_pool.len(), 2);
    assert_eq!(node.transaction_pool[0], transaction2);
    assert_eq!(node.transaction_pool[1], transaction1);
}

#[test]
fn test_pending_extrinsics_empty() {
    let node = Node {
        transaction_pool: VecDeque::new(),
    };

    assert!(node.pending_extrinsics().is_empty());
}

#[test]
fn test_pending_extrinsics_with_transactions() {
    let mut node = Node {
        transaction_pool: VecDeque::new(),
    };

    let transaction1 = SignedTransaction::new(TransactionType::Transfer {
        from: [0; 32],
        to: [1; 32],
        amount: 100,
    });
    let transaction2 = SignedTransaction::new(TransactionType::Transfer {
        from: [1; 32],
        to: [0; 32],
        amount: 50,
    });

    node.submit_extrinsic(transaction1.clone());
    node.submit_extrinsic(transaction2.clone());

    let pending = node.pending_extrinsics();
    assert_eq!(pending.len(), 2);
    assert_eq!(pending[0], transaction2);
    assert_eq!(pending[1], transaction1);
}

fn transfer(amount: u128) -> SignedTransaction {
    SignedTransaction::new(TransactionType::Transfer {
        from: [0; 32],
        to: [1; 32],
        amount,
    })
}

fn mint(amount: u128) -> SignedTransaction {
    SignedTransaction::new(TransactionType::Mint {
        to: [1; 32],
        amount,
    })
}

fn burn(amount: u128) -> SignedTransaction {
    SignedTransaction::new(TransactionType::Burn {
        from: [0; 32],
        amount,
    })
}

#[test]
fn genesis_creates_the_two_seed_accounts_with_their_balances() {
    let consensus = consensus();
    let mut stf = SimpleStf::new(Plugin::new());
    let mut genesis = block_at(Height(0));
    genesis.extrinsics.push(transfer(5));
    genesis.extrinsics.push(mint(5));
    genesis.extrinsics.push(burn(5));
    let outcome = consensus.import_block(&mut genesis, &mut stf);
    assert_eq!(outcome.unwrap(), ImportOutcome::Executed);
    assert_eq!(ALICE_BALANCE, 10000000000);
    assert_eq!(DAVE_BALANCE, 1000);
    assert_eq!(stf.get_account([0; 32]).unwrap().balance, 10000000000);
    assert_eq!(stf.get_account([1; 32]).unwrap().balance, 1000);
    assert_eq!(stf.get_account([0; 32]).unwrap().account_id, [0; 32]);
    assert!(stf.get_account([2; 32]).is_err());
    // the seed extrinsics were appended to what the caller supplied
    assert_eq!(genesis.extrinsics.len(), 5);
    assert_eq!(
        genesis.extrinsics[3],
        SignedTransaction::new(TransactionType::AccountCreation {
            account_id: [0; 32],
            balance: 10000000000,
        })
    );
    assert_eq!(
        genesis.extrinsics[4],
        SignedTransaction::new(TransactionType::AccountCreation {
            account_id: [1; 32],
            balance: 1000,
        })
    );
    assert_eq!(genesis.header.block_weight, 0);
    // the hash and the block of the height, two accounts, one extrinsic
    assert_eq!(stf.storage().get_state().len(), 5);
}

#[test]
fn genesis_with_an_account_of_the_caller_keeps_that_account() {
    let consensus = consensus();
    let mut stf = SimpleStf::new(Plugin::new());
    let mut genesis = block_at(Height(0));
    genesis
        .extrinsics
        .push(SignedTransaction::new(TransactionType::AccountCreation {
            account_id: [0; 32],
            balance: 5,
        }));
    assert!(consensus.import_block(&mut genesis, &mut stf).is_ok());
    assert_eq!(stf.get_account([0; 32]).unwrap().balance, 5);
    assert_eq!(stf.get_account([1; 32]).unwrap().balance, 1000);
}

#[test]
fn import_sets_the_parent_hash_itself() {
    let consensus = consensus();
    let mut stf = SimpleStf::new(Plugin::new());
    let mut genesis = block_at(Height(0));
    consensus.import_block(&mut genesis, &mut stf).unwrap();

    let mut next = block_at(Height(1));
    next.header.parent_hash = [0x55; 32];
    let outcome = consensus.import_block(&mut next, &mut stf).unwrap();
    assert_eq!(outcome, ImportOutcome::Executed);
    assert_eq!(next.header.parent_hash, genesis.hash());
    assert_eq!(stf.get_block_hash(Height(0)).unwrap(), genesis.hash());
    assert_eq!(stf.get_block_hash(Height(1)).unwrap(), next.hash());
}

#[test]
fn importing_a_height_again_is_refused_and_keeps_the_first_record() {
    let consensus = consensus();
    let mut stf = SimpleStf::new(Plugin::new());
    consensus
        .import_block(&mut block_at(Height(0)), &mut stf)
        .unwrap();
    let mut first = block_at(Height(1));
    first.extrinsics.push(transfer(100));
    assert_eq!(
        consensus.import_block(&mut first, &mut stf).unwrap(),
        ImportOutcome::Executed
    );
    let records = stf.storage().get_state().hex_entries();

    let mut again = block_at(Height(1));
    again.header.state_root = [8; 32];
    again.extrinsics.push(transfer(100));
    assert_eq!(
        consensus.import_block(&mut again, &mut stf).unwrap(),
        ImportOutcome::Rejected(ValidationError::AlreadyImported)
    );
    assert_eq!(stf.storage().get_state().hex_entries(), records);
    assert_eq!(stf.get_block_hash(Height(1)).unwrap(), first.hash());
    assert_eq!(stf.get_account([0; 32]).unwrap().balance, 10000000000 - 100);
    assert_eq!(stf.get_account([1; 32]).unwrap().balance, 1100);
}

#[test]
fn importing_genesis_again_overwrites_its_records_and_keeps_the_accounts() {
    let consensus = consensus();
    let mut stf = SimpleStf::new(Plugin::new());
    let mut genesis = block_at(Height(0));
    consensus.import_block(&mut genesis, &mut stf).unwrap();
    let mut first = block_at(Height(1));
    first.extrinsics.push(transfer(100));
    consensus.import_block(&mut first, &mut stf).unwrap();

    let mut again = block_at(Height(0));
    again.header.state_root = [8; 32];
    assert_eq!(
        consensus.import_block(&mut again, &mut stf).unwrap(),
        ImportOutcome::Executed
    );
    assert_ne!(again.hash(), genesis.hash());
    assert_eq!(stf.get_block_hash(Height(0)).unwrap(), again.hash());
    assert_eq!(stf.get_account([0; 32]).unwrap().balance, 10000000000 - 100);
    assert_eq!(stf.get_account([1; 32]).unwrap().balance, 1100);
}

#[test]
fn import_without_a_parent_fails_and_writes_nothing() {
    let consensus = consensus();
    let mut stf = SimpleStf::new(Plugin::new());
    let mut orphan = block_at(Height(3));
    orphan.header.parent_hash = [7; 32];
    orphan.extrinsics.push(mint(1));
    let outcome = consensus.import_block(&mut orphan, &mut stf);
    assert!(matches!(
        outcome,
        Err(ConsensusError::Stf(StfError::Storage(StorageError::KeyNotFound(_))))
    ));
    assert_eq!(orphan.header.parent_hash, [7; 32]);
    assert_eq!(orphan.extrinsics.len(), 1);
    assert_eq!(stf.storage().get_state().len(), 0);
}

#[test]
fn the_pool_is_first_in_first_out() {
    let mut node = Node {
        transaction_pool: VecDeque::new(),
    };
    node.submit_extrinsic(transfer(1));
    node.submit_extrinsic(mint(2));
    node.submit_extrinsic(burn(3));
    let mut block = block_at(Height(1));
    node.fill_block(&mut block);
    assert_eq!(block.extrinsics, vec![transfer(1), mint(2), burn(3)]);
    assert_eq!(block.header.block_weight, 45);
    assert!(node.transaction_pool.is_empty());
}

#[test]
fn the_builder_stops_at_the_first_transaction_that_does_not_fit() {
    let mut node = Node {
        transaction_pool: VecDeque::new(),
    };
    // nine burns weigh 180; a burn meets the limit of 200 exactly
    for amount in 0..10u128 {
        node.submit_extrinsic(burn(amount));
    }
    node.submit_extrinsic(transfer(77));
    node.submit_extrinsic(mint(78));
    let mut block = block_at(Height(1));
    node.fill_block(&mut block);
    assert_eq!(block.header.block_weight, 200);
    assert_eq!(block.extrinsics.len(), 10);
    for amount in 0..10u128 {
        assert_eq!(block.extrinsics[amount as usize], burn(amount));
    }
    assert_eq!(node.pending_extrinsics().len(), 2);
    assert_eq!(node.transaction_pool[0], mint(78));
    assert_eq!(node.transaction_pool[1], transfer(77));
}

#[test]
fn the_builder_does_not_pass_over_a_transaction_that_does_not_fit() {
    let mut node = Node {
        transaction_pool: VecDeque::new(),
    };
    node.submit_extrinsic(burn(1));
    node.submit_extrinsic(
        SignedTransaction::new(TransactionType::AccountCreation {
            account_id: [3; 32],
            balance: 1,
        }),
    );
    let mut block = block_at(Height(1));
    block.header.block_weight = 185;
    node.fill_block(&mut block);
    // the burn of weight 20 waits first and does not fit; the creation of weight 7 would
    assert!(block.extrinsics.is_empty());
    assert_eq!(block.header.block_weight, 185);
    assert_eq!(node.transaction_pool.len(), 2);

    let mut next = block_at(Height(2));
    next.header.block_weight = 173;
    node.fill_block(&mut next);
    assert_eq!(next.header.block_weight, 200);
    assert_eq!(next.extrinsics.len(), 2);
    assert!(node.transaction_pool.is_empty());
}

#[test]
fn the_builder_on_an_empty_pool_changes_nothing() {
    let mut node = Node {
        transaction_pool: VecDeque::new(),
    };
    let mut block = block_at(Height(1));
    node.fill_block(&mut block);
    assert_eq!(block, block_at(Height(1)));
}

#[test]
fn a_candidate_block_takes_what_fits_and_the_genesis_block_takes_nothing() {
    let mut node = Node {
        transaction_pool: VecDeque::new(),
    };
    for amount in 0..25u128 {
        node.submit_extrinsic(transfer(amount));
    }
    let genesis = node.build_block(Height(0));
    assert_eq!(genesis, block_at(Height(0)));
    assert_eq!(node.transaction_pool.len(), 25);

    let first = node.build_block(Height(1));
    assert_eq!(first.header.block_height, Height(1));
    assert_eq!(first.header.parent_hash, [0; 32]);
    assert_eq!(first.header.state_root, [0; 32]);
    assert_eq!(first.header.extrinsics_root, [0; 32]);
    assert_eq!(first.header.block_weight, 200);
    assert_eq!(first.extrinsics.len(), 20);
    assert_eq!(first.extrinsics[0], transfer(0));
    assert_eq!(first.extrinsics[19], transfer(19));
    assert_eq!(node.transaction_pool.len(), 5);

    let second = node.build_block(Height(2));
    assert_eq!(second.header.block_weight, 50);
    assert_eq!(second.extrinsics.len(), 5);
    assert_eq!(second.extrinsics[4], transfer(24));
    assert!(node.transaction_pool.is_empty());
}
