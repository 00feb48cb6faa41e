use ledger_core::block::{Block, BlockTrait, Header};
use ledger_core::consensus::{Consensus, ConsensusT, Node, Nodes, RpcNode};
use ledger_core::extrinsics::SignedTransaction;
use ledger_core::plugin::Plugin;
use ledger_core::stf::{SimpleStf, Stf};
use ledger_core::types::{Height, One, TransactionType, Zero};
use std::sync::{Arc, Mutex};

/// The node itself stands for the network of nodes.
struct Network(Arc<Mutex<Node>>);

impl Nodes for Network {
    fn request_block(&self, block_number: Height) -> Block {
        let _pool = self.0.lock().unwrap();
        Block {
            header: Header {
                block_height: block_number,
                parent_hash: [0; 32],
                state_root: [0; 32],
                extrinsics_root: [0; 32],
                block_weight: 0,
            },
            extrinsics: Vec::new(),
        }
    }
}

#[test]
fn main_test_basic_blockchain_functionality() {
    let plugin = Plugin::new();
    let node = Arc::new(Mutex::new(Node {
        transaction_pool: vec![].into(),
    }));
    let consensus = Arc::new(Consensus {
        node_network: Network(Arc::clone(&node)),
    });
    let mut stf: SimpleStf = SimpleStf::new(plugin);

    // Simulate blockchain operation for a few blocks
    let mut block_height = Height::zero();
    for _ in 0..5 {
        let mut block = Block {
            header: Header {
                block_height,
                parent_hash: [0; 32],
                state_root: [0; 32],
                extrinsics_root: [0; 32],
                block_weight: 0,
            },
            extrinsics: Vec::new(),
        };

        if block_height != Height::zero() {
            // Add some transactions to the pool
            let mut node = node.lock().unwrap();
            node.submit_extrinsic(SignedTransaction::new(TransactionType::Transfer {
                from: [0; 32],
                to: [1; 32],
                amount: 100,
            }));
            node.submit_extrinsic(SignedTransaction::new(TransactionType::Mint {
                to: [1; 32],
                amount: 50,
            }));

            // Process transactions
            while let Some(transaction) = node.transaction_pool.pop_back() {
                // Check if the extrinsic can be added
                if block.can_add_extrinsic(transaction.weight()) {
                    block.add_extrinsic(transaction.clone()).unwrap();
                } else {
                    break;
                }
            }
        }

        // Import the block
        consensus.import_block(&mut block, &mut stf).unwrap();

        // Increment block height
        block_height += Height::one();
    }

    // Verify final state
    let alice_account = stf.get_account([0; 32]).unwrap();
    let dave_account = stf.get_account([1; 32]).unwrap();

    assert!(
        alice_account.balance < 10000000000,
        "Alice's balance should have decreased"
    );
    assert!(
        dave_account.balance > 1000,
        "Dave's balance should have increased"
    );
    assert_eq!(alice_account.balance, 10000000000 - 400);
    assert_eq!(dave_account.balance, 1000 + 600);
}

#[test]
fn main_test_high_transaction_volume() {
    let plugin = Plugin::new();
    let node = Arc::new(Mutex::new(Node {
        transaction_pool: vec![].into(),
    }));
    let consensus = Arc::new(Consensus {
        node_network: Network(Arc::clone(&node)),
    });
    let mut stf: SimpleStf = SimpleStf::new(plugin);

    // Simulate high transaction volume
    let mut block_height = Height::zero();
    for _ in 0..10 {
        let mut block = Block {
            header: Header {
                block_height,
                parent_hash: [0; 32],
                state_root: [0; 32],
                extrinsics_root: [0; 32],
                block_weight: 0,
            },
            extrinsics: Vec::new(),
        };

        if block_height != Height::zero() {
            let mut node = node.lock().unwrap();
            for _ in 0..100 {
                node.submit_extrinsic(SignedTransaction::new(TransactionType::Transfer {
                    from: [0; 32],
                    to: [1; 32],
                    amount: 1,
                }));
            }

            while let Some(transaction) = node.transaction_pool.pop_back() {
                if block.add_extrinsic(transaction.clone()).is_err() {
                    node.transaction_pool.push_back(transaction);
                    break;
                }
            }
        }

        consensus.import_block(&mut block, &mut stf).unwrap();
        block_height += Height::one();
    }

    // Verify final state after stress test
    let alice_account = stf.get_account([0; 32]).unwrap();
    let dave_account = stf.get_account([1; 32]).unwrap();

    assert!(
        alice_account.balance < 10000000000,
        "Alice's balance should have decreased significantly"
    );
    assert!(
        dave_account.balance > 1000,
        "Dave's balance should have increased significantly"
    );
    assert!(
        node.lock().unwrap().transaction_pool.len() > 0,
        "Transaction pool should still have pending transactions"
    );
    // twenty transfers of weight ten fill each of the nine blocks
    assert_eq!(alice_account.balance, 10000000000 - 180);
    assert_eq!(dave_account.balance, 1000 + 180);
    assert_eq!(node.lock().unwrap().transaction_pool.len(), 900 - 180);
}

#[test]
fn test_basic_blockchain_functionality() {
    let plugin = Plugin::new();
    let node = Arc::new(Mutex::new(Node {
        transaction_pool: vec![].into(),
    }));
    let consensus = Arc::new(Consensus {
        node_network: Network(Arc::clone(&node)),
    });
    let mut stf: SimpleStf = SimpleStf::new(plugin);

    // Simulate blockchain operation for a few blocks
    let mut block_height = Height::zero();
    for _ in 0..5 {
        let mut block = Block {
            header: Header {
                block_height,
                parent_hash: [0; 32],
                state_root: [0; 32],
                extrinsics_root: [0; 32],
                block_weight: 0,
            },
            extrinsics: Vec::new(),
        };

        if block_height != Height::zero() {
            // Add some transactions to the pool
            let mut node = node.lock().unwrap();
            node.submit_extrinsic(SignedTransaction::new(TransactionType::Transfer {
                from: [0; 32],
                to: [1; 32],
                amount: 100,
            }));
            node.submit_extrinsic(SignedTransaction::new(TransactionType::Mint {
                to: [1; 32],
                amount: 50,
            }));

            // Process transactions
            while let Some(transaction) = node.transaction_pool.pop_back() {
                // Check if the extrinsic can be added
                if block.can_add_extrinsic(transaction.weight()) {
                    block.add_extrinsic(transaction.clone()).unwrap();
                } else {
                    break;
                }
            }
        }

        // Import the block
        consensus.import_block(&mut block, &mut stf).unwrap();

        // Increment block height
        block_height += Height::one();
    }

    // Verify final state
    let alice_account = stf.get_account([0; 32]).unwrap();
    let dave_account = stf.get_account([1; 32]).unwrap();

    assert!(
        alice_account.balance < 10000000000,
        "Alice's balance should have decreased"
    );
    assert!(
        dave_account.balance > 1000,
        "Dave's balance should have increased"
    );
    assert_eq!(alice_account.balance, 10000000000 - 400);
    assert_eq!(dave_account.balance, 1000 + 600);
}

#[test]
fn test_high_transaction_volume() {
    let plugin = Plugin::new();
    let node = Arc::new(Mutex::new(Node {
        transaction_pool: vec![].into(),
    }));
    let consensus = Arc::new(Consensus {
        node_network: Network(Arc::clone(&node)),
    });
    let mut stf: SimpleStf = SimpleStf::new(plugin);

    // Simulate high transaction volume
    let mut block_height = Height::zero();
    for _ in 0..10 {
        let mut block = Block {
            header: Header {
                block_height,
                parent_hash: [0; 32],
                state_root: [0; 32],
                extrinsics_root: [0; 32],
                block_weight: 0,
            },
            extrinsics: Vec::new(),
        };

        if block_height != Height::zero() {
            let mut node = node.lock().unwrap();
            for _ in 0..100 {
                node.submit_extrinsic(SignedTransaction::new(TransactionType::Transfer {
                    from: [0; 32],
                    to: [1; 32],
                    amount: 1,
                }));
            }

            while let Some(transaction) = node.transaction_pool.pop_back() {
                if block.add_extrinsic(transaction.clone()).is_err() {
                    node.transaction_pool.push_back(transaction);
                    break;
                }
            }
        }

        consensus.import_block(&mut block, &mut stf).unwrap();
        block_height += Height::one();
    }

    // Verify final state after stress test
    let alice_account = stf.get_account([0; 32]).unwrap();
    let dave_account = stf.get_account([1; 32]).unwrap();

    assert!(
        alice_account.balance < 10000000000,
        "Alice's balance should have decreased significantly"
    );
    assert!(
        dave_account.balance > 1000,
        "Dave's balance should have increased significantly"
    );
    assert!(
        node.lock().unwrap().transaction_pool.len() > 0,
        "Transaction pool should still have pending transactions"
    );
    // twenty transfers of weight ten fill each of the nine blocks
    assert_eq!(alice_account.balance, 10000000000 - 180);
    assert_eq!(dave_account.balance, 1000 + 180);
    assert_eq!(node.lock().unwrap().transaction_pool.len(), 900 - 180);
}

#[test]
fn blocks_built_from_the_pool_are_imported_in_sequence() {
    let node = Arc::new(Mutex::new(Node {
        transaction_pool: vec![].into(),
    }));
    let consensus = Consensus {
        node_network: Network(Arc::clone(&node)),
    };
    let mut stf = SimpleStf::new(Plugin::new());
    let mut block_height = Height::zero();
    for round in 0..4u128 {
        let mut block = Block {
            header: Header {
                block_height,
                parent_hash: [0; 32],
                state_root: [0; 32],
                extrinsics_root: [0; 32],
                block_weight: 0,
            },
            extrinsics: Vec::new(),
        };
        if block_height != Height::zero() {
            let mut node = node.lock().unwrap();
            for _ in 0..15 {
                node.submit_extrinsic(SignedTransaction::new(TransactionType::Burn {
                    from: [0; 32],
                    amount: round,
                }));
            }
            node.fill_block(&mut block);
            assert_eq!(block.header.block_weight, 200);
            assert_eq!(block.extrinsics.len(), 10);
        }
        consensus.import_block(&mut block, &mut stf).unwrap();
        block_height += Height::one();
    }
    // ten burns of one in the first block, ten of one and of two in the two that follow
    assert_eq!(
        stf.get_account([0; 32]).unwrap().balance,
        10000000000 - 10 - 5 - 10 - 20
    );
    assert_eq!(node.lock().unwrap().transaction_pool.len(), 15);
}
