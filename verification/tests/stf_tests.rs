use ledger_core::account::Account;
use ledger_core::block::{Block, BlockTrait, Header};
use ledger_core::extrinsics::SignedTransaction;
use ledger_core::plugin::{Plugin, StoragePlugin};
use ledger_core::stf::{SimpleStf, Stf, ValidationError};
use ledger_core::types::{
    Height, StorageError, StoragePrefix, TransactionError, TransactionType, Zero,
};

fn empty_block(height: u64, parent_hash: [u8; 32]) -> Block {
    Block {
        header: Header {
            block_height: Height::from(height),
            parent_hash,
            state_root: [0; 32],
            extrinsics_root: [0; 32],
            block_weight: 0,
        },
        extrinsics: Vec::new(),
    }
}

#[test]
fn test_validate_new_block() {
    let plugin = Plugin::new();
    let mut stf = SimpleStf::new(plugin);

    // Create a mock parent block and add it to the state
    let parent_block: Block = Block {
        header: Header {
            block_height: Height::from(1),
            parent_hash: [0; 32],
            state_root: [0; 32],
            extrinsics_root: [0; 32],
            block_weight: 0,
        },
        extrinsics: Vec::new(),
    };
    assert!(stf.execute_block(parent_block.clone()).is_ok());

    // Create a new block
    let new_block = Block {
        header: Header {
            block_height: Height::from(2),
            parent_hash: parent_block.hash(),
            state_root: [0; 32],
            extrinsics_root: [0; 32],
            block_weight: 0,
        },
        extrinsics: Vec::new(),
    };

    assert!(stf.validate_block(new_block).is_ok());
}

#[test]
fn test_validate_existing_block() {
    let plugin = Plugin::new();
    let mut stf = SimpleStf::new(plugin);

    let block = Block {
        header: Header {
            block_height: Height::zero(),
            parent_hash: [0; 32],
            state_root: [0; 32],
            extrinsics_root: [0; 32],
            block_weight: 0,
        },
        extrinsics: Vec::new(),
    };

    // Place the block into the chain
    assert!(stf.execute_block(block.clone()).is_ok());

    // Validate it after it was placed, this should result in an error...
    // Validate is used before placing a block into the chain.
    assert!(stf.validate_block(block).is_err());
}

#[test]
fn test_validate_block_with_missing_parent() {
    let plugin = Plugin::new();
    let mut stf = SimpleStf::new(plugin);

    // Create a block with a non-existent parent
    let block = Block {
        header: Header {
            block_height: Height::from(1),
            parent_hash: [0; 32],
            state_root: [0; 32],
            extrinsics_root: [0; 32],
            block_weight: 0,
        },
        extrinsics: Vec::new(),
    };

    assert!(stf.validate_block(block).is_err());
}

#[test]
fn test_execute_block_with_transfer() {
    let plugin = Plugin::new();
    let mut stf = SimpleStf::new(plugin);

    // Create a block with a transfer transaction
    let transaction = SignedTransaction::new(TransactionType::Transfer {
        from: [0; 32],
        to: [1; 32],
        amount: 30,
    });

    let acc_alice: SignedTransaction = SignedTransaction::new(TransactionType::AccountCreation {
        account_id: [0; 32],
        balance: 100,
    });

    let acc_dave: SignedTransaction = SignedTransaction::new(TransactionType::AccountCreation {
        account_id: [1; 32],
        balance: 50,
    });

    let mut block = Block {
        header: Header {
            block_height: Height::from(1),
            parent_hash: [0; 32],
            state_root: [0; 32],
            extrinsics_root: [0; 32],
            block_weight: 0,
        },
        extrinsics: Vec::new(),
    };

    block.add_extrinsic(acc_alice).unwrap();
    block.add_extrinsic(acc_dave).unwrap();
    block.add_extrinsic(transaction).unwrap();

    assert!(stf.execute_block(block).is_ok());

    // Check updated balances
    let updated_from: Account = stf.get_account(<[u8; 32]>::from([0; 32])).unwrap();
    let updated_to: Account = stf.get_account(<[u8; 32]>::from([1; 32])).unwrap();

    assert_eq!(updated_from.balance, u128::from(70u128));
    assert_eq!(updated_to.balance, u128::from(80u128));
}

#[test]
fn test_execute_block_with_insufficient_balance() {
    let plugin = Plugin::new();
    let mut stf = SimpleStf::new(plugin);

    // Create account with insufficient balance
    let acc_alice: SignedTransaction = SignedTransaction::new(TransactionType::AccountCreation {
        account_id: [0; 32],
        balance: 100,
    });

    let acc_dave: SignedTransaction = SignedTransaction::new(TransactionType::AccountCreation {
        account_id: [1; 32],
        balance: 50,
    });

    // Create a block with a transfer transaction
    let transaction: SignedTransaction = SignedTransaction::new(TransactionType::Transfer {
        from: [0; 32],
        to: [1; 32],
        amount: 150,
    });

    let mut block = Block {
        header: Header {
            block_height: Height::from(1),
            parent_hash: [0; 32],
            state_root: [0; 32],
            extrinsics_root: [0; 32],
            block_weight: 0,
        },
        extrinsics: Vec::new(),
    };

    block.add_extrinsic(acc_alice).unwrap();
    block.add_extrinsic(acc_dave).unwrap();
    block.add_extrinsic(transaction).unwrap();

    assert!(stf.execute_block(block).is_ok());

    // Check that balances remain unchanged
    let updated_from: Account = stf.get_account(<[u8; 32]>::from([0; 32])).unwrap();
    let updated_to: Account = stf.get_account(<[u8; 32]>::from([1; 32])).unwrap();
    assert_eq!(updated_from.balance, 100);
    assert_eq!(updated_to.balance, 50);
}

#[test]
fn test_validate_new_account() {
    let mut plugin = Plugin::new();

    let new_account = Account {
        account_id: [0; 32],
        balance: 100,
    };

    plugin
        .set(
            StoragePrefix::Account,
            new_account.account_id,
            &new_account.balance,
        )
        .unwrap();
    let mut stf = SimpleStf::new(plugin);

    assert!(stf.validate_account(new_account).is_ok());
}

#[test]
fn test_validate_existing_account() {
    let plugin = Plugin::new();
    let mut stf = SimpleStf::new(plugin);

    let acc_alice: SignedTransaction = SignedTransaction::new(TransactionType::AccountCreation {
        account_id: [0; 32],
        balance: 100,
    });

    let mut block = Block {
        header: Header {
            block_height: Height::from(1),
            parent_hash: [0; 32],
            state_root: [0; 32],
            extrinsics_root: [0; 32],
            block_weight: 0,
        },
        extrinsics: Vec::new(),
    };

    block.add_extrinsic(acc_alice).unwrap();

    assert!(stf.execute_block(block).is_ok());

    let same_alice_account = Account {
        account_id: [0; 32],
        balance: 100,
    };

    // This fails because the account already exists...
    assert!(stf.validate_account(same_alice_account).is_err());
}

#[test]
fn test_get_existing_block_hash() {
    let mut plugin = Plugin::new();

    let block: Block = Block {
        header: Header {
            block_height: Height::from(1),
            parent_hash: [0; 32],
            state_root: [0; 32],
            extrinsics_root: [0; 32],
            block_weight: 0,
        },
        extrinsics: Vec::new(),
    };

    plugin
        .set(StoragePrefix::Block, 1u64, &block.hash())
        .unwrap();
    let stf = SimpleStf::new(plugin);

    assert_eq!(stf.get_block_hash(Height::from(1)).unwrap(), block.hash());
}

#[test]
fn test_get_nonexistent_block_hash() {
    let plugin = Plugin::new();
    let stf = SimpleStf::new(plugin);

    assert!(stf.get_block_hash(Height::from(1)).is_err());
}

#[test]
fn test_get_existing_account() {
    let plugin = Plugin::new();
    let mut stf = SimpleStf::new(plugin);

    let acc_alice: SignedTransaction = SignedTransaction::new(TransactionType::AccountCreation {
        account_id: [0; 32],
        balance: 100,
    });

    let mut block = Block {
        header: Header {
            block_height: Height::from(1),
            parent_hash: [0; 32],
            state_root: [0; 32],
            extrinsics_root: [0; 32],
            block_weight: 0,
        },
        extrinsics: Vec::new(),
    };

    block.add_extrinsic(acc_alice).unwrap();

    assert!(stf.execute_block(block).is_ok());

    let retrieved_account = stf.get_account(<[u8; 32]>::from([0; 32])).unwrap();
    assert_eq!(retrieved_account.account_id, [0; 32]);
    assert_eq!(retrieved_account.balance, 100);
}

#[test]
fn test_get_nonexistent_account() {
    let plugin = Plugin::new();
    let stf = SimpleStf::new(plugin);

    assert!(stf.get_account(<[u8; 32]>::default()).is_err());
}

fn create(id: u8, balance: u128) -> SignedTransaction {
    SignedTransaction::new(TransactionType::AccountCreation {
        account_id: [id; 32],
        balance,
    })
}

fn block_of(height: u64, extrinsics: Vec<SignedTransaction>) -> Block {
    let mut block = empty_block(height, [0; 32]);
    block.extrinsics = extrinsics;
    block
}

fn balance(stf: &SimpleStf, id: u8) -> u128 {
    stf.get_account([id; 32]).unwrap().balance
}

#[test]
fn validation_gives_each_refusal_for_its_reason() {
    let mut stf = SimpleStf::new(Plugin::new());
    let first = empty_block(1, [0; 32]);
    stf.execute_block(first.clone()).unwrap();

    assert_eq!(
        stf.validate_block(empty_block(1, [9; 32])),
        Err(ValidationError::AlreadyImported)
    );
    assert_eq!(
        stf.validate_block(empty_block(3, first.hash())),
        Err(ValidationError::MissingParent)
    );
    assert_eq!(
        stf.validate_block(empty_block(2, [9; 32])),
        Err(ValidationError::ParentMismatch)
    );
    assert_eq!(stf.validate_block(empty_block(2, first.hash())), Ok(()));
    assert_eq!(
        stf.validate_block(empty_block(0, [0; 32])),
        Err(ValidationError::MissingParent)
    );
}

#[test]
fn a_mismatching_parent_hash_is_refused_and_nothing_is_written() {
    let mut stf = SimpleStf::new(Plugin::new());
    for height in 1..6u64 {
        let parent = if height == 1 {
            [0; 32]
        } else {
            stf.get_block_hash(Height(height - 1)).unwrap()
        };
        let mut wrong = parent;
        wrong[(height as usize) % 32] ^= 0x40;
        let before = stf.get_account([0; 32]).is_ok();
        if height > 1 {
            assert_eq!(
                stf.validate_block(empty_block(height, wrong)),
                Err(ValidationError::ParentMismatch)
            );
        }
        assert!(stf.get_block_hash(Height(height)).is_err());
        assert_eq!(stf.get_account([0; 32]).is_ok(), before);
        stf.execute_block(empty_block(height, parent)).unwrap();
    }
}

#[test]
fn a_parent_record_without_a_hash_counts_as_missing() {
    let mut plugin = Plugin::new();
    plugin.set(StoragePrefix::Block, Height(4), &7u32).unwrap();
    let mut stf = SimpleStf::new(plugin);
    assert_eq!(
        stf.validate_block(empty_block(5, [0; 32])),
        Err(ValidationError::MissingParent)
    );
    assert!(matches!(
        stf.get_block_hash(Height(4)),
        Err(StorageError::DeserializationError(_))
    ));
    assert!(matches!(
        stf.get_block_hash(Height(3)),
        Err(StorageError::KeyNotFound(_))
    ));
    assert_eq!(
        stf.validate_block(empty_block(4, [0; 32])),
        Err(ValidationError::AlreadyImported)
    );
}

#[test]
fn validation_messages() {
    assert_eq!(
        ValidationError::AlreadyImported.message(),
        "Block already exists in the state."
    );
    assert_eq!(
        ValidationError::MissingParent.message(),
        "Parent block does not exist."
    );
    assert_eq!(
        ValidationError::ParentMismatch.message(),
        "Parent hash is invalid for this block."
    );
    assert_eq!(
        ValidationError::AccountExists.message(),
        "Account already exists in the state."
    );
}

#[test]
fn account_validation_names_the_existing_account() {
    let mut stf = SimpleStf::new(Plugin::new());
    stf.execute_block(block_of(1, vec![create(5, 9)])).unwrap();
    assert_eq!(
        stf.validate_account(Account { account_id: [5; 32], balance: 1 }),
        Err(ValidationError::AccountExists)
    );
    assert_eq!(
        stf.validate_account(Account { account_id: [6; 32], balance: 1 }),
        Ok(())
    );
}

#[test]
fn transfer_moves_the_amount_and_keeps_the_sum() {
    let mut stf = SimpleStf::new(Plugin::new());
    stf.execute_block(block_of(1, vec![create(1, 500), create(2, 7), create(3, 11)]))
        .unwrap();
    let transfer = SignedTransaction::new(TransactionType::Transfer {
        from: [1; 32],
        to: [2; 32],
        amount: 500,
    });
    stf.execute_block(block_of(2, vec![transfer])).unwrap();
    assert_eq!(balance(&stf, 1), 0);
    assert_eq!(balance(&stf, 2), 507);
    assert_eq!(balance(&stf, 3), 11);
    assert_eq!(balance(&stf, 1) + balance(&stf, 2) + balance(&stf, 3), 518);
}

#[test]
fn transfer_with_a_missing_side_is_skipped() {
    let mut stf = SimpleStf::new(Plugin::new());
    stf.execute_block(block_of(1, vec![create(1, 500)])).unwrap();
    let to_nobody = SignedTransaction::new(TransactionType::Transfer {
        from: [1; 32],
        to: [2; 32],
        amount: 5,
    });
    let from_nobody = SignedTransaction::new(TransactionType::Transfer {
        from: [2; 32],
        to: [1; 32],
        amount: 5,
    });
    stf.execute_block(block_of(2, vec![to_nobody, from_nobody])).unwrap();
    assert_eq!(balance(&stf, 1), 500);
    assert!(matches!(
        stf.get_account([2; 32]),
        Err(StorageError::KeyNotFound(_))
    ));
}

#[test]
fn transfer_to_oneself_leaves_the_balance_as_it_is() {
    let mut stf = SimpleStf::new(Plugin::new());
    let mut block = empty_block(1, [0; 32]);
    block
        .add_extrinsic(SignedTransaction::new(TransactionType::AccountCreation {
            account_id: [0; 32],
            balance: 100,
        }))
        .unwrap();
    block
        .add_extrinsic(SignedTransaction::new(TransactionType::Transfer {
            from: [0; 32],
            to: [0; 32],
            amount: 30,
        }))
        .unwrap();
    assert!(stf.execute_block(block).is_ok());
    assert_eq!(stf.get_account([0; 32]).unwrap().balance, 100);

    // all of the balance, more than the balance, and at the largest balance
    stf.execute_block(block_of(2, vec![create(1, 500), create(2, u128::MAX)]))
        .unwrap();
    let to_self = |id: u8, amount: u128| {
        SignedTransaction::new(TransactionType::Transfer {
            from: [id; 32],
            to: [id; 32],
            amount,
        })
    };
    stf.execute_block(block_of(
        3,
        vec![to_self(1, 500), to_self(1, 501), to_self(2, 7), to_self(2, u128::MAX)],
    ))
    .unwrap();
    assert_eq!(balance(&stf, 1), 500);
    assert_eq!(balance(&stf, 2), u128::MAX);
    assert_eq!(stf.get_account([0; 32]).unwrap().balance, 100);
}

#[test]
fn a_block_of_transfers_keeps_the_sum_and_the_accounts() {
    let mut stf = SimpleStf::new(Plugin::new());
    stf.execute_block(block_of(1, vec![create(1, 500), create(2, 7), create(3, 11)]))
        .unwrap();
    let transfer = |from: u8, to: u8, amount: u128| {
        SignedTransaction::new(TransactionType::Transfer {
            from: [from; 32],
            to: [to; 32],
            amount,
        })
    };
    stf.execute_block(block_of(
        2,
        vec![
            transfer(1, 2, 100),
            transfer(2, 3, 107),
            transfer(3, 3, 5),
            transfer(3, 1, 1000),
            transfer(4, 1, 1),
            transfer(1, 4, 1),
            transfer(3, 1, 18),
        ],
    ))
    .unwrap();
    assert_eq!(balance(&stf, 1), 418);
    assert_eq!(balance(&stf, 2), 0);
    assert_eq!(balance(&stf, 3), 100);
    assert_eq!(balance(&stf, 1) + balance(&stf, 2) + balance(&stf, 3), 518);
    assert!(stf.get_account([4; 32]).is_err());
}

#[test]
fn check_transaction_says_why_a_transaction_cannot_be_applied() {
    let mut stf = SimpleStf::new(Plugin::new());
    stf.execute_block(block_of(1, vec![create(1, 500), create(2, u128::MAX - 5)]))
        .unwrap();
    let transfer = |from: u8, to: u8, amount: u128| TransactionType::Transfer {
        from: [from; 32],
        to: [to; 32],
        amount,
    };
    assert_eq!(stf.check_transaction(transfer(1, 2, 5)), Ok(()));
    assert_eq!(stf.check_transaction(transfer(1, 1, 500)), Ok(()));
    assert_eq!(stf.check_transaction(transfer(2, 2, 9)), Ok(()));
    assert_eq!(
        stf.check_transaction(transfer(3, 4, 5)),
        Err(TransactionError::AccountNotFound([3; 32]))
    );
    assert_eq!(
        stf.check_transaction(transfer(1, 4, 5)),
        Err(TransactionError::AccountNotFound([4; 32]))
    );
    assert_eq!(
        stf.check_transaction(transfer(1, 2, 501)),
        Err(TransactionError::InsufficientBalance {
            account_id: [1; 32],
            balance: 500,
            amount: 501,
        })
    );
    assert_eq!(
        stf.check_transaction(transfer(1, 1, 501)),
        Err(TransactionError::InsufficientBalance {
            account_id: [1; 32],
            balance: 500,
            amount: 501,
        })
    );
    assert_eq!(
        stf.check_transaction(transfer(1, 2, 6)),
        Err(TransactionError::BalanceOverflow {
            account_id: [2; 32],
            balance: u128::MAX - 5,
            amount: 6,
        })
    );
    assert_eq!(
        stf.check_transaction(TransactionType::Mint { to: [2; 32], amount: 5 }),
        Ok(())
    );
    assert_eq!(
        stf.check_transaction(TransactionType::Mint { to: [2; 32], amount: 6 }),
        Err(TransactionError::BalanceOverflow {
            account_id: [2; 32],
            balance: u128::MAX - 5,
            amount: 6,
        })
    );
    assert_eq!(
        stf.check_transaction(TransactionType::Mint { to: [9; 32], amount: 6 }),
        Err(TransactionError::AccountNotFound([9; 32]))
    );
    assert_eq!(
        stf.check_transaction(TransactionType::Burn { from: [1; 32], amount: 500 }),
        Ok(())
    );
    assert_eq!(
        stf.check_transaction(TransactionType::Burn { from: [1; 32], amount: 501 }),
        Err(TransactionError::InsufficientBalance {
            account_id: [1; 32],
            balance: 500,
            amount: 501,
        })
    );
    assert_eq!(
        stf.check_transaction(TransactionType::Burn { from: [9; 32], amount: 0 }),
        Err(TransactionError::AccountNotFound([9; 32]))
    );
    assert_eq!(
        stf.check_transaction(TransactionType::AccountCreation { account_id: [1; 32], balance: 0 }),
        Err(TransactionError::AccountExists([1; 32]))
    );
    assert_eq!(
        stf.check_transaction(TransactionType::AccountCreation { account_id: [9; 32], balance: 0 }),
        Ok(())
    );
    // nothing was written
    assert_eq!(balance(&stf, 1), 500);
    assert_eq!(stf.storage().get_state().len(), 5);
}

#[test]
fn mint_raises_the_sum_by_the_amount() {
    let mut stf = SimpleStf::new(Plugin::new());
    stf.execute_block(block_of(1, vec![create(1, 500), create(2, 7)]))
        .unwrap();
    let mint = SignedTransaction::new(TransactionType::Mint {
        to: [2; 32],
        amount: 93,
    });
    let to_nobody = SignedTransaction::new(TransactionType::Mint {
        to: [3; 32],
        amount: 93,
    });
    let before = balance(&stf, 1) + balance(&stf, 2);
    stf.execute_block(block_of(2, vec![mint, to_nobody])).unwrap();
    assert_eq!(balance(&stf, 1), 500);
    assert_eq!(balance(&stf, 2), 100);
    assert!(stf.get_account([3; 32]).is_err());
    assert_eq!(balance(&stf, 1) + balance(&stf, 2), before + 93);
}

#[test]
fn burn_takes_the_amount_or_does_nothing() {
    let mut stf = SimpleStf::new(Plugin::new());
    stf.execute_block(block_of(1, vec![create(1, 500)])).unwrap();
    let too_much = SignedTransaction::new(TransactionType::Burn {
        from: [1; 32],
        amount: 501,
    });
    stf.execute_block(block_of(2, vec![too_much])).unwrap();
    assert_eq!(balance(&stf, 1), 500);
    let all = SignedTransaction::new(TransactionType::Burn {
        from: [1; 32],
        amount: 500,
    });
    let nobody = SignedTransaction::new(TransactionType::Burn {
        from: [2; 32],
        amount: 1,
    });
    stf.execute_block(block_of(3, vec![nobody, all])).unwrap();
    assert_eq!(balance(&stf, 1), 0);
    assert!(stf.get_account([2; 32]).is_err());
}

#[test]
fn a_credit_beyond_the_largest_balance_is_skipped() {
    let mut stf = SimpleStf::new(Plugin::new());
    stf.execute_block(block_of(1, vec![create(1, u128::MAX - 5), create(2, 10)]))
        .unwrap();
    let mint = SignedTransaction::new(TransactionType::Mint {
        to: [1; 32],
        amount: 6,
    });
    let transfer = SignedTransaction::new(TransactionType::Transfer {
        from: [2; 32],
        to: [1; 32],
        amount: 6,
    });
    stf.execute_block(block_of(2, vec![mint, transfer])).unwrap();
    assert_eq!(balance(&stf, 1), u128::MAX - 5);
    assert_eq!(balance(&stf, 2), 10);
    let exact = SignedTransaction::new(TransactionType::Transfer {
        from: [2; 32],
        to: [1; 32],
        amount: 5,
    });
    stf.execute_block(block_of(3, vec![exact])).unwrap();
    assert_eq!(balance(&stf, 1), u128::MAX);
    assert_eq!(balance(&stf, 2), 5);
}

#[test]
fn creating_an_account_twice_keeps_the_first() {
    let mut stf = SimpleStf::new(Plugin::new());
    stf.execute_block(block_of(1, vec![create(1, 500), create(1, 7), create(2, 3)]))
        .unwrap();
    assert_eq!(balance(&stf, 1), 500);
    assert_eq!(balance(&stf, 2), 3);
}

#[test]
fn a_block_commits_though_some_of_its_extrinsics_are_skipped() {
    let mut stf = SimpleStf::new(Plugin::new());
    let burn = SignedTransaction::new(TransactionType::Burn {
        from: [9; 32],
        amount: 1,
    });
    let block = block_of(1, vec![burn, create(1, 5), create(1, 6), create(2, 1)]);
    assert!(stf.execute_block(block.clone()).is_ok());
    assert_eq!(stf.get_block_hash(Height(1)).unwrap(), block.hash());
    assert_eq!(balance(&stf, 1), 5);
    assert_eq!(balance(&stf, 2), 1);
}

#[test]
fn scenario_of_three_blocks() {
    let mut stf = SimpleStf::new(Plugin::new());
    stf.execute_block(block_of(1, vec![create(10, 100), create(11, 50)]))
        .unwrap();
    let transfer = SignedTransaction::new(TransactionType::Transfer {
        from: [10; 32],
        to: [11; 32],
        amount: 30,
    });
    stf.execute_block(block_of(2, vec![transfer])).unwrap();
    assert_eq!(balance(&stf, 10), 70);
    assert_eq!(balance(&stf, 11), 80);
    let burn = SignedTransaction::new(TransactionType::Burn {
        from: [10; 32],
        amount: 1000,
    });
    stf.execute_block(block_of(3, vec![burn])).unwrap();
    assert_eq!(balance(&stf, 10), 70);
    assert_eq!(balance(&stf, 11), 80);
}

#[test]
fn executing_a_height_again_overwrites_its_records() {
    let mut stf = SimpleStf::new(Plugin::new());
    let first = empty_block(1, [0; 32]);
    let second = empty_block(1, [1; 32]);
    stf.execute_block(first.clone()).unwrap();
    assert_eq!(stf.get_block_hash(Height(1)).unwrap(), first.hash());
    stf.execute_block(second.clone()).unwrap();
    assert_eq!(stf.get_block_hash(Height(1)).unwrap(), second.hash());
}

#[test]
fn only_the_last_extrinsic_of_a_block_stays_under_its_height() {
    let mut stf = SimpleStf::new(Plugin::new());
    let last = create(2, 3);
    let block = block_of(7, vec![create(1, 500), last]);
    stf.execute_block(block.clone()).unwrap();

    let mut expected = vec![3u8, 0, 0, 0];
    expected.extend_from_slice(&[2u8; 32]);
    expected.extend_from_slice(&3u128.to_le_bytes());
    let state = stf.storage().get_state();
    assert_eq!(
        state.get(vec![2, 0, 0, 0, 7, 0, 0, 0, 0, 0, 0, 0]),
        Some(&expected)
    );
    // the hash under the height, the block under the hash, two accounts, one extrinsic
    assert_eq!(state.len(), 5);
    assert_eq!(
        state.get(vec![1, 0, 0, 0, 7, 0, 0, 0, 0, 0, 0, 0]),
        Some(&block.hash().to_vec())
    );
    let mut block_key = vec![1u8, 0, 0, 0];
    block_key.extend_from_slice(&block.hash());
    assert_eq!(
        state.get(block_key),
        Some(&ledger_core::codec::Encode::encode(&block).unwrap())
    );
    let mut account_key = vec![0u8; 4];
    account_key.extend_from_slice(&[1u8; 32]);
    let mut account = vec![1u8; 32];
    account.extend_from_slice(&500u128.to_le_bytes());
    assert_eq!(state.get(account_key), Some(&account));
}

#[test]
fn execution_under_a_given_hash_records_the_block_under_that_hash() {
    let mut stf = SimpleStf::new(Plugin::new());
    let block = block_of(4, vec![create(1, 500), create(2, 50)]);
    assert!(stf.execute_under_hash(&block, [9; 32]).is_ok());
    assert_eq!(stf.get_block_hash(Height(4)).unwrap(), [9; 32]);
    let mut block_key = vec![1u8, 0, 0, 0];
    block_key.extend_from_slice(&[9u8; 32]);
    assert_eq!(
        stf.storage().get_state().get(block_key),
        Some(&ledger_core::codec::Encode::encode(&block).unwrap())
    );
    assert_eq!(balance(&stf, 1), 500);
    assert_eq!(balance(&stf, 2), 50);
    assert_eq!(stf.storage().get_state().len(), 5);
}

#[test]
fn executing_a_block_is_executing_it_under_its_hash() {
    let block = block_of(4, vec![create(1, 500)]);
    let mut one = SimpleStf::new(Plugin::new());
    let mut two = SimpleStf::new(Plugin::new());
    one.execute_block(block.clone()).unwrap();
    two.execute_under_hash(&block, block.hash()).unwrap();
    assert_eq!(
        one.storage().get_state().hex_entries(),
        two.storage().get_state().hex_entries()
    );
}

#[test]
fn an_executed_block_is_read_back_under_its_hash() {
    let mut stf = SimpleStf::new(Plugin::new());
    let block = block_of(4, vec![create(1, 500), create(2, 50)]);
    stf.execute_block(block.clone()).unwrap();
    assert_eq!(stf.get_block(block.hash()).unwrap(), block);
    assert_eq!(stf.storage().get_block(block.hash()).unwrap(), block);
    match stf.get_block([5; 32]) {
        Err(StorageError::KeyNotFound(text)) => assert!(text.starts_with("[1, 0, 0, 0, 5, 5")),
        other => panic!("unexpected: {:?}", other),
    }
    let last: Result<SignedTransaction, StorageError> =
        stf.storage().get(StoragePrefix::Extrinsic, Height(4));
    assert_eq!(last.unwrap(), create(2, 50));
}

#[test]
fn a_record_that_is_no_block_is_not_read_as_one() {
    let mut plugin = Plugin::new();
    plugin.set(StoragePrefix::Block, [5u8; 32], &[6u8; 32]).unwrap();
    let stf = SimpleStf::new(plugin);
    assert!(matches!(
        stf.get_block([5; 32]),
        Err(StorageError::DeserializationError(_))
    ));
}
