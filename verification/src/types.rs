use vstd::bytes::{spec_u64_to_le_bytes, u64_to_le_bytes};
use vstd::prelude::*;
use vstd::std_specs::convert::FromSpecImpl;
use vstd::std_specs::ops::SubSpecImpl;

verus! {

/// Identifier of an account or of a block: 32 raw bytes.
pub type Hash = [u8; 32];

/// An amount of funds.
pub type Funds = u128;

/// The abstract cost of including an extrinsic in a block.
pub type WeightType = u64;

/// The type that indexes blocks.
pub type HeightType = Height;

/// A type that has a zero.
pub trait Zero: Sized {
    /// The zero of the type.
    spec fn zero_value() -> Self;

    /// The zero of the type.
    fn zero() -> (z: Self)
        ensures
            z == Self::zero_value(),
    ;
}

/// A type that has a one.
pub trait One: Sized {
    /// The one of the type.
    spec fn one_value() -> Self;

    /// The one of the type.
    fn one() -> (o: Self)
        ensures
            o == Self::one_value(),
    ;
}

/// A provider of one fixed value of type `T`, used for the limits of a deployment.
pub trait Get<T> {
    /// The value that is provided.
    spec fn value() -> T;

    /// The value that is provided.
    fn get() -> (v: T)
        ensures
            v == Self::value(),
    ;
}

/// Provider of the largest block height of a deployment.
pub struct MaxBlockHeight;

/// Marker for the sum of all funds.
pub struct FundSum;

/// Provider of the largest total weight that the extrinsics of one block may have.
pub struct MaxBlockWeight;

impl Get<u64> for MaxBlockWeight {
    open spec fn value() -> u64 {
        200
    }

    fn get() -> (v: u64) {
        200
    }
}

impl Get<Height> for MaxBlockHeight {
    open spec fn value() -> Height {
        Height(100000)
    }

    fn get() -> (v: Height) {
        Height(100000)
    }
}

/// A block height: the index of a block in the chain, the genesis block being at zero.
#[derive(Debug, Copy, Clone, PartialEq, Eq)]
pub struct Height(pub u64);

/// The decimal digit that stands for `d`, for `d` below ten.
pub open spec fn digit(d: nat) -> char {
    seq!['0', '1', '2', '3', '4', '5', '6', '7', '8', '9'][d as int]
}

/// The decimal numeral of `n`, without leading zeros.
pub open spec fn decimal(n: nat) -> Seq<char>
    decreases n,
{
    if n < 10 {
        seq![digit(n)]
    } else {
        decimal(n / 10).push(digit(n % 10))
    }
}

/// `u64::to_string`: the decimal numeral of the value.
#[verifier::external_body]
pub(crate) fn u64_to_string(value: u64) -> (text: String)
    ensures
        text@ == decimal(value as nat),
{
    value.to_string()
}

impl Height {
    /// The height as a decimal numeral.
    pub fn to_string(&self) -> (text: String)
        ensures
            text@ == decimal(self.0 as nat),
    {
        u64_to_string(self.0)
    }
}

impl From<Height> for Vec<u8> {
    /// The eight bytes of the height, least significant first.
    fn from(height: Height) -> (bytes: Vec<u8>)
        ensures
            bytes@ == spec_u64_to_le_bytes(height.0),
    {
        u64_to_le_bytes(height.0)
    }
}

impl FromSpecImpl<Height> for Vec<u8> {
    open spec fn obeys_from_spec() -> bool {
        false
    }

    open spec fn from_spec(height: Height) -> Vec<u8> {
        arbitrary()
    }
}

impl From<u64> for Height {
    fn from(value: u64) -> (h: Self) {
        Height(value)
    }
}

impl FromSpecImpl<u64> for Height {
    open spec fn obeys_from_spec() -> bool {
        true
    }

    open spec fn from_spec(value: u64) -> Self {
        Height(value)
    }
}

impl core::ops::Sub for Height {
    type Output = Height;

    fn sub(self, rhs: Self) -> (r: Height) {
        Height(self.0 - rhs.0)
    }
}

impl SubSpecImpl for Height {
    open spec fn obeys_sub_spec() -> bool {
        true
    }

    open spec fn sub_req(self, rhs: Self) -> bool {
        self.0 >= rhs.0
    }

    open spec fn sub_spec(self, rhs: Self) -> Height {
        Height((self.0 - rhs.0) as u64)
    }
}

impl core::ops::AddAssign for Height {
    fn add_assign(&mut self, rhs: Self)
        requires
            old(self).0 + rhs.0 <= u64::MAX,
        ensures
            final(self).0 == old(self).0 + rhs.0,
    {
        self.0 = self.0 + rhs.0;
    }
}

impl Zero for Height {
    open spec fn zero_value() -> Self {
        Height(0)
    }

    fn zero() -> (z: Self) {
        Height(0)
    }
}

impl One for Height {
    open spec fn one_value() -> Self {
        Height(1)
    }

    fn one() -> (o: Self) {
        Height(1)
    }
}

/// What a transaction asks the ledger to do.
#[derive(Debug, Copy, Clone, PartialEq, Eq)]
pub enum TransactionType {
    /// Move `amount` from the account `from` to the account `to`.
    Transfer { from: Hash, to: Hash, amount: Funds },
    /// Create `amount` of new funds on the account `to`.
    Mint { to: Hash, amount: Funds },
    /// Destroy `amount` of the funds of the account `from`.
    Burn { from: Hash, amount: Funds },
    /// Open the account `account_id` with the opening balance `balance`.
    AccountCreation { account_id: Hash, balance: Funds },
}

/// Weight of a transfer.
pub const TRANSFER_WEIGHT: u64 = 10;

/// Weight of a mint.
pub const MINT_WEIGHT: u64 = 15;

/// Weight of a burn.
pub const BURN_WEIGHT: u64 = 20;

/// Weight of an account creation.
pub const ACCOUNT_CREATION_WEIGHT: u64 = 7;

impl TransactionType {
    /// The fixed weight of each kind of transaction.
    pub open spec fn spec_weight(&self) -> u64 {
        match self {
            TransactionType::Transfer { .. } => TRANSFER_WEIGHT,
            TransactionType::Mint { .. } => MINT_WEIGHT,
            TransactionType::Burn { .. } => BURN_WEIGHT,
            TransactionType::AccountCreation { .. } => ACCOUNT_CREATION_WEIGHT,
        }
    }

    /// The weight of the transaction: 10 for a transfer, 15 for a mint, 20 for a burn
    /// and 7 for the creation of an account.
    #[verifier::when_used_as_spec(spec_weight)]
    pub fn weight(&self) -> (w: u64)
        ensures
            w == self.spec_weight(),
    {
        match self {
            TransactionType::Transfer { .. } => TRANSFER_WEIGHT,
            TransactionType::Mint { .. } => MINT_WEIGHT,
            TransactionType::Burn { .. } => BURN_WEIGHT,
            TransactionType::AccountCreation { .. } => ACCOUNT_CREATION_WEIGHT,
        }
    }
}

/// Reasons for which a transaction cannot be applied. The execution of a block skips a
/// transaction that cannot be applied and goes on with the next.
#[derive(Debug, Copy, Clone, PartialEq, Eq)]
pub enum TransactionError {
    /// The store holds no account under this identifier.
    AccountNotFound(Hash),
    /// The account has less than the transaction would take from it.
    InsufficientBalance { account_id: Hash, balance: Funds, amount: Funds },
    /// The account cannot take the amount: its balance would pass the largest balance.
    BalanceOverflow { account_id: Hash, balance: Funds, amount: Funds },
    /// The account that the transaction would create is there already.
    AccountExists(Hash),
}

/// Failures of the storage engine.
#[derive(Debug, Clone)]
pub enum StorageError {
    SerializationError(String),
    DeserializationError(String),
    KeyCreationError(String),
    KeyNotFound(String),
    CreateFullKeyError(String),
    DataInsertionError(String),
    OperationFailed(String),
    DataNotFound(String),
}

/// Failures of the state transition function.
#[derive(Debug, Clone)]
pub enum StfError {
    BlockExecutionError(String),
    Storage(StorageError),
}

/// Failures of a block import.
#[derive(Debug, Clone)]
pub enum ConsensusError {
    ImportBlockError(String),
    Stf(StfError),
}

impl From<StorageError> for StfError {
    fn from(e: StorageError) -> (r: Self) {
        StfError::Storage(e)
    }
}

impl FromSpecImpl<StorageError> for StfError {
    open spec fn obeys_from_spec() -> bool {
        true
    }

    open spec fn from_spec(e: StorageError) -> Self {
        StfError::Storage(e)
    }
}

impl From<StfError> for ConsensusError {
    fn from(e: StfError) -> (r: Self) {
        ConsensusError::Stf(e)
    }
}

impl FromSpecImpl<StfError> for ConsensusError {
    open spec fn obeys_from_spec() -> bool {
        true
    }

    open spec fn from_spec(e: StfError) -> Self {
        ConsensusError::Stf(e)
    }
}

/// The namespaces of the key space of the store.
#[derive(Debug, Copy, Clone, PartialEq, Eq)]
pub enum StoragePrefix {
    Account,
    Block,
    Extrinsic,
}

} // verus!
