//! The messages of the chain's block feed.
//!
//! Timestamps are held as the text they arrive in, and values whose shape the
//! feed does not fix as their JSON text.

pub mod handler;

use vstd::prelude::*;

verus! {

/// An identifier, of a chain or of a proposal.
#[derive(Debug, Default, Clone, PartialEq)]
pub struct Id(pub String);

/// A hash in hexadecimal text.
#[derive(Debug, Default, Clone, PartialEq)]
pub struct Hash(pub String);

/// An account address.
#[derive(Debug, Default, Clone, PartialEq)]
pub struct Address(pub String);

/// A message of the feed, by its type.
#[derive(Debug, Clone, PartialEq)]
pub enum EventType {
    NewBlock { chain_id: Id, data: EventData },
}

/// A message of the feed, with no more of a block than its log events.
#[derive(Debug, Clone)]
pub enum EventTypeSlim {
    NewBlock { chain_id: Id, data: EventDataSlim },
}

/// A new block with the results of running it.
#[derive(Debug, Clone, PartialEq)]
pub struct EventData {
    pub block: Block,
    pub result_begin_block: Option<BeginBlock>,
    pub result_end_block: Option<EndBlock>,
    pub txs: Vec<Tx>,
    pub supply: Amounts,
}

/// The transactions of a new block, with no more than their log events.
#[derive(Debug, Clone)]
pub struct EventDataSlim {
    pub txs: Vec<TxSlim>,
}

/// A block of the chain.
#[derive(Debug, Default, Clone, PartialEq)]
pub struct Block {
    pub header: Header,
    pub data: Data,
    pub evidence: EvidenceUpdates,
    pub last_commit: LastCommit,
}

/// The header of a block.
#[derive(Debug, Default, Clone, PartialEq)]
pub struct Header {
    pub version: Version,
    pub chain_id: Id,
    pub height: Option<String>,
    pub time: Option<String>,
    pub last_block_id: BlockId,
    pub last_commit_hash: Hash,
    pub data_hash: Hash,
    pub validators_hash: Hash,
    pub next_validators_hash: Hash,
    pub consensus_hash: Hash,
    pub app_hash: Hash,
    pub last_results_hash: Hash,
    pub evidence_hash: Hash,
    pub proposer_address: Option<Address>,
}

/// The versions of the block and application protocols.
#[derive(Debug, Default, Clone, PartialEq)]
pub struct Version {
    pub block: Option<String>,
    pub app: Option<String>,
}

/// The parts that a block is sent in.
#[derive(Debug, Default, Clone, PartialEq)]
pub struct Parts {
    pub total: Option<u64>,
    pub hash: Hash,
}

/// The encoded transactions of a block.
#[derive(Debug, Default, Clone, PartialEq)]
pub struct Data {
    pub txs: Vec<String>,
}

/// Evidence of misbehaviour, as JSON text.
#[derive(Debug, Default, Clone, PartialEq)]
pub struct EvidenceUpdates {
    pub evidence: Option<Vec<String>>,
}

/// The commit of the block before.
#[derive(Debug, Default, Clone, PartialEq)]
pub struct LastCommit {
    pub height: Option<String>,
    pub round: Option<u64>,
    pub block_id: BlockId,
    pub signatures: Vec<Signature>,
}

/// What identifies a block.
#[derive(Debug, Default, Clone, PartialEq)]
pub struct BlockId {
    pub hash: Hash,
    pub parts: Parts,
}

/// A validator's signature under a commit.
#[derive(Debug, Clone, PartialEq)]
pub struct Signature {
    pub block_id_flag: u64,
    pub validator_address: Option<Address>,
    pub timestamp: String,
    pub signature: Option<String>,
}

/// The events at the beginning of a block.
#[derive(Debug, Clone, PartialEq)]
pub struct BeginBlock {
    pub events: Vec<LogEvent>,
}

/// The kinds of action that a message of a transaction names.
#[derive(Debug, Clone, PartialEq)]
pub enum ActionType {
    BorrowStable,
    ExecuteContract,
}

/// The events and updates at the end of a block.
#[derive(Debug, Clone, PartialEq)]
pub struct EndBlock {
    pub consensus_param_updates: ConsensusParamUpdates,
    pub events: Vec<LogEvent>,
    pub validator_updates: Vec<ValidatorUpdate>,
}

/// Changed parameters of consensus.
#[derive(Debug, Clone, PartialEq)]
pub struct ConsensusParamUpdates {
    pub block: BlockParamUpdates,
    pub evidence: EvidenceParamUpdates,
    pub validator: Validator,
}

/// The limits of a block.
#[derive(Debug, Clone, PartialEq)]
pub struct BlockParamUpdates {
    pub max_bytes: String,
    pub max_gas: String,
}

/// The limits of evidence.
#[derive(Debug, Clone, PartialEq)]
pub struct EvidenceParamUpdates {
    pub max_age_duration: String,
    pub max_age_num_blocks: String,
    pub max_bytes: String,
}

/// The kinds of key that a validator may use.
#[derive(Debug, Clone, PartialEq)]
pub struct Validator {
    pub pub_key_types: Vec<PubKeyType>,
}

/// A change of a validator's power.
#[derive(Debug, Clone, PartialEq)]
pub struct ValidatorUpdate {
    pub power: Option<String>,
    pub pub_key: PubKeyWrapper,
}

/// A transaction with the result of running it.
#[derive(Debug, Clone, PartialEq)]
pub struct Tx {
    pub auth_info: AuthInfo,
    pub body: Body,
    pub code: u64,
    pub codespace: Option<String>,
    pub data: Option<String>,
    pub height: Option<String>,
    pub info: String,
    pub logs: Vec<Log>,
    pub raw_log: Option<String>,
    pub signatures: Vec<String>,
    pub gas_wanted: Option<String>,
    pub gas_used: Option<String>,
    pub tx: TxData,
    pub txhash: Hash,
    pub timestamp: String,
}

/// The logs of a transaction.
#[derive(Debug, Clone)]
pub struct TxSlim {
    pub logs: Vec<LogSlim>,
}

/// Who signed a transaction, and the fee.
#[derive(Debug, Clone, PartialEq)]
pub struct AuthInfo {
    pub fee: Fee,
    pub signer_infos: Vec<SignerInfo>,
}

/// The fee of a transaction.
#[derive(Debug, Clone, PartialEq)]
pub struct Fee {
    pub amount: Vec<Amount>,
    pub gas_limit: String,
    pub granter: String,
    pub payer: String,
}

/// One signer of a transaction.
#[derive(Debug, Clone, PartialEq)]
pub struct SignerInfo {
    pub mode_info: ModeInfo,
    pub public_key: PublicKey,
    pub sequence: String,
}

/// How a signer signed.
#[derive(Debug, Clone, PartialEq)]
pub struct ModeInfo {
    pub single: Single,
}

/// A signature by a single key.
#[derive(Debug, Clone, PartialEq)]
pub struct Single {
    pub mode: String,
}

/// A signer's public key.
#[derive(Debug, Clone, PartialEq)]
pub enum PublicKey {
    CosmosCryptoSecp256K1PubKey { key: String },
}

/// The messages of a transaction.
#[derive(Debug, Clone, PartialEq)]
pub struct Body {
    pub extension_options: Vec<String>,
    pub memo: Option<String>,
    pub messages: Vec<Message>,
    pub non_critical_extension_options: Vec<String>,
    pub timeout_height: String,
}

/// A message of a transaction.
#[derive(Debug, Clone, PartialEq)]
pub enum Message {
    MsgAggregateExchangeRatePrevote {
        feeder: String,
        validator: String,
        hash: Option<String>,
    },

    MsgWithdrawDelegatorReward {
        delegator_address: Option<String>,
        validator_address: Option<String>,
    },

    MsgAggregateExchangeRateVote {
        salt: Option<String>,
        exchange_rates: Option<String>,
        feeder: String,
        validator: String,
        hash: Option<String>,
    },

    MsgExecuteContract {
        coins: Vec<Coin>,
        contract: Option<String>,
        execute_msg: String,
        sender: Option<String>,
    },

    MsgSwap {
        ask_denom: String,
        offer_coin: Coin,
        trader: String,
    },

    MsgSend {
        amount: Option<Amounts>,
        from_address: Option<String>,
        to_address: Option<String>,
    },

    MsgBeginRedelegate {
        amount: Option<Amounts>,
        delegator_address: Option<String>,
        validator_dst_address: Option<String>,
        validator_src_address: Option<String>,
    },

    MsgDelegate {
        amount: Option<Amounts>,
        delegator_address: Option<String>,
        validator_address: Option<String>,
    },
    MsgUndelegate {
        amount: Option<Amounts>,
        delegator_address: Option<String>,
        validator_address: Option<String>,
    },
}

/// What a contract is asked to execute.
#[derive(Debug, Clone, PartialEq)]
pub enum ExecuteMsg {
    Transfer {
        amount: String,
        recipient: String,
    },
    Relay {
        rates: Vec<String>,
        request_ids: Vec<u64>,
        resolve_times: Vec<u64>,
        symbols: Vec<String>,
    },
    Swap {
        belief_price: String,
        max_spread: String,
        offer_asset: Asset,
    },
    Withdraw(String),
    Send {
        amount: String,
        contract: String,
        msg: String,
    },
    FeedPrice {
        prices: Vec<Vec<String>>,
    },
    IncreaseAllowance {
        amount: String,
        expires: Expires,
        spender: String,
    },
    ProvideLiquidity {
        assets: Vec<Asset>,
    },
    WithdrawVotingTokens {
        amount: String,
    },
    DepositStable(String),
}

/// When an allowance ends.
#[derive(Debug, Clone, Copy, PartialEq)]
pub enum Expires {
    Never(()),
}

/// An amount of an asset.
#[derive(Debug, Clone, PartialEq)]
pub struct Asset {
    pub amount: String,
    pub info: AssetInfo,
}

/// What an asset is: a token of a contract or a native coin.
#[derive(Debug, Clone, PartialEq)]
pub enum AssetInfo {
    Token { contract_addr: String },
    NativeToken { denom: String },
}

/// A native coin.
#[derive(Debug, Clone, PartialEq)]
pub struct NativeToken {
    pub denom: String,
}

/// The log of one message of a transaction.
#[derive(Debug, Clone, PartialEq)]
pub struct Log {
    pub msg_index: u64,
    pub log: Option<String>,
    pub events: Vec<LogEvent>,
}

/// The events of one log.
#[derive(Debug, Clone)]
pub struct LogSlim {
    pub events: Vec<LogEvent>,
}

/// An event of a log, by its type.
#[derive(Debug, Clone, PartialEq)]
pub enum LogEvent {
    AggregatePrevote { attributes: Vec<Attribute> },
    AggregateVote { attributes: Vec<Attribute> },
    Burn { attributes: Vec<Attribute> },
    Coinbase { attributes: Vec<Attribute> },
    CoinSpent { attributes: Vec<Attribute> },
    CoinReceived { attributes: Vec<Attribute> },
    Commission { attributes: Vec<Attribute> },
    CompleteUnbonding { attributes: Vec<Attribute> },
    Delegate { attributes: Vec<Attribute> },
    ExecuteAuthorization { attributes: Vec<Attribute> },
    ExecuteContract { attributes: Vec<Attribute> },
    ExchangeRateUpdate { attributes: Vec<Attribute> },
    FromContract { attributes: Vec<Attribute> },
    InstantiateContract { attributes: Vec<Attribute> },
    Liveness { attributes: Vec<Attribute> },
    Message { attributes: Vec<Attribute> },
    Mint { attributes: Vec<Attribute> },
    ProposerReward { attributes: Vec<Attribute> },
    Redelegate { attributes: Vec<Attribute> },
    Rewards { attributes: Vec<Attribute> },
    StoreCode { attributes: Vec<Attribute> },
    Swap { attributes: Vec<Attribute> },
    Transfer { attributes: Vec<Attribute> },
    Unbond { attributes: Vec<Attribute> },
    Wasm { attributes: Vec<Attribute> },
    WithdrawCommission { attributes: Vec<Attribute> },
    WithdrawRewards { attributes: Vec<Attribute> },
}

/// One attribute of a log event.
#[derive(Debug, Clone, PartialEq)]
pub struct Attribute {
    pub index: Option<bool>,
    pub key: String,
    pub value: Option<String>,
}

/// A transaction as it was signed.
#[derive(Debug, Clone, PartialEq)]
pub enum TxData {
    Tx {
        auth_info: AuthInfo,
        body: Body,
        signatures: Vec<String>,
    },
}

/// A transaction in the encoding of earlier chains.
#[derive(Debug, PartialEq)]
pub enum TxDataOld {
    StdFee(StdFee),

    StdTx {
        msg: Vec<Msg>,
        fee: StdFee,
        signatures: Vec<StdSignature>,
        memo: Option<String>,
    },

    StdSignature(StdSignature),

    StdSignDoc {
        account_number: Option<String>,
        chain_id: Option<Id>,
        fee: Option<String>,
        memo: Option<String>,
        msgs: Vec<String>,
        sequence: Option<String>,
    },
}

/// A message of a transaction in the encoding of earlier chains.
#[derive(Debug, PartialEq)]
pub enum Msg {
    MsgSend {
        from_address: Option<String>,
        to_address: Option<String>,
        amount: Vec<Amount>,
    },

    MsgMultiSend {
        inputs: Vec<IO>,
        outputs: Vec<IO>,
    },

    MsgWithdrawDelegationReward {
        delegator_address: Option<Address>,
        validator_address: Option<Address>,
    },

    MsgWithdrawValidatorCommission { validator_address: Option<Address> },

    MsgSwap {
        sender: Option<Address>,
        contract: Option<Address>,
        execute_msg: Option<String>,
        coins: Vec<Coin>,
        trader: Option<Address>,
        offer_coin: Option<Coin>,
        ask_denom: Option<String>,
        inputs: Vec<IO>,
        outputs: Vec<IO>,
        delegator_address: Option<Address>,
        validator_address: Option<Address>,
    },

    MsgExecAuthorized {
        grantee: Option<Address>,
        msgs: Vec<Msg>,
    },

    MsgDelegate {
        delegator_address: Option<Address>,
        validator_address: Option<Address>,
        amount: Amount,
    },

    MsgBeginRedelegate {
        delegator_address: Option<Address>,
        validator_src_address: Option<Address>,
        validator_dst_address: Option<Address>,
        amount: Amount,
    },

    MsgUndelegate {
        delegator_address: Option<Address>,
        validator_address: Option<Address>,
        amount: Amount,
    },

    MsgVote {
        proposal_id: Id,
        voter: Option<Address>,
        option: Option<String>,
    },

    MsgAggregateExchangeRatePrevote {
        hash: Option<Hash>,
        feeder: Option<Address>,
        validator: Option<String>,
        sender: Option<Address>,
        contract: Option<Address>,
        execute_msg: Option<String>,
        coins: Vec<Coin>,
        trader: Option<Address>,
        offer_coin: Option<Coin>,
        ask_denom: Option<String>,
        inputs: Vec<IO>,
        outputs: Vec<IO>,
    },

    MsgAggregateExchangeRateVote {
        salt: Option<String>,
        exchange_rates: Option<String>,
        feeder: Option<Address>,
        validator: Option<String>,
    },

    MsgExecuteContract {
        sender: Option<Address>,
        contract: Option<Address>,
        execute_msg: Option<String>,
        coins: Vec<Coin>,
    },
}

/// One amount or several.
#[derive(Debug, Clone, PartialEq)]
pub enum Amounts {
    Single(Amount),
    Multi(Vec<Amount>),
}

/// An input or output of a transfer among several accounts.
#[derive(Debug, Clone, PartialEq)]
pub struct IO {
    pub address: Option<String>,
    pub coins: Vec<Coin>,
}

/// An amount of a coin.
#[derive(Debug, Clone, PartialEq)]
pub struct Coin {
    pub denom: Option<String>,
    pub amount: Option<String>,
}

/// An amount of a denomination.
#[derive(Debug, Clone, PartialEq)]
pub struct Amount {
    pub denom: Option<String>,
    pub amount: Option<String>,
}

/// A fee in the encoding of earlier chains.
#[derive(Debug, Clone, PartialEq)]
pub struct StdFee {
    pub amount: Option<Amounts>,
    pub gas: Option<String>,
}

/// A signature in the encoding of earlier chains.
#[derive(Debug, Clone, PartialEq)]
pub struct StdSignature {
    pub pub_key: PubKey,
    pub signature: Option<String>,
}

/// A public key as a validator update holds it.
#[derive(Debug, Clone, PartialEq)]
pub struct PubKeyWrapper {
    pub sum: PubKey,
}

/// A validator's public key.
#[derive(Debug, Clone, PartialEq)]
pub enum PubKey {
    PubKeySecp256k1 { value: Option<String> },
    Ed25519 { ed25519: String },
}

/// The kinds of a validator's key.
#[derive(Debug, Clone, PartialEq)]
pub enum PubKeyType {
    Ed25519,
}

impl Attribute {
    /// An indexed or unindexed attribute with a value.
    pub fn new(index: bool, key: &str, value: &str) -> (attribute: Attribute)
        ensures
            attribute.index == Some(index),
            attribute.key@ == key@,
            attribute.value matches Some(v) && v@ == value@,
    {
        Attribute { index: Some(index), key: key.to_owned(), value: Some(value.to_owned()) }
    }
}

} // verus!
