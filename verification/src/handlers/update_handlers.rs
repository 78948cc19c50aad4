//! The handling of each kind of update: a slot update enters the race, the
//! others are only looked at.

use crate::referee::RaceEvent;
use vstd::prelude::*;

verus! {

/// In which stage of its life the upstream service has seen a slot.
#[derive(Clone, Copy, Debug, PartialEq, Eq, Structural)]
pub enum SlotStatus {
    Processed,
    Confirmed,
    Finalized,
    FirstShredReceived,
    Completed,
    CreatedBank,
    Dead,
}

/// A slot update as a stream delivers it.
#[derive(Clone, Copy, Debug, PartialEq, Eq, Structural)]
pub struct SlotUpdate {
    pub slot: u64,
    pub parent: Option<u64>,
    pub status: SlotStatus,
}

/// An account update as a stream delivers it.
#[derive(Clone, Debug)]
pub struct AccountUpdate {
    pub pubkey: Vec<u8>,
    pub slot: u64,
    pub lamports: u64,
}

/// The message inside a transaction: how many account keys and how many
/// instructions it lists.
#[derive(Clone, Copy, Debug, PartialEq, Eq, Structural)]
pub struct TransactionMessage {
    pub account_keys: usize,
    pub instructions: usize,
}

/// What is known of a transaction after it ran.
#[derive(Clone, Debug)]
pub struct TransactionMeta {
    /// The error that it ended in, if it did, as text.
    pub err: Option<String>,
    pub compute_units_consumed: Option<u64>,
}

/// A transaction with its signature; the message is `None` where the
/// transaction came without one.
#[derive(Clone, Debug)]
pub struct TransactionInfo {
    pub signature: Vec<u8>,
    /// The transaction, and in it its message, where each is there.
    pub transaction: Option<Option<TransactionMessage>>,
    pub meta: Option<TransactionMeta>,
}

/// A transaction update as a stream delivers it.
#[derive(Clone, Debug)]
pub struct TransactionUpdate {
    pub transaction: Option<TransactionInfo>,
    pub slot: u64,
}

/// A block update as a stream delivers it.
#[derive(Clone, Debug)]
pub struct BlockUpdate {
    pub slot: u64,
    pub blockhash: Vec<u8>,
}

/// What a slot update gives: the figures for the log, and the event that
/// enters the race.
#[derive(Debug)]
pub struct SlotNotice {
    pub slot: u64,
    /// The parent slot, and zero where none was named.
    pub parent: u64,
    pub status: SlotStatus,
    /// When the update arrived, in whole milliseconds since the epoch.
    pub received_at_ms: u128,
    pub event: RaceEvent,
}

/// What an account update gives for the log.
#[derive(Debug)]
pub struct AccountNotice {
    /// The account's key in base 58.
    pub pubkey: String,
    pub slot: u64,
    pub lamports: u64,
}

/// How a transaction ended.
#[derive(Clone, Debug, PartialEq, Eq)]
pub enum TransactionStatus {
    Success,
    /// In an error, given as text.
    Failed { reason: String },
}

/// What a transaction update gives for the log.
#[derive(Debug)]
pub enum TransactionNotice {
    /// The update holds no transaction.
    NoInfo,
    /// The update's transaction holds no data.
    NoData,
    /// The transaction's data holds no message.
    NoMessage,
    Details {
        /// The signature in base 58.
        signature: String,
        slot: u64,
        accounts: usize,
        instructions: usize,
        /// How the transaction ended, where that is known.
        status: Option<TransactionStatus>,
        /// The compute units used, where that is known.
        compute_units: Option<u64>,
    },
}

/// What a block update gives for the log.
#[derive(Debug)]
pub struct BlockNotice {
    pub slot: u64,
    /// The block's hash in base 58.
    pub blockhash: String,
}

/// The text that `bs58::encode` makes of the bytes with its default alphabet.
pub uninterp spec fn base58_text(bytes: Seq<u8>) -> Seq<char>;

/// `bs58::encode(bytes).into_string()`: the bytes in base 58, in the default
/// alphabet and without a checksum. The text depends on the bytes alone.
#[verifier::external_body]
fn encode_base58(bytes: &[u8]) -> (text: String)
    ensures
        text@ == base58_text(bytes@),
{
    bs58::encode(bytes).into_string()
}

/// The nanoseconds in a millisecond.
pub const NANOS_PER_MILLI: u128 = 1_000_000;

/// How a transaction ended, as far as its metadata tells.
pub open spec fn status_of(meta: Option<TransactionMeta>) -> Option<TransactionStatus> {
    match meta {
        Some(m) => Some(
            match m.err {
                Some(reason) => TransactionStatus::Failed { reason },
                None => TransactionStatus::Success,
            },
        ),
        None => None,
    }
}

/// The compute units that a transaction used, as far as its metadata tells.
pub open spec fn compute_units_of(meta: Option<TransactionMeta>) -> Option<u64> {
    match meta {
        Some(m) => m.compute_units_consumed,
        None => None,
    }
}

/// The details of a transaction that came with its message, given its
/// signature as text.
pub fn transaction_details(
    signature: String,
    slot: u64,
    message: &TransactionMessage,
    meta: &Option<TransactionMeta>,
) -> (notice: TransactionNotice)
    ensures
        notice == (TransactionNotice::Details {
            signature,
            slot,
            accounts: message.account_keys,
            instructions: message.instructions,
            status: status_of(*meta),
            compute_units: compute_units_of(*meta),
        }),
{
    let (status, compute_units) = match meta {
        Some(m) => (
            Some(
                match &m.err {
                    Some(reason) => TransactionStatus::Failed { reason: reason.clone() },
                    None => TransactionStatus::Success,
                },
            ),
            m.compute_units_consumed,
        ),
        None => (None, None),
    };
    TransactionNotice::Details {
        signature,
        slot,
        accounts: message.account_keys,
        instructions: message.instructions,
        status,
        compute_units,
    }
}

/// Whether `notice` is what a slot update that arrived at
/// `receive_timestamp` on the stream named `stream` gives: the update's
/// figures, the arrival in whole milliseconds, and the event of this stream
/// seeing the slot then.
pub open spec fn is_slot_notice(
    stream: Seq<char>,
    slot_update: SlotUpdate,
    receive_timestamp: u128,
    notice: SlotNotice,
) -> bool {
    &&& notice.slot == slot_update.slot
    &&& notice.parent == match slot_update.parent {
        Some(p) => p,
        None => 0,
    }
    &&& notice.status == slot_update.status
    &&& notice.received_at_ms == receive_timestamp / NANOS_PER_MILLI
    &&& notice.event matches RaceEvent::SlotReport { slot, stream_id, timestamp }
    &&& slot == slot_update.slot
    &&& stream_id@ == stream
    &&& timestamp == receive_timestamp
}

/// Whether `notice` is what the account update gives: its figures, and its
/// key in base 58.
pub open spec fn is_account_notice(account_update: AccountUpdate, notice: AccountNotice) -> bool {
    &&& notice.pubkey@ == base58_text(account_update.pubkey@)
    &&& notice.slot == account_update.slot
    &&& notice.lamports == account_update.lamports
}

/// Whether `notice` is what the transaction update gives: the first thing
/// that it lacks of transaction, data and message, or else its details with
/// the signature in base 58.
pub open spec fn is_transaction_notice(
    tx_update: TransactionUpdate,
    notice: TransactionNotice,
) -> bool {
    match tx_update.transaction {
        None => notice is NoInfo,
        Some(info) => match info.transaction {
            None => notice is NoData,
            Some(None) => notice is NoMessage,
            Some(Some(message)) => {
                &&& notice matches TransactionNotice::Details {
                    signature,
                    slot,
                    accounts,
                    instructions,
                    status,
                    compute_units,
                }
                &&& signature@ == base58_text(info.signature@)
                &&& slot == tx_update.slot
                &&& accounts == message.account_keys
                &&& instructions == message.instructions
                &&& status == status_of(info.meta)
                &&& compute_units == compute_units_of(info.meta)
            },
        },
    }
}

/// Whether `notice` is what the block update gives: its slot, and its hash
/// in base 58.
pub open spec fn is_block_notice(block_update: BlockUpdate, notice: BlockNotice) -> bool {
    &&& notice.slot == block_update.slot
    &&& notice.blockhash@ == base58_text(block_update.blockhash@)
}

/// The handlers of one stream's updates.
pub struct UpdateHandlers {
    stream_id: String,
}

impl UpdateHandlers {
    /// The name of the stream whose updates are handled.
    pub closed spec fn stream(&self) -> Seq<char> {
        self.stream_id@
    }

    /// The handlers for the stream of that name.
    pub fn new(stream_id: String) -> (handlers: UpdateHandlers)
        ensures
            handlers.stream() == stream_id@,
    {
        Self { stream_id }
    }

    /// A slot update enters the race: the event says that this stream saw
    /// the slot when the update arrived.
    pub fn handle_slot_update(&self, slot_update: SlotUpdate, receive_timestamp: u128) -> (notice:
        SlotNotice)
        ensures
            is_slot_notice(self.stream(), slot_update, receive_timestamp, notice),
    {
        SlotNotice {
            slot: slot_update.slot,
            parent: match slot_update.parent {
                Some(p) => p,
                None => 0,
            },
            status: slot_update.status,
            received_at_ms: receive_timestamp / NANOS_PER_MILLI,
            event: RaceEvent::SlotReport {
                slot: slot_update.slot,
                stream_id: self.stream_id.clone(),
                timestamp: receive_timestamp,
            },
        }
    }

    /// An account update is looked at, with the account's key as text.
    pub fn handle_account_update(&self, account_update: &AccountUpdate) -> (notice: AccountNotice)
        ensures
            is_account_notice(*account_update, notice),
    {
        AccountNotice {
            pubkey: encode_base58(account_update.pubkey.as_slice()),
            slot: account_update.slot,
            lamports: account_update.lamports,
        }
    }

    /// A transaction update is looked at: what it lacks, or its details with
    /// the signature as text.
    pub fn handle_transaction_update(&self, tx_update: &TransactionUpdate) -> (notice:
        TransactionNotice)
        ensures
            is_transaction_notice(*tx_update, notice),
    {
        let tx_info = match &tx_update.transaction {
            Some(info) => info,
            None => {
                return TransactionNotice::NoInfo;
            },
        };
        let tx = match &tx_info.transaction {
            Some(tx) => tx,
            None => {
                return TransactionNotice::NoData;
            },
        };
        let message = match tx {
            Some(msg) => msg,
            None => {
                return TransactionNotice::NoMessage;
            },
        };
        let signature = encode_base58(tx_info.signature.as_slice());
        transaction_details(signature, tx_update.slot, message, &tx_info.meta)
    }

    /// A block update is looked at, with the block's hash as text.
    pub fn handle_block_update(&self, block_update: &BlockUpdate) -> (notice: BlockNotice)
        ensures
            is_block_notice(*block_update, notice),
    {
        BlockNotice {
            slot: block_update.slot,
            blockhash: encode_base58(block_update.blockhash.as_slice()),
        }
    }
}

} // verus!
