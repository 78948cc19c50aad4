//! The dispatch of a message by the kind of update that it carries.

use crate::handlers::update_handlers::{
    is_account_notice, is_block_notice, is_slot_notice, is_transaction_notice, AccountNotice,
    AccountUpdate, BlockNotice, BlockUpdate, SlotNotice, SlotUpdate, TransactionNotice,
    TransactionUpdate, UpdateHandlers,
};
use vstd::prelude::*;

verus! {

/// The kinds of update that a message can carry.
#[derive(Debug)]
pub enum UpdateOneof {
    Slot(SlotUpdate),
    Account(AccountUpdate),
    Transaction(TransactionUpdate),
    Block(BlockUpdate),
    /// The service asks whether the client is alive.
    Ping,
    /// The service answers the client's ping of that id.
    Pong { id: i32 },
    /// A kind that this library does not look at.
    Other,
}

/// A message from a stream; a well-formed one carries an update.
#[derive(Debug)]
pub struct SubscribeUpdate {
    pub update_oneof: Option<UpdateOneof>,
}

/// What the runner has to do about a message.
#[derive(Debug)]
pub enum Handled {
    /// Send the notice's event on to the referee.
    Slot(SlotNotice),
    Account(AccountNotice),
    Transaction(TransactionNotice),
    Block(BlockNotice),
    /// Answer the service's ping at once with a ping of this id.
    Ping { reply_id: i32 },
    Pong { id: i32 },
    Unknown,
}

/// Why a message cannot be handled.
#[derive(Clone, Copy, Debug, PartialEq, Eq, Structural)]
pub enum HandlerError {
    /// The message carries no update.
    UpdateNotFound,
}

/// The id of the ping that answers the service's ping.
pub const PING_REPLY_ID: i32 = 1;

/// The handler of one stream's messages.
pub struct MessageHandler {
    update_handlers: UpdateHandlers,
    stream_id: String,
}

impl MessageHandler {
    /// The name of the stream whose messages are handled.
    pub closed spec fn stream(&self) -> Seq<char> {
        self.stream_id@
    }

    /// The handlers are those of the same stream.
    pub closed spec fn wf(&self) -> bool {
        self.update_handlers.stream() == self.stream_id@
    }

    /// The handler for the stream of that name.
    pub fn new(stream_id: String) -> (handler: MessageHandler)
        ensures
            handler.wf(),
            handler.stream() == stream_id@,
    {
        Self { update_handlers: UpdateHandlers::new(stream_id.clone()), stream_id }
    }

    /// The stream's name.
    pub fn stream_id(&self) -> (name: &String)
        ensures
            name@ == self.stream(),
    {
        &self.stream_id
    }

    /// Handles one message that arrived at `receive_timestamp`. A slot update
    /// gives the event for the referee, a ping the reply to send; a pong, the
    /// other updates and unknown kinds only give something to log. A message
    /// without an update is an error.
    pub fn handle_message(&mut self, msg: SubscribeUpdate, receive_timestamp: u128) -> (done:
        Result<Handled, HandlerError>)
        requires
            old(self).wf(),
        ensures
            final(self).wf(),
            final(self).stream() == old(self).stream(),
            handles(old(self).stream(), msg, receive_timestamp, done),
    {
        match msg.update_oneof {
            Some(UpdateOneof::Slot(slot_update)) => Ok(
                Handled::Slot(
                    self.update_handlers.handle_slot_update(slot_update, receive_timestamp),
                ),
            ),
            Some(UpdateOneof::Account(account_update)) => Ok(
                Handled::Account(self.update_handlers.handle_account_update(&account_update)),
            ),
            Some(UpdateOneof::Transaction(tx_update)) => Ok(
                Handled::Transaction(self.update_handlers.handle_transaction_update(&tx_update)),
            ),
            Some(UpdateOneof::Block(block_update)) => Ok(
                Handled::Block(self.update_handlers.handle_block_update(&block_update)),
            ),
            Some(UpdateOneof::Ping) => Ok(Handled::Ping { reply_id: PING_REPLY_ID }),
            Some(UpdateOneof::Pong { id }) => Ok(Handled::Pong { id }),
            Some(UpdateOneof::Other) => Ok(Handled::Unknown),
            None => Err(HandlerError::UpdateNotFound),
        }
    }
}

/// Whether `done` is what handling `msg` gives for the stream named
/// `stream`: an error exactly where the message carries no update, and else
/// the result of the update's kind.
pub open spec fn handles(
    stream: Seq<char>,
    msg: SubscribeUpdate,
    receive_timestamp: u128,
    done: Result<Handled, HandlerError>,
) -> bool {
    match msg.update_oneof {
        None => done == Err::<Handled, HandlerError>(HandlerError::UpdateNotFound),
        Some(UpdateOneof::Slot(u)) => done matches Ok(Handled::Slot(notice)) && is_slot_notice(
            stream,
            u,
            receive_timestamp,
            notice,
        ),
        Some(UpdateOneof::Account(u)) => done matches Ok(Handled::Account(notice))
            && is_account_notice(u, notice),
        Some(UpdateOneof::Transaction(u)) => done matches Ok(Handled::Transaction(notice))
            && is_transaction_notice(u, notice),
        Some(UpdateOneof::Block(u)) => done matches Ok(Handled::Block(notice)) && is_block_notice(
            u,
            notice,
        ),
        Some(UpdateOneof::Ping) => done == Ok::<Handled, HandlerError>(
            Handled::Ping { reply_id: PING_REPLY_ID },
        ),
        Some(UpdateOneof::Pong { id }) => done == Ok::<Handled, HandlerError>(Handled::Pong { id }),
        Some(UpdateOneof::Other) => done == Ok::<Handled, HandlerError>(Handled::Unknown),
    }
}

} // verus!
