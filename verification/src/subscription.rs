//! One subscription to a stream: what is asked of the service, and what
//! follows from each item that the stream yields.

use crate::config::CommitmentLevel;
use crate::handlers::message_handler::{handles, Handled, HandlerError, MessageHandler, SubscribeUpdate};
use vstd::prelude::*;

verus! {

/// The request that opens a subscription: slot updates only, under one named
/// filter, at the given commitment level.
#[derive(Debug)]
pub struct SlotSubscription {
    pub filter_name: String,
    pub filter_by_commitment: bool,
    pub interslot_updates: bool,
    pub commitment: CommitmentLevel,
}

/// What a stream yields when it yields something.
#[derive(Debug)]
pub enum StreamItem {
    Message(SubscribeUpdate),
    /// The transport failed.
    TransportError,
}

/// Why a subscription is given up, to be opened anew.
#[derive(Clone, Copy, Debug, PartialEq, Eq, Structural)]
pub enum ExitReason {
    /// A message carried no update.
    MalformedMessage,
    /// The transport failed.
    StreamError,
    /// The stream came to its end.
    StreamEnded,
}

/// What follows from one item of the stream.
#[derive(Debug)]
pub enum ConsumeStep {
    /// The message was handled; go on with the next.
    Continue(Handled),
    /// Leave the subscription.
    Exit(ExitReason),
}

/// Why the item ends the subscription, if it does: the stream's end, a
/// transport failure, or a message without an update.
pub open spec fn exit_reason(item: Option<StreamItem>) -> Option<ExitReason> {
    match item {
        None => Some(ExitReason::StreamEnded),
        Some(StreamItem::TransportError) => Some(ExitReason::StreamError),
        Some(StreamItem::Message(msg)) => if msg.update_oneof is None {
            Some(ExitReason::MalformedMessage)
        } else {
            None
        },
    }
}

/// Whether `step` is what follows from `item`, received at
/// `receive_timestamp` on the stream named `stream`.
pub open spec fn follows(
    stream: Seq<char>,
    item: Option<StreamItem>,
    receive_timestamp: u128,
    step: ConsumeStep,
) -> bool {
    match exit_reason(item) {
        Some(reason) => step == ConsumeStep::Exit(reason),
        None => step matches ConsumeStep::Continue(h) && item matches Some(
            StreamItem::Message(msg),
        ) && handles(stream, msg, receive_timestamp, Ok(h)),
    }
}

/// The name of the one filter of a subscription.
pub open spec fn filter_name() -> Seq<char> {
    "client"@
}

/// The manager of one stream's subscription.
pub struct SubscriptionManager {
    handler: MessageHandler,
    stream_id: String,
    commitment: CommitmentLevel,
}

impl SubscriptionManager {
    /// The name of the stream.
    pub closed spec fn stream(&self) -> Seq<char> {
        self.stream_id@
    }

    /// The commitment level that the subscription asks for.
    pub closed spec fn commitment(&self) -> CommitmentLevel {
        self.commitment
    }

    /// The handler is that of the same stream.
    pub closed spec fn wf(&self) -> bool {
        self.handler.wf() && self.handler.stream() == self.stream_id@
    }

    /// The manager for the stream of that name, at that commitment level.
    pub fn new(stream_id: String, commitment: CommitmentLevel) -> (manager: SubscriptionManager)
        ensures
            manager.wf(),
            manager.stream() == stream_id@,
            manager.commitment() == commitment,
    {
        Self { handler: MessageHandler::new(stream_id.clone()), stream_id, commitment }
    }

    /// The stream's name.
    pub fn stream_id(&self) -> (name: &String)
        ensures
            name@ == self.stream(),
    {
        &self.stream_id
    }

    /// The request to open the subscription with: slot updates of the
    /// configured commitment level only, and none between slots.
    pub fn request(&self) -> (request: SlotSubscription)
        ensures
            request.filter_name@ == filter_name(),
            request.filter_by_commitment,
            !request.interslot_updates,
            request.commitment == self.commitment(),
    {
        SlotSubscription {
            filter_name: "client".to_owned(),
            filter_by_commitment: true,
            interslot_updates: false,
            commitment: self.commitment,
        }
    }

    /// Takes the next item of the stream, `None` at its end, with the time
    /// at which it arrived. A message with an update is handled and the
    /// subscription goes on; anything else ends it.
    pub fn consume(&mut self, item: Option<StreamItem>, receive_timestamp: u128) -> (step:
        ConsumeStep)
        requires
            old(self).wf(),
        ensures
            final(self).wf(),
            final(self).stream() == old(self).stream(),
            final(self).commitment() == old(self).commitment(),
            follows(old(self).stream(), item, receive_timestamp, step),
    {
        match item {
            Some(StreamItem::Message(msg)) => {
                match self.handler.handle_message(msg, receive_timestamp) {
                    Ok(h) => ConsumeStep::Continue(h),
                    Err(HandlerError::UpdateNotFound) => ConsumeStep::Exit(
                        ExitReason::MalformedMessage,
                    ),
                }
            },
            Some(StreamItem::TransportError) => ConsumeStep::Exit(ExitReason::StreamError),
            None => ConsumeStep::Exit(ExitReason::StreamEnded),
        }
    }
}

} // verus!
