//! Channels: the queue of outbound messages, and one-shot channels for replies.

use vstd::prelude::*;

use crate::message::Message;

verus! {

use crate::message::MessageView;

/// `tokio::sync::mpsc::UnboundedSender`, of which contracts speak through [`outbox`].
#[verifier::external_type_specification]
#[verifier::external_body]
#[verifier::reject_recursive_types(T)]
pub struct ExUnboundedSender<T>(tokio::sync::mpsc::UnboundedSender<T>);

/// `tokio::sync::oneshot::Sender`, carried through as it is.
#[verifier::external_type_specification]
#[verifier::external_body]
#[verifier::reject_recursive_types(T)]
pub struct ExReplySender<T>(tokio::sync::oneshot::Sender<T>);

/// `tokio::sync::oneshot::Receiver`, carried through as it is.
#[verifier::external_type_specification]
#[verifier::external_body]
#[verifier::reject_recursive_types(T)]
pub struct ExReplyReceiver<T>(tokio::sync::oneshot::Receiver<T>);

/// `tokio::sync::oneshot::error::RecvError`, which the receiver's type mentions.
#[verifier::external_type_specification]
#[verifier::external_body]
pub struct ExRecvError(tokio::sync::oneshot::error::RecvError);

/// What is known of a handle to the queue of outbound messages.
#[verifier::ext_equal]
pub struct OutboxView {
    /// Stands for the queue: the handles that are clones of one another share it.
    pub queue: int,
    /// The messages that were put into the queue through this handle, in order.
    pub accepted: Seq<MessageView>,
    /// The queue is known to be closed: it refused a message of this handle, or of the handle that
    /// this one was cloned from before. A queue may also be closed without a handle knowing it.
    pub closed: bool,
    /// How many other handles were made from this one. What is sent through another handle does not
    /// show here, but that there is one does.
    pub clones: nat,
}

impl OutboxView {
    /// The handle after one more message was put into the queue through it.
    pub open spec fn push(self, message: MessageView) -> OutboxView {
        OutboxView { accepted: self.accepted.push(message), ..self }
    }

    /// The handle after the queue refused a message of it.
    pub open spec fn refused(self) -> OutboxView {
        OutboxView { closed: true, ..self }
    }

    /// Another handle to the same queue, through which nothing was sent yet, and from which none was
    /// made.
    pub open spec fn another(self) -> OutboxView {
        OutboxView { accepted: Seq::empty(), clones: 0, ..self }
    }

    /// The handle after another one was made from it.
    pub open spec fn cloned(self) -> OutboxView {
        OutboxView { clones: self.clones + 1, ..self }
    }
}

/// What is known of a handle.
pub uninterp spec fn outbox(tx: tokio::sync::mpsc::UnboundedSender<Message>) -> OutboxView;

/// `UnboundedSender::send` puts a message into the queue, or gives it back if the receiving side
/// is closed. Once that side is closed it stays so: a queue that refused a message takes none.
/// Whether it is closed is known here only from a message that it refused.
#[verifier::external_body]
pub(crate) fn queue_message(
    tx: &mut tokio::sync::mpsc::UnboundedSender<Message>,
    message: Message,
) -> (r: Result<(), Message>)
    ensures
        match r {
            Ok(()) => !outbox(*old(tx)).closed && outbox(*final(tx)) == outbox(*old(tx)).push(
                message@,
            ),
            Err(m) => outbox(*final(tx)) == outbox(*old(tx)).refused() && m == message,
        },
{
    tx.send(message).map_err(|e| e.0)
}

/// `Clone` of `UnboundedSender` gives another handle to the queue, through which nothing was sent
/// yet. That it was made is known of the handle that it was made from.
#[verifier::external_body]
pub(crate) fn clone_sender(tx: &mut tokio::sync::mpsc::UnboundedSender<Message>) -> (r:
    tokio::sync::mpsc::UnboundedSender<Message>)
    ensures
        outbox(r) == outbox(*old(tx)).another(),
        outbox(*final(tx)) == outbox(*old(tx)).cloned(),
{
    tx.clone()
}

/// `oneshot::channel` makes a sender and the receiver that gets what the sender sends. Nothing is
/// claimed of the two but that they came out of one call; see [`is_channel`].
pub assume_specification<Reply>[ tokio::sync::oneshot::channel::<Reply> ]() -> (r: (
    tokio::sync::oneshot::Sender<Reply>,
    tokio::sync::oneshot::Receiver<Reply>,
));

/// `oneshot::Sender::send` sends a value to the receiver, or gives it back if the receiver is
/// gone. Whether it is gone, and what the receiver does with the value, is not known here.
pub assume_specification<Reply>[ tokio::sync::oneshot::Sender::<Reply>::send ](
    tx: tokio::sync::oneshot::Sender<Reply>,
    t: Reply,
) -> (r: Result<(), Reply>)
    ensures
        r matches Err(v) ==> v == t,
;

/// `core::mem::drop` drops a value. Nothing is claimed of it but that it was called; see
/// [`was_dropped`].
pub assume_specification<Gone>[ core::mem::drop::<Gone> ](x: Gone);

/// One call of `oneshot::channel` returned this sender and this receiver.
pub open spec fn is_channel<O>(
    tx: tokio::sync::oneshot::Sender<O>,
    rx: tokio::sync::oneshot::Receiver<O>,
) -> bool {
    call_ensures(tokio::sync::oneshot::channel::<O>, (), (tx, rx))
}

/// `oneshot::Sender::send` was called on this sender with this value, and returned.
pub open spec fn was_sent<O>(tx: tokio::sync::oneshot::Sender<O>, value: O) -> bool {
    exists|outcome: Result<(), O>| #[trigger]
        call_ensures(tokio::sync::oneshot::Sender::<O>::send, (tx, value), outcome)
}

/// This sender was dropped. A sender is used up by sending and cannot be cloned, so nothing was
/// sent on it.
pub open spec fn was_dropped<O>(tx: tokio::sync::oneshot::Sender<O>) -> bool {
    call_ensures(core::mem::drop::<tokio::sync::oneshot::Sender<O>>, (tx,), ())
}

/// The receiver gets an error: the sender that came with it was dropped.
pub open spec fn gets_error<O>(rx: tokio::sync::oneshot::Receiver<O>) -> bool {
    exists|tx: tokio::sync::oneshot::Sender<O>| #[trigger] is_channel(tx, rx) && was_dropped(tx)
}

/// The value was sent to this receiver: on the sender that came with it.
pub open spec fn goes_to<O>(value: O, rx: tokio::sync::oneshot::Receiver<O>) -> bool {
    exists|tx: tokio::sync::oneshot::Sender<O>| #[trigger] is_channel(tx, rx) && was_sent(tx, value)
}

} // verus!
