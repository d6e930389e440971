//! The channels between the host, the application and the code of the user
//! interface. The types are those of `tokio` and `winit`; nothing is proved
//! of what they do with a message once they have it.

use vstd::prelude::*;
use std::sync::Arc;

verus! {

#[verifier::external_type_specification]
#[verifier::external_body]
#[verifier::reject_recursive_types(T)]
pub struct ExUnboundedSender<T>(tokio::sync::mpsc::UnboundedSender<T>);

#[verifier::external_type_specification]
#[verifier::external_body]
#[verifier::reject_recursive_types(T)]
pub struct ExUnboundedReceiver<T>(tokio::sync::mpsc::UnboundedReceiver<T>);

#[verifier::external_type_specification]
#[verifier::external_body]
#[verifier::reject_recursive_types(T)]
pub struct ExBroadcastSender<T>(tokio::sync::broadcast::Sender<T>);

#[verifier::external_type_specification]
#[verifier::external_body]
#[verifier::reject_recursive_types(T)]
pub struct ExBroadcastReceiver<T>(tokio::sync::broadcast::Receiver<T>);

#[verifier::external_type_specification]
#[verifier::external_body]
#[verifier::reject_recursive_types(T)]
pub struct ExWatchSender<T>(tokio::sync::watch::Sender<T>);

#[verifier::external_type_specification]
#[verifier::external_body]
#[verifier::reject_recursive_types(T)]
pub struct ExWatchReceiver<T>(tokio::sync::watch::Receiver<T>);

#[verifier::external_type_specification]
#[verifier::external_body]
pub struct ExNotify(tokio::sync::Notify);

#[verifier::external_type_specification]
#[verifier::external_body]
#[verifier::reject_recursive_types(T)]
pub struct ExEventLoopProxy<T: 'static>(winit::event_loop::EventLoopProxy<T>);

#[verifier::external_type_specification]
#[verifier::external_body]
#[verifier::reject_recursive_types(T)]
pub struct ExUnboundedSendError<T>(tokio::sync::mpsc::error::SendError<T>);

#[verifier::external_type_specification]
#[verifier::external_body]
#[verifier::reject_recursive_types(T)]
pub struct ExBroadcastSendError<T>(tokio::sync::broadcast::error::SendError<T>);

#[verifier::external_type_specification]
#[verifier::external_body]
#[verifier::reject_recursive_types(T)]
pub struct ExWatchSendError<T>(tokio::sync::watch::error::SendError<T>);

#[verifier::external_type_specification]
#[verifier::external_body]
#[verifier::reject_recursive_types(T)]
pub struct ExEventLoopClosed<T>(winit::event_loop::EventLoopClosed<T>);

/// `tokio::sync::mpsc::unbounded_channel`: a new channel without a bound,
/// as its two halves.
#[verifier::external_body]
pub(crate) fn unbounded_channel<T>() -> (halves: (
    tokio::sync::mpsc::UnboundedSender<T>,
    tokio::sync::mpsc::UnboundedReceiver<T>,
)) {
    tokio::sync::mpsc::unbounded_channel()
}

/// `tokio::sync::mpsc::UnboundedSender::send`: hands `message` to the
/// channel. The channel takes it, or gives it back as an error once its
/// receiving half is closed or dropped; which of the two, nothing here
/// says.
#[verifier::external_body]
pub(crate) fn unbounded_send<T>(sender: &tokio::sync::mpsc::UnboundedSender<T>, message: T) -> (sent:
    Result<(), tokio::sync::mpsc::error::SendError<T>>) {
    sender.send(message)
}

/// `winit::event_loop::EventLoopProxy::send_event`: hands `event` to the
/// event loop of the host. The loop takes it, or the event comes back as an
/// error once the loop is gone; which of the two, nothing here says.
#[verifier::external_body]
pub(crate) fn proxy_send<T: 'static>(proxy: &winit::event_loop::EventLoopProxy<T>, event: T) -> (sent:
    Result<(), winit::event_loop::EventLoopClosed<T>>) {
    proxy.send_event(event)
}

/// `tokio::sync::broadcast::channel`: a new broadcast channel that keeps up
/// to `capacity` messages for a receiver that is behind, as its sender and
/// its first receiver. The outside function panics on a capacity of 0 and on
/// one above half of `usize::MAX`.
#[verifier::external_body]
pub(crate) fn broadcast_channel<T: Clone>(capacity: usize) -> (halves: (
    tokio::sync::broadcast::Sender<T>,
    tokio::sync::broadcast::Receiver<T>,
))
    requires
        0 < capacity <= usize::MAX / 2,
{
    tokio::sync::broadcast::channel(capacity)
}

/// `tokio::sync::broadcast::Sender::send`: sends `value` to every receiver
/// there is. Returns how many there are, or the value as an error where
/// there is none.
#[verifier::external_body]
pub(crate) fn broadcast_send<T>(sender: &tokio::sync::broadcast::Sender<T>, value: T) -> (sent:
    Result<usize, tokio::sync::broadcast::error::SendError<T>>) {
    sender.send(value)
}

/// `tokio::sync::broadcast::Sender::subscribe`: a new receiver, which gets
/// what is sent from now on.
#[verifier::external_body]
pub(crate) fn broadcast_subscribe<T>(sender: &tokio::sync::broadcast::Sender<T>) -> (receiver:
    tokio::sync::broadcast::Receiver<T>) {
    sender.subscribe()
}

/// `tokio::sync::broadcast::Receiver::resubscribe`: a new receiver on the
/// channel of `receiver`, which gets what is sent from now on.
#[verifier::external_body]
pub(crate) fn broadcast_resubscribe<T: Clone>(receiver: &tokio::sync::broadcast::Receiver<T>) -> (fresh:
    tokio::sync::broadcast::Receiver<T>) {
    receiver.resubscribe()
}

/// `tokio::sync::watch::channel`: a new channel that holds one value, `init`
/// at first, as its sender and its first receiver.
#[verifier::external_body]
pub(crate) fn watch_channel<T>(init: T) -> (halves: (
    tokio::sync::watch::Sender<T>,
    tokio::sync::watch::Receiver<T>,
)) {
    tokio::sync::watch::channel(init)
}

/// `tokio::sync::watch::Sender::send`: makes `value` the value of the
/// channel and tells the receivers. Without a receiver the channel keeps
/// its value, and `value` comes back as an error.
#[verifier::external_body]
pub(crate) fn watch_send<T>(sender: &tokio::sync::watch::Sender<T>, value: T) -> (sent: Result<
    (),
    tokio::sync::watch::error::SendError<T>,
>) {
    sender.send(value)
}

/// `Clone::clone` of `tokio::sync::watch::Receiver`: one more receiver on
/// the same channel.
#[verifier::external_body]
pub(crate) fn watch_subscribe<T>(receiver: &tokio::sync::watch::Receiver<T>) -> (fresh:
    tokio::sync::watch::Receiver<T>) {
    receiver.clone()
}

/// `tokio::sync::Notify::notify_one`: wakes one task that waits on
/// `notify`, or the next one that will.
#[verifier::external_body]
pub(crate) fn notify_one(notify: &Arc<tokio::sync::Notify>) {
    notify.notify_one()
}

} // verus!
