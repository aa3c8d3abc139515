//! The channels on which game-server updates reach the watchers: one channel
//! per watcher, whose sending end the mock keeps and whose receiving end the
//! watcher takes; and one channel whose both ends the mock keeps, on which
//! updates wait for the next watcher while nobody is listening.
use vstd::prelude::*;

verus! {

/// `flume::Sender`, the sending end of a channel.
#[verifier::external_type_specification]
#[verifier::external_body]
#[verifier::reject_recursive_types(T)]
pub struct ExSender<T>(flume::Sender<T>);

/// `flume::Receiver`, a receiving end of a channel.
#[verifier::external_type_specification]
#[verifier::external_body]
#[verifier::reject_recursive_types(T)]
pub struct ExReceiver<T>(flume::Receiver<T>);

/// `flume::SendError`, what `send` returns when every receiver has gone.
#[verifier::external_type_specification]
#[verifier::external_body]
#[verifier::reject_recursive_types(T)]
pub struct ExSendError<T>(flume::SendError<T>);

/// What the sending end of a channel has done, as the contracts speak of it.
pub struct ChannelView<T> {
    /// A tag that pairs this sending end with the receiving end it was opened
    /// with: only the trusted constructor of the two ends gives them a tag,
    /// and it gives both the same one. Nothing is said of the tags of
    /// different channels.
    pub channel: int,
    /// Whether every send so far has found a receiver. Once a send fails,
    /// every receiver is gone for good, and every later send fails too.
    pub listening: bool,
    /// Every message the channel has accepted, in the order it was sent; a
    /// receiver of the channel takes them in this order.
    pub sent: Seq<T>,
}

/// Whether `after` is `before` once `message` was offered to it: taken in at
/// the end if a receiver is still there, dropped otherwise.
pub open spec fn offered<T>(before: ChannelView<T>, after: ChannelView<T>, message: T) -> bool {
    &&& after.channel == before.channel
    &&& !before.listening ==> !after.listening
    &&& after.listening ==> after.sent == before.sent.push(message)
    &&& !after.listening ==> after.sent == before.sent
}

/// The sending end of a channel to one watcher.
#[verifier::reject_recursive_types(T)]
pub struct UpdateSender<T> {
    sender: flume::Sender<T>,
    channel: Ghost<int>,
    listening: Ghost<bool>,
    sent: Ghost<Seq<T>>,
}

/// The receiving end of a channel to one watcher.
#[verifier::reject_recursive_types(T)]
pub struct UpdateReceiver<T> {
    receiver: flume::Receiver<T>,
    channel: Ghost<int>,
}

impl<T> View for UpdateSender<T> {
    type V = ChannelView<T>;

    closed spec fn view(&self) -> ChannelView<T> {
        ChannelView { channel: self.channel@, listening: self.listening@, sent: self.sent@ }
    }
}

impl<T> UpdateReceiver<T> {
    /// Which channel this receiving end belongs to.
    pub closed spec fn channel(&self) -> int {
        self.channel@
    }

    /// The flume receiver itself, to read the channel with.
    pub fn into_receiver(self) -> flume::Receiver<T> {
        self.receiver
    }
}

/// A channel whose two ends are both kept, so that every send on it succeeds:
/// messages wait on it until its receiving end is handed to a watcher.
#[verifier::reject_recursive_types(T)]
pub struct HeldChannel<T> {
    sender: flume::Sender<T>,
    receiver: flume::Receiver<T>,
    queued: Ghost<Seq<T>>,
}

impl<T> HeldChannel<T> {
    /// The messages waiting on the channel, in the order they were sent.
    pub closed spec fn queued(&self) -> Seq<T> {
        self.queued@
    }

    /// Calls `flume::unbounded`: a new channel without a bound, with nothing
    /// on it.
    #[verifier::external_body]
    pub(crate) fn open() -> (held: HeldChannel<T>)
        ensures
            held.queued() == Seq::<T>::empty(),
    {
        let (sender, receiver) = flume::unbounded();
        HeldChannel { sender, receiver, queued: Ghost(Seq::empty()) }
    }

    /// Calls `flume::Sender::send` on this channel. On a channel without a
    /// bound, `send` puts the message at the back of the queue and fails only
    /// when every receiver has been dropped; this channel keeps its receiver,
    /// so the message is always queued.
    #[verifier::external_body]
    pub(crate) fn publish(&mut self, message: T)
        ensures
            final(self).queued() == old(self).queued().push(message),
    {
        let _ = self.sender.send(message);
    }

    /// Separates the `flume::Sender` and `flume::Receiver` of this channel,
    /// moving each into its own end: both ends carry this channel's tag, the
    /// sending end has taken exactly the messages queued so far, and its
    /// receiver, handed back alongside it, is alive. Nothing is said of the
    /// tags of other channels.
    #[verifier::external_body]
    pub(crate) fn into_ends(self) -> (ends: (UpdateSender<T>, UpdateReceiver<T>))
        ensures
            ends.0@.channel == ends.1.channel(),
            ends.0@.listening,
            ends.0@.sent == self.queued(),
    {
        // The ghost fields are erased; what they hold is what the contract says.
        (
            UpdateSender {
                sender: self.sender,
                channel: Ghost(0),
                listening: Ghost(true),
                sent: self.queued,
            },
            UpdateReceiver { receiver: self.receiver, channel: Ghost(0) },
        )
    }
}

impl<T> UpdateSender<T> {
    /// Calls `flume::Sender::send` on this end. On a channel without a bound,
    /// `send` puts the message at the back of the queue and returns `Ok`,
    /// unless every receiver has been dropped, in which case it returns the
    /// message in `Err` and leaves the queue as it was. A channel whose
    /// receivers are all gone never gets one back (receivers are made only by
    /// cloning a live one), so after one failed send every later send fails.
    #[verifier::external_body]
    pub(crate) fn publish(&mut self, message: T) -> (sent: Result<(), flume::SendError<T>>)
        ensures
            final(self)@.channel == old(self)@.channel,
            !old(self)@.listening ==> sent is Err,
            match sent {
                Ok(()) => final(self)@.listening && final(self)@.sent == old(self)@.sent.push(
                    message,
                ),
                Err(_) => !final(self)@.listening && final(self)@.sent == old(self)@.sent,
            },
    {
        self.sender.send(message)
    }
}

} // verus!
