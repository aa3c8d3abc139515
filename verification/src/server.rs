//! The state of the mock SDK server and the way it answers each call.
use crate::calls::{
    failable_kind, failure_slot, lemma_failure_slot_injective, refers_to_streams, report_of,
    FailableSdkCall, InternalSdkCall, SdkCall,
};
use crate::channel::{offered, ChannelView, HeldChannel, UpdateReceiver, UpdateSender};
use crate::sdk::{Duration, KeyValue};
use crate::status::copy_status;
use std::collections::HashMap;
use tonic::Status;
use vstd::prelude::*;

verus! {

broadcast use vstd::std_specs::hash::group_hash_axioms;

/// What came of reading one message from a health stream.
#[derive(Debug, Clone, Copy, PartialEq, Eq)]
pub enum HealthRead {
    /// A ping arrived.
    Message,
    /// The client closed the stream.
    End,
    /// Reading failed.
    Failed,
}

/// What a mock SDK server holds, as the contracts speak of it.
pub struct MockSdkView<G> {
    /// Every call made so far, in the order it was made.
    pub recorded: Seq<InternalSdkCall>,
    /// For each health stream opened so far, the pings it has delivered.
    pub pings: Seq<usize>,
    /// The current game-server record.
    pub game_server: G,
    /// The status each kind of call is refused with, where it is told to fail.
    pub failures: Map<FailableSdkCall, Status>,
    /// The channel to each watcher of the game server, in the order the
    /// watchers came.
    pub watchers: Seq<ChannelView<Result<G, Status>>>,
    /// The updates sent while no watcher was listening, in order: they wait
    /// for the next watcher, who receives them first.
    pub pending: Seq<Result<G, Status>>,
}

impl<G> MockSdkView<G> {
    /// The calls as they are reported: each recorded call, in order, with the
    /// current ping count of its health stream where it is a health call.
    pub open spec fn reported(self) -> Seq<SdkCall> {
        self.recorded.map_values(|call: InternalSdkCall| report_of(call, self.pings))
    }

    /// Whether every recorded health call names a health stream that exists.
    pub open spec fn consistent(self) -> bool {
        forall|i: int|
            0 <= i < self.recorded.len() ==> #[trigger] refers_to_streams(
                self.recorded[i],
                self.pings.len(),
            )
    }

    /// How a call of the given kind is answered: refused with the configured
    /// status where there is one, accepted otherwise.
    pub open spec fn answer(self, kind: FailableSdkCall) -> Result<(), Status> {
        if self.failures.contains_key(kind) {
            Err(self.failures[kind])
        } else {
            Ok(())
        }
    }

    /// This state with one more call recorded.
    pub open spec fn with_recorded(self, call: InternalSdkCall) -> MockSdkView<G> {
        MockSdkView { recorded: self.recorded.push(call), ..self }
    }

    /// This state with a new health stream, at no pings, and a health call
    /// recorded for it.
    pub open spec fn with_health_stream(self) -> MockSdkView<G> {
        MockSdkView {
            recorded: self.recorded.push(InternalSdkCall::Health(self.pings.len() as usize)),
            pings: self.pings.push(0),
            ..self
        }
    }

    /// This state with one more ping delivered on the given health stream.
    pub open spec fn with_ping(self, stream: int) -> MockSdkView<G> {
        MockSdkView { pings: self.pings.update(stream, (self.pings[stream] + 1) as usize), ..self }
    }

    /// This state with another game-server record.
    pub open spec fn with_game_server(self, game_server: G) -> MockSdkView<G> {
        MockSdkView { game_server, ..self }
    }

    /// This state with calls of the given kind told to fail with `err`.
    pub open spec fn with_failure(self, kind: FailableSdkCall, err: Status) -> MockSdkView<G> {
        MockSdkView { failures: self.failures.insert(kind, err), ..self }
    }

    /// This state with a new watcher, listening on the given channel, which
    /// has been sent the waiting updates; none waits any more.
    pub open spec fn with_watcher(self, channel: int) -> MockSdkView<G> {
        MockSdkView {
            watchers: self.watchers.push(
                ChannelView { channel, listening: true, sent: self.pending },
            ),
            pending: Seq::empty(),
            ..self
        }
    }

    /// This state with the given updates waiting for the next watcher.
    pub open spec fn with_pending(self, pending: Seq<Result<G, Status>>) -> MockSdkView<G> {
        MockSdkView { pending, ..self }
    }

    /// This state with its watchers' channels replaced.
    pub open spec fn with_watchers(self, watchers: Seq<ChannelView<Result<G, Status>>>) -> MockSdkView<G> {
        MockSdkView { watchers, ..self }
    }

    /// Whether `after` holds the same watchers as this state once `update`
    /// was offered to each of them.
    pub open spec fn offered_to_all(self, after: Seq<ChannelView<Result<G, Status>>>, update: Result<G, Status>) -> bool {
        &&& after.len() == self.watchers.len()
        &&& forall|i: int| #![trigger after[i]] 0 <= i < after.len() ==> offered(self.watchers[i], after[i], update)
    }
}

/// Whether some of the given channels is still listening.
pub open spec fn any_listening<T>(watchers: Seq<ChannelView<T>>) -> bool {
    exists|i: int| 0 <= i < watchers.len() && #[trigger] watchers[i].listening
}

/// Whether `after` is the channel `before` once a clone of `gs` was offered
/// to it.
pub open spec fn offered_clone<G: Clone>(
    before: ChannelView<Result<G, Status>>,
    after: ChannelView<Result<G, Status>>,
    gs: G,
) -> bool {
    &&& offered(before, after, after.sent.last())
    &&& after.listening ==> after.sent.last() is Ok && cloned(gs, after.sent.last()->Ok_0)
}

/// The calls recorded so far and the ping counts of the health streams.
struct CallLog {
    recorded: Vec<InternalSdkCall>,
    pings: Vec<usize>,
}

impl CallLog {
    fn empty() -> (log: CallLog)
        ensures
            log.recorded@ == Seq::<InternalSdkCall>::empty(),
            log.pings@ == Seq::<usize>::empty(),
    {
        CallLog { recorded: Vec::new(), pings: Vec::new() }
    }
}

/// A mock Agones SDK server: it records every call made to it, answers each
/// call or refuses it with the status a test configured for its kind, keeps
/// the current game-server record of type `G`, and sends every new record
/// (or a configured error) to each watcher of the game server.
#[verifier::reject_recursive_types(G)]
pub struct MockSdk<G> {
    log: CallLog,
    game_server: G,
    failures: HashMap<u8, Status>,
    watchers: Vec<UpdateSender<Result<G, Status>>>,
    backlog: HeldChannel<Result<G, Status>>,
}

impl<G> View for MockSdk<G> {
    type V = MockSdkView<G>;

    closed spec fn view(&self) -> MockSdkView<G> {
        MockSdkView {
            recorded: self.log.recorded@,
            pings: self.log.pings@,
            game_server: self.game_server,
            failures: Map::new(
                |kind: FailableSdkCall| self.failures@.contains_key(failure_slot(kind)),
                |kind: FailableSdkCall| self.failures@[failure_slot(kind)],
            ),
            watchers: self.watchers@.map_values(|w: UpdateSender<Result<G, Status>>| w@),
            pending: self.backlog.queued(),
        }
    }
}

impl<G> MockSdk<G> {
    #[verifier::type_invariant]
    spec fn well_formed(self) -> bool {
        forall|i: int|
            0 <= i < self.log.recorded@.len() ==> #[trigger] refers_to_streams(
                self.log.recorded@[i],
                self.log.pings@.len(),
            )
    }

    /// A fresh mock: nothing recorded, no health stream, no call told to fail,
    /// no watcher, and the given game-server record.
    pub fn new(initial_game_server: G) -> (mock: Self)
        ensures
            mock@.recorded == Seq::<InternalSdkCall>::empty(),
            mock@.pings == Seq::<usize>::empty(),
            mock@.game_server == initial_game_server,
            mock@.failures == Map::<FailableSdkCall, Status>::empty(),
            mock@.watchers == Seq::<ChannelView<Result<G, Status>>>::empty(),
            mock@.pending == Seq::<Result<G, Status>>::empty(),
            mock@.consistent(),
    {
        let mock = MockSdk {
            log: CallLog::empty(),
            game_server: initial_game_server,
            failures: HashMap::new(),
            watchers: Vec::new(),
            backlog: HeldChannel::open(),
        };
        assert(mock@.failures =~= Map::<FailableSdkCall, Status>::empty());
        assert(mock@.watchers =~= Seq::<ChannelView<Result<G, Status>>>::empty());
        mock
    }

    /// States what holds of every mock: each recorded health call names a
    /// health stream that exists.
    pub fn consistent_state(&self)
        ensures
            self@.consistent(),
    {
        proof {
            use_type_invariant(self);
        }
    }

    /// The calls made so far, in order, as they are reported.
    pub fn calls(&self) -> (calls: Vec<SdkCall>)
        ensures
            calls@ == self@.reported(),
    {
        proof {
            use_type_invariant(self);
        }
        let mut calls: Vec<SdkCall> = Vec::new();
        let mut i: usize = 0;
        while i < self.log.recorded.len()
            invariant
                i <= self.log.recorded@.len(),
                calls@.len() == i,
                forall|j: int|
                    0 <= j < self.log.recorded@.len() ==> #[trigger] refers_to_streams(
                        self.log.recorded@[j],
                        self.log.pings@.len(),
                    ),
                forall|j: int|
                    0 <= j < i ==> calls@[j] == report_of(self.log.recorded@[j], self.log.pings@),
            decreases self.log.recorded@.len() - i,
        {
            calls.push(SdkCall::from_recorded(&self.log.recorded[i], &self.log.pings));
            i += 1;
        }
        assert(calls@ =~= self@.reported());
        calls
    }

    /// The current game-server record.
    pub fn game_server(&self) -> (game_server: &G)
        ensures
            *game_server == self@.game_server,
    {
        &self.game_server
    }

    /// The number of pings the given health stream has delivered.
    pub fn health_pings(&self, stream: usize) -> (pings: usize)
        requires
            stream < self@.pings.len(),
        ensures
            pings == self@.pings[stream as int],
    {
        self.log.pings[stream]
    }

    /// Sends `err` to each watcher of the game server that is still listening;
    /// where none is, `err` waits for the next watcher.
    pub fn stream_watch_game_server_error(&mut self, err: Status)
        ensures
            old(self)@.offered_to_all(final(self)@.watchers, Err(err)),
            final(self)@.pending == if any_listening(final(self)@.watchers) {
                old(self)@.pending
            } else {
                old(self)@.pending.push(Err(err))
            },
            final(self)@ == old(self)@.with_watchers(final(self)@.watchers).with_pending(
                final(self)@.pending,
            ),
            final(self)@.consistent(),
    {
        proof {
            use_type_invariant(&*self);
        }
        let mut watchers: Vec<UpdateSender<Result<G, Status>>> = Vec::new();
        std::mem::swap(&mut watchers, &mut self.watchers);
        let ghost before = watchers@;
        let ghost is_err = |m: Result<G, Status>| m == Err::<G, Status>(err);
        let err_ref = &err;
        let copy_err = move || -> (update: Result<G, Status>)
            ensures
                update == Err::<G, Status>(*err_ref),
            { Err(copy_status(err_ref)) };
        let delivered = offer_to_all(&mut watchers, copy_err, Ghost(is_err));
        let ghost kept = watchers@;
        self.watchers = watchers;
        if !delivered {
            let mut backlog = HeldChannel::open();
            std::mem::swap(&mut backlog, &mut self.backlog);
            backlog.publish(Err(err));
            self.backlog = backlog;
        }
        proof {
            assert(self@.failures =~= old(self)@.failures);
            assert(forall|j: int| 0 <= j < self@.watchers.len() ==> self@.watchers[j] == kept[j]@);
            assert forall|j: int| 0 <= j < kept.len() implies offered(
                before[j]@,
                #[trigger] kept[j]@,
                Err::<G, Status>(err),
            ) by {
                assert(offered(before[j]@, kept[j]@, kept[j]@.sent.last()));
            }
            lemma_delivered_iff_listening(kept, self@.watchers, delivered);
        }
    }

    /// Tells every later call of the given kind to fail with `err`, in place
    /// of any status configured for it before.
    pub fn fail(&mut self, sdk_call: FailableSdkCall, err: Status)
        ensures
            final(self)@ == old(self)@.with_failure(sdk_call, err),
            final(self)@.consistent(),
    {
        proof {
            use_type_invariant(&*self);
        }
        let slot = sdk_call.slot();
        let mut failures: HashMap<u8, Status> = HashMap::new();
        std::mem::swap(&mut failures, &mut self.failures);
        failures.insert(slot, err);
        self.failures = failures;
        proof {
            assert forall|kind: FailableSdkCall| #![auto]
                failure_slot(kind) == slot <==> kind == sdk_call by {
                lemma_failure_slot_injective(kind, sdk_call);
            }
            assert(self@.failures =~= old(self)@.failures.insert(sdk_call, err));
        }
    }

    /// How a call of the given kind is answered.
    pub fn fail_if_needed(&self, kind: FailableSdkCall) -> (answer: Result<(), Status>)
        ensures
            answer == self@.answer(kind),
    {
        let slot = kind.slot();
        match self.failures.get(&slot) {
            Some(err) => Err(copy_status(err)),
            None => Ok(()),
        }
    }

    /// Records a call.
    fn record(&mut self, call: InternalSdkCall)
        requires
            refers_to_streams(call, old(self)@.pings.len()),
        ensures
            final(self)@ == old(self)@.with_recorded(call),
            final(self)@.consistent(),
    {
        proof {
            use_type_invariant(&*self);
        }
        let mut log = CallLog::empty();
        std::mem::swap(&mut log, &mut self.log);
        log.recorded.push(call);
        assert(forall|i: int|
            0 <= i < log.recorded@.len() ==> #[trigger] refers_to_streams(
                log.recorded@[i],
                log.pings@.len(),
            )) by {
            assert(forall|i: int|
                0 <= i < old(self).log.recorded@.len() ==> log.recorded@[i]
                    == old(self).log.recorded@[i]);
        }
        self.log = log;
        proof {
            assert(self@.failures =~= old(self)@.failures);
        }
    }

    /// Records a call, then answers it.
    fn record_and_fail_if_needed(&mut self, call: InternalSdkCall) -> (answer: Result<(), Status>)
        requires
            refers_to_streams(call, old(self)@.pings.len()),
        ensures
            final(self)@ == old(self)@.with_recorded(call),
            final(self)@.consistent(),
            answer == old(self)@.answer(failable_kind(call)),
    {
        let failable = FailableSdkCall::from(&call);
        self.record(call);
        self.fail_if_needed(failable)
    }
}

impl<G> MockSdk<G> {
    /// The `Ready` call: recorded, then answered.
    pub fn ready(&mut self) -> (answer: Result<(), Status>)
        ensures
            final(self)@ == old(self)@.with_recorded(InternalSdkCall::Ready),
            final(self)@.reported() == old(self)@.reported().push(SdkCall::Ready),
            final(self)@.consistent(),
            answer == old(self)@.answer(FailableSdkCall::Ready),
    {
        let answer = self.record_and_fail_if_needed(InternalSdkCall::Ready);
        proof {
            lemma_recorded_report(old(self)@, InternalSdkCall::Ready);
        }
        answer
    }

    /// The `Allocate` call: recorded, then answered.
    pub fn allocate(&mut self) -> (answer: Result<(), Status>)
        ensures
            final(self)@ == old(self)@.with_recorded(InternalSdkCall::Allocate),
            final(self)@.reported() == old(self)@.reported().push(SdkCall::Allocate),
            final(self)@.consistent(),
            answer == old(self)@.answer(FailableSdkCall::Allocate),
    {
        let answer = self.record_and_fail_if_needed(InternalSdkCall::Allocate);
        proof {
            lemma_recorded_report(old(self)@, InternalSdkCall::Allocate);
        }
        answer
    }

    /// The `Shutdown` call: recorded, then answered.
    pub fn shutdown(&mut self) -> (answer: Result<(), Status>)
        ensures
            final(self)@ == old(self)@.with_recorded(InternalSdkCall::Shutdown),
            final(self)@.reported() == old(self)@.reported().push(SdkCall::Shutdown),
            final(self)@.consistent(),
            answer == old(self)@.answer(FailableSdkCall::Shutdown),
    {
        let answer = self.record_and_fail_if_needed(InternalSdkCall::Shutdown);
        proof {
            lemma_recorded_report(old(self)@, InternalSdkCall::Shutdown);
        }
        answer
    }

    /// The `Health` call: opens a health stream at no pings and records a
    /// health call for it, then answers. Where the call is accepted, the
    /// answer is the stream on which the pings that follow are counted.
    pub fn health(&mut self) -> (answer: Result<usize, Status>)
        ensures
            final(self)@ == old(self)@.with_health_stream(),
            final(self)@.consistent(),
            match answer {
                Ok(stream) => old(self)@.answer(FailableSdkCall::Health) is Ok && stream
                    == old(self)@.pings.len(),
                Err(err) => old(self)@.answer(FailableSdkCall::Health) == Err::<(), Status>(err),
            },
    {
        proof {
            use_type_invariant(&*self);
        }
        let mut log = CallLog::empty();
        std::mem::swap(&mut log, &mut self.log);
        let stream = log.pings.len();
        log.pings.push(0);
        assert(forall|i: int|
            0 <= i < log.recorded@.len() ==> #[trigger] refers_to_streams(
                log.recorded@[i],
                log.pings@.len(),
            )) by {
            assert(forall|i: int|
                0 <= i < log.recorded@.len() ==> refers_to_streams(
                    old(self).log.recorded@[i],
                    old(self).log.pings@.len(),
                ));
        }
        self.log = log;
        let answer = self.record_and_fail_if_needed(InternalSdkCall::Health(stream));
        proof {
            assert(self@.pings =~= old(self)@.pings.push(0));
            assert(self@.failures =~= old(self)@.failures);
        }
        match answer {
            Ok(()) => Ok(stream),
            Err(err) => Err(err),
        }
    }

    /// One read from a health stream: where a ping arrived, the stream's ping
    /// count goes up by one and the stream is read on; where the client closed
    /// the stream or reading failed, the stream is left and its count stays.
    pub fn health_message(&mut self, stream: usize, read: HealthRead) -> (keep_reading: bool)
        requires
            stream < old(self)@.pings.len(),
            read == HealthRead::Message ==> old(self)@.pings[stream as int] < usize::MAX,
        ensures
            keep_reading == (read == HealthRead::Message),
            final(self)@ == if read == HealthRead::Message {
                old(self)@.with_ping(stream as int)
            } else {
                old(self)@
            },
            final(self)@.consistent(),
    {
        proof {
            use_type_invariant(&*self);
        }
        match read {
            HealthRead::Message => {},
            _ => {
                return false;
            },
        }
        let mut log = CallLog::empty();
        std::mem::swap(&mut log, &mut self.log);
        let count = log.pings[stream];
        log.pings.set(stream, count + 1);
        self.log = log;
        proof {
            assert(self@.failures =~= old(self)@.failures);
        }
        true
    }

    /// The `GetGameServer` call, which is not recorded: the current
    /// game-server record, or the status the call is told to fail with.
    pub fn get_game_server(&self) -> (answer: Result<&G, Status>)
        ensures
            match answer {
                Ok(game_server) => self@.answer(FailableSdkCall::GetGameServer) is Ok
                    && *game_server == self@.game_server,
                Err(err) => self@.answer(FailableSdkCall::GetGameServer) == Err::<(), Status>(
                    err,
                ),
            },
    {
        match self.fail_if_needed(FailableSdkCall::GetGameServer) {
            Ok(()) => Ok(&self.game_server),
            Err(err) => Err(err),
        }
    }

    /// The `WatchGameServer` call: recorded, then answered. Where it is
    /// accepted, the caller takes the receiving end of a new channel, on which
    /// the updates waiting for a watcher have been sent, in order, and every
    /// later update is sent.
    pub fn watch_game_server(&mut self) -> (answer: Result<UpdateReceiver<Result<G, Status>>, Status>)
        ensures
            final(self)@.consistent(),
            match answer {
                Ok(receiver) => old(self)@.answer(FailableSdkCall::WatchGameServer) is Ok
                    && final(self)@ == old(self)@.with_recorded(
                    InternalSdkCall::WatchGameServer,
                ).with_watcher(receiver.channel()),
                Err(err) => old(self)@.answer(FailableSdkCall::WatchGameServer) == Err::<(), Status>(
                    err,
                ) && final(self)@ == old(self)@.with_recorded(InternalSdkCall::WatchGameServer),
            },
    {
        match self.record_and_fail_if_needed(InternalSdkCall::WatchGameServer) {
            Ok(()) => {
                proof {
                    use_type_invariant(&*self);
                }
                let ghost before = self@;
                let mut backlog = HeldChannel::open();
                std::mem::swap(&mut backlog, &mut self.backlog);
                let (sender, receiver) = backlog.into_ends();
                let mut watchers: Vec<UpdateSender<Result<G, Status>>> = Vec::new();
                std::mem::swap(&mut watchers, &mut self.watchers);
                watchers.push(sender);
                self.watchers = watchers;
                proof {
                    assert(self@.failures =~= before.failures);
                    assert(self@.watchers =~= before.with_watcher(receiver.channel()).watchers);
                }
                Ok(receiver)
            },
            Err(err) => Err(err),
        }
    }

    /// The `SetLabel` call: recorded with its pair, then answered.
    pub fn set_label(&mut self, key_value: KeyValue) -> (answer: Result<(), Status>)
        ensures
            final(self)@ == old(self)@.with_recorded(InternalSdkCall::SetLabel(key_value)),
            final(self)@.reported() == old(self)@.reported().push(SdkCall::SetLabel(key_value)),
            final(self)@.consistent(),
            answer == old(self)@.answer(FailableSdkCall::SetLabel),
    {
        let answer = self.record_and_fail_if_needed(InternalSdkCall::SetLabel(key_value));
        proof {
            lemma_recorded_report(old(self)@, InternalSdkCall::SetLabel(key_value));
        }
        answer
    }

    /// The `SetAnnotation` call: recorded with its pair, then answered.
    pub fn set_annotation(&mut self, key_value: KeyValue) -> (answer: Result<(), Status>)
        ensures
            final(self)@ == old(self)@.with_recorded(InternalSdkCall::SetAnnotation(key_value)),
            final(self)@.reported() == old(self)@.reported().push(SdkCall::SetAnnotation(key_value)),
            final(self)@.consistent(),
            answer == old(self)@.answer(FailableSdkCall::SetAnnotation),
    {
        let answer = self.record_and_fail_if_needed(InternalSdkCall::SetAnnotation(key_value));
        proof {
            lemma_recorded_report(old(self)@, InternalSdkCall::SetAnnotation(key_value));
        }
        answer
    }

    /// The `Reserve` call: recorded with its duration, then answered.
    pub fn reserve(&mut self, duration: Duration) -> (answer: Result<(), Status>)
        ensures
            final(self)@ == old(self)@.with_recorded(InternalSdkCall::Reserve(duration)),
            final(self)@.reported() == old(self)@.reported().push(SdkCall::Reserve(duration)),
            final(self)@.consistent(),
            answer == old(self)@.answer(FailableSdkCall::Reserve),
    {
        let answer = self.record_and_fail_if_needed(InternalSdkCall::Reserve(duration));
        proof {
            lemma_recorded_report(old(self)@, InternalSdkCall::Reserve(duration));
        }
        answer
    }
}

impl<G: Clone> MockSdk<G> {
    /// Sends a clone of `gs` to each watcher of the game server that is still
    /// listening (where none is, a clone waits for the next watcher), then
    /// makes `gs` the game-server record.
    pub fn set_game_server(&mut self, gs: G)
        ensures
            final(self)@ == old(self)@.with_game_server(gs).with_watchers(
                final(self)@.watchers,
            ).with_pending(final(self)@.pending),
            final(self)@.watchers.len() == old(self)@.watchers.len(),
            forall|i: int|
                #![trigger final(self)@.watchers[i]]
                0 <= i < old(self)@.watchers.len() ==> offered_clone(
                    old(self)@.watchers[i],
                    final(self)@.watchers[i],
                    gs,
                ),
            any_listening(final(self)@.watchers) ==> final(self)@.pending == old(self)@.pending,
            !any_listening(final(self)@.watchers) ==> {
                &&& final(self)@.pending.drop_last() == old(self)@.pending
                &&& final(self)@.pending.len() == old(self)@.pending.len() + 1
                &&& final(self)@.pending.last() is Ok
                &&& cloned(gs, final(self)@.pending.last()->Ok_0)
            },
            final(self)@.consistent(),
    {
        proof {
            use_type_invariant(&*self);
        }
        let mut watchers: Vec<UpdateSender<Result<G, Status>>> = Vec::new();
        std::mem::swap(&mut watchers, &mut self.watchers);
        let ghost before = watchers@;
        let ghost is_copy = |m: Result<G, Status>| m is Ok && cloned(gs, m->Ok_0);
        let gs_ref = &gs;
        let copy_gs = move || -> (update: Result<G, Status>)
            ensures
                update is Ok && cloned(*gs_ref, update->Ok_0),
            { Ok(gs_ref.clone()) };
        let delivered = offer_to_all(&mut watchers, copy_gs, Ghost(is_copy));
        let ghost kept = watchers@;
        self.watchers = watchers;
        if !delivered {
            let update = gs.clone();
            let mut backlog = HeldChannel::open();
            std::mem::swap(&mut backlog, &mut self.backlog);
            backlog.publish(Ok(update));
            self.backlog = backlog;
        }
        self.game_server = gs;
        proof {
            assert(self@.failures =~= old(self)@.failures);
            assert(forall|j: int| 0 <= j < self@.watchers.len() ==> self@.watchers[j] == kept[j]@);
            lemma_delivered_iff_listening(kept, self@.watchers, delivered);
        }
    }
}

/// Recording a call puts its report after the reports before it.
proof fn lemma_recorded_report<G>(v: MockSdkView<G>, call: InternalSdkCall)
    ensures
        v.with_recorded(call).reported() == v.reported().push(report_of(call, v.pings)),
{
    assert(v.with_recorded(call).reported() =~= v.reported().push(report_of(call, v.pings)));
}

/// Offers a message made by `make` to each of the channels in turn; answers
/// whether some channel took it. Every message made satisfies `good`.
fn offer_to_all<T, F: Fn() -> T>(
    watchers: &mut Vec<UpdateSender<T>>,
    make: F,
    Ghost(good): Ghost<spec_fn(T) -> bool>,
) -> (delivered: bool)
    requires
        call_requires(make, ()),
        forall|m: T| call_ensures(make, (), m) ==> #[trigger] good(m),
    ensures
        final(watchers)@.len() == old(watchers)@.len(),
        forall|i: int|
            #![trigger final(watchers)@[i]]
            0 <= i < old(watchers)@.len() ==> {
                &&& offered(
                    old(watchers)@[i]@,
                    final(watchers)@[i]@,
                    final(watchers)@[i]@.sent.last(),
                )
                &&& final(watchers)@[i]@.listening ==> good(final(watchers)@[i]@.sent.last())
            },
        delivered <==> exists|i: int|
            0 <= i < final(watchers)@.len() && #[trigger] final(watchers)@[i]@.listening,
{
    let ghost before = watchers@;
    let mut delivered = false;
    let mut i: usize = 0;
    while i < watchers.len()
        invariant
            i <= watchers@.len(),
            watchers@.len() == before.len(),
            call_requires(make, ()),
            forall|m: T| call_ensures(make, (), m) ==> #[trigger] good(m),
            forall|j: int|
                #![trigger watchers@[j]]
                0 <= j < i ==> {
                    &&& offered(before[j]@, watchers@[j]@, watchers@[j]@.sent.last())
                    &&& watchers@[j]@.listening ==> good(watchers@[j]@.sent.last())
                },
            forall|j: int| i <= j < watchers@.len() ==> #[trigger] watchers@[j] == before[j],
            delivered <==> exists|j: int| 0 <= j < i && #[trigger] watchers@[j]@.listening,
        decreases watchers@.len() - i,
    {
        let message = make();
        let ghost prev = watchers@;
        let sent = watchers[i].publish(message);
        if sent.is_ok() {
            delivered = true;
        }
        proof {
            assert forall|j: int| 0 <= j < watchers@.len() && j != i implies watchers@[j] == prev[j] by {}
            if sent.is_ok() {
                assert(watchers@[i as int]@.listening);
                assert(watchers@[i as int]@.sent.last() == message);
            } else {
                assert(!watchers@[i as int]@.listening);
            }
        }
        i += 1;
    }
    delivered
}

/// Whether some channel took the message is whether some watcher is still
/// listening.
proof fn lemma_delivered_iff_listening<T>(
    kept: Seq<UpdateSender<T>>,
    watchers: Seq<ChannelView<T>>,
    delivered: bool,
)
    requires
        watchers.len() == kept.len(),
        forall|j: int| 0 <= j < watchers.len() ==> watchers[j] == kept[j]@,
        delivered <==> exists|i: int| 0 <= i < kept.len() && #[trigger] kept[i]@.listening,
    ensures
        delivered == any_listening(watchers),
{
    if delivered {
        let j = choose|j: int| 0 <= j < kept.len() && #[trigger] kept[j]@.listening;
        assert(watchers[j].listening);
    }
    if any_listening(watchers) {
        let j = choose|j: int| 0 <= j < watchers.len() && #[trigger] watchers[j].listening;
        assert(kept[j]@.listening);
    }
}

} // verus!
