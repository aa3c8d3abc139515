//! What holds of the mock across its calls.
use crate::calls::{refers_to_streams, report_of, FailableSdkCall, InternalSdkCall, SdkCall};
use crate::sdk::{Duration, KeyValue};
use crate::channel::{offered, ChannelView};
use crate::server::MockSdkView;
use tonic::Status;
use vstd::prelude::*;

verus! {

/// A mock with nothing recorded reports no calls.
pub proof fn law_fresh_mock_reports_nothing<G>(v: MockSdkView<G>)
    requires
        v.recorded == Seq::<InternalSdkCall>::empty(),
    ensures
        v.reported() == Seq::<SdkCall>::empty(),
{
    assert(v.reported() =~= Seq::<SdkCall>::empty());
}

/// A mock with no call told to fail accepts every call.
pub proof fn law_no_failure_accepts_all<G>(v: MockSdkView<G>, kind: FailableSdkCall)
    requires
        v.failures == Map::<FailableSdkCall, Status>::empty(),
    ensures
        v.answer(kind) == Ok::<(), Status>(()),
{
}

/// Recording a call adds its report at the end of the reported calls and
/// leaves the reports before it as they were; it changes no answer.
pub proof fn law_recording_appends<G>(v: MockSdkView<G>, call: InternalSdkCall, kind: FailableSdkCall)
    requires
        v.consistent(),
        refers_to_streams(call, v.pings.len()),
    ensures
        v.with_recorded(call).reported() == v.reported().push(report_of(call, v.pings)),
        v.with_recorded(call).consistent(),
        v.with_recorded(call).answer(kind) == v.answer(kind),
{
    assert(v.with_recorded(call).reported() =~= v.reported().push(report_of(call, v.pings)));
}

/// A health call adds a health report at no pings at the end of the reported
/// calls and leaves the reports before it as they were.
pub proof fn law_health_call_appends_zero<G>(v: MockSdkView<G>)
    requires
        v.consistent(),
        v.pings.len() < usize::MAX,
    ensures
        v.with_health_stream().reported() == v.reported().push(SdkCall::Health(0)),
        v.with_health_stream().consistent(),
{
    let w = v.with_health_stream();
    assert forall|i: int| 0 <= i < v.recorded.len() implies #[trigger] report_of(v.recorded[i], w.pings)
        == report_of(v.recorded[i], v.pings) by {
        assert(refers_to_streams(v.recorded[i], v.pings.len()));
    }
    assert(w.reported() =~= v.reported().push(SdkCall::Health(0)));
    assert forall|i: int| 0 <= i < w.recorded.len() implies #[trigger] refers_to_streams(
        w.recorded[i],
        w.pings.len(),
    ) by {
        if i < v.recorded.len() {
            assert(refers_to_streams(v.recorded[i], v.pings.len()));
        }
    }
}

/// A ping on a health stream raises the report of that stream's health call
/// by one and leaves every other report as it was.
pub proof fn law_ping_counts_on_its_stream<G>(v: MockSdkView<G>, stream: usize, i: int)
    requires
        v.consistent(),
        stream < v.pings.len(),
        v.pings[stream as int] < usize::MAX,
        0 <= i < v.recorded.len(),
    ensures
        v.with_ping(stream as int).reported().len() == v.reported().len(),
        v.with_ping(stream as int).consistent(),
        v.with_ping(stream as int).reported()[i] == if v.recorded[i] == InternalSdkCall::Health(
            stream,
        ) {
            SdkCall::Health((v.pings[stream as int] + 1) as usize)
        } else {
            v.reported()[i]
        },
{
    assert(refers_to_streams(v.recorded[i], v.pings.len()));
}

/// A call told to fail is refused with the status it was last told to fail
/// with; a call of any other kind is answered as before.
pub proof fn law_failure_refuses_its_kind<G>(
    v: MockSdkView<G>,
    kind: FailableSdkCall,
    err: Status,
    other: FailableSdkCall,
)
    ensures
        v.with_failure(kind, err).answer(kind) == Err::<(), Status>(err),
        other != kind ==> v.with_failure(kind, err).answer(other) == v.answer(other),
        v.with_failure(kind, err).reported() == v.reported(),
{
}

/// Telling a call to fail twice leaves the second status in force.
pub proof fn law_last_failure_wins<G>(v: MockSdkView<G>, kind: FailableSdkCall, first: Status, second: Status)
    ensures
        v.with_failure(kind, first).with_failure(kind, second).answer(kind) == Err::<(), Status>(second),
{
}

/// After the game-server record is replaced (and the update offered to the
/// watchers), the record read back is the new one; the calls reported and the
/// answers given are unchanged.
pub proof fn law_game_server_read_gives_back_write<G>(
    v: MockSdkView<G>,
    gs: G,
    watchers: Seq<ChannelView<Result<G, Status>>>,
    kind: FailableSdkCall,
)
    ensures
        v.with_game_server(gs).with_watchers(watchers).game_server == gs,
        v.with_game_server(gs).with_watchers(watchers).reported() == v.reported(),
        v.with_game_server(gs).with_watchers(watchers).answer(kind) == v.answer(kind),
{
}

/// Sending an update to the watchers (or queueing it for the next one)
/// changes nothing else: the calls reported, the answers given and the
/// game-server record stay as they were.
pub proof fn law_updates_change_only_the_watchers<G>(
    v: MockSdkView<G>,
    watchers: Seq<ChannelView<Result<G, Status>>>,
    pending: Seq<Result<G, Status>>,
    kind: FailableSdkCall,
)
    ensures
        v.with_watchers(watchers).with_pending(pending).game_server == v.game_server,
        v.with_watchers(watchers).with_pending(pending).reported() == v.reported(),
        v.with_watchers(watchers).with_pending(pending).answer(kind) == v.answer(kind),
{
}

/// The next watcher is sent the updates that waited for a watcher, in order,
/// before any later one; after it came none waits. An update that found no
/// watcher listening is among them, last.
pub proof fn law_next_watcher_takes_the_backlog<G>(
    v: MockSdkView<G>,
    watchers: Seq<ChannelView<Result<G, Status>>>,
    update: Result<G, Status>,
    channel: int,
)
    ensures
        v.with_watcher(channel).watchers.last() == (ChannelView {
            channel,
            listening: true,
            sent: v.pending,
        }),
        v.with_watcher(channel).watchers.drop_last() == v.watchers,
        v.with_watcher(channel).pending == Seq::<Result<G, Status>>::empty(),
        v.with_watchers(watchers).with_pending(v.pending.push(update)).with_watcher(
            channel,
        ).watchers.last().sent == v.pending.push(update),
{
    assert(v.with_watcher(channel).watchers.drop_last() =~= v.watchers);
}

/// A recorded call is reported with what it carried, untouched, whatever
/// the ping counts: a label or an annotation with the same key and the same
/// value, as the same kind of call, and a reservation with the same number of
/// seconds.
pub proof fn law_reports_keep_their_payload(kv: KeyValue, d: Duration, pings: Seq<usize>)
    ensures
        report_of(InternalSdkCall::SetLabel(kv), pings) == SdkCall::SetLabel(kv),
        report_of(InternalSdkCall::SetAnnotation(kv), pings) == SdkCall::SetAnnotation(kv),
        report_of(InternalSdkCall::Reserve(d), pings) == SdkCall::Reserve(d),
        report_of(InternalSdkCall::Ready, pings) == SdkCall::Ready,
        report_of(InternalSdkCall::Allocate, pings) == SdkCall::Allocate,
        report_of(InternalSdkCall::Shutdown, pings) == SdkCall::Shutdown,
        report_of(InternalSdkCall::WatchGameServer, pings) == SdkCall::WatchGameServer,
        match report_of(InternalSdkCall::SetLabel(kv), pings) {
            SdkCall::SetLabel(reported) => reported.key == kv.key && reported.value == kv.value,
            _ => false,
        },
        match report_of(InternalSdkCall::SetAnnotation(kv), pings) {
            SdkCall::SetAnnotation(reported) => reported.key == kv.key && reported.value
                == kv.value,
            _ => false,
        },
        match report_of(InternalSdkCall::Reserve(d), pings) {
            SdkCall::Reserve(reported) => reported.seconds == d.seconds,
            _ => false,
        },
{
}

/// After a `SetLabel`, `SetAnnotation` or `Reserve` call, the calls reported
/// are those reported before, followed by that call with exactly the pair or
/// the duration it was made with.
pub proof fn law_recorded_payload_is_reported<G>(v: MockSdkView<G>, kv: KeyValue, d: Duration)
    ensures
        v.with_recorded(InternalSdkCall::SetLabel(kv)).reported() == v.reported().push(
            SdkCall::SetLabel(kv),
        ),
        v.with_recorded(InternalSdkCall::SetAnnotation(kv)).reported() == v.reported().push(
            SdkCall::SetAnnotation(kv),
        ),
        v.with_recorded(InternalSdkCall::Reserve(d)).reported() == v.reported().push(
            SdkCall::Reserve(d),
        ),
{
    assert(v.with_recorded(InternalSdkCall::SetLabel(kv)).reported() =~= v.reported().push(
        SdkCall::SetLabel(kv),
    ));
    assert(v.with_recorded(InternalSdkCall::SetAnnotation(kv)).reported() =~= v.reported().push(
        SdkCall::SetAnnotation(kv),
    ));
    assert(v.with_recorded(InternalSdkCall::Reserve(d)).reported() =~= v.reported().push(
        SdkCall::Reserve(d),
    ));
}

/// A report reads the ping count of its stream at the time it is made: the
/// report of a health call follows its own stream's count, and no other
/// stream's count changes any report.
pub proof fn law_report_reads_current_count(
    call: InternalSdkCall,
    pings: Seq<usize>,
    stream: usize,
    count: usize,
)
    requires
        refers_to_streams(call, pings.len()),
        stream < pings.len(),
    ensures
        report_of(call, pings.update(stream as int, count)) == if call == InternalSdkCall::Health(
            stream,
        ) {
            SdkCall::Health(count)
        } else {
            report_of(call, pings)
        },
{
}

/// An update offered to all watchers is the last message on the channel of
/// each watcher still listening, each keeping its channel; a watcher that has
/// stopped listening stays stopped.
pub proof fn law_every_listening_watcher_gets_the_update<G>(
    v: MockSdkView<G>,
    after: Seq<ChannelView<Result<G, Status>>>,
    update: Result<G, Status>,
    i: int,
)
    requires
        v.offered_to_all(after, update),
        0 <= i < v.watchers.len(),
    ensures
        after[i].channel == v.watchers[i].channel,
        after[i].listening ==> after[i].sent == v.watchers[i].sent.push(update),
        !v.watchers[i].listening ==> !after[i].listening,
{
    assert(offered(v.watchers[i], after[i], update));
}

/// One thing that can happen to a mock, as far as its calls, health streams,
/// failures and game-server record go.
pub enum MockStep<G> {
    /// A call that is recorded as it is: `Ready`, `Allocate`, `Shutdown`,
    /// `WatchGameServer`, `SetLabel`, `SetAnnotation` or `Reserve`, whether
    /// it is accepted or refused.
    Record(InternalSdkCall),
    /// A `Health` call, accepted or refused: a new health stream.
    OpenHealth,
    /// A ping read from the given health stream.
    Ping(usize),
    /// A call kind told to fail with a status.
    Fail(FailableSdkCall, Status),
    /// The game-server record replaced.
    SetGameServer(G),
}

/// The state after one step, as the contract of the method that makes it
/// states (the channels to the watchers aside).
pub open spec fn step<G>(v: MockSdkView<G>, s: MockStep<G>) -> MockSdkView<G> {
    match s {
        MockStep::Record(call) => v.with_recorded(call),
        MockStep::OpenHealth => v.with_health_stream(),
        MockStep::Ping(stream) => v.with_ping(stream as int),
        MockStep::Fail(kind, err) => v.with_failure(kind, err),
        MockStep::SetGameServer(gs) => v.with_game_server(gs),
    }
}

/// The state after the steps, in order.
pub open spec fn run<G>(v: MockSdkView<G>, steps: Seq<MockStep<G>>) -> MockSdkView<G>
    decreases steps.len(),
{
    if steps.len() == 0 {
        v
    } else {
        step(run(v, steps.drop_last()), steps.last())
    }
}

/// Whether each step can be made where it stands: a recorded call names only
/// existing streams, a new stream's index fits a `usize`, and a ping goes to
/// an existing stream whose count can still grow.
pub open spec fn can_run<G>(v: MockSdkView<G>, steps: Seq<MockStep<G>>) -> bool
    decreases steps.len(),
{
    if steps.len() == 0 {
        true
    } else {
        let before = run(v, steps.drop_last());
        &&& can_run(v, steps.drop_last())
        &&& match steps.last() {
            MockStep::Record(call) => refers_to_streams(call, before.pings.len()),
            MockStep::OpenHealth => before.pings.len() < usize::MAX,
            MockStep::Ping(stream) => stream < before.pings.len() && before.pings[stream as int]
                < usize::MAX,
            _ => true,
        }
    }
}

/// The number of health streams the steps open.
pub open spec fn opened<G>(steps: Seq<MockStep<G>>) -> nat
    decreases steps.len(),
{
    if steps.len() == 0 {
        0
    } else {
        opened(steps.drop_last()) + if steps.last() is OpenHealth {
            1nat
        } else {
            0nat
        }
    }
}

/// The number of pings the steps read from the given stream.
pub open spec fn pings_on<G>(steps: Seq<MockStep<G>>, stream: usize) -> nat
    decreases steps.len(),
{
    if steps.len() == 0 {
        0
    } else {
        pings_on(steps.drop_last(), stream) + if steps.last() == MockStep::<G>::Ping(stream) {
            1nat
        } else {
            0nat
        }
    }
}

/// The calls the steps record, in order, on a mock that had `streams`
/// health streams before them.
pub open spec fn recorded_by<G>(streams: nat, steps: Seq<MockStep<G>>) -> Seq<InternalSdkCall>
    decreases steps.len(),
{
    if steps.len() == 0 {
        Seq::empty()
    } else {
        let earlier = recorded_by(streams, steps.drop_last());
        match steps.last() {
            MockStep::Record(call) => earlier.push(call),
            MockStep::OpenHealth => earlier.push(
                InternalSdkCall::Health((streams + opened(steps.drop_last())) as usize),
            ),
            _ => earlier,
        }
    }
}

/// Over any run of steps: the calls recorded are those before it followed by
/// those the steps make, in order; each health stream opened gets the next
/// index; each stream's ping count is its count before (none for a new
/// stream) plus the pings read from it; and the state stays consistent.
pub proof fn law_run_records_in_order<G>(v: MockSdkView<G>, steps: Seq<MockStep<G>>, stream: usize)
    requires
        v.consistent(),
        can_run(v, steps),
    ensures
        run(v, steps).recorded == v.recorded + recorded_by(v.pings.len(), steps),
        run(v, steps).pings.len() == v.pings.len() + opened(steps),
        run(v, steps).consistent(),
        stream < run(v, steps).pings.len() ==> run(v, steps).pings[stream as int] == (if stream
            < v.pings.len() {
            v.pings[stream as int] as nat
        } else {
            0nat
        }) + pings_on(steps, stream),
        stream >= run(v, steps).pings.len() ==> pings_on(steps, stream) == 0,
    decreases steps.len(),
{
    if steps.len() > 0 {
        let earlier = steps.drop_last();
        law_run_records_in_order(v, earlier, stream);
        let before = run(v, earlier);
        match steps.last() {
            MockStep::Record(call) => {
                law_recording_appends(before, call, FailableSdkCall::Ready);
            },
            MockStep::OpenHealth => {
                law_health_call_appends_zero(before);
            },
            MockStep::Ping(s) => {
                assert(s < before.pings.len());
                if before.recorded.len() > 0 {
                    law_ping_counts_on_its_stream(before, s, 0);
                }
                assert(before.with_ping(s as int).consistent()) by {
                    assert forall|i: int| 0 <= i < before.recorded.len() implies #[trigger] refers_to_streams(
                        before.recorded[i],
                        before.pings.len() as nat,
                    ) by {}
                }
            },
            _ => {},
        }
        assert(run(v, steps).recorded =~= v.recorded + recorded_by(v.pings.len(), steps));
    }
}

/// Over any run of steps, every call recorded before keeps its place, and no
/// health stream's ping count goes down.
pub proof fn law_run_keeps_entries_and_counts_grow<G>(
    v: MockSdkView<G>,
    steps: Seq<MockStep<G>>,
    i: int,
    stream: usize,
)
    requires
        v.consistent(),
        can_run(v, steps),
        0 <= i < v.recorded.len(),
        stream < v.pings.len(),
    ensures
        run(v, steps).recorded[i] == v.recorded[i],
        stream < run(v, steps).pings.len(),
        run(v, steps).pings[stream as int] >= v.pings[stream as int],
{
    law_run_records_in_order(v, steps, stream);
}

/// Over any run of steps, the game-server record is the one last written,
/// or the one before the run where the steps write none.
pub proof fn law_run_keeps_last_written_game_server<G>(v: MockSdkView<G>, steps: Seq<MockStep<G>>, k: int)
    requires
        0 <= k < steps.len() ==> steps[k] is SetGameServer && forall|j: int|
            k < j < steps.len() ==> !(#[trigger] steps[j] is SetGameServer),
        k == -1 ==> forall|j: int| 0 <= j < steps.len() ==> !(#[trigger] steps[j] is SetGameServer),
        -1 <= k < steps.len(),
    ensures
        run(v, steps).game_server == if k == -1 {
            v.game_server
        } else {
            steps[k]->SetGameServer_0
        },
    decreases steps.len(),
{
    if steps.len() > 0 && k != steps.len() - 1 {
        let earlier = steps.drop_last();
        assert(!(steps[steps.len() - 1] is SetGameServer));
        assert forall|j: int| k < j < earlier.len() implies !(#[trigger] earlier[j] is SetGameServer) by {
            assert(earlier[j] == steps[j]);
        }
        law_run_keeps_last_written_game_server(v, earlier, k);
    }
}

/// Over any run of steps, a kind of call is answered with the status it was
/// last told to fail with, or as before the run where the steps tell it none.
pub proof fn law_run_answers_with_last_failure<G>(
    v: MockSdkView<G>,
    steps: Seq<MockStep<G>>,
    kind: FailableSdkCall,
    k: int,
)
    requires
        -1 <= k < steps.len(),
        0 <= k ==> steps[k] is Fail && steps[k]->Fail_0 == kind,
        forall|j: int|
            k < j < steps.len() ==> !(#[trigger] steps[j] is Fail && steps[j]->Fail_0 == kind),
    ensures
        run(v, steps).answer(kind) == if k == -1 {
            v.answer(kind)
        } else {
            Err(steps[k]->Fail_1)
        },
    decreases steps.len(),
{
    if steps.len() > 0 {
        let earlier = steps.drop_last();
        let before = run(v, earlier);
        if k == steps.len() - 1 {
            law_failure_refuses_its_kind(before, kind, steps[k]->Fail_1, kind);
        } else {
            assert(!(steps.last() is Fail && steps.last()->Fail_0 == kind));
            assert forall|j: int| k < j < earlier.len() implies !(#[trigger] earlier[j] is Fail
                && earlier[j]->Fail_0 == kind) by {
                assert(earlier[j] == steps[j]);
            }
            law_run_answers_with_last_failure(v, earlier, kind, k);
            match steps.last() {
                MockStep::Fail(other, err) => {
                    law_failure_refuses_its_kind(before, other, err, kind);
                },
                _ => {},
            }
        }
    }
}

/// A channel that is offered messages one after another and still has a
/// receiver at the end has taken them all, after what it held before, in the
/// order they were offered; it kept its channel throughout and had a receiver
/// all along.
pub proof fn law_listening_channel_takes_every_message<T>(
    states: Seq<ChannelView<T>>,
    messages: Seq<T>,
    j: int,
)
    requires
        states.len() == messages.len() + 1,
        forall|k: int| 0 <= k < messages.len() ==> offered(#[trigger] states[k], states[k + 1], messages[k]),
        states.last().listening,
        0 <= j < states.len(),
    ensures
        states.last().sent == states[0].sent + messages,
        states.last().channel == states[0].channel,
        states[j].listening,
    decreases messages.len(),
{
    if messages.len() > 0 {
        let n = messages.len() - 1;
        let earlier_states = states.drop_last();
        let earlier_messages = messages.drop_last();
        assert(offered(states[n], states[n + 1], messages[n]));
        assert forall|k: int| 0 <= k < earlier_messages.len() implies offered(
            #[trigger] earlier_states[k],
            earlier_states[k + 1],
            earlier_messages[k],
        ) by {
            assert(offered(states[k], states[k + 1], messages[k]));
        }
        if j < states.len() - 1 {
            law_listening_channel_takes_every_message(earlier_states, earlier_messages, j);
        } else {
            law_listening_channel_takes_every_message(earlier_states, earlier_messages, 0);
        }
        assert(states.last().sent =~= states[0].sent + messages);
    }
}

} // verus!
