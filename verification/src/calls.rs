//! The SDK calls: as a game server makes them, as the mock records them,
//! and as a failure is configured for them.
use crate::sdk::{Duration, KeyValue};
use vstd::prelude::*;

verus! {

/// A call to the SDK as the mock reports it back.
///
/// `Health(n)` is a health stream that has delivered `n` pings so far.
#[derive(Debug, Clone, PartialEq, Eq, Hash)]
pub enum SdkCall {
    Ready,
    Allocate,
    Shutdown,
    Health(usize),
    WatchGameServer,
    SetLabel(KeyValue),
    SetAnnotation(KeyValue),
    Reserve(Duration),
}

/// The kinds of SDK call that can be told to fail.
#[derive(Debug, Clone, Copy, PartialEq, Eq, Hash)]
pub enum FailableSdkCall {
    Ready,
    Allocate,
    Shutdown,
    Health,
    GetGameServer,
    WatchGameServer,
    SetLabel,
    SetAnnotation,
    Reserve,
}

/// A call as the mock records it. A health call names the health stream
/// (an index into the mock's ping counters) whose pings it reports.
#[derive(Debug, Clone, PartialEq, Eq, Hash)]
pub enum InternalSdkCall {
    Ready,
    Allocate,
    Shutdown,
    Health(usize),
    WatchGameServer,
    SetLabel(KeyValue),
    SetAnnotation(KeyValue),
    Reserve(Duration),
}

/// The report of a recorded call, given the ping count of every health stream.
pub open spec fn report_of(call: InternalSdkCall, pings: Seq<usize>) -> SdkCall {
    match call {
        InternalSdkCall::Ready => SdkCall::Ready,
        InternalSdkCall::Allocate => SdkCall::Allocate,
        InternalSdkCall::Shutdown => SdkCall::Shutdown,
        InternalSdkCall::Health(stream) => SdkCall::Health(pings[stream as int]),
        InternalSdkCall::WatchGameServer => SdkCall::WatchGameServer,
        InternalSdkCall::SetLabel(kv) => SdkCall::SetLabel(kv),
        InternalSdkCall::SetAnnotation(kv) => SdkCall::SetAnnotation(kv),
        InternalSdkCall::Reserve(d) => SdkCall::Reserve(d),
    }
}

/// The kind under which a recorded call can be told to fail.
pub open spec fn failable_kind(call: InternalSdkCall) -> FailableSdkCall {
    match call {
        InternalSdkCall::Ready => FailableSdkCall::Ready,
        InternalSdkCall::Allocate => FailableSdkCall::Allocate,
        InternalSdkCall::Shutdown => FailableSdkCall::Shutdown,
        InternalSdkCall::Health(_) => FailableSdkCall::Health,
        InternalSdkCall::WatchGameServer => FailableSdkCall::WatchGameServer,
        InternalSdkCall::SetLabel(_) => FailableSdkCall::SetLabel,
        InternalSdkCall::SetAnnotation(_) => FailableSdkCall::SetAnnotation,
        InternalSdkCall::Reserve(_) => FailableSdkCall::Reserve,
    }
}

/// Whether a recorded call refers only to health streams that exist.
pub open spec fn refers_to_streams(call: InternalSdkCall, stream_count: nat) -> bool {
    match call {
        InternalSdkCall::Health(stream) => stream < stream_count,
        _ => true,
    }
}

/// The slot in which a failure for this kind of call is kept.
pub open spec fn failure_slot(kind: FailableSdkCall) -> u8 {
    match kind {
        FailableSdkCall::Ready => 0,
        FailableSdkCall::Allocate => 1,
        FailableSdkCall::Shutdown => 2,
        FailableSdkCall::Health => 3,
        FailableSdkCall::GetGameServer => 4,
        FailableSdkCall::WatchGameServer => 5,
        FailableSdkCall::SetLabel => 6,
        FailableSdkCall::SetAnnotation => 7,
        FailableSdkCall::Reserve => 8,
    }
}

/// Distinct kinds of call keep their failures in distinct slots.
pub proof fn lemma_failure_slot_injective(a: FailableSdkCall, b: FailableSdkCall)
    ensures
        failure_slot(a) == failure_slot(b) <==> a == b,
{
}

impl FailableSdkCall {
    /// The slot in which a failure for this kind of call is kept.
    pub fn slot(&self) -> (slot: u8)
        ensures
            slot == failure_slot(*self),
    {
        match self {
            FailableSdkCall::Ready => 0,
            FailableSdkCall::Allocate => 1,
            FailableSdkCall::Shutdown => 2,
            FailableSdkCall::Health => 3,
            FailableSdkCall::GetGameServer => 4,
            FailableSdkCall::WatchGameServer => 5,
            FailableSdkCall::SetLabel => 6,
            FailableSdkCall::SetAnnotation => 7,
            FailableSdkCall::Reserve => 8,
        }
    }
}

impl SdkCall {
    /// The report of a recorded call, reading the ping count of its health
    /// stream where it is a health call.
    pub fn from_recorded(call: &InternalSdkCall, pings: &Vec<usize>) -> (report: SdkCall)
        requires
            refers_to_streams(*call, pings@.len()),
        ensures
            report == report_of(*call, pings@),
            match *call {
                InternalSdkCall::Ready => report == SdkCall::Ready,
                InternalSdkCall::Allocate => report == SdkCall::Allocate,
                InternalSdkCall::Shutdown => report == SdkCall::Shutdown,
                InternalSdkCall::Health(stream) => report == SdkCall::Health(pings@[stream as int]),
                InternalSdkCall::WatchGameServer => report == SdkCall::WatchGameServer,
                InternalSdkCall::SetLabel(kv) => report == SdkCall::SetLabel(kv),
                InternalSdkCall::SetAnnotation(kv) => report == SdkCall::SetAnnotation(kv),
                InternalSdkCall::Reserve(d) => report == SdkCall::Reserve(d),
            },
    {
        match call {
            InternalSdkCall::Ready => SdkCall::Ready,
            InternalSdkCall::Allocate => SdkCall::Allocate,
            InternalSdkCall::Shutdown => SdkCall::Shutdown,
            InternalSdkCall::Health(stream) => SdkCall::Health(pings[*stream]),
            InternalSdkCall::WatchGameServer => SdkCall::WatchGameServer,
            InternalSdkCall::SetLabel(kv) => SdkCall::SetLabel(kv.duplicate()),
            InternalSdkCall::SetAnnotation(kv) => SdkCall::SetAnnotation(kv.duplicate()),
            InternalSdkCall::Reserve(d) => SdkCall::Reserve(*d),
        }
    }
}

impl<'a> From<&'a InternalSdkCall> for FailableSdkCall {
    fn from(value: &'a InternalSdkCall) -> (kind: FailableSdkCall) {
        match value {
            InternalSdkCall::Ready => FailableSdkCall::Ready,
            InternalSdkCall::Allocate => FailableSdkCall::Allocate,
            InternalSdkCall::Shutdown => FailableSdkCall::Shutdown,
            InternalSdkCall::Health(_) => FailableSdkCall::Health,
            InternalSdkCall::WatchGameServer => FailableSdkCall::WatchGameServer,
            InternalSdkCall::SetLabel(_) => FailableSdkCall::SetLabel,
            InternalSdkCall::SetAnnotation(_) => FailableSdkCall::SetAnnotation,
            InternalSdkCall::Reserve(_) => FailableSdkCall::Reserve,
        }
    }
}

impl<'a> vstd::std_specs::convert::FromSpecImpl<&'a InternalSdkCall> for FailableSdkCall {
    open spec fn obeys_from_spec() -> bool {
        true
    }

    open spec fn from_spec(value: &'a InternalSdkCall) -> FailableSdkCall {
        failable_kind(*value)
    }
}

} // verus!
