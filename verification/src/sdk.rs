//! The SDK message types that the recorded calls carry.
use vstd::prelude::*;

verus! {

/// A key and a value, as sent by the `SetLabel` and `SetAnnotation` calls.
#[derive(Debug, Clone, PartialEq, Eq, Hash, Default)]
pub struct KeyValue {
    pub key: String,
    pub value: String,
}

impl KeyValue {
    /// A copy of this pair, field by field.
    pub fn duplicate(&self) -> (copy: KeyValue)
        ensures
            copy == *self,
    {
        KeyValue { key: self.key.clone(), value: self.value.clone() }
    }
}

/// A span of whole seconds, as sent by the `Reserve` call.
#[derive(Debug, Clone, Copy, PartialEq, Eq, Hash, Default)]
pub struct Duration {
    pub seconds: i64,
}

} // verus!
