//! Message records exchanged with the host: the response envelope and the
//! record reporting a freshly allocated handle.

use vstd::prelude::*;
use crate::errors::DIDError;

verus! {

/// Reports the handle of a newly registered resource.
#[derive(Clone, Copy, PartialEq, Eq, Structural, Debug)]
pub struct ResourceIdResponse {
    pub rid: u32,
}

/// The envelope every response to the host is wrapped in: exactly one of
/// `error` and `data` is set, and callers must check `error` first.
pub struct DIDResponse<D> {
    pub error: Option<DIDError>,
    pub data: Option<D>,
}

impl<D> DIDResponse<D> {
    /// Exactly one of the two fields is set.
    pub open spec fn wf(self) -> bool {
        self.error is Some <==> self.data is None
    }

    /// Wraps a successful payload.
    pub fn done(data: D) -> (r: Self)
        ensures
            r.wf(),
            r.data == Some(data),
            r.error is None,
    {
        DIDResponse { error: None, data: Some(data) }
    }

    /// Wraps a failure.
    pub fn failed(error: DIDError) -> (r: Self)
        ensures
            r.wf(),
            r.error is Some,
            r.error->0 == error,
            r.data is None,
    {
        DIDResponse { error: Some(error), data: None }
    }
}

} // verus!
