use vstd::prelude::*;

verus! {

/// The error taxonomy of the RPC core.
///
/// `Null` stands for a call whose contract allows absence and whose server
/// returned no value; `NotFind` for a missing handler or provider; `Info`
/// for every other logical failure (timeouts, transport errors, codec
/// errors, load-balance exhaustion).
#[derive(Clone, Debug, PartialEq)]
pub enum FusenError {
    Null,
    NotFind(String),
    Info(String),
}

/// The mathematical value of a [`FusenError`].
#[verifier::ext_equal]
pub ghost enum ErrView {
    Null,
    NotFind(Seq<char>),
    Info(Seq<char>),
}

/// The value a `FusenError` stands for.
pub open spec fn err_view(e: FusenError) -> ErrView {
    match e {
        FusenError::Null => ErrView::Null,
        FusenError::NotFind(m) => ErrView::NotFind(m@),
        FusenError::Info(m) => ErrView::Info(m@),
    }
}

impl FusenError {
    /// The gRPC status code this error maps to on the wire: `Null` is 90,
    /// `NotFind` is 91, `Info` is 92; success is 0.
    pub open spec fn spec_grpc_status(&self) -> int {
        match self {
            FusenError::Null => 90,
            FusenError::NotFind(_) => 91,
            FusenError::Info(_) => 92,
        }
    }

    pub fn grpc_status(&self) -> (r: u8)
        ensures
            r as int == self.spec_grpc_status(),
    {
        match self {
            FusenError::Null => 90,
            FusenError::NotFind(_) => 91,
            FusenError::Info(_) => 92,
        }
    }
}

} // verus!
