//! How a refused request is answered.

use vstd::prelude::*;

verus! {

/// The kind of a refusal.
#[derive(Debug, Clone, Copy, PartialEq, Eq, Structural)]
pub enum Code {
    /// The request itself is wrong.
    InvalidArgument,
    /// The request asks for more than there is room for.
    ResourceExhausted,
    /// The service failed.
    Internal,
}

/// A refusal.
#[derive(Debug)]
pub struct Status {
    pub code: Code,
    pub message: String,
}

/// A refusal.
pub struct StatusView {
    pub code: Code,
    pub message: Seq<char>,
}

impl View for Status {
    type V = StatusView;

    open spec fn view(&self) -> StatusView {
        StatusView { code: self.code, message: self.message@ }
    }
}

impl Status {
    /// A refusal of a request which is wrong.
    pub fn invalid_argument(message: &str) -> (status: Status)
        ensures
            status@ == (StatusView { code: Code::InvalidArgument, message: message@ }),
    {
        Status { code: Code::InvalidArgument, message: message.to_owned() }
    }

    /// A refusal of a request which there is no room for.
    pub fn resource_exhausted(message: &str) -> (status: Status)
        ensures
            status@ == (StatusView { code: Code::ResourceExhausted, message: message@ }),
    {
        Status { code: Code::ResourceExhausted, message: message.to_owned() }
    }

    /// A failure of the service.
    pub fn internal(message: &str) -> (status: Status)
        ensures
            status@ == (StatusView { code: Code::Internal, message: message@ }),
    {
        Status { code: Code::Internal, message: message.to_owned() }
    }
}

/// A refusal is seen by its kind and its text.
pub proof fn law_refusal_is_seen_whole(status: Status)
    ensures
        status@.code == status.code,
        status@.message == status.message@,
{
}

} // verus!
