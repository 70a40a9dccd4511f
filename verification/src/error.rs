use vstd::prelude::*;

verus! {

/// The translator reports every failure as a value of this type; no panics.
///
/// `NotImplemented` marks SQL that is syntactically valid but unsupported,
/// `Plan` marks SQL that is semantically invalid given the catalog,
/// `General` and `Execution` mark miscellaneous semantic violations, and
/// `Internal` marks an invariant violation inside the translator itself.
#[derive(Debug)]
pub enum PlanError {
    NotImplemented(String),
    Plan(String),
    General(String),
    Execution(String),
    Internal(String),
}

/// The kind of a `PlanError`, with the message abstracted away.
/// Contracts that pin down which failure a function returns speak of kinds;
/// the exact message is stated separately where it is part of the interface.
pub enum ErrKind {
    NotImplemented,
    Plan,
    General,
    Execution,
    Internal,
}

impl PlanError {
    pub open spec fn kind(&self) -> ErrKind {
        match self {
            PlanError::NotImplemented(_) => ErrKind::NotImplemented,
            PlanError::Plan(_) => ErrKind::Plan,
            PlanError::General(_) => ErrKind::General,
            PlanError::Execution(_) => ErrKind::Execution,
            PlanError::Internal(_) => ErrKind::Internal,
        }
    }

    pub open spec fn msg(&self) -> Seq<char> {
        match self {
            PlanError::NotImplemented(m) => m@,
            PlanError::Plan(m) => m@,
            PlanError::General(m) => m@,
            PlanError::Execution(m) => m@,
            PlanError::Internal(m) => m@,
        }
    }

    /// The error message, for callers that report failures.
    pub fn message(&self) -> (r: &str)
        ensures
            r@ == self.msg(),
    {
        match self {
            PlanError::NotImplemented(m) => m.as_str(),
            PlanError::Plan(m) => m.as_str(),
            PlanError::General(m) => m.as_str(),
            PlanError::Execution(m) => m.as_str(),
            PlanError::Internal(m) => m.as_str(),
        }
    }
}

} // verus!
