//! The failures of detection and reordering, with their severity.

use vstd::prelude::*;

use crate::text::{decimal, decimal_u128, push_str, string_of};

verus! {

/// Why a detection or a reorder could not be carried out.
#[derive(Debug, Clone, PartialEq)]
pub enum OrderChangeError {
    LengthMismatch { current: usize, target: usize },
    ContentMismatch,
    HashCollision,
    InvalidData(String),
    DetectionFailed(String),
    ReorderFailed(String),
    NodeNotFound(String),
    InvalidNodeState(String),
}

impl OrderChangeError {
    /// Drifted state or an operational failure: worth a fallback or a retry.
    pub open spec fn spec_is_recoverable(&self) -> bool {
        ||| self is LengthMismatch
        ||| self is ContentMismatch
        ||| self is DetectionFailed
        ||| self is ReorderFailed
    }

    /// Broken data or node state: must be propagated, never retried.
    pub open spec fn spec_is_critical(&self) -> bool {
        self is InvalidData || self is InvalidNodeState
    }

    pub fn is_recoverable(&self) -> (r: bool)
        ensures
            r == self.spec_is_recoverable(),
    {
        match self {
            OrderChangeError::LengthMismatch { .. } => true,
            OrderChangeError::ContentMismatch => true,
            OrderChangeError::DetectionFailed(_) => true,
            OrderChangeError::ReorderFailed(_) => true,
            _ => false,
        }
    }

    pub fn is_critical(&self) -> (r: bool)
        ensures
            r == self.spec_is_critical(),
    {
        match self {
            OrderChangeError::InvalidData(_) => true,
            OrderChangeError::InvalidNodeState(_) => true,
            _ => false,
        }
    }
}

/// The text that describes an error.
pub open spec fn error_text(e: OrderChangeError) -> Seq<char> {
    match e {
        OrderChangeError::LengthMismatch { current, target } => "Length mismatch: current="@ + decimal(
            current as nat,
        ) + " target="@ + decimal(target as nat),
        OrderChangeError::ContentMismatch => "Content mismatch between current and target data"@,
        OrderChangeError::HashCollision => "Hash collision detected"@,
        OrderChangeError::InvalidData(m) => "Invalid data: "@ + m@,
        OrderChangeError::DetectionFailed(m) => "Detection failed: "@ + m@,
        OrderChangeError::ReorderFailed(m) => "Reorder failed: "@ + m@,
        OrderChangeError::NodeNotFound(m) => "Node not found: "@ + m@,
        OrderChangeError::InvalidNodeState(m) => "Invalid node state: "@ + m@,
    }
}

impl OrderChangeError {
    /// The text that describes this error.
    pub fn to_string(&self) -> (r: String)
        ensures
            r@ == error_text(*self),
    {
        let mut v: Vec<char> = Vec::new();
        match self {
            OrderChangeError::LengthMismatch { current, target } => {
                push_str(&mut v, "Length mismatch: current=");
                let mut a = decimal_u128(*current as u128);
                v.append(&mut a);
                push_str(&mut v, " target=");
                let mut b = decimal_u128(*target as u128);
                v.append(&mut b);
            },
            OrderChangeError::ContentMismatch => {
                push_str(&mut v, "Content mismatch between current and target data");
            },
            OrderChangeError::HashCollision => {
                push_str(&mut v, "Hash collision detected");
            },
            OrderChangeError::InvalidData(m) => {
                push_str(&mut v, "Invalid data: ");
                push_str(&mut v, m.as_str());
            },
            OrderChangeError::DetectionFailed(m) => {
                push_str(&mut v, "Detection failed: ");
                push_str(&mut v, m.as_str());
            },
            OrderChangeError::ReorderFailed(m) => {
                push_str(&mut v, "Reorder failed: ");
                push_str(&mut v, m.as_str());
            },
            OrderChangeError::NodeNotFound(m) => {
                push_str(&mut v, "Node not found: ");
                push_str(&mut v, m.as_str());
            },
            OrderChangeError::InvalidNodeState(m) => {
                push_str(&mut v, "Invalid node state: ");
                push_str(&mut v, m.as_str());
            },
        }
        assert(v@ =~= error_text(*self));
        string_of(&v)
    }
}

/// No error is both recoverable and critical.
pub proof fn lemma_severity_exclusive(e: OrderChangeError)
    ensures
        !(e.spec_is_recoverable() && e.spec_is_critical()),
{
}

} // verus!
