//! The kinds, places and queueing of toast notifications.

use vstd::prelude::*;

verus! {

/// What a toast reports.
#[derive(Debug, Clone, Copy, PartialEq, Eq, Structural)]
pub enum ToastType {
    Info,
    Success,
    Warning,
    Error,
    Custom,
}

impl Default for ToastType {
    fn default() -> (r: Self)
        ensures
            r == ToastType::Info,
    {
        ToastType::Info
    }
}

/// Where on the screen toasts appear.
#[derive(Debug, Clone, Copy, PartialEq, Eq, Structural, Hash)]
pub enum ToastPosition {
    TopLeft,
    TopCenter,
    TopRight,
    MiddleLeft,
    MiddleCenter,
    MiddleRight,
    BottomLeft,
    BottomCenter,
    BottomRight,
}

impl Default for ToastPosition {
    fn default() -> (r: Self)
        ensures
            r == ToastPosition::TopRight,
    {
        ToastPosition::TopRight
    }
}

/// Whether toasts beyond the limit wait their turn.
#[derive(Debug, Clone, Copy, PartialEq, Eq, Structural)]
pub enum QueueMode {
    Unlimited,
    FIFO,
}

impl Default for QueueMode {
    fn default() -> (r: Self)
        ensures
            r == QueueMode::Unlimited,
    {
        QueueMode::Unlimited
    }
}

} // verus!
