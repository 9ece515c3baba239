//! Tri-state recovery of fallible operations, a bounded retry helper and
//! the severity under which an error is reported.

use vstd::pervasive::unreached;
use vstd::prelude::*;

use crate::error::OrderChangeError;

verus! {

/// The outcome of a fallible operation after recovery was attempted.
pub enum RecoveryResult<T> {
    Success(T),
    Recovered(T, OrderChangeError),
    Failed(OrderChangeError),
}

impl<T> RecoveryResult<T> {
    pub fn is_success(&self) -> (r: bool)
        ensures
            r == (self is Success),
    {
        match self {
            RecoveryResult::Success(_) => true,
            _ => false,
        }
    }

    pub fn is_recovered(&self) -> (r: bool)
        ensures
            r == (self is Recovered),
    {
        match self {
            RecoveryResult::Recovered(_, _) => true,
            _ => false,
        }
    }

    pub fn is_failed(&self) -> (r: bool)
        ensures
            r == (self is Failed),
    {
        match self {
            RecoveryResult::Failed(_) => true,
            _ => false,
        }
    }

    /// The value, whether it came from the operation or from a fallback.
    pub fn get_value(self) -> (r: Option<T>)
        ensures
            self is Success ==> r == Some(self->Success_0),
            self is Recovered ==> r == Some(self->Recovered_0),
            self is Failed ==> r is None,
    {
        match self {
            RecoveryResult::Success(v) => Some(v),
            RecoveryResult::Recovered(v, _) => Some(v),
            RecoveryResult::Failed(_) => None,
        }
    }

    /// The value; only for an outcome that is not a failure.
    pub fn unwrap(self) -> (r: T)
        requires
            !(self is Failed),
        ensures
            self is Success ==> r == self->Success_0,
            self is Recovered ==> r == self->Recovered_0,
    {
        match self {
            RecoveryResult::Success(v) => v,
            RecoveryResult::Recovered(v, _) => v,
            RecoveryResult::Failed(_) => unreached(),
        }
    }

    /// The value, or what `fallback` gives on a failure.
    pub fn unwrap_or<F: FnOnce() -> T>(self, fallback: F) -> (r: T)
        requires
            self is Failed ==> fallback.requires(()),
        ensures
            self is Success ==> r == self->Success_0,
            self is Recovered ==> r == self->Recovered_0,
            self is Failed ==> fallback.ensures((), r),
    {
        match self {
            RecoveryResult::Success(v) => v,
            RecoveryResult::Recovered(v, _) => v,
            RecoveryResult::Failed(_) => fallback(),
        }
    }
}

/// Turning a fallible result into a `RecoveryResult`.
pub trait Recoverable<T>: Sized {
    /// On an error that is recoverable, substitutes the fallback's value.
    fn recover_with_fallback<F: FnOnce() -> T>(self, fallback: F) -> (r: RecoveryResult<T>)
        requires
            fallback.requires(()),
    ;

    /// On an error that is recoverable, substitutes the value that the
    /// handler derives from it.
    fn recover_with_error<F: FnOnce(&OrderChangeError) -> T>(self, error_handler: F) -> (r:
        RecoveryResult<T>)
        requires
            forall|e: &OrderChangeError| error_handler.requires((e,)),
    ;

    /// Runs the callback on any error, then recovers as
    /// `recover_with_fallback` does.
    fn recover_with_callback<F: FnOnce() -> T, C: FnOnce(&OrderChangeError)>(
        self,
        fallback: F,
        callback: C,
    ) -> (r: RecoveryResult<T>)
        requires
            fallback.requires(()),
            forall|e: &OrderChangeError| callback.requires((e,)),
    ;
}

impl<T> Recoverable<T> for Result<T, OrderChangeError> {
    fn recover_with_fallback<F: FnOnce() -> T>(self, fallback: F) -> (r: RecoveryResult<T>)
        ensures
            self is Ok ==> r == RecoveryResult::<T>::Success(self->Ok_0),
            self is Err && self->Err_0.spec_is_recoverable() ==> r is Recovered
                && r->Recovered_1 == self->Err_0 && fallback.ensures((), r->Recovered_0),
            self is Err && !self->Err_0.spec_is_recoverable() ==> r == RecoveryResult::<T>::Failed(
                self->Err_0,
            ),
    {
        match self {
            Ok(v) => RecoveryResult::Success(v),
            Err(e) => {
                if e.is_recoverable() {
                    let value = fallback();
                    RecoveryResult::Recovered(value, e)
                } else {
                    RecoveryResult::Failed(e)
                }
            },
        }
    }

    fn recover_with_error<F: FnOnce(&OrderChangeError) -> T>(self, error_handler: F) -> (r:
        RecoveryResult<T>)
        ensures
            self is Ok ==> r == RecoveryResult::<T>::Success(self->Ok_0),
            self is Err && self->Err_0.spec_is_recoverable() ==> r is Recovered
                && r->Recovered_1 == self->Err_0 && error_handler.ensures(
                (&self->Err_0,),
                r->Recovered_0,
            ),
            self is Err && !self->Err_0.spec_is_recoverable() ==> r == RecoveryResult::<T>::Failed(
                self->Err_0,
            ),
    {
        match self {
            Ok(v) => RecoveryResult::Success(v),
            Err(e) => {
                if e.is_recoverable() {
                    let value = error_handler(&e);
                    RecoveryResult::Recovered(value, e)
                } else {
                    RecoveryResult::Failed(e)
                }
            },
        }
    }

    fn recover_with_callback<F: FnOnce() -> T, C: FnOnce(&OrderChangeError)>(
        self,
        fallback: F,
        callback: C,
    ) -> (r: RecoveryResult<T>)
        ensures
            self is Ok ==> r == RecoveryResult::<T>::Success(self->Ok_0),
            self is Err ==> callback.ensures((&self->Err_0,), ()),
            self is Err && self->Err_0.spec_is_recoverable() ==> r is Recovered
                && r->Recovered_1 == self->Err_0 && fallback.ensures((), r->Recovered_0),
            self is Err && !self->Err_0.spec_is_recoverable() ==> r == RecoveryResult::<T>::Failed(
                self->Err_0,
            ),
    {
        match self {
            Ok(v) => RecoveryResult::Success(v),
            Err(e) => {
                callback(&e);
                if e.is_recoverable() {
                    let value = fallback();
                    RecoveryResult::Recovered(value, e)
                } else {
                    RecoveryResult::Failed(e)
                }
            },
        }
    }
}

/// Retries an operation immediately while its error is recoverable, up to a
/// budget of retries shared by all calls on the same instance.
pub struct SafeRenderer {
    max_retries: usize,
    current_retry: usize,
}

impl SafeRenderer {
    pub closed spec fn budget(&self) -> usize {
        self.max_retries
    }

    pub closed spec fn retries_used(&self) -> usize {
        self.current_retry
    }

    pub fn new(max_retries: usize) -> (r: Self)
        ensures
            r.budget() == max_retries,
            r.retries_used() == 0,
    {
        SafeRenderer { max_retries, current_retry: 0 }
    }

    /// Calls `render_fn` until it succeeds, fails beyond recovery, or the
    /// retry budget is spent; never returns `Recovered`.
    pub fn render_with_retry<F: Fn() -> Result<R, OrderChangeError>, R>(&mut self, render_fn: F) -> (r:
        RecoveryResult<R>)
        requires
            render_fn.requires(()),
        ensures
            final(self).budget() == old(self).budget(),
            old(self).retries_used() <= final(self).retries_used(),
            final(self).retries_used() == old(self).retries_used() || final(self).retries_used()
                <= final(self).budget(),
            !(r is Recovered),
            r is Success ==> render_fn.ensures((), Ok::<R, OrderChangeError>(r->Success_0)),
            r is Failed ==> render_fn.ensures((), Err::<R, OrderChangeError>(r->Failed_0)),
            r is Failed ==> !r->Failed_0.spec_is_recoverable() || final(self).retries_used()
                >= final(self).budget(),
            final(self).retries_used() != old(self).retries_used() ==> exists|e: OrderChangeError|
                e.spec_is_recoverable() && render_fn.ensures((), Err::<R, OrderChangeError>(e)),
    {
        let ghost start = self.current_retry;
        loop
            invariant
                render_fn.requires(()),
                self.max_retries == old(self).max_retries,
                start == old(self).current_retry,
                start <= self.current_retry,
                self.current_retry == start || self.current_retry <= self.max_retries,
                self.current_retry != start ==> exists|e: OrderChangeError|
                    e.spec_is_recoverable() && render_fn.ensures((), Err::<R, OrderChangeError>(e)),
            decreases self.max_retries - self.current_retry,
        {
            match render_fn() {
                Ok(result) => {
                    return RecoveryResult::Success(result);
                },
                Err(e) => {
                    if e.is_recoverable() && self.current_retry < self.max_retries {
                        assert(e.spec_is_recoverable() && render_fn.ensures(
                            (),
                            Err::<R, OrderChangeError>(e),
                        ));
                        self.current_retry = self.current_retry + 1;
                    } else {
                        return RecoveryResult::Failed(e);
                    }
                },
            }
        }
    }
}

impl Default for SafeRenderer {
    fn default() -> (r: Self)
        ensures
            r.budget() == 3,
            r.retries_used() == 0,
    {
        SafeRenderer { max_retries: 3, current_retry: 0 }
    }
}

/// The severity under which an error is reported.
#[derive(Debug, Clone, Copy, PartialEq, Eq, Structural)]
pub enum LogLevel {
    Error,
    Warning,
}

/// Reporting of errors and falling back past them.
pub struct ErrorHandler;

impl ErrorHandler {
    /// Critical errors are reported as errors, all others as warnings.
    pub fn log_level(error: &OrderChangeError) -> (r: LogLevel)
        ensures
            r == if error.spec_is_critical() {
                LogLevel::Error
            } else {
                LogLevel::Warning
            },
    {
        if error.is_critical() {
            LogLevel::Error
        } else {
            LogLevel::Warning
        }
    }

    /// The value of `result`, or the fallback's value on an error.
    pub fn handle_with_fallback<T, F: FnOnce() -> T>(
        result: Result<T, OrderChangeError>,
        fallback: F,
        _context: &str,
    ) -> (r: T)
        requires
            result is Err ==> fallback.requires(()),
        ensures
            result is Ok ==> r == result->Ok_0,
            result is Err ==> fallback.ensures((), r),
    {
        match result {
            Ok(v) => v,
            Err(_) => fallback(),
        }
    }
}

} // verus!
