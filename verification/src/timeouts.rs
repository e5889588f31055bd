//! Cancellation: a signal shared by the parties of an operation, the
//! controller that trips it, and the error an aborted operation reports.
use vstd::prelude::*;
use std::sync::Arc;
use crate::errors::{SDKError, SDKErrorKind, SDKErrorView, default_retryable_spec};
use crate::json::{Json, JsonView, jv_members};
use crate::text::{concat2, opt_seq, owned, trim, trim_seq};

verus! {

/// `std::sync::Mutex`, which Verus sees as opaque.
#[verifier::external_type_specification]
#[verifier::external_body]
#[verifier::reject_recursive_types(T)]
pub struct ExMutex<T: ?Sized>(std::sync::Mutex<T>);

/// The shared state of a signal: whether it has been aborted and why.
pub struct AbortState {
    aborted: std::sync::atomic::AtomicBool,
    reason: std::sync::Mutex<Option<String>>,
}

/// Wraps `Mutex::new` for the abort reason.
#[verifier::external_body]
fn new_reason_cell() -> std::sync::Mutex<Option<String>> {
    std::sync::Mutex::new(None)
}

/// Wraps `Mutex::lock` and `Option::clone`: the reason stored under the
/// lock. What it holds depends on other holders of the signal, so nothing is
/// said of it. The lock panics only when poisoned, which the short critical
/// sections of this module never cause.
#[verifier::external_body]
fn read_reason(cell: &std::sync::Mutex<Option<String>>) -> Option<String> {
    cell.lock().expect("abort reason lock").clone()
}

/// Wraps `Mutex::lock` and an assignment: stores the reason under the lock.
#[verifier::external_body]
fn write_reason(cell: &std::sync::Mutex<Option<String>>, reason: Option<String>) {
    *cell.lock().expect("abort reason lock") = reason;
}

/// What an abort reason can be made from: text, optional text, or nothing.
pub trait IntoAbortReason {
    fn into_abort_reason(self) -> Option<String>;
}

impl IntoAbortReason for String {
    fn into_abort_reason(self) -> (r: Option<String>)
        ensures
            r == Some(self),
    {
        Some(self)
    }
}

impl<'a> IntoAbortReason for &'a str {
    fn into_abort_reason(self) -> (r: Option<String>)
        ensures
            opt_seq(r) == Some(self@),
    {
        Some(owned(self))
    }
}

impl IntoAbortReason for Option<String> {
    fn into_abort_reason(self) -> (r: Option<String>)
        ensures
            r == self,
    {
        self
    }
}

impl<'a> IntoAbortReason for Option<&'a str> {
    fn into_abort_reason(self) -> (r: Option<String>)
        ensures
            opt_seq(r) == match self {
                Some(s) => Some(s@),
                None => None,
            },
    {
        match self {
            Some(s) => Some(owned(s)),
            None => None,
        }
    }
}

impl IntoAbortReason for () {
    fn into_abort_reason(self) -> (r: Option<String>)
        ensures
            r is None,
    {
        None
    }
}

// ----- the error of an aborted operation -----
/// The message of an abort: the reason unless it is blank, else
/// `<scope> aborted`.
pub open spec fn abort_message(scope: Seq<char>, reason: Option<Seq<char>>) -> Seq<char> {
    match reason {
        Some(r) => if trim_seq(r).len() > 0 {
            r
        } else {
            scope + " aborted"@
        },
        None => scope + " aborted"@,
    }
}

/// The raw details of an abort: `{"reason": <reason or null>, "scope": <scope>}`.
pub open spec fn abort_raw(scope: Seq<char>, reason: Option<Seq<char>>) -> JsonView {
    JsonView::Object(
        seq![
            ("reason"@, match reason {
                Some(r) => JsonView::Str(r),
                None => JsonView::Null,
            }),
            ("scope"@, JsonView::Str(scope)),
        ],
    )
}

/// The error of an aborted operation.
pub open spec fn abort_error_spec(scope: Seq<char>, reason: Option<Seq<char>>) -> SDKErrorView {
    SDKErrorView {
        kind: SDKErrorKind::Abort,
        message: abort_message(scope, reason),
        provider: None,
        status_code: None,
        error_code: None,
        retryable: default_retryable_spec(SDKErrorKind::Abort),
        raw: None,
    }
}

/// The error of an aborted operation: kind `Abort`, the reason (or
/// `<scope> aborted`) as its message, and the scope and reason as raw details.
pub fn abort_error(scope: String, reason: Option<String>) -> (r: SDKError)
    ensures
        (SDKErrorView { raw: None, ..r@ }) == abort_error_spec(scope@, opt_seq(reason)),
        r.raw matches Some(raw) && raw@ == abort_raw(scope@, opt_seq(reason)),
{
    let message = match &reason {
        Some(r) => {
            let t = trim(r.as_str());
            if t.unicode_len() > 0 {
                r.clone()
            } else {
                concat2(scope.as_str(), " aborted")
            }
        },
        None => concat2(scope.as_str(), " aborted"),
    };
    let reason_value = match &reason {
        Some(r) => Json::Str(r.clone()),
        None => Json::Null,
    };
    let scope_value = Json::Str(scope);
    assert(scope_value@ == JsonView::Str(scope@));
    assert(reason_value@ == match opt_seq(reason) {
        Some(r) => JsonView::Str(r),
        None => JsonView::Null,
    });
    let members = vec![(owned("reason"), reason_value), (owned("scope"), scope_value)];
    proof {
        reveal_with_fuel(jv_members, 3);
        assert(members@.drop_last().drop_last() =~= Seq::<(String, Json)>::empty());
        assert(jv_members(members@) =~= seq![
            ("reason"@, match opt_seq(reason) {
                Some(r) => JsonView::Str(r),
                None => JsonView::Null,
            }),
            ("scope"@, JsonView::Str(scope@)),
        ]);
    }
    let ghost mv = members@;
    let ghost expected = seq![
        ("reason"@, match opt_seq(reason) {
            Some(r) => JsonView::Str(r),
            None => JsonView::Null,
        }),
        ("scope"@, JsonView::Str(scope@)),
    ];
    assert(jv_members(mv) == expected);
    assert(abort_raw(scope@, opt_seq(reason))->Object_0 =~= expected);
    let raw = Json::Object(members);
    assert(raw@ == JsonView::Object(jv_members(mv)));
    let mut error = SDKError::new(SDKErrorKind::Abort, message);
    error.raw = Some(raw);
    error
}

/// Whether an error is the abort error of a scope and reason, raw details
/// included.
pub open spec fn is_abort_error(e: SDKError, scope: Seq<char>, reason: Option<Seq<char>>) -> bool {
    &&& (SDKErrorView { raw: None, ..e@ }) == abort_error_spec(scope, reason)
    &&& e.raw matches Some(raw) && raw@ == abort_raw(scope, reason)
}

/// What an operation does when it checks a signal: fail with the abort
/// error when the signal was aborted, go on otherwise.
pub fn abort_outcome(aborted: bool, reason: Option<String>) -> (r: Result<(), SDKError>)
    ensures
        match r {
            Ok(()) => !aborted,
            Err(e) => {
                &&& aborted
                &&& (SDKErrorView { raw: None, ..e@ }) == abort_error_spec("operation"@, opt_seq(reason))
                &&& e.raw matches Some(raw) && raw@ == abort_raw("operation"@, opt_seq(reason))
            },
        },
{
    if aborted {
        return Err(abort_error(owned("operation"), reason));
    }
    Ok(())
}

// ----- signals and controllers -----
/// A cancellation signal; its clones share one state.
pub struct AbortSignal {
    state: Arc<AbortState>,
}

impl Clone for AbortSignal {
    fn clone(&self) -> (r: Self) {
        AbortSignal { state: Arc::clone(&self.state) }
    }
}

impl AbortSignal {
    /// A signal that has not been aborted.
    pub fn new() -> Self {
        AbortSignal {
            state: Arc::new(AbortState {
                aborted: std::sync::atomic::AtomicBool::new(false),
                reason: new_reason_cell(),
            }),
        }
    }

    /// Whether the signal has been aborted (by any holder).
    pub fn aborted(&self) -> bool {
        self.state.aborted.load(std::sync::atomic::Ordering::SeqCst)
    }

    /// The reason given when the signal was aborted, if any.
    pub fn reason(&self) -> Option<String> {
        read_reason(&self.state.reason)
    }

    /// Aborts the signal; only the first abort records its reason.
    pub fn abort<R: IntoAbortReason>(&self, reason: R) {
        if self.state.aborted.swap(true, std::sync::atomic::Ordering::SeqCst) {
            return;
        }
        write_reason(&self.state.reason, reason.into_abort_reason());
    }

    /// Fails with the abort error when the signal has been aborted. Whether
    /// it has is decided by the signal's holders; the error is the abort
    /// error of the operation with the reason read from the signal.
    pub fn throw_if_aborted(&self) -> (r: Result<(), SDKError>)
        ensures
            r matches Err(e) ==> exists|reason: Option<Seq<char>>| #[trigger] is_abort_error(e, "operation"@, reason),
    {
        if self.aborted() {
            let reason = self.reason();
            let ghost rv = opt_seq(reason);
            let r = abort_outcome(true, reason);
            assert(r matches Err(e) && is_abort_error(e, "operation"@, rv));
            return r;
        }
        Ok(())
    }
}

impl Default for AbortSignal {
    fn default() -> Self {
        AbortSignal::new()
    }
}

/// The party that trips a signal.
pub struct AbortController {
    pub signal: AbortSignal,
}

impl AbortController {
    pub fn new() -> Self {
        AbortController { signal: AbortSignal::new() }
    }

    /// A handle on the controller's signal.
    pub fn signal(&self) -> AbortSignal {
        self.signal.clone()
    }

    /// Aborts the controller's signal.
    pub fn abort<R: IntoAbortReason>(&self, reason: R) {
        self.signal.abort(reason);
    }
}

impl Default for AbortController {
    fn default() -> Self {
        AbortController::new()
    }
}

/// Fails with the abort error when a signal is given and has been aborted.
pub fn check_abort(signal: Option<&AbortSignal>) -> (r: Result<(), SDKError>)
    ensures
        signal is None ==> r is Ok,
        r matches Err(e) ==> exists|reason: Option<Seq<char>>| #[trigger] is_abort_error(e, "operation"@, reason),
{
    match signal {
        Some(s) => s.throw_if_aborted(),
        None => Ok(()),
    }
}

} // verus!
