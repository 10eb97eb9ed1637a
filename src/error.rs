//! Exchange error codes, sorted into what the engine does about them.

use vstd::prelude::*;

verus! {

/// Insufficient balance for the order ("NEW_ORDER_REJECTED").
pub const CODE_ORDER_REJECTED: i16 = -2010;
/// Too much request weight.
pub const CODE_TOO_MANY_REQUESTS: i16 = -1003;
/// Too many new orders.
pub const CODE_TOO_MANY_ORDERS: i16 = -1015;
/// The order to cancel is unknown or already ended.
pub const CODE_CANCEL_REJECTED: i16 = -2011;
/// No such order.
pub const CODE_NO_SUCH_ORDER: i16 = -2013;

#[derive(Clone, Copy, PartialEq, Eq, Structural, Debug)]
pub enum ExchangeErrorKind {
    InsufficientFunds,
    /// Throttled: retry after a pause.
    RateLimited,
    /// The order is gone or already ended.
    OrderNotFound,
    /// Anything else: transient or unknown.
    Unknown,
}

/// The kind of an exchange error code.
pub fn classify_error(code: i16) -> (r: ExchangeErrorKind)
    ensures
        code == CODE_ORDER_REJECTED ==> r == ExchangeErrorKind::InsufficientFunds,
        code == CODE_TOO_MANY_REQUESTS || code == CODE_TOO_MANY_ORDERS ==> r == ExchangeErrorKind::RateLimited,
        code == CODE_CANCEL_REJECTED || code == CODE_NO_SUCH_ORDER ==> r == ExchangeErrorKind::OrderNotFound,
        code != CODE_ORDER_REJECTED && code != CODE_TOO_MANY_REQUESTS && code != CODE_TOO_MANY_ORDERS
            && code != CODE_CANCEL_REJECTED && code != CODE_NO_SUCH_ORDER ==> r == ExchangeErrorKind::Unknown,
{
    if code == CODE_ORDER_REJECTED {
        ExchangeErrorKind::InsufficientFunds
    } else if code == CODE_TOO_MANY_REQUESTS || code == CODE_TOO_MANY_ORDERS {
        ExchangeErrorKind::RateLimited
    } else if code == CODE_CANCEL_REJECTED || code == CODE_NO_SUCH_ORDER {
        ExchangeErrorKind::OrderNotFound
    } else {
        ExchangeErrorKind::Unknown
    }
}

} // verus!
