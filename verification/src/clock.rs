//! Wall-clock access for the booking engine. The clock is the one outside
//! input the engine needs: eligibility and expiry are decided against the
//! moment a transaction runs. The engine itself takes the instant as a plain
//! argument and is verified for every value of it; these entry points fetch
//! the instant and hand it on.

use vstd::prelude::*;
use crate::domain::{BookError, PurchaseError};
use crate::state::{book_tr, purchase_tr};
use crate::store::Store;

verus! {

/// Relies on chrono's `From<SystemTime>` conversion and
/// `DateTime::timestamp`: the current wall time, as whole seconds since the
/// Unix epoch. Nothing is assumed of the value: it depends on the clock, and
/// two calls may differ. The conversion maps a clock reading before the
/// epoch to the matching negative value instead of failing; only a clock
/// beyond chrono's representable range of years would abort, inside chrono.
#[verifier::external_body]
fn now_epoch_seconds() -> i64 {
    chrono::DateTime::<chrono::Utc>::from(std::time::SystemTime::now()).timestamp()
}

/// Books a seat at the present moment: reads the clock once and runs the
/// booking transaction at that instant.
pub fn book_now(store: &mut Store, lesson_id: u64, open_id: &str) -> (r: Result<u64, BookError>)
    requires
        old(store).inv(),
        old(store)@.bookings.len() + 1 <= u64::MAX,
        old(store)@.usages.len() + 1 <= u64::MAX,
    ensures
        final(store).inv(),
        exists|t: i64|
            {
                &&& #[trigger] book_tr(old(store)@, lesson_id, open_id@, t).0 == final(store)@
                &&& book_tr(old(store)@, lesson_id, open_id@, t).1 == r
            },
{
    let t = now_epoch_seconds();
    let r = store.book(lesson_id, open_id, t);
    proof {
        assert(book_tr(old(store)@, lesson_id, open_id@, t).0 == store@);
    }
    r
}

/// Purchases a card at the present moment: reads the clock once and runs the
/// purchase transaction at that instant.
pub fn purchase_now(store: &mut Store, open_id: &str, plan_id: u64) -> (r: Result<
    u64,
    PurchaseError,
>)
    requires
        old(store).inv(),
        old(store)@.cards.len() + 1 <= u64::MAX,
    ensures
        final(store).inv(),
        exists|t: i64|
            {
                &&& #[trigger] purchase_tr(old(store)@, open_id@, plan_id, t).0 == final(store)@
                &&& purchase_tr(old(store)@, open_id@, plan_id, t).1 == r
            },
{
    let t = now_epoch_seconds();
    let r = store.purchase(open_id, plan_id, t);
    proof {
        assert(purchase_tr(old(store)@, open_id@, plan_id, t).0 == store@);
    }
    r
}

} // verus!
