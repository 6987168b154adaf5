//! Proof machinery about the counting and searching functions of the model:
//! characterizations of the first-match searches, and how the confirmed-seat
//! count reacts to updating or appending a booking row.

use vstd::prelude::*;
use crate::domain::{BookingRec, CardView, UsageRec, UserView};
use crate::state::{
    best_card_upto, confirmed_count, confirmed_count_upto, confirmed_for, consume_match, eligible,
    find_consume_upto, find_pair_upto, find_user_upto, pair_match,
};

verus! {

/// What a user search result means: `None` is the absence of any match, and
/// a hit is the first match.
pub proof fn lemma_find_user_char(users: Seq<UserView>, open_id: Seq<char>, n: int)
    requires
        0 <= n <= users.len(),
    ensures
        match find_user_upto(users, open_id, n) {
            None => forall|j: int| 0 <= j < n ==> (#[trigger] users[j]).open_id != open_id,
            Some(i) => {
                &&& 0 <= i < n
                &&& users[i].open_id == open_id
                &&& forall|j: int| 0 <= j < i ==> (#[trigger] users[j]).open_id != open_id
            },
        },
    decreases n,
{
    if n > 0 {
        lemma_find_user_char(users, open_id, n - 1);
    }
}

/// What a (user, lesson) pair search result means.
pub proof fn lemma_find_pair_char(
    bookings: Seq<BookingRec>,
    user_id: u64,
    lesson_id: u64,
    n: int,
)
    requires
        0 <= n <= bookings.len(),
    ensures
        match find_pair_upto(bookings, user_id, lesson_id, n) {
            None => forall|j: int|
                0 <= j < n ==> !pair_match(#[trigger] bookings[j], user_id, lesson_id),
            Some(i) => {
                &&& 0 <= i < n
                &&& pair_match(bookings[i], user_id, lesson_id)
                &&& forall|j: int|
                    0 <= j < i ==> !pair_match(#[trigger] bookings[j], user_id, lesson_id)
            },
        },
    decreases n,
{
    if n > 0 {
        lemma_find_pair_char(bookings, user_id, lesson_id, n - 1);
    }
}

/// What an outstanding-debit search result means.
pub proof fn lemma_find_consume_char(usages: Seq<UsageRec>, booking_id: u64, n: int)
    requires
        0 <= n <= usages.len(),
    ensures
        match find_consume_upto(usages, booking_id, n) {
            None => forall|j: int| 0 <= j < n ==> !consume_match(#[trigger] usages[j], booking_id),
            Some(i) => {
                &&& 0 <= i < n
                &&& consume_match(usages[i], booking_id)
                &&& forall|j: int|
                    0 <= j < i ==> !consume_match(#[trigger] usages[j], booking_id)
            },
        },
    decreases n,
{
    if n > 0 {
        lemma_find_consume_char(usages, booking_id, n - 1);
    }
}

/// What the card choice means: `None` is the absence of any eligible card,
/// and a hit is an eligible card with the least expiry instant.
pub proof fn lemma_best_card_char(
    cards: Seq<CardView>,
    user_id: u64,
    lesson_type: Seq<char>,
    now: i64,
    n: int,
)
    requires
        0 <= n <= cards.len(),
    ensures
        match best_card_upto(cards, user_id, lesson_type, now, n) {
            None => forall|j: int|
                0 <= j < n ==> !eligible(#[trigger] cards[j], user_id, lesson_type, now),
            Some(i) => {
                &&& 0 <= i < n
                &&& eligible(cards[i], user_id, lesson_type, now)
                &&& forall|j: int|
                    0 <= j < n && eligible(#[trigger] cards[j], user_id, lesson_type, now)
                        ==> cards[i].expires_at <= cards[j].expires_at
            },
        },
    decreases n,
{
    if n > 0 {
        lemma_best_card_char(cards, user_id, lesson_type, now, n - 1);
    }
}

/// Two row sequences that agree on a prefix have the same prefix count.
pub proof fn lemma_count_agree(a: Seq<BookingRec>, b: Seq<BookingRec>, lesson_id: u64, n: int)
    requires
        0 <= n <= a.len(),
        n <= b.len(),
        forall|j: int| 0 <= j < n ==> a[j] == b[j],
    ensures
        confirmed_count_upto(a, lesson_id, n) == confirmed_count_upto(b, lesson_id, n),
    decreases n,
{
    if n > 0 {
        lemma_count_agree(a, b, lesson_id, n - 1);
    }
}

/// How replacing one row changes a prefix count: by the difference of the
/// new and old rows' contributions, when the row lies inside the prefix.
pub proof fn lemma_count_update(
    s: Seq<BookingRec>,
    k: int,
    x: BookingRec,
    lesson_id: u64,
    n: int,
)
    requires
        0 <= k < s.len(),
        0 <= n <= s.len(),
    ensures
        confirmed_count_upto(s.update(k, x), lesson_id, n) as int == confirmed_count_upto(
            s,
            lesson_id,
            n,
        ) as int + (if k < n && confirmed_for(x, lesson_id) {
            1int
        } else {
            0int
        }) - (if k < n && confirmed_for(s[k], lesson_id) {
            1int
        } else {
            0int
        }),
    decreases n,
{
    if n > 0 {
        lemma_count_update(s, k, x, lesson_id, n - 1);
    }
}

/// How appending a row changes the count: by the new row's contribution.
pub proof fn lemma_count_push(s: Seq<BookingRec>, x: BookingRec, lesson_id: u64)
    ensures
        confirmed_count(s.push(x), lesson_id) as int == confirmed_count(s, lesson_id) as int + (
        if confirmed_for(x, lesson_id) {
            1int
        } else {
            0int
        }),
{
    lemma_count_agree(s, s.push(x), lesson_id, s.len() as int);
}

/// A lesson no row refers to has a zero count.
pub proof fn lemma_count_zero(bookings: Seq<BookingRec>, lesson_id: u64, n: int)
    requires
        0 <= n <= bookings.len(),
        forall|j: int| 0 <= j < n ==> (#[trigger] bookings[j]).lesson_id != lesson_id,
    ensures
        confirmed_count_upto(bookings, lesson_id, n) == 0,
    decreases n,
{
    if n > 0 {
        lemma_count_zero(bookings, lesson_id, n - 1);
    }
}

} // verus!
