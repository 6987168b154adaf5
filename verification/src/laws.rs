//! The laws of the booking core. The invariant-preservation lemmas state
//! that no overbooking and no negative balance can arise from any sequence
//! of committed transactions; the remaining lemmas state how booking and
//! cancellation compose: cancellation exactly reverses a debit, cancelling
//! twice credits only once, and re-booking reuses the booking row.

use vstd::prelude::*;
use crate::domain::{
    BookError, BookingRec, BookingStatus, CancelError, CardType, LessonView, PlanView, UsageType,
};
use crate::lemmas::{
    lemma_best_card_char, lemma_count_agree, lemma_count_push, lemma_count_update,
    lemma_count_zero, lemma_find_consume_char, lemma_find_pair_char, lemma_find_user_char,
};
use crate::state::{
    add_lesson_tr, add_plan_tr, best_card, book_commit, book_tr, booked_id, cancel_commit,
    cancel_tr, confirmed_count, confirmed_count_upto, consume_match, credited,
    debited_card, eligible,
    find_consume, find_pair, find_user, op_admissible, pair_match, purchase_tr, register_tr,
    run_ops, Op, StoreView,
};

verus! {

/// One committed booking keeps every invariant of the store: in particular
/// no lesson ever exceeds its capacity and no card balance ever leaves its
/// bounds, whatever the interleaving of committed transactions was.
pub proof fn lemma_book_preserves_inv(s: StoreView, lesson_id: u64, open_id: Seq<char>, now: i64)
    requires
        s.inv(),
        s.bookings.len() + 1 <= u64::MAX,
        s.usages.len() + 1 <= u64::MAX,
    ensures
        book_tr(s, lesson_id, open_id, now).0.inv(),
{
    lemma_find_user_char(s.users, open_id, s.users.len() as int);
    match find_user(s.users, open_id) {
        None => {},
        Some(u) => {
            let user_id = s.users[u].id;
            if (lesson_id as int) < 1 || lesson_id as int > s.lessons.len() as int || !s.lessons[
                lesson_id as int - 1].is_active {
            } else {
                let lesson = s.lessons[lesson_id as int - 1];
                let pairo = find_pair(s.bookings, user_id, lesson_id);
                lemma_find_pair_char(s.bookings, user_id, lesson_id, s.bookings.len() as int);
                if pairo is Some && s.bookings[pairo->0].status == BookingStatus::Confirmed {
                } else if confirmed_count(s.bookings, lesson_id) >= lesson.max_students as nat {
                } else {
                    match best_card(s.cards, user_id, lesson.lesson_type, now) {
                        None => {},
                        Some(c) => {
                            lemma_best_card_char(
                                s.cards,
                                user_id,
                                lesson.lesson_type,
                                now,
                                s.cards.len() as int,
                            );
                            lemma_book_commit_inv(s, lesson_id, u, c, now);
                        },
                    }
                }
            }
        },
    }
}

/// The committed effect of a successful booking keeps every invariant.
proof fn lemma_book_commit_inv(s: StoreView, lesson_id: u64, u: int, c: int, now: i64)
    requires
        s.inv(),
        s.bookings.len() + 1 <= u64::MAX,
        s.usages.len() + 1 <= u64::MAX,
        0 <= u < s.users.len(),
        1 <= lesson_id as int <= s.lessons.len(),
        0 <= c < s.cards.len(),
        eligible(
            s.cards[c],
            s.users[u].id,
            s.lessons[lesson_id as int - 1].lesson_type,
            now,
        ),
        confirmed_count(s.bookings, lesson_id) < s.lessons[lesson_id as int - 1].max_students
            as nat,
        match find_pair(s.bookings, s.users[u].id, lesson_id) {
            Some(k) => {
                &&& 0 <= k < s.bookings.len()
                &&& pair_match(s.bookings[k], s.users[u].id, lesson_id)
                &&& s.bookings[k].status != BookingStatus::Confirmed
                &&& forall|j: int|
                    0 <= j < k ==> !pair_match(#[trigger] s.bookings[j], s.users[u].id, lesson_id)
            },
            None => forall|j: int|
                0 <= j < s.bookings.len() ==> !pair_match(
                    #[trigger] s.bookings[j],
                    s.users[u].id,
                    lesson_id,
                ),
        },
    ensures
        book_commit(s, lesson_id, s.users[u].id, c, now).inv(),
{
    let user_id = s.users[u].id;
    let card = s.cards[c];
    let card2 = debited_card(card);
    let bid = booked_id(s, user_id, lesson_id);
    let pairo = find_pair(s.bookings, user_id, lesson_id);
    let s2 = book_commit(s, lesson_id, user_id, c, now);
    let ob = s.bookings;
    let nb = s2.bookings;
    let ou = s.usages;

    assert(user_id as int == u + 1);
    assert(card.id as int == c + 1);

    // The new or updated booking row, and where it sits.
    let k = match pairo {
        Some(k) => k,
        None => ob.len() as int,
    };
    assert(bid as int == k + 1);
    assert(nb.len() == if pairo is Some { ob.len() } else { ob.len() + 1 });
    assert(nb[k].status == BookingStatus::Confirmed);
    assert(nb[k].user_id == user_id && nb[k].lesson_id == lesson_id);
    assert(nb[k].id == bid);
    assert(forall|j: int| 0 <= j < nb.len() && j != k ==> nb[j] == ob[j]);

    // ids stay positional.
    assert(s2.ids_positional());

    // foreign keys stay valid.
    assert(s2.refs_valid());

    // identities and pairs stay unique.
    assert(s2.users_unique());
    assert forall|i: int, j: int| 0 <= i < j < nb.len() implies !(nb[i].user_id == nb[j].user_id
        && nb[i].lesson_id == nb[j].lesson_id) by {
        if j == k && pairo is None {
            assert(!pair_match(ob[i], user_id, lesson_id));
        }
    }

    // card balances stay in bounds.
    assert(card2.wf());
    assert(s2.cards_wf());
    assert(s2.plans_wf());

    // capacity is respected: the booked lesson gains exactly one confirmed
    // seat and had room for it; every other lesson keeps its count.
    assert forall|l: int| 0 <= l < s2.lessons.len() implies confirmed_count(
        s2.bookings,
        (#[trigger] s2.lessons[l]).id,
    ) <= s2.lessons[l].max_students as nat by {
        let lid2 = s.lessons[l].id;
        match pairo {
            Some(kk) => {
                let x = BookingRec {
                    status: BookingStatus::Confirmed,
                    booking_time: now,
                    ..ob[kk]
                };
                lemma_count_update(ob, kk, x, lid2, ob.len() as int);
                assert(ob[kk].lesson_id == lesson_id);
                if lid2 == lesson_id {
                    assert(l == lesson_id as int - 1);
                    assert(confirmed_count(nb, lid2) as int == confirmed_count(ob, lid2) as int
                        + 1);
                } else {
                    assert(confirmed_count(nb, lid2) == confirmed_count(ob, lid2));
                }
            },
            None => {
                let x = BookingRec {
                    id: bid,
                    user_id: user_id,
                    lesson_id: lesson_id,
                    status: BookingStatus::Confirmed,
                    booking_time: now,
                };
                lemma_count_push(ob, x, lid2);
                if lid2 == lesson_id {
                    assert(l == lesson_id as int - 1);
                    assert(confirmed_count(nb, lid2) as int == confirmed_count(ob, lid2) as int
                        + 1);
                } else {
                    assert(confirmed_count(nb, lid2) == confirmed_count(ob, lid2));
                }
            },
        }
    }

    // every outstanding debit still points at a confirmed booking.
    assert forall|u2: int| 0 <= u2 < s2.usages.len() && (#[trigger] s2.usages[u2]).usage_type
        == UsageType::Consume implies s2.bookings[s2.usages[u2].booking_id - 1].status
        == BookingStatus::Confirmed by {
        if u2 < ou.len() {
            let idx = ou[u2].booking_id - 1;
            assert(s.bookings[idx].status == BookingStatus::Confirmed);
            assert(idx != k);
        }
    }

    // at most one outstanding debit per booking.
    assert forall|u2: int, v2: int| 0 <= u2 < v2 < s2.usages.len() implies !((
    #[trigger] s2.usages[u2]).usage_type == UsageType::Consume && (
    #[trigger] s2.usages[v2]).usage_type == UsageType::Consume && s2.usages[u2].booking_id
        == s2.usages[v2].booking_id) by {
        if v2 == ou.len() as int {
            if s2.usages[u2].usage_type == UsageType::Consume && s2.usages[u2].booking_id == bid {
                assert(s.bookings[bid - 1].status == BookingStatus::Confirmed);
            }
        }
    }

    assert(s2.inv());
}

/// One committed cancellation keeps every invariant of the store.
pub proof fn lemma_cancel_preserves_inv(s: StoreView, booking_id: u64, open_id: Seq<char>)
    requires
        s.inv(),
    ensures
        cancel_tr(s, booking_id, open_id).0.inv(),
{
    lemma_find_user_char(s.users, open_id, s.users.len() as int);
    match find_user(s.users, open_id) {
        None => {},
        Some(u) => {
            let user_id = s.users[u].id;
            if (booking_id as int) < 1 || booking_id as int > s.bookings.len() as int
                || s.bookings[booking_id as int - 1].user_id != user_id || s.bookings[
                booking_id as int - 1].status != BookingStatus::Confirmed {
            } else {
                lemma_cancel_commit_inv(s, booking_id);
            }
        },
    }
}

/// The committed effect of a successful cancellation keeps every invariant.
proof fn lemma_cancel_commit_inv(s: StoreView, booking_id: u64)
    requires
        s.inv(),
        1 <= booking_id as int <= s.bookings.len(),
        s.bookings[booking_id as int - 1].status == BookingStatus::Confirmed,
    ensures
        cancel_commit(s, booking_id).inv(),
{
    let k = booking_id as int - 1;
    let s2 = cancel_commit(s, booking_id);
    let ob = s.bookings;
    let nb = s2.bookings;
    let x = BookingRec { status: BookingStatus::Cancelled, ..ob[k] };
    lemma_find_consume_char(s.usages, booking_id, s.usages.len() as int);

    assert(nb == ob.update(k, x));
    assert(nb[k].status == BookingStatus::Cancelled);
    assert(forall|j: int| 0 <= j < nb.len() && j != k ==> nb[j] == ob[j]);

    // the cancelled lesson loses one confirmed seat; every other lesson
    // keeps its count, so capacity stays respected everywhere.
    assert forall|l: int| 0 <= l < s2.lessons.len() implies confirmed_count(
        s2.bookings,
        (#[trigger] s2.lessons[l]).id,
    ) <= s2.lessons[l].max_students as nat by {
        let lid2 = s.lessons[l].id;
        lemma_count_update(ob, k, x, lid2, ob.len() as int);
    }

    match find_consume(s.usages, booking_id) {
        None => {
            assert forall|u2: int| 0 <= u2 < s2.usages.len() && (
            #[trigger] s2.usages[u2]).usage_type == UsageType::Consume implies s2.bookings[
                s2.usages[u2].booking_id - 1].status == BookingStatus::Confirmed by {
                assert(!consume_match(s.usages[u2], booking_id));
            }
            assert(s2.inv());
        },
        Some(ui) => {
            let row = s.usages[ui];
            let ci = row.user_card_id as int - 1;
            let card = s.cards[ci];
            assert(0 <= ci < s.cards.len());
            assert(card.wf());

            // the refunded balance stays within the card's bounds.
            assert(s2.cards_wf());

            // the refunded row no longer counts as outstanding, and no other
            // debit row points at this booking.
            assert forall|u2: int| 0 <= u2 < s2.usages.len() && (
            #[trigger] s2.usages[u2]).usage_type == UsageType::Consume implies s2.bookings[
                s2.usages[u2].booking_id - 1].status == BookingStatus::Confirmed by {
                assert(u2 != ui);
                assert(!(consume_match(s.usages[u2], booking_id) && consume_match(
                    s.usages[ui],
                    booking_id,
                ) && u2 != ui));
            }
            assert(s2.inv());
        },
    }
}

/// One committed purchase keeps every invariant of the store.
pub proof fn lemma_purchase_preserves_inv(
    s: StoreView,
    open_id: Seq<char>,
    plan_id: u64,
    now: i64,
)
    requires
        s.inv(),
        s.cards.len() + 1 <= u64::MAX,
    ensures
        purchase_tr(s, open_id, plan_id, now).0.inv(),
{
    lemma_find_user_char(s.users, open_id, s.users.len() as int);
}

/// One committed registration keeps every invariant of the store.
pub proof fn lemma_register_preserves_inv(
    s: StoreView,
    open_id: Seq<char>,
    nick_name: Option<Seq<char>>,
    avatar_url: Option<Seq<char>>,
    phone: Option<Seq<char>>,
)
    requires
        s.inv(),
        s.users.len() + 1 <= u64::MAX,
    ensures
        register_tr(s, open_id, nick_name, avatar_url, phone).0.inv(),
{
    lemma_find_user_char(s.users, open_id, s.users.len() as int);
    let s2 = register_tr(s, open_id, nick_name, avatar_url, phone).0;
    match find_user(s.users, open_id) {
        Some(u) => {
            assert(s2.users[u].open_id == s.users[u].open_id);
            assert(forall|j: int| 0 <= j < s2.users.len() && j != u ==> s2.users[j] == s.users[j]);
            assert(s2.inv());
        },
        None => {
            assert(s2.inv());
        },
    }
}

/// One committed lesson creation keeps every invariant of the store: a new
/// lesson starts with no confirmed bookings.
pub proof fn lemma_add_lesson_preserves_inv(s: StoreView, lesson: LessonView)
    requires
        s.inv(),
        s.lessons.len() + 1 <= u64::MAX,
    ensures
        add_lesson_tr(s, lesson).0.inv(),
{
    let s2 = add_lesson_tr(s, lesson).0;
    let new_id = (s.lessons.len() + 1) as u64;
    assert forall|l: int| 0 <= l < s2.lessons.len() implies confirmed_count(
        s2.bookings,
        (#[trigger] s2.lessons[l]).id,
    ) <= s2.lessons[l].max_students as nat by {
        if l == s.lessons.len() as int {
            lemma_count_zero(s.bookings, new_id, s.bookings.len() as int);
        } else {
            assert(s2.lessons[l] == s.lessons[l]);
        }
    }
    assert(s2.inv());
}

/// One committed plan creation keeps every invariant of the store, provided
/// the plan states a class count exactly when it is count-based.
pub proof fn lemma_add_plan_preserves_inv(s: StoreView, plan: PlanView)
    requires
        s.inv(),
        s.plans.len() + 1 <= u64::MAX,
        match plan.card_type {
            CardType::CountBased => plan.total_classes is Some,
            CardType::Unlimited => plan.total_classes is None,
        },
    ensures
        add_plan_tr(s, plan).0.inv(),
{
}

/// Debit/credit symmetry: booking a seat and then cancelling that booking
/// succeeds, returns every card balance to its value before the booking, and
/// returns the lesson's confirmed count to its value before the booking. The
/// booking must commit an actual debit: the idempotent already-booked
/// success leaves nothing to reverse, and is excluded by requiring that the
/// booking changed the state.
pub proof fn lemma_cancel_reverses_book(
    s: StoreView,
    lesson_id: u64,
    open_id: Seq<char>,
    now: i64,
)
    requires
        s.inv(),
        s.bookings.len() + 1 <= u64::MAX,
        s.usages.len() + 1 <= u64::MAX,
        book_tr(s, lesson_id, open_id, now).1 is Ok,
        book_tr(s, lesson_id, open_id, now).0 != s,
    ensures
        ({
            let s1 = book_tr(s, lesson_id, open_id, now).0;
            let bid = book_tr(s, lesson_id, open_id, now).1->Ok_0;
            &&& cancel_tr(s1, bid, open_id).1 == Ok::<u64, CancelError>(bid)
            &&& cancel_tr(s1, bid, open_id).0.cards == s.cards
            &&& confirmed_count(cancel_tr(s1, bid, open_id).0.bookings, lesson_id)
                == confirmed_count(s.bookings, lesson_id)
        }),
{
    lemma_find_user_char(s.users, open_id, s.users.len() as int);
    match find_user(s.users, open_id) {
        None => {},
        Some(u) => {
            let user_id = s.users[u].id;
            if (lesson_id as int) < 1 || lesson_id as int > s.lessons.len() as int || !s.lessons[
                lesson_id as int - 1].is_active {
            } else {
                let lesson = s.lessons[lesson_id as int - 1];
                let pairo = find_pair(s.bookings, user_id, lesson_id);
                lemma_find_pair_char(s.bookings, user_id, lesson_id, s.bookings.len() as int);
                if pairo is Some && s.bookings[pairo->0].status == BookingStatus::Confirmed {
                } else if confirmed_count(s.bookings, lesson_id) >= lesson.max_students as nat {
                } else {
                    match best_card(s.cards, user_id, lesson.lesson_type, now) {
                        None => {},
                        Some(c) => {
                            lemma_best_card_char(
                                s.cards,
                                user_id,
                                lesson.lesson_type,
                                now,
                                s.cards.len() as int,
                            );
                            lemma_cancel_reverses_commit(s, lesson_id, u, c, now);
                        },
                    }
                }
            }
        },
    }
}

/// The committed effect of a cancellation right after a committed booking:
/// the booking flips back, the debited card is restored, everything else is
/// untouched.
proof fn lemma_cancel_reverses_commit(s: StoreView, lesson_id: u64, u: int, c: int, now: i64)
    requires
        s.inv(),
        s.bookings.len() + 1 <= u64::MAX,
        s.usages.len() + 1 <= u64::MAX,
        0 <= u < s.users.len(),
        find_user(s.users, s.users[u].open_id) == Some(u),
        1 <= lesson_id as int <= s.lessons.len(),
        0 <= c < s.cards.len(),
        eligible(
            s.cards[c],
            s.users[u].id,
            s.lessons[lesson_id as int - 1].lesson_type,
            now,
        ),
        confirmed_count(s.bookings, lesson_id) < s.lessons[lesson_id as int - 1].max_students
            as nat,
        match find_pair(s.bookings, s.users[u].id, lesson_id) {
            Some(k) => {
                &&& 0 <= k < s.bookings.len()
                &&& pair_match(s.bookings[k], s.users[u].id, lesson_id)
                &&& s.bookings[k].status != BookingStatus::Confirmed
            },
            None => true,
        },
    ensures
        ({
            let s1 = book_commit(s, lesson_id, s.users[u].id, c, now);
            let bid = booked_id(s, s.users[u].id, lesson_id);
            &&& cancel_tr(s1, bid, s.users[u].open_id).1 == Ok::<u64, CancelError>(bid)
            &&& cancel_tr(s1, bid, s.users[u].open_id).0.cards == s.cards
            &&& confirmed_count(cancel_tr(s1, bid, s.users[u].open_id).0.bookings, lesson_id)
                == confirmed_count(s.bookings, lesson_id)
        }),
{
    let user_id = s.users[u].id;
    let open_id = s.users[u].open_id;
    let card = s.cards[c];
    let card2 = debited_card(card);
    let bid = booked_id(s, user_id, lesson_id);
    let pairo = find_pair(s.bookings, user_id, lesson_id);
    let s1 = book_commit(s, lesson_id, user_id, c, now);
    let ob = s.bookings;
    let ou = s.usages;
    let k = match pairo {
        Some(k) => k,
        None => ob.len() as int,
    };
    assert(bid as int == k + 1);
    assert(s1.users == s.users);
    assert(s1.bookings[k].status == BookingStatus::Confirmed);
    assert(s1.bookings[k].user_id == user_id);

    // the cancellation hits the commit branch.
    assert(find_user(s1.users, open_id) == Some(u));

    // the ledger row the cancellation finds is exactly the one the booking
    // appended: every earlier outstanding debit belongs to a booking that
    // was already confirmed before, and this booking was not.
    lemma_find_consume_char(s1.usages, bid, s1.usages.len() as int);
    let ui = ou.len() as int;
    assert(consume_match(s1.usages[ui], bid));
    assert(find_consume(s1.usages, bid) == Some(ui)) by {
        match find_consume(s1.usages, bid) {
            None => {
                assert(false);
            },
            Some(i) => {
                if i < ui {
                    assert(consume_match(ou[i], bid));
                    assert(s.bookings[bid - 1].status == BookingStatus::Confirmed);
                    assert(false);
                }
            },
        }
    }

    let row = s1.usages[ui];
    assert(row.user_card_id as int == c + 1);
    let s2 = cancel_commit(s1, bid);

    // the restored card equals the original card.
    match card.card_type {
        CardType::CountBased => {
            let rem = card.remaining_classes->0;
            let total = card.total_classes->0;
            assert(card.wf());
            assert(credited((rem - 1) as u32, 1, total) == rem);
            assert(s2.cards[c] =~= card);
            assert(s2.cards =~= s.cards);
        },
        CardType::Unlimited => {
            assert(card2 =~= card);
            assert(s2.cards =~= s.cards);
        },
    }

    // the confirmed count returns to its pre-booking value.
    let y = BookingRec { status: BookingStatus::Cancelled, ..s1.bookings[k] };
    lemma_count_update(s1.bookings, k, y, lesson_id, s1.bookings.len() as int);
    match pairo {
        Some(kk) => {
            let x = BookingRec { status: BookingStatus::Confirmed, booking_time: now, ..ob[kk] };
            lemma_count_update(ob, kk, x, lesson_id, ob.len() as int);
        },
        None => {
            let x = BookingRec {
                id: bid,
                user_id: user_id,
                lesson_id: lesson_id,
                status: BookingStatus::Confirmed,
                booking_time: now,
            };
            lemma_count_push(ob, x, lesson_id);
            lemma_count_agree(
                s1.bookings.update(k, y),
                ob,
                lesson_id,
                ob.len() as int,
            );
            assert(confirmed_count_upto(s1.bookings.update(k, y), lesson_id, ob.len() as int + 1)
                == confirmed_count_upto(s1.bookings.update(k, y), lesson_id, ob.len() as int));
        },
    }
}

/// Idempotent cancellation: cancelling the same booking a second time fails
/// and leaves the store untouched, so a refund can only ever be credited
/// once for a booking.
pub proof fn lemma_cancel_idempotent(s: StoreView, booking_id: u64, open_id: Seq<char>)
    requires
        s.inv(),
        cancel_tr(s, booking_id, open_id).1 is Ok,
    ensures
        ({
            let s1 = cancel_tr(s, booking_id, open_id).0;
            &&& cancel_tr(s1, booking_id, open_id).1 == Err::<u64, CancelError>(
                CancelError::BookingNotFound,
            )
            &&& cancel_tr(s1, booking_id, open_id).0 == s1
        }),
{
    let s1 = cancel_tr(s, booking_id, open_id).0;
    assert(s1.users == s.users);
    assert(s1.bookings[booking_id as int - 1].status == BookingStatus::Cancelled);
}

/// Re-booking reuses the slot: book, cancel, book on the same (user, lesson)
/// yields the same booking id again, confirmed, with no extra booking row.
/// Together with the pair-uniqueness invariant this is the guarantee that a
/// pair holds exactly one row, not two.
pub proof fn lemma_rebook_reuses_row(s: StoreView, lesson_id: u64, open_id: Seq<char>, now: i64)
    requires
        s.inv(),
        s.bookings.len() + 1 <= u64::MAX,
        s.usages.len() + 2 <= u64::MAX,
        book_tr(s, lesson_id, open_id, now).1 is Ok,
        book_tr(s, lesson_id, open_id, now).0 != s,
    ensures
        ({
            let s1 = book_tr(s, lesson_id, open_id, now).0;
            let bid = book_tr(s, lesson_id, open_id, now).1->Ok_0;
            let s2 = cancel_tr(s1, bid, open_id).0;
            let s3 = book_tr(s2, lesson_id, open_id, now).0;
            &&& cancel_tr(s1, bid, open_id).1 == Ok::<u64, CancelError>(bid)
            &&& book_tr(s2, lesson_id, open_id, now).1 == Ok::<u64, BookError>(bid)
            &&& s3.bookings.len() == s1.bookings.len()
            &&& s3.bookings[bid - 1].status == BookingStatus::Confirmed
        }),
{
    lemma_cancel_reverses_book(s, lesson_id, open_id, now);
    lemma_find_user_char(s.users, open_id, s.users.len() as int);
    match find_user(s.users, open_id) {
        None => {},
        Some(u) => {
            let user_id = s.users[u].id;
            if (lesson_id as int) < 1 || lesson_id as int > s.lessons.len() as int || !s.lessons[
                lesson_id as int - 1].is_active {
            } else {
                let lesson = s.lessons[lesson_id as int - 1];
                let pairo = find_pair(s.bookings, user_id, lesson_id);
                lemma_find_pair_char(s.bookings, user_id, lesson_id, s.bookings.len() as int);
                if pairo is Some && s.bookings[pairo->0].status == BookingStatus::Confirmed {
                } else if confirmed_count(s.bookings, lesson_id) >= lesson.max_students as nat {
                } else {
                    match best_card(s.cards, user_id, lesson.lesson_type, now) {
                        None => {},
                        Some(c) => {
                            lemma_best_card_char(
                                s.cards,
                                user_id,
                                lesson.lesson_type,
                                now,
                                s.cards.len() as int,
                            );
                            lemma_rebook_commit(s, lesson_id, u, c, now);
                        },
                    }
                }
            }
        },
    }
}

/// The second booking after a book-and-cancel cycle takes the upsert path:
/// it finds the cancelled row, flips it back and returns its id.
proof fn lemma_rebook_commit(s: StoreView, lesson_id: u64, u: int, c: int, now: i64)
    requires
        s.inv(),
        s.bookings.len() + 1 <= u64::MAX,
        s.usages.len() + 2 <= u64::MAX,
        0 <= u < s.users.len(),
        find_user(s.users, s.users[u].open_id) == Some(u),
        1 <= lesson_id as int <= s.lessons.len(),
        s.lessons[lesson_id as int - 1].is_active,
        0 <= c < s.cards.len(),
        eligible(
            s.cards[c],
            s.users[u].id,
            s.lessons[lesson_id as int - 1].lesson_type,
            now,
        ),
        best_card(s.cards, s.users[u].id, s.lessons[lesson_id as int - 1].lesson_type, now)
            == Some(c),
        confirmed_count(s.bookings, lesson_id) < s.lessons[lesson_id as int - 1].max_students
            as nat,
        match find_pair(s.bookings, s.users[u].id, lesson_id) {
            Some(k) => {
                &&& 0 <= k < s.bookings.len()
                &&& pair_match(s.bookings[k], s.users[u].id, lesson_id)
                &&& s.bookings[k].status != BookingStatus::Confirmed
                &&& forall|j: int|
                    0 <= j < k ==> !pair_match(#[trigger] s.bookings[j], s.users[u].id, lesson_id)
            },
            None => forall|j: int|
                0 <= j < s.bookings.len() ==> !pair_match(
                    #[trigger] s.bookings[j],
                    s.users[u].id,
                    lesson_id,
                ),
        },
    ensures
        ({
            let s1 = book_commit(s, lesson_id, s.users[u].id, c, now);
            let bid = booked_id(s, s.users[u].id, lesson_id);
            let s2 = cancel_tr(s1, bid, s.users[u].open_id).0;
            let s3 = book_tr(s2, lesson_id, s.users[u].open_id, now).0;
            &&& book_tr(s2, lesson_id, s.users[u].open_id, now).1 == Ok::<u64, BookError>(bid)
            &&& s3.bookings.len() == s1.bookings.len()
            &&& s3.bookings[bid - 1].status == BookingStatus::Confirmed
        }),
{
    let user_id = s.users[u].id;
    let open_id = s.users[u].open_id;
    let lesson = s.lessons[lesson_id as int - 1];
    lemma_cancel_reverses_commit(s, lesson_id, u, c, now);
    let s1 = book_commit(s, lesson_id, user_id, c, now);
    let bid = booked_id(s, user_id, lesson_id);
    let s2 = cancel_tr(s1, bid, open_id).0;
    let pairo = find_pair(s.bookings, user_id, lesson_id);
    let ob = s.bookings;
    let k = match pairo {
        Some(k) => k,
        None => ob.len() as int,
    };
    assert(bid as int == k + 1);

    // unchanged collaborators.
    assert(s2.users == s.users);
    assert(s2.lessons == s.lessons);
    assert(s2.cards == s.cards);
    assert(find_user(s2.users, open_id) == Some(u));
    assert(best_card(s2.cards, user_id, lesson.lesson_type, now) == Some(c));

    // the cancelled row is found first: no earlier row matches the pair.
    assert(s2.bookings.len() == s1.bookings.len());
    assert(pair_match(s2.bookings[k], user_id, lesson_id));
    assert(s2.bookings[k].status == BookingStatus::Cancelled);
    assert(forall|j: int|
        0 <= j < s2.bookings.len() && j != k ==> s2.bookings[j] == ob[j]);
    lemma_find_pair_char(s2.bookings, user_id, lesson_id, s2.bookings.len() as int);
    assert(find_pair(s2.bookings, user_id, lesson_id) == Some(k)) by {
        match find_pair(s2.bookings, user_id, lesson_id) {
            None => {
                assert(false);
            },
            Some(i) => {
                if i < k {
                    assert(!pair_match(ob[i], user_id, lesson_id));
                    assert(false);
                } else if i > k {
                    assert(!pair_match(s2.bookings[k], user_id, lesson_id));
                    assert(false);
                }
            },
        }
    }

    // capacity still has room: the count is back to its pre-cycle value.
    assert(confirmed_count(s2.bookings, lesson_id) == confirmed_count(ob, lesson_id));

    // so the second booking takes the upsert branch on the same row.
    let s3 = book_tr(s2, lesson_id, open_id, now).0;
    assert(book_tr(s2, lesson_id, open_id, now).1 == Ok::<u64, BookError>(bid));
    assert(s3.bookings.len() == s2.bookings.len());
    assert(s3.bookings[k].status == BookingStatus::Confirmed);
}

/// A booking that commits a debit takes exactly one confirmed seat in its
/// lesson and leaves every other lesson's count alone. (The idempotent
/// already-booked success takes no seat and is excluded by requiring that
/// the booking changed the state.)
pub proof fn lemma_book_takes_one_seat(s: StoreView, lesson_id: u64, open_id: Seq<char>, now: i64)
    requires
        s.inv(),
        book_tr(s, lesson_id, open_id, now).1 is Ok,
        book_tr(s, lesson_id, open_id, now).0 != s,
    ensures
        ({
            let s1 = book_tr(s, lesson_id, open_id, now).0;
            &&& confirmed_count(s1.bookings, lesson_id) == confirmed_count(s.bookings, lesson_id)
                + 1
            &&& forall|other: u64|
                other != lesson_id ==> #[trigger] confirmed_count(s1.bookings, other)
                    == confirmed_count(s.bookings, other)
        }),
{
    lemma_find_user_char(s.users, open_id, s.users.len() as int);
    match find_user(s.users, open_id) {
        None => {},
        Some(u) => {
            let user_id = s.users[u].id;
            if (lesson_id as int) < 1 || lesson_id as int > s.lessons.len() as int || !s.lessons[
                lesson_id as int - 1].is_active {
            } else {
                let lesson = s.lessons[lesson_id as int - 1];
                let pairo = find_pair(s.bookings, user_id, lesson_id);
                lemma_find_pair_char(s.bookings, user_id, lesson_id, s.bookings.len() as int);
                if pairo is Some && s.bookings[pairo->0].status == BookingStatus::Confirmed {
                } else if confirmed_count(s.bookings, lesson_id) >= lesson.max_students as nat {
                } else {
                    match best_card(s.cards, user_id, lesson.lesson_type, now) {
                        None => {},
                        Some(c) => {
                            let s1 = book_commit(s, lesson_id, user_id, c, now);
                            let bid = booked_id(s, user_id, lesson_id);
                            assert forall|other: u64| true implies #[trigger] confirmed_count(
                                s1.bookings,
                                other,
                            ) as int == confirmed_count(s.bookings, other) as int + (
                            if other == lesson_id {
                                1int
                            } else {
                                0int
                            }) by {
                                match pairo {
                                    Some(kk) => {
                                        let x = BookingRec {
                                            status: BookingStatus::Confirmed,
                                            booking_time: now,
                                            ..s.bookings[kk]
                                        };
                                        lemma_count_update(
                                            s.bookings,
                                            kk,
                                            x,
                                            other,
                                            s.bookings.len() as int,
                                        );
                                        assert(s.bookings[kk].lesson_id == lesson_id);
                                    },
                                    None => {
                                        let x = BookingRec {
                                            id: bid,
                                            user_id: user_id,
                                            lesson_id: lesson_id,
                                            status: BookingStatus::Confirmed,
                                            booking_time: now,
                                        };
                                        lemma_count_push(s.bookings, x, other);
                                    },
                                }
                            }
                        },
                    }
                }
            }
        },
    }
}

/// A successful cancellation frees exactly one confirmed seat in the
/// cancelled booking's lesson and leaves every other lesson's count alone:
/// the freed seat is observable, so a later booking sees the room.
pub proof fn lemma_cancel_frees_one_seat(s: StoreView, booking_id: u64, open_id: Seq<char>)
    requires
        s.inv(),
        cancel_tr(s, booking_id, open_id).1 is Ok,
    ensures
        ({
            let s1 = cancel_tr(s, booking_id, open_id).0;
            let lid = s.bookings[booking_id as int - 1].lesson_id;
            &&& confirmed_count(s1.bookings, lid) + 1 == confirmed_count(s.bookings, lid)
            &&& forall|other: u64|
                other != lid ==> #[trigger] confirmed_count(s1.bookings, other)
                    == confirmed_count(s.bookings, other)
        }),
{
    lemma_find_user_char(s.users, open_id, s.users.len() as int);
    match find_user(s.users, open_id) {
        None => {},
        Some(u) => {
            let user_id = s.users[u].id;
            if (booking_id as int) < 1 || booking_id as int > s.bookings.len() as int
                || s.bookings[booking_id as int - 1].user_id != user_id || s.bookings[
                booking_id as int - 1].status != BookingStatus::Confirmed {
            } else {
                let k = booking_id as int - 1;
                let x = BookingRec { status: BookingStatus::Cancelled, ..s.bookings[k] };
                let lid = s.bookings[k].lesson_id;
                lemma_count_update(s.bookings, k, x, lid, s.bookings.len() as int);
                assert forall|other: u64| other != lid implies #[trigger] confirmed_count(
                    cancel_tr(s, booking_id, open_id).0.bookings,
                    other,
                ) == confirmed_count(s.bookings, other) by {
                    lemma_count_update(s.bookings, k, x, other, s.bookings.len() as int);
                }
            }
        },
    }
}

/// Success is owed: when the caller is known, the lesson is live with a free
/// seat, and the caller holds some eligible card, booking returns a booking
/// id.
pub proof fn lemma_book_succeeds(s: StoreView, lesson_id: u64, open_id: Seq<char>, now: i64)
    requires
        s.inv(),
        find_user(s.users, open_id) is Some,
        1 <= lesson_id as int <= s.lessons.len(),
        s.lessons[lesson_id as int - 1].is_active,
        confirmed_count(s.bookings, lesson_id) < s.lessons[lesson_id as int - 1].max_students
            as nat,
        exists|c: int|
            0 <= c < s.cards.len() && eligible(
                #[trigger] s.cards[c],
                s.users[find_user(s.users, open_id)->0].id,
                s.lessons[lesson_id as int - 1].lesson_type,
                now,
            ),
    ensures
        book_tr(s, lesson_id, open_id, now).1 is Ok,
{
    let u = find_user(s.users, open_id)->0;
    let user_id = s.users[u].id;
    let lesson = s.lessons[lesson_id as int - 1];
    let pairo = find_pair(s.bookings, user_id, lesson_id);
    if pairo is Some && s.bookings[pairo->0].status == BookingStatus::Confirmed {
    } else {
        match best_card(s.cards, user_id, lesson.lesson_type, now) {
            Some(_) => {},
            None => {
                lemma_best_card_char(
                    s.cards,
                    user_id,
                    lesson.lesson_type,
                    now,
                    s.cards.len() as int,
                );
                let c = choose|c: int|
                    0 <= c < s.cards.len() && eligible(
                        #[trigger] s.cards[c],
                        user_id,
                        lesson.lesson_type,
                        now,
                    );
                assert(!eligible(s.cards[c], user_id, lesson.lesson_type, now));
            },
        }
    }
}

/// The empty store satisfies the invariant: every reachable state therefore
/// does, by induction over the committed transitions.
pub proof fn lemma_empty_inv()
    ensures
        StoreView::empty().inv(),
{
}

/// Every history keeps the invariant: whatever sequence of transactions the
/// database linearized the concurrent requests into, each committed state
/// satisfies the invariant if the starting state did.
pub proof fn lemma_history_keeps_inv(s: StoreView, ops: Seq<Op>)
    requires
        s.inv(),
    ensures
        run_ops(s, ops).inv(),
    decreases ops.len(),
{
    if ops.len() > 0 {
        lemma_history_keeps_inv(s, ops.drop_last());
        let s1 = run_ops(s, ops.drop_last());
        if op_admissible(s1, ops.last()) {
            match ops.last() {
                Op::Register { open_id, nick_name, avatar_url, phone } => {
                    lemma_register_preserves_inv(s1, open_id, nick_name, avatar_url, phone);
                },
                Op::AddLesson { lesson } => {
                    lemma_add_lesson_preserves_inv(s1, lesson);
                },
                Op::AddPlan { plan } => {
                    lemma_add_plan_preserves_inv(s1, plan);
                },
                Op::Purchase { open_id, plan_id, now } => {
                    lemma_purchase_preserves_inv(s1, open_id, plan_id, now);
                },
                Op::Book { lesson_id, open_id, now } => {
                    lemma_book_preserves_inv(s1, lesson_id, open_id, now);
                },
                Op::Cancel { booking_id, open_id } => {
                    lemma_cancel_preserves_inv(s1, booking_id, open_id);
                },
            }
        }
    }
}

/// No overbooking, end to end: starting from the empty store, after any
/// history of transactions, no lesson holds more confirmed bookings than
/// its capacity.
pub proof fn lemma_no_overbooking_in_any_history(ops: Seq<Op>, l: int)
    requires
        0 <= l < run_ops(StoreView::empty(), ops).lessons.len(),
    ensures
        ({
            let s = run_ops(StoreView::empty(), ops);
            confirmed_count(s.bookings, s.lessons[l].id) <= s.lessons[l].max_students as nat
        }),
{
    lemma_history_keeps_inv(StoreView::empty(), ops);
}

/// No negative balance, end to end: starting from the empty store, after
/// any history of transactions, every count-based card carries a balance
/// between zero and the classes it was sold with.
pub proof fn lemma_balance_in_bounds_in_any_history(ops: Seq<Op>, c: int)
    requires
        0 <= c < run_ops(StoreView::empty(), ops).cards.len(),
        run_ops(StoreView::empty(), ops).cards[c].card_type is CountBased,
    ensures
        ({
            let s = run_ops(StoreView::empty(), ops);
            &&& s.cards[c].remaining_classes is Some
            &&& 0 <= s.cards[c].remaining_classes->0 <= s.cards[c].total_classes->0
        }),
{
    lemma_history_keeps_inv(StoreView::empty(), ops);
}

/// No overbooking: at any committed state, no lesson holds more confirmed
/// bookings than its capacity.
pub proof fn lemma_no_overbooking(s: StoreView, l: int)
    requires
        s.inv(),
        0 <= l < s.lessons.len(),
    ensures
        confirmed_count(s.bookings, s.lessons[l].id) <= s.lessons[l].max_students as nat,
{
}

/// No negative balance: at any committed state, a count-based card carries a
/// balance between zero and the classes it was sold with.
pub proof fn lemma_balance_in_bounds(s: StoreView, c: int)
    requires
        s.inv(),
        0 <= c < s.cards.len(),
        s.cards[c].card_type is CountBased,
    ensures
        s.cards[c].remaining_classes is Some,
        0 <= s.cards[c].remaining_classes->0 <= s.cards[c].total_classes->0,
{
}

} // verus!
