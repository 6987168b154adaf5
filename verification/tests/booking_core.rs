//! Scenario tests for the booking engine: capacity, balances, refunds, and
//! the error taxonomy.

use yoga_booking::domain::{
    BookError, BookingStatus, CancelError, CardStatus, CardType, LessonRec, PlanRec,
    PurchaseError,
};
use yoga_booking::store::Store;

const NOW: i64 = 1_700_000_000;

fn count_plan(total: u32, validity_days: u32) -> PlanRec {
    PlanRec {
        id: 0,
        name: "ten pack".to_string(),
        card_type: CardType::CountBased,
        validity_days,
        total_classes: Some(total),
        price_cents: 99_00,
        applicable_lesson_types: None,
        max_bookings_per_day: 2,
        is_active: true,
    }
}

fn unlimited_plan(validity_days: u32) -> PlanRec {
    PlanRec {
        id: 0,
        name: "unlimited".to_string(),
        card_type: CardType::Unlimited,
        validity_days,
        total_classes: None,
        price_cents: 299_00,
        applicable_lesson_types: None,
        max_bookings_per_day: 2,
        is_active: true,
    }
}

fn lesson(title: &str, lesson_type: &str, max_students: u32) -> LessonRec {
    LessonRec {
        id: 0,
        title: title.to_string(),
        teacher_name: Some("Mora".to_string()),
        location_name: Some("studio one".to_string()),
        lesson_type: lesson_type.to_string(),
        start_time: NOW + 3600,
        end_time: NOW + 7200,
        max_students,
        is_active: true,
    }
}

/// Remaining classes of the card with the given id.
fn remaining(store: &Store, card_id: u64) -> Option<u32> {
    store.card_at((card_id - 1) as usize).remaining_classes
}

#[test]
fn full_lesson_rejects_and_cancellation_frees_the_seat() {
    // Lesson L has one seat. A holds an unlimited card, B a one-class card.
    let mut s = Store::new();
    s.register("A", None, None, None);
    s.register("B", None, None, None);
    let pu = s.add_plan(unlimited_plan(30));
    let p1 = s.add_plan(count_plan(1, 30));
    let l = s.add_lesson(lesson("morning flow", "yoga", 1));
    s.purchase("A", pu, NOW).unwrap();
    let card_b = s.purchase("B", p1, NOW).unwrap();

    // A books: success, one seat taken.
    let a_booking = s.book(l, "A", NOW + 10).unwrap();
    assert_eq!(s.confirmed_count_exec(l), 1);

    // B books: the lesson is full.
    assert_eq!(s.book(l, "B", NOW + 20), Err(BookError::LessonFull));

    // A cancels: the seat is free again.
    assert_eq!(s.cancel(a_booking, "A"), Ok(a_booking));
    assert_eq!(s.confirmed_count_exec(l), 0);

    // B books: success, and B's balance drops to zero.
    let b_booking = s.book(l, "B", NOW + 30).unwrap();
    assert_eq!(s.confirmed_count_exec(l), 1);
    assert_eq!(remaining(&s, card_b), Some(0));

    // B cancels: the balance returns to one and the seat is free.
    assert_eq!(s.cancel(b_booking, "B"), Ok(b_booking));
    assert_eq!(remaining(&s, card_b), Some(1));
    assert_eq!(s.confirmed_count_exec(l), 0);
}

#[test]
fn booking_without_any_card_is_rejected_without_a_trace() {
    let mut s = Store::new();
    s.register("C", None, None, None);
    let l = s.add_lesson(lesson("open class", "yoga", 10));
    assert_eq!(s.book(l, "C", NOW), Err(BookError::NoValidMembership));
    assert_eq!(s.bookings_len(), 0);
    assert_eq!(s.usages_len(), 0);
}

#[test]
fn capacity_is_never_exceeded() {
    let mut s = Store::new();
    let p = s.add_plan(unlimited_plan(30));
    let l = s.add_lesson(lesson("small room", "yoga", 2));
    for name in ["u1", "u2", "u3"] {
        s.register(name, None, None, None);
        s.purchase(name, p, NOW).unwrap();
    }
    assert!(s.book(l, "u1", NOW).is_ok());
    assert!(s.book(l, "u2", NOW).is_ok());
    assert_eq!(s.book(l, "u3", NOW), Err(BookError::LessonFull));
    assert_eq!(s.confirmed_count_exec(l), 2);
}

#[test]
fn balance_stays_within_bounds() {
    let mut s = Store::new();
    s.register("D", None, None, None);
    let p = s.add_plan(count_plan(2, 30));
    let l1 = s.add_lesson(lesson("one", "yoga", 5));
    let l2 = s.add_lesson(lesson("two", "yoga", 5));
    let card = s.purchase("D", p, NOW).unwrap();
    assert_eq!(remaining(&s, card), Some(2));
    let b1 = s.book(l1, "D", NOW).unwrap();
    assert_eq!(remaining(&s, card), Some(1));
    s.book(l2, "D", NOW).unwrap();
    assert_eq!(remaining(&s, card), Some(0));
    // No classes left: a third lesson is out of reach.
    let l3 = s.add_lesson(lesson("three", "yoga", 5));
    assert_eq!(s.book(l3, "D", NOW), Err(BookError::NoValidMembership));
    // Credits never push the balance past the total.
    s.cancel(b1, "D").unwrap();
    assert_eq!(remaining(&s, card), Some(1));
}

#[test]
fn cancel_returns_the_balance_to_its_pre_booking_value() {
    let mut s = Store::new();
    s.register("E", None, None, None);
    let p = s.add_plan(count_plan(10, 30));
    let l = s.add_lesson(lesson("flow", "yoga", 5));
    let card = s.purchase("E", p, NOW).unwrap();
    assert_eq!(remaining(&s, card), Some(10));
    let b = s.book(l, "E", NOW).unwrap();
    assert_eq!(remaining(&s, card), Some(9));
    s.cancel(b, "E").unwrap();
    assert_eq!(remaining(&s, card), Some(10));
}

#[test]
fn cancelling_twice_succeeds_once_and_credits_once() {
    let mut s = Store::new();
    s.register("F", None, None, None);
    let p = s.add_plan(count_plan(5, 30));
    let l = s.add_lesson(lesson("flow", "yoga", 5));
    let card = s.purchase("F", p, NOW).unwrap();
    let b = s.book(l, "F", NOW).unwrap();
    assert_eq!(remaining(&s, card), Some(4));
    assert_eq!(s.cancel(b, "F"), Ok(b));
    assert_eq!(remaining(&s, card), Some(5));
    assert_eq!(s.cancel(b, "F"), Err(CancelError::BookingNotFound));
    assert_eq!(remaining(&s, card), Some(5));
}

#[test]
fn rebooking_reuses_the_same_row() {
    let mut s = Store::new();
    s.register("G", None, None, None);
    let p = s.add_plan(count_plan(5, 30));
    let l = s.add_lesson(lesson("flow", "yoga", 5));
    s.purchase("G", p, NOW).unwrap();
    let b1 = s.book(l, "G", NOW).unwrap();
    s.cancel(b1, "G").unwrap();
    let b2 = s.book(l, "G", NOW + 60).unwrap();
    assert_eq!(b1, b2);
    assert_eq!(s.bookings_len(), 1);
    assert_eq!(s.booking_at(0).status, BookingStatus::Confirmed);
}

#[test]
fn booking_twice_is_an_idempotent_success() {
    let mut s = Store::new();
    s.register("H", None, None, None);
    let p = s.add_plan(count_plan(5, 30));
    let l = s.add_lesson(lesson("flow", "yoga", 5));
    let card = s.purchase("H", p, NOW).unwrap();
    let b1 = s.book(l, "H", NOW).unwrap();
    let b2 = s.book(l, "H", NOW + 5).unwrap();
    assert_eq!(b1, b2);
    assert_eq!(s.bookings_len(), 1);
    assert_eq!(s.usages_len(), 1);
    assert_eq!(remaining(&s, card), Some(4));
}

#[test]
fn unknown_identities_and_lessons_are_rejected() {
    let mut s = Store::new();
    s.register("I", None, None, None);
    let p = s.add_plan(unlimited_plan(30));
    s.purchase("I", p, NOW).unwrap();
    let l = s.add_lesson(lesson("flow", "yoga", 5));
    assert_eq!(s.book(l, "nobody", NOW), Err(BookError::UserNotFound));
    assert_eq!(s.book(99, "I", NOW), Err(BookError::LessonNotFound));
    assert_eq!(s.book(0, "I", NOW), Err(BookError::LessonNotFound));
    let mut inactive = lesson("hidden", "yoga", 5);
    inactive.is_active = false;
    let l2 = s.add_lesson(inactive);
    assert_eq!(s.book(l2, "I", NOW), Err(BookError::LessonNotFound));
    assert_eq!(s.cancel(1, "nobody"), Err(CancelError::BookingNotFound));
    assert_eq!(s.cancel(7, "I"), Err(CancelError::BookingNotFound));
}

#[test]
fn a_zero_capacity_lesson_is_always_full() {
    let mut s = Store::new();
    s.register("Z", None, None, None);
    let p = s.add_plan(unlimited_plan(30));
    s.purchase("Z", p, NOW).unwrap();
    let l = s.add_lesson(lesson("closed door", "yoga", 0));
    assert_eq!(s.book(l, "Z", NOW), Err(BookError::LessonFull));
}

#[test]
fn out_of_range_ids_are_not_found() {
    let mut s = Store::new();
    s.register("W", None, None, None);
    let p = s.add_plan(unlimited_plan(30));
    s.purchase("W", p, NOW).unwrap();
    assert_eq!(s.book(u64::MAX, "W", NOW), Err(BookError::LessonNotFound));
    assert_eq!(s.cancel(u64::MAX, "W"), Err(CancelError::BookingNotFound));
    assert_eq!(s.purchase("W", u64::MAX, NOW), Err(PurchaseError::PlanNotFound));
}

#[test]
fn foreign_bookings_cannot_be_cancelled() {
    let mut s = Store::new();
    s.register("J", None, None, None);
    s.register("K", None, None, None);
    let p = s.add_plan(unlimited_plan(30));
    s.purchase("J", p, NOW).unwrap();
    let l = s.add_lesson(lesson("flow", "yoga", 5));
    let b = s.book(l, "J", NOW).unwrap();
    assert_eq!(s.cancel(b, "K"), Err(CancelError::BookingNotFound));
    assert_eq!(s.booking_at((b - 1) as usize).status, BookingStatus::Confirmed);
}

#[test]
fn expired_and_mismatched_cards_are_not_eligible() {
    let mut s = Store::new();
    s.register("L", None, None, None);
    let p = s.add_plan(count_plan(5, 1));
    let l = s.add_lesson(lesson("flow", "yoga", 5));
    s.purchase("L", p, NOW).unwrap();
    // One day of validity: a booking two days later finds the card expired.
    let later = NOW + 2 * 86400;
    assert_eq!(s.book(l, "L", later), Err(BookError::NoValidMembership));

    // A card restricted to other lesson types does not apply.
    s.register("M", None, None, None);
    let mut narrow = count_plan(5, 30);
    narrow.applicable_lesson_types = Some(vec!["pilates".to_string(), "dance".to_string()]);
    let p2 = s.add_plan(narrow);
    s.purchase("M", p2, NOW).unwrap();
    assert_eq!(s.book(l, "M", NOW), Err(BookError::NoValidMembership));

    // A card whose list names the lesson's type applies.
    let dance = s.add_lesson(lesson("groove", "dance", 5));
    assert!(s.book(dance, "M", NOW).is_ok());
}

#[test]
fn the_soonest_expiring_eligible_card_is_debited() {
    let mut s = Store::new();
    s.register("N", None, None, None);
    let p_long = s.add_plan(count_plan(5, 90));
    let p_short = s.add_plan(count_plan(5, 10));
    let l = s.add_lesson(lesson("flow", "yoga", 5));
    let card_long = s.purchase("N", p_long, NOW).unwrap();
    let card_short = s.purchase("N", p_short, NOW).unwrap();
    s.book(l, "N", NOW).unwrap();
    assert_eq!(remaining(&s, card_short), Some(4));
    assert_eq!(remaining(&s, card_long), Some(5));
}

#[test]
fn capacity_reports_only_live_lessons() {
    let mut s = Store::new();
    let l = s.add_lesson(lesson("flow", "yoga", 7));
    let mut hidden = lesson("hidden", "yoga", 7);
    hidden.is_active = false;
    let l2 = s.add_lesson(hidden);
    assert_eq!(s.capacity(l), Some(7));
    assert_eq!(s.capacity(l2), None);
    assert_eq!(s.capacity(99), None);
}

#[test]
fn the_eligible_card_finder_matches_the_engine_choice() {
    let mut s = Store::new();
    s.register("V", None, None, None);
    let p_long = s.add_plan(count_plan(5, 90));
    let p_short = s.add_plan(count_plan(5, 10));
    let card_long = s.purchase("V", p_long, NOW).unwrap();
    let card_short = s.purchase("V", p_short, NOW).unwrap();
    let lt = "yoga".to_string();
    assert_eq!(s.find_eligible_card("V", &lt, NOW), Some(card_short));
    assert_eq!(s.find_eligible_card("nobody", &lt, NOW), None);
    // once the sooner card is spent, the later one is next in line
    let l = s.add_lesson(lesson("flow", "yoga", 9));
    for _ in 0..5 {
        let b = s.book(l, "V", NOW).unwrap();
        s.cancel(b, "V").unwrap();
        // spend for real: book a fresh lesson each round
        let lx = s.add_lesson(lesson("extra", "yoga", 9));
        s.book(lx, "V", NOW).unwrap();
    }
    assert_eq!(s.card_at((card_short - 1) as usize).remaining_classes, Some(0));
    assert_eq!(s.find_eligible_card("V", &lt, NOW), Some(card_long));
}

#[test]
fn cards_expiring_together_are_debited_oldest_first() {
    let mut s = Store::new();
    s.register("X", None, None, None);
    let p = s.add_plan(count_plan(5, 30));
    let first = s.purchase("X", p, NOW).unwrap();
    let second = s.purchase("X", p, NOW).unwrap();
    let l = s.add_lesson(lesson("flow", "yoga", 5));
    s.book(l, "X", NOW).unwrap();
    assert_eq!(s.card_at((first - 1) as usize).remaining_classes, Some(4));
    assert_eq!(s.card_at((second - 1) as usize).remaining_classes, Some(5));
}

#[test]
fn purchase_copies_the_plan_terms_onto_the_card() {
    let mut s = Store::new();
    s.register("O", None, None, None);
    let p = s.add_plan(count_plan(10, 30));
    let card_id = s.purchase("O", p, NOW).unwrap();
    let card = s.card_at((card_id - 1) as usize);
    assert_eq!(card.card_number, "C-1");
    assert_eq!(card.card_type, CardType::CountBased);
    assert_eq!(card.status, CardStatus::Active);
    assert_eq!(card.total_classes, Some(10));
    assert_eq!(card.remaining_classes, Some(10));
    assert_eq!(card.plan_name, "ten pack");
    assert_eq!(card.activated_at, NOW);
    assert_eq!(card.expires_at, NOW + 30 * 86400);
    // A second card gets the next number.
    let second = s.purchase("O", p, NOW).unwrap();
    assert_eq!(s.card_at((second - 1) as usize).card_number, "C-2");
}

#[test]
fn purchase_rejects_unknown_users_and_plans() {
    let mut s = Store::new();
    s.register("P", None, None, None);
    let mut stale = count_plan(10, 30);
    stale.is_active = false;
    let p_stale = s.add_plan(stale);
    assert_eq!(s.purchase("ghost", p_stale, NOW), Err(PurchaseError::UserNotFound));
    assert_eq!(s.purchase("P", p_stale, NOW), Err(PurchaseError::PlanNotFound));
    assert_eq!(s.purchase("P", 42, NOW), Err(PurchaseError::PlanNotFound));
    assert_eq!(s.cards_len(), 0);
}

#[test]
fn card_expiry_saturates_instead_of_wrapping() {
    let mut s = Store::new();
    s.register("Q", None, None, None);
    let p = s.add_plan(count_plan(1, u32::MAX));
    let card_id = s.purchase("Q", p, i64::MAX - 10).unwrap();
    assert_eq!(s.card_at((card_id - 1) as usize).expires_at, i64::MAX);
}

#[test]
fn registration_is_keyed_by_identity_and_coalesces_profiles() {
    let mut s = Store::new();
    let id1 = s.register("R", Some("Rae".to_string()), None, None);
    let id2 = s.register("R", None, Some("pic.png".to_string()), None);
    assert_eq!(id1, id2);
    assert_eq!(s.users_len(), 1);
    let u = s.user_at(0);
    assert_eq!(u.nick_name, Some("Rae".to_string()));
    assert_eq!(u.avatar_url, Some("pic.png".to_string()));
    assert_eq!(u.phone, None);
    let id3 = s.register("S", None, None, None);
    assert_eq!(id3, 2);
}

#[test]
fn the_usage_ledger_records_debits_and_refunds() {
    let mut s = Store::new();
    s.register("T", None, None, None);
    let p = s.add_plan(count_plan(3, 30));
    let l = s.add_lesson(lesson("flow", "yoga", 5));
    let card = s.purchase("T", p, NOW).unwrap();
    let b = s.book(l, "T", NOW + 100).unwrap();
    assert_eq!(s.usages_len(), 1);
    let row = s.usage_at(0);
    assert_eq!(row.user_card_id, card);
    assert_eq!(row.booking_id, b);
    assert_eq!(row.classes_consumed, 1);
    assert_eq!(row.remaining_after, Some(2));
    assert_eq!(row.used_at, NOW + 100);
    assert_eq!(row.usage_type, yoga_booking::domain::UsageType::Consume);
    s.cancel(b, "T").unwrap();
    let row = s.usage_at(0);
    assert_eq!(row.usage_type, yoga_booking::domain::UsageType::Refund);
    assert_eq!(s.usages_len(), 1);
}

#[test]
fn an_unlimited_card_is_never_debited() {
    let mut s = Store::new();
    s.register("U", None, None, None);
    let p = s.add_plan(unlimited_plan(30));
    let l = s.add_lesson(lesson("flow", "yoga", 5));
    let card = s.purchase("U", p, NOW).unwrap();
    let b = s.book(l, "U", NOW).unwrap();
    assert_eq!(remaining(&s, card), None);
    let row = s.usage_at(0);
    assert_eq!(row.classes_consumed, 0);
    assert_eq!(row.remaining_after, None);
    s.cancel(b, "U").unwrap();
    assert_eq!(remaining(&s, card), None);
}
