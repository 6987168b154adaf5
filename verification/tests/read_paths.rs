//! Tests of the read paths (lesson listing, card and ledger listings), the
//! settings URL, card-number rendering, the clock-driven entry points, and
//! the boundary record shapes.

use yoga_booking::boundary::{BookingCreateRequest, LoginRequest, MembershipCardResponse};
use yoga_booking::clock::{book_now, purchase_now};
use yoga_booking::digits::card_number;
use yoga_booking::domain::{CardType, LessonRec, PlanRec, UsageType};
use yoga_booking::query::{
    active_plans, card_usage_of, lessons_with_booking_status, membership_cards_of,
};
use yoga_booking::settings::Settings;
use yoga_booking::store::Store;

const NOW: i64 = 1_700_000_000;

fn plan(total: Option<u32>, validity_days: u32, active: bool) -> PlanRec {
    PlanRec {
        id: 0,
        name: "plan".to_string(),
        card_type: if total.is_some() { CardType::CountBased } else { CardType::Unlimited },
        validity_days,
        total_classes: total,
        price_cents: 150_00,
        applicable_lesson_types: None,
        max_bookings_per_day: 2,
        is_active: active,
    }
}

fn lesson_at(start: i64, title: &str, max_students: u32) -> LessonRec {
    LessonRec {
        id: 0,
        title: title.to_string(),
        teacher_name: Some("Kim".to_string()),
        location_name: None,
        lesson_type: "yoga".to_string(),
        start_time: start,
        end_time: start + 3600,
        max_students,
        is_active: true,
    }
}

#[test]
fn the_listing_reports_window_counts_and_own_bookings() {
    let mut s = Store::new();
    s.register("A", None, None, None);
    s.register("B", None, None, None);
    let p = s.add_plan(plan(None, 30, true));
    s.purchase("A", p, NOW).unwrap();
    s.purchase("B", p, NOW).unwrap();
    let in1 = s.add_lesson(lesson_at(NOW + 86400, "tomorrow", 3));
    let _out = s.add_lesson(lesson_at(NOW + 20 * 86400, "too late", 3));
    let in2 = s.add_lesson(lesson_at(NOW + 2 * 86400, "later", 3));
    let b = s.book(in1, "A", NOW).unwrap();
    s.book(in1, "B", NOW).unwrap();

    let list = lessons_with_booking_status(&s, NOW, "A");
    assert_eq!(list.len(), 2);
    assert_eq!(list[0].id, in1);
    assert_eq!(list[0].title, "tomorrow");
    assert_eq!(list[0].current_students, 2);
    assert_eq!(list[0].max_students, 3);
    assert!(list[0].is_booked);
    assert_eq!(list[0].booking_id, Some(b));
    assert_eq!(list[1].id, in2);
    assert_eq!(list[1].current_students, 0);
    assert!(!list[1].is_booked);

    // An unknown caller sees the same counts and no bookings of their own.
    let anon = lessons_with_booking_status(&s, NOW, "nobody");
    assert_eq!(anon.len(), 2);
    assert!(!anon[0].is_booked);
    assert_eq!(anon[0].booking_id, None);
    assert_eq!(anon[0].current_students, 2);

    // After a cancellation the listing count drops with the engine's count.
    s.cancel(b, "A").unwrap();
    let list = lessons_with_booking_status(&s, NOW, "A");
    assert_eq!(list[0].current_students, 1);
    assert!(!list[0].is_booked);
}

#[test]
fn card_and_ledger_listings_follow_the_owner() {
    let mut s = Store::new();
    s.register("A", None, None, None);
    s.register("B", None, None, None);
    let p = s.add_plan(plan(Some(4), 30, true));
    let card_a = s.purchase("A", p, NOW).unwrap();
    let card_b = s.purchase("B", p, NOW).unwrap();
    let l = s.add_lesson(lesson_at(NOW + 3600, "flow", 5));
    let b = s.book(l, "A", NOW).unwrap();

    let cards = membership_cards_of(&s, "A");
    assert_eq!(cards.len(), 1);
    assert_eq!(cards[0].id, card_a);
    assert_eq!(cards[0].remaining_classes, Some(3));

    let usage = card_usage_of(&s, "A", None);
    assert_eq!(usage.len(), 1);
    assert_eq!(usage[0].lesson_title, "flow");
    assert_eq!(usage[0].teacher_name, Some("Kim".to_string()));
    assert_eq!(usage[0].usage_type, UsageType::Consume);
    assert_eq!(usage[0].classes_consumed, 1);
    assert_eq!(usage[0].remaining_classes_after, Some(3));
    assert_eq!(usage[0].card_number, Some("C-1".to_string()));

    // Narrowed to a card that is not A's, the listing is empty.
    assert_eq!(card_usage_of(&s, "A", Some(card_b)).len(), 0);
    assert_eq!(card_usage_of(&s, "B", None).len(), 0);
    assert_eq!(card_usage_of(&s, "nobody", None).len(), 0);
    assert_eq!(membership_cards_of(&s, "nobody").len(), 0);

    // After a cancellation the row shows as refunded.
    s.cancel(b, "A").unwrap();
    let usage = card_usage_of(&s, "A", Some(card_a));
    assert_eq!(usage.len(), 1);
    assert_eq!(usage[0].usage_type, UsageType::Refund);
}

#[test]
fn the_listing_is_sorted_by_start_time_not_by_id() {
    let mut s = Store::new();
    let late = s.add_lesson(lesson_at(NOW + 3 * 86400, "third", 5));
    let early = s.add_lesson(lesson_at(NOW + 86400, "first", 5));
    let mid = s.add_lesson(lesson_at(NOW + 2 * 86400, "second", 5));
    let list = lessons_with_booking_status(&s, NOW, "nobody");
    assert_eq!(list.len(), 3);
    assert_eq!(list[0].id, early);
    assert_eq!(list[1].id, mid);
    assert_eq!(list[2].id, late);
    assert!(list[0].start_time <= list[1].start_time);
    assert!(list[1].start_time <= list[2].start_time);
}

#[test]
fn usage_rows_are_listed_newest_first() {
    let mut s = Store::new();
    s.register("A", None, None, None);
    let p = s.add_plan(plan(Some(5), 30, true));
    s.purchase("A", p, NOW).unwrap();
    let l1 = s.add_lesson(lesson_at(NOW + 3600, "one", 5));
    let l2 = s.add_lesson(lesson_at(NOW + 7200, "two", 5));
    let l3 = s.add_lesson(lesson_at(NOW + 9600, "three", 5));
    s.book(l1, "A", NOW + 100).unwrap();
    s.book(l2, "A", NOW + 500).unwrap();
    s.book(l3, "A", NOW + 300).unwrap();
    let usage = card_usage_of(&s, "A", None);
    assert_eq!(usage.len(), 3);
    assert_eq!(usage[0].used_at, NOW + 500);
    assert_eq!(usage[1].used_at, NOW + 300);
    assert_eq!(usage[2].used_at, NOW + 100);
}

#[test]
fn cards_are_listed_latest_expiry_first() {
    let mut s = Store::new();
    s.register("A", None, None, None);
    let p_short = s.add_plan(plan(Some(5), 10, true));
    let p_long = s.add_plan(plan(Some(5), 90, true));
    let short = s.purchase("A", p_short, NOW).unwrap();
    let long = s.purchase("A", p_long, NOW).unwrap();
    let cards = membership_cards_of(&s, "A");
    assert_eq!(cards.len(), 2);
    assert_eq!(cards[0].id, long);
    assert_eq!(cards[1].id, short);
    assert!(cards[0].expires_at >= cards[1].expires_at);
}

#[test]
fn only_active_plans_are_listed() {
    let mut s = Store::new();
    s.add_plan(plan(Some(4), 30, true));
    s.add_plan(plan(None, 60, false));
    s.add_plan(plan(None, 90, true));
    let listed = active_plans(&s);
    assert_eq!(listed.len(), 2);
    assert_eq!(listed[0].id, 1);
    assert_eq!(listed[1].id, 3);
    assert_eq!(listed[1].card_type, CardType::Unlimited);
}

#[test]
fn card_numbers_render_in_decimal() {
    assert_eq!(card_number(0), "C-0");
    assert_eq!(card_number(7), "C-7");
    assert_eq!(card_number(905), "C-905");
    assert_eq!(card_number(1000), "C-1000");
    assert_eq!(card_number(u64::MAX), "C-18446744073709551615");
}

#[test]
fn the_server_url_includes_the_port_only_when_set() {
    let mut settings = Settings {
        appid: "app".to_string(),
        secret: "hushhush".to_string(),
        image_dir: "/tmp/images".to_string(),
        server_scheme: "https".to_string(),
        server_host: "example.org".to_string(),
        server_port: "".to_string(),
    };
    assert_eq!(settings.server_url(), "https://example.org");
    settings.server_port = "8002".to_string();
    assert_eq!(settings.server_url(), "https://example.org:8002");
}

#[test]
fn clock_driven_booking_works_against_the_wall_clock() {
    let mut s = Store::new();
    s.register("A", None, None, None);
    // A validity so long that the card cannot be expired at any present
    // moment the test may run at.
    let p = s.add_plan(plan(Some(2), u32::MAX, true));
    let l = s.add_lesson(lesson_at(NOW, "whenever", 5));
    let card = purchase_now(&mut s, "A", p).unwrap();
    let b = book_now(&mut s, l, "A").unwrap();
    assert_eq!(s.confirmed_count_exec(l), 1);
    assert_eq!(s.card_at((card - 1) as usize).remaining_classes, Some(1));
    s.cancel(b, "A").unwrap();
    assert_eq!(s.card_at((card - 1) as usize).remaining_classes, Some(2));
}

#[test]
fn the_listing_window_is_closed_at_both_ends() {
    let mut s = Store::new();
    s.add_lesson(lesson_at(NOW, "at the start", 3));
    s.add_lesson(lesson_at(NOW + 14 * 86400, "at the end", 3));
    s.add_lesson(lesson_at(NOW - 1, "just before", 3));
    s.add_lesson(lesson_at(NOW + 14 * 86400 + 1, "just after", 3));
    let mut hidden = lesson_at(NOW + 86400, "inactive", 3);
    hidden.is_active = false;
    s.add_lesson(hidden);
    let list = lessons_with_booking_status(&s, NOW, "nobody");
    assert_eq!(list.len(), 2);
    assert_eq!(list[0].title, "at the start");
    assert_eq!(list[1].title, "at the end");
}

#[test]
fn a_card_expiring_this_instant_is_no_longer_valid() {
    let mut s = Store::new();
    s.register("A", None, None, None);
    let p = s.add_plan(plan(Some(3), 1, true));
    let l = s.add_lesson(lesson_at(NOW + 3600, "flow", 3));
    s.purchase("A", p, NOW).unwrap();
    // the card expires exactly one day after purchase
    let expiry = NOW + 86400;
    assert!(s.book(l, "A", expiry - 1).is_ok());
    let l2 = s.add_lesson(lesson_at(NOW + 3600, "later flow", 3));
    assert!(s.book(l2, "A", expiry).is_err());
}

#[test]
fn an_interleaved_load_never_oversells_a_lesson() {
    let mut s = Store::new();
    let p = s.add_plan(plan(Some(30), 30, true));
    let l = s.add_lesson(lesson_at(NOW + 3600, "popular", 2));
    let names = ["a", "b", "c", "d", "e"];
    for name in names {
        s.register(name, None, None, None);
        s.purchase(name, p, NOW).unwrap();
    }
    // one serialized interleaving of many bookers and cancellers
    let mut held: Vec<(usize, u64)> = Vec::new();
    for round in 0..20usize {
        let who = round % names.len();
        if let Some(pos) = held.iter().position(|(w, _)| *w == who) {
            let (_, b) = held.remove(pos);
            assert!(s.cancel(b, names[who]).is_ok());
        } else if let Ok(b) = s.book(l, names[who], NOW + round as i64) {
            held.push((who, b));
        }
        assert!(s.confirmed_count_exec(l) <= 2);
        assert_eq!(s.confirmed_count_exec(l), held.len());
    }
    // balances add up: each user's spent classes equal the seats they hold
    for (i, name) in names.iter().enumerate() {
        let cards = membership_cards_of(&s, name);
        let holds = held.iter().filter(|(w, _)| *w == i).count() as u32;
        assert_eq!(cards[0].remaining_classes, Some(30 - holds));
    }
}

#[test]
fn boundary_records_hold_their_fields() {
    let req = BookingCreateRequest {
        user_open_id: "A".to_string(),
        lesson_id: 3,
        notes: None,
    };
    assert_eq!(req.user_open_id, "A");
    assert_eq!(req.lesson_id, 3);
    let login = LoginRequest { username: "admin".to_string(), password: "pw".to_string() };
    assert_eq!(login.username, "admin");
    let resp = MembershipCardResponse {
        success: true,
        message: "ok".to_string(),
        card_id: Some(1),
        card_number: Some("C-1".to_string()),
    };
    assert!(resp.success);
    assert_eq!(resp.card_number.as_deref(), Some("C-1"));
}
