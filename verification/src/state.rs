//! The mathematical model of the store: the view of the whole persistent
//! state, the store invariant, and the atomic transition functions that the
//! executable engine is proved to implement. Each transition corresponds to
//! one database transaction of the running system: concurrent requests are
//! linearized by the transaction discipline, so every reachable state is a
//! fold of these transitions over the initial state.

use vstd::prelude::*;
use crate::digits::card_number_of;
use crate::domain::{
    BookError, BookingRec, BookingStatus, CancelError, CardStatus, CardType, CardView,
    LessonView, PlanView, PurchaseError, UsageRec, UsageType, UserView,
};

verus! {

/// View of the whole persistent state: one sequence per table.
#[verifier::ext_equal]
pub struct StoreView {
    pub users: Seq<UserView>,
    pub lessons: Seq<LessonView>,
    pub plans: Seq<PlanView>,
    pub cards: Seq<CardView>,
    pub bookings: Seq<BookingRec>,
    pub usages: Seq<UsageRec>,
}

/// Does this booking row hold a confirmed seat in the given lesson?
pub open spec fn confirmed_for(b: BookingRec, lesson_id: u64) -> bool {
    b.lesson_id == lesson_id && b.status == BookingStatus::Confirmed
}

/// Number of confirmed bookings for a lesson among the first `n` rows.
pub open spec fn confirmed_count_upto(bookings: Seq<BookingRec>, lesson_id: u64, n: int) -> nat
    recommends
        0 <= n <= bookings.len(),
    decreases n,
{
    if n <= 0 {
        0
    } else {
        confirmed_count_upto(bookings, lesson_id, n - 1) + (if confirmed_for(
            bookings[n - 1],
            lesson_id,
        ) {
            1nat
        } else {
            0nat
        })
    }
}

/// Number of confirmed bookings for a lesson. This is the live seat count:
/// it is never cached, always recomputed from the booking rows.
pub open spec fn confirmed_count(bookings: Seq<BookingRec>, lesson_id: u64) -> nat {
    confirmed_count_upto(bookings, lesson_id, bookings.len() as int)
}

/// Index of the first user with the given external identity among the first
/// `n` users, if any.
pub open spec fn find_user_upto(users: Seq<UserView>, open_id: Seq<char>, n: int) -> Option<int>
    recommends
        0 <= n <= users.len(),
    decreases n,
{
    if n <= 0 {
        None
    } else {
        match find_user_upto(users, open_id, n - 1) {
            Some(i) => Some(i),
            None => if users[n - 1].open_id == open_id {
                Some(n - 1)
            } else {
                None
            },
        }
    }
}

/// Index of the user with the given external identity, if any.
pub open spec fn find_user(users: Seq<UserView>, open_id: Seq<char>) -> Option<int> {
    find_user_upto(users, open_id, users.len() as int)
}

/// Does this booking row belong to the given (user, lesson) pair?
pub open spec fn pair_match(b: BookingRec, user_id: u64, lesson_id: u64) -> bool {
    b.user_id == user_id && b.lesson_id == lesson_id
}

/// Index of the first booking row for the given (user, lesson) pair among
/// the first `n` rows, if any.
pub open spec fn find_pair_upto(
    bookings: Seq<BookingRec>,
    user_id: u64,
    lesson_id: u64,
    n: int,
) -> Option<int>
    recommends
        0 <= n <= bookings.len(),
    decreases n,
{
    if n <= 0 {
        None
    } else {
        match find_pair_upto(bookings, user_id, lesson_id, n - 1) {
            Some(i) => Some(i),
            None => if pair_match(bookings[n - 1], user_id, lesson_id) {
                Some(n - 1)
            } else {
                None
            },
        }
    }
}

/// Index of the booking row for the given (user, lesson) pair, if any.
pub open spec fn find_pair(bookings: Seq<BookingRec>, user_id: u64, lesson_id: u64) -> Option<
    int,
> {
    find_pair_upto(bookings, user_id, lesson_id, bookings.len() as int)
}

/// Is this ledger row the outstanding debit for the given booking?
pub open spec fn consume_match(u: UsageRec, booking_id: u64) -> bool {
    u.booking_id == booking_id && u.usage_type == UsageType::Consume
}

/// Index of the first outstanding debit row for the given booking among the
/// first `n` ledger rows, if any.
pub open spec fn find_consume_upto(usages: Seq<UsageRec>, booking_id: u64, n: int) -> Option<int>
    recommends
        0 <= n <= usages.len(),
    decreases n,
{
    if n <= 0 {
        None
    } else {
        match find_consume_upto(usages, booking_id, n - 1) {
            Some(i) => Some(i),
            None => if consume_match(usages[n - 1], booking_id) {
                Some(n - 1)
            } else {
                None
            },
        }
    }
}

/// Index of the outstanding debit row for the given booking, if any.
pub open spec fn find_consume(usages: Seq<UsageRec>, booking_id: u64) -> Option<int> {
    find_consume_upto(usages, booking_id, usages.len() as int)
}

/// Does a card's applicability list cover the given lesson type? A missing
/// list is a wildcard.
pub open spec fn types_cover(
    applicable: Option<Seq<Seq<char>>>,
    lesson_type: Seq<char>,
) -> bool {
    match applicable {
        None => true,
        Some(ts) => ts.contains(lesson_type),
    }
}

/// Eligibility of one card for one booking: the combined check of ownership,
/// active status, non-expiry, lesson-type applicability and, for a
/// count-based card, a strictly positive balance.
pub open spec fn eligible(c: CardView, user_id: u64, lesson_type: Seq<char>, now: i64) -> bool {
    &&& c.user_id == user_id
    &&& c.status == CardStatus::Active
    &&& c.expires_at > now
    &&& types_cover(c.applicable_lesson_types, lesson_type)
    &&& match c.card_type {
        CardType::Unlimited => true,
        CardType::CountBased => c.remaining_classes is Some && c.remaining_classes->0 > 0,
    }
}

/// Index of the chosen card among the first `n` cards: the eligible card
/// expiring soonest (use-it-before-it-expires), with the earlier row winning
/// a tie.
pub open spec fn best_card_upto(
    cards: Seq<CardView>,
    user_id: u64,
    lesson_type: Seq<char>,
    now: i64,
    n: int,
) -> Option<int>
    recommends
        0 <= n <= cards.len(),
    decreases n,
{
    if n <= 0 {
        None
    } else {
        let prev = best_card_upto(cards, user_id, lesson_type, now, n - 1);
        if eligible(cards[n - 1], user_id, lesson_type, now) {
            match prev {
                None => Some(n - 1),
                Some(b) => if cards[n - 1].expires_at < cards[b].expires_at {
                    Some(n - 1)
                } else {
                    Some(b)
                },
            }
        } else {
            prev
        }
    }
}

/// Index of the card the engine debits: the eligible card expiring soonest.
pub open spec fn best_card(
    cards: Seq<CardView>,
    user_id: u64,
    lesson_type: Seq<char>,
    now: i64,
) -> Option<int> {
    best_card_upto(cards, user_id, lesson_type, now, cards.len() as int)
}

/// Balance after crediting a refund, clamped so it never exceeds the number
/// of classes the card was sold with. The clamp is a defensive invariant
/// guarding against duplicate-refund bugs.
pub open spec fn credited(remaining: u32, consumed: u32, total: u32) -> u32 {
    if remaining + consumed <= total {
        (remaining + consumed) as u32
    } else {
        total
    }
}

impl StoreView {
    /// Every row's id is its position plus one. Ids are dense and stable:
    /// rows are never deleted.
    pub open spec fn ids_positional(self) -> bool {
        &&& forall|i: int|
            0 <= i < self.users.len() ==> (#[trigger] self.users[i]).id as int == i + 1
        &&& forall|i: int|
            0 <= i < self.lessons.len() ==> (#[trigger] self.lessons[i]).id as int == i + 1
        &&& forall|i: int|
            0 <= i < self.plans.len() ==> (#[trigger] self.plans[i]).id as int == i + 1
        &&& forall|i: int|
            0 <= i < self.cards.len() ==> (#[trigger] self.cards[i]).id as int == i + 1
        &&& forall|i: int|
            0 <= i < self.bookings.len() ==> (#[trigger] self.bookings[i]).id as int == i + 1
        &&& forall|i: int|
            0 <= i < self.usages.len() ==> (#[trigger] self.usages[i]).id as int == i + 1
    }

    /// Every foreign key points at an existing row.
    pub open spec fn refs_valid(self) -> bool {
        &&& forall|i: int|
            0 <= i < self.bookings.len() ==> {
                &&& 1 <= (#[trigger] self.bookings[i]).user_id as int <= self.users.len()
                &&& 1 <= self.bookings[i].lesson_id as int <= self.lessons.len()
            }
        &&& forall|i: int|
            0 <= i < self.cards.len() ==> 1 <= (#[trigger] self.cards[i]).user_id as int
                <= self.users.len()
        &&& forall|i: int|
            0 <= i < self.usages.len() ==> {
                &&& 1 <= (#[trigger] self.usages[i]).user_card_id as int <= self.cards.len()
                &&& 1 <= self.usages[i].booking_id as int <= self.bookings.len()
                &&& 1 <= self.usages[i].lesson_id as int <= self.lessons.len()
                &&& 1 <= self.usages[i].user_id as int <= self.users.len()
            }
    }

    /// External identities are unique: resolving an identity is unambiguous.
    pub open spec fn users_unique(self) -> bool {
        forall|i: int, j: int|
            0 <= i < j < self.users.len() ==> (#[trigger] self.users[i]).open_id != (
            #[trigger] self.users[j]).open_id
    }

    /// At most one booking row per (user, lesson) pair: re-booking reuses
    /// the row instead of inserting a duplicate.
    pub open spec fn pairs_unique(self) -> bool {
        forall|i: int, j: int|
            0 <= i < j < self.bookings.len() ==> !((#[trigger] self.bookings[i]).user_id == (
            #[trigger] self.bookings[j]).user_id && self.bookings[i].lesson_id
                == self.bookings[j].lesson_id)
    }

    /// Every card's balance is sane.
    pub open spec fn cards_wf(self) -> bool {
        forall|i: int| 0 <= i < self.cards.len() ==> (#[trigger] self.cards[i]).wf()
    }

    /// No lesson ever holds more confirmed bookings than its capacity.
    pub open spec fn capacity_ok(self) -> bool {
        forall|l: int|
            0 <= l < self.lessons.len() ==> confirmed_count(
                self.bookings,
                (#[trigger] self.lessons[l]).id,
            ) <= self.lessons[l].max_students
    }

    /// An outstanding debit row always points at a booking that is still
    /// confirmed; cancellation flips the row to a refund in the same
    /// transaction that cancels the booking.
    pub open spec fn consume_confirmed(self) -> bool {
        forall|u: int|
            0 <= u < self.usages.len() && (#[trigger] self.usages[u]).usage_type
                == UsageType::Consume ==> self.bookings[self.usages[u].booking_id - 1].status
                == BookingStatus::Confirmed
    }

    /// At most one outstanding debit row per booking: a refund can never be
    /// credited twice for the same booking.
    pub open spec fn consume_unique(self) -> bool {
        forall|u: int, v: int|
            0 <= u < v < self.usages.len() ==> !((#[trigger] self.usages[u]).usage_type
                == UsageType::Consume && (#[trigger] self.usages[v]).usage_type
                == UsageType::Consume && self.usages[u].booking_id == self.usages[v].booking_id)
    }

    /// Every plan's shape is sane: a count-based plan states how many
    /// classes it sells; an unlimited one states none.
    pub open spec fn plans_wf(self) -> bool {
        forall|i: int|
            0 <= i < self.plans.len() ==> match (#[trigger] self.plans[i]).card_type {
                CardType::CountBased => self.plans[i].total_classes is Some,
                CardType::Unlimited => self.plans[i].total_classes is None,
            }
    }

    /// The store invariant. It holds of the empty store and is preserved by
    /// every transition, so it holds at every committed state.
    pub open spec fn inv(self) -> bool {
        &&& self.ids_positional()
        &&& self.refs_valid()
        &&& self.users_unique()
        &&& self.pairs_unique()
        &&& self.cards_wf()
        &&& self.plans_wf()
        &&& self.capacity_ok()
        &&& self.consume_confirmed()
        &&& self.consume_unique()
    }

    /// The empty store, the initial state of the system.
    pub open spec fn empty() -> StoreView {
        StoreView {
            users: Seq::empty(),
            lessons: Seq::empty(),
            plans: Seq::empty(),
            cards: Seq::empty(),
            bookings: Seq::empty(),
            usages: Seq::empty(),
        }
    }
}

/// The id of the booking row a successful booking commits: the existing row
/// for the pair if there is one, else the next fresh id.
pub open spec fn booked_id(s: StoreView, user_id: u64, lesson_id: u64) -> u64 {
    match find_pair(s.bookings, user_id, lesson_id) {
        Some(k) => s.bookings[k].id,
        None => (s.bookings.len() + 1) as u64,
    }
}

/// A card after one debit: a count-based card loses one class, an unlimited
/// card is unchanged.
pub open spec fn debited_card(card: CardView) -> CardView {
    match card.card_type {
        CardType::CountBased => CardView {
            remaining_classes: Some((card.remaining_classes->0 - 1) as u32),
            ..card
        },
        CardType::Unlimited => card,
    }
}

/// The committed effect of a successful booking: the chosen card is debited,
/// the booking row for the pair is flipped to confirmed (or a fresh row is
/// inserted), and one debit row is appended to the usage ledger.
pub open spec fn book_commit(
    s: StoreView,
    lesson_id: u64,
    user_id: u64,
    c: int,
    now: i64,
) -> StoreView {
    let card = s.cards[c];
    let card2 = debited_card(card);
    let bid = booked_id(s, user_id, lesson_id);
    let bookings2 = match find_pair(s.bookings, user_id, lesson_id) {
        Some(k) => s.bookings.update(
            k,
            BookingRec {
                status: BookingStatus::Confirmed,
                booking_time: now,
                ..s.bookings[k]
            },
        ),
        None => s.bookings.push(
            BookingRec {
                id: bid,
                user_id: user_id,
                lesson_id: lesson_id,
                status: BookingStatus::Confirmed,
                booking_time: now,
            },
        ),
    };
    let row = UsageRec {
        id: (s.usages.len() + 1) as u64,
        user_card_id: card.id,
        booking_id: bid,
        lesson_id: lesson_id,
        user_id: user_id,
        usage_type: UsageType::Consume,
        classes_consumed: if card.card_type is CountBased {
            1
        } else {
            0
        },
        remaining_after: card2.remaining_classes,
        used_at: now,
    };
    StoreView {
        cards: s.cards.update(c, card2),
        bookings: bookings2,
        usages: s.usages.push(row),
        ..s
    }
}

/// Outcome and next state of one booking transaction.
///
/// The checks mirror one atomic transaction: resolve the caller, load the
/// lesson and its live confirmed count, test card eligibility, then debit
/// and upsert. A failure leaves the state untouched (full rollback). A book
/// call on a lesson the caller already holds a confirmed seat in returns the
/// existing booking id without debiting again: the unique (user, lesson)
/// constraint serializes such duplicate requests into an idempotent success.
pub open spec fn book_tr(s: StoreView, lesson_id: u64, open_id: Seq<char>, now: i64) -> (
    StoreView,
    Result<u64, BookError>,
) {
    match find_user(s.users, open_id) {
        None => (s, Err(BookError::UserNotFound)),
        Some(u) => {
            let user_id = s.users[u].id;
            if (lesson_id as int) < 1 || lesson_id as int > s.lessons.len() as int || !s.lessons[lesson_id as int - 1].is_active {
                (s, Err(BookError::LessonNotFound))
            } else {
                let lesson = s.lessons[lesson_id as int - 1];
                let pair = find_pair(s.bookings, user_id, lesson_id);
                if pair is Some && s.bookings[pair->0].status == BookingStatus::Confirmed {
                    (s, Ok(s.bookings[pair->0].id))
                } else if confirmed_count(s.bookings, lesson_id) >= lesson.max_students as nat {
                    (s, Err(BookError::LessonFull))
                } else {
                    match best_card(s.cards, user_id, lesson.lesson_type, now) {
                        None => (s, Err(BookError::NoValidMembership)),
                        Some(c) => (
                            book_commit(s, lesson_id, user_id, c, now),
                            Ok(booked_id(s, user_id, lesson_id)),
                        ),
                    }
                }
            }
        },
    }
}

/// The committed effect of a successful cancellation: the booking row is
/// flipped to cancelled; if an outstanding debit row exists for it, the
/// debited card is credited back exactly what was consumed (clamped at the
/// card's total) and the row is marked as a refund. A missing debit row is
/// not an error: the refund is best-effort.
pub open spec fn cancel_commit(s: StoreView, booking_id: u64) -> StoreView {
    let k = booking_id as int - 1;
    let bookings2 = s.bookings.update(
        k,
        BookingRec { status: BookingStatus::Cancelled, ..s.bookings[k] },
    );
    match find_consume(s.usages, booking_id) {
        None => StoreView { bookings: bookings2, ..s },
        Some(ui) => {
            let row = s.usages[ui];
            let ci = row.user_card_id as int - 1;
            let card = s.cards[ci];
            let cards2 = match card.card_type {
                CardType::CountBased => s.cards.update(
                    ci,
                    CardView {
                        remaining_classes: Some(
                            credited(
                                card.remaining_classes->0,
                                row.classes_consumed,
                                card.total_classes->0,
                            ),
                        ),
                        ..card
                    },
                ),
                CardType::Unlimited => s.cards,
            };
            StoreView {
                bookings: bookings2,
                cards: cards2,
                usages: s.usages.update(ui, UsageRec { usage_type: UsageType::Refund, ..row }),
                ..s
            }
        },
    }
}

/// Outcome and next state of one cancellation transaction.
///
/// Only the owner of a booking that is currently confirmed may cancel it; a
/// booking that does not exist, is already cancelled, or belongs to someone
/// else fails identically, so callers cannot probe for foreign bookings.
pub open spec fn cancel_tr(s: StoreView, booking_id: u64, open_id: Seq<char>) -> (
    StoreView,
    Result<u64, CancelError>,
) {
    match find_user(s.users, open_id) {
        None => (s, Err(CancelError::BookingNotFound)),
        Some(u) => {
            let user_id = s.users[u].id;
            if (booking_id as int) < 1 || booking_id as int > s.bookings.len() as int || s.bookings[booking_id as int - 1].user_id != user_id || s.bookings[booking_id as int - 1].status
                != BookingStatus::Confirmed {
                (s, Err(CancelError::BookingNotFound))
            } else {
                (cancel_commit(s, booking_id), Ok(booking_id))
            }
        },
    }
}

/// The expiry instant of a card activated now with the given validity,
/// saturating at the far end of representable time.
pub open spec fn expiry_of(now: i64, validity_days: u32) -> i64 {
    if now + validity_days * 86400 <= i64::MAX {
        (now + validity_days * 86400) as i64
    } else {
        i64::MAX
    }
}

/// Outcome and next state of one card purchase: the plan's terms are copied
/// onto a fresh card (so later plan edits do not change it), a count-based
/// card starts with its full balance, and the card expires after the plan's
/// validity period.
pub open spec fn purchase_tr(s: StoreView, open_id: Seq<char>, plan_id: u64, now: i64) -> (
    StoreView,
    Result<u64, PurchaseError>,
) {
    match find_user(s.users, open_id) {
        None => (s, Err(PurchaseError::UserNotFound)),
        Some(u) => {
            let user_id = s.users[u].id;
            if (plan_id as int) < 1 || plan_id as int > s.plans.len() as int || !s.plans[plan_id as int - 1].is_active {
                (s, Err(PurchaseError::PlanNotFound))
            } else {
                let plan = s.plans[plan_id as int - 1];
                let card_id = (s.cards.len() + 1) as u64;
                let card = CardView {
                    id: card_id,
                    user_id: user_id,
                    plan_id: plan_id,
                    plan_name: plan.name,
                    card_number: card_number_of(card_id),
                    card_type: plan.card_type,
                    status: CardStatus::Active,
                    total_classes: plan.total_classes,
                    remaining_classes: if plan.card_type is CountBased {
                        plan.total_classes
                    } else {
                        None
                    },
                    applicable_lesson_types: plan.applicable_lesson_types,
                    activated_at: now,
                    expires_at: expiry_of(now, plan.validity_days),
                };
                (StoreView { cards: s.cards.push(card), ..s }, Ok(card_id))
            }
        },
    }
}

/// The internal user id behind an external identity, if the identity is
/// known.
pub open spec fn user_id_of(s: StoreView, open_id: Seq<char>) -> Option<u64> {
    match find_user(s.users, open_id) {
        Some(u) => Some(s.users[u].id),
        None => None,
    }
}

/// The first of two optional values, mirroring a coalescing update: a field
/// is overwritten only when the request carries a value for it.
pub open spec fn opt_or(a: Option<Seq<char>>, b: Option<Seq<char>>) -> Option<Seq<char>> {
    if a is Some {
        a
    } else {
        b
    }
}

/// Next state and resulting user id of one registration: a new identity gets
/// a fresh user row; a known identity keeps its row and id, and each profile
/// field is overwritten only when the request carries a value for it.
pub open spec fn register_tr(
    s: StoreView,
    open_id: Seq<char>,
    nick_name: Option<Seq<char>>,
    avatar_url: Option<Seq<char>>,
    phone: Option<Seq<char>>,
) -> (StoreView, u64) {
    match find_user(s.users, open_id) {
        Some(u) => {
            let usr = s.users[u];
            let usr2 = UserView {
                nick_name: opt_or(nick_name, usr.nick_name),
                avatar_url: opt_or(avatar_url, usr.avatar_url),
                phone: opt_or(phone, usr.phone),
                ..usr
            };
            (StoreView { users: s.users.update(u, usr2), ..s }, usr.id)
        },
        None => (
            StoreView {
                users: s.users.push(
                    UserView {
                        id: (s.users.len() + 1) as u64,
                        open_id: open_id,
                        nick_name: nick_name,
                        avatar_url: avatar_url,
                        phone: phone,
                    },
                ),
                ..s
            },
            (s.users.len() + 1) as u64,
        ),
    }
}

/// Next state and lesson id of one lesson creation (admin tooling).
pub open spec fn add_lesson_tr(s: StoreView, lesson: LessonView) -> (StoreView, u64) {
    let lesson_id = (s.lessons.len() + 1) as u64;
    (
        StoreView { lessons: s.lessons.push(LessonView { id: lesson_id, ..lesson }), ..s },
        lesson_id,
    )
}

/// Next state and plan id of one plan creation (admin tooling).
pub open spec fn add_plan_tr(s: StoreView, plan: PlanView) -> (StoreView, u64) {
    let plan_id = (s.plans.len() + 1) as u64;
    (StoreView { plans: s.plans.push(PlanView { id: plan_id, ..plan }), ..s }, plan_id)
}

/// One transaction, as the model sees it: what the operation was and the
/// inputs it ran with. A history of the system is a sequence of these.
pub enum Op {
    Register {
        open_id: Seq<char>,
        nick_name: Option<Seq<char>>,
        avatar_url: Option<Seq<char>>,
        phone: Option<Seq<char>>,
    },
    AddLesson { lesson: LessonView },
    AddPlan { plan: PlanView },
    Purchase { open_id: Seq<char>, plan_id: u64, now: i64 },
    Book { lesson_id: u64, open_id: Seq<char>, now: i64 },
    Cancel { booking_id: u64, open_id: Seq<char> },
}

/// Whether the store can admit the operation: the fresh row ids it may need
/// are representable, and a created plan is well shaped.
pub open spec fn op_admissible(s: StoreView, op: Op) -> bool {
    match op {
        Op::Register { .. } => s.users.len() + 1 <= u64::MAX,
        Op::AddLesson { .. } => s.lessons.len() + 1 <= u64::MAX,
        Op::AddPlan { plan } => s.plans.len() + 1 <= u64::MAX && match plan.card_type {
            CardType::CountBased => plan.total_classes is Some,
            CardType::Unlimited => plan.total_classes is None,
        },
        Op::Purchase { .. } => s.cards.len() + 1 <= u64::MAX,
        Op::Book { .. } => s.bookings.len() + 1 <= u64::MAX && s.usages.len() + 1 <= u64::MAX,
        Op::Cancel { .. } => true,
    }
}

/// The state after one transaction. One the store cannot admit commits
/// nothing, just as a transaction that cannot allocate a row rolls back.
pub open spec fn apply_op(s: StoreView, op: Op) -> StoreView {
    if !op_admissible(s, op) {
        s
    } else {
        match op {
            Op::Register { open_id, nick_name, avatar_url, phone } => register_tr(
                s,
                open_id,
                nick_name,
                avatar_url,
                phone,
            ).0,
            Op::AddLesson { lesson } => add_lesson_tr(s, lesson).0,
            Op::AddPlan { plan } => add_plan_tr(s, plan).0,
            Op::Purchase { open_id, plan_id, now } => purchase_tr(s, open_id, plan_id, now).0,
            Op::Book { lesson_id, open_id, now } => book_tr(s, lesson_id, open_id, now).0,
            Op::Cancel { booking_id, open_id } => cancel_tr(s, booking_id, open_id).0,
        }
    }
}

/// The state after a whole history of transactions, oldest first.
pub open spec fn run_ops(s: StoreView, ops: Seq<Op>) -> StoreView
    decreases ops.len(),
{
    if ops.len() == 0 {
        s
    } else {
        apply_op(run_ops(s, ops.drop_last()), ops.last())
    }
}

} // verus!
