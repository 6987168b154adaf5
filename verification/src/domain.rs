//! Core data model: users, lessons, membership plans and cards, bookings,
//! and the append-only card-usage ledger, together with the mathematical
//! views that contracts are stated over.

use vstd::prelude::*;

verus! {

/// Whether a membership card consumes a class credit per booking or not.
#[derive(Clone, Copy, Debug, PartialEq, Eq, Structural)]
pub enum CardType {
    Unlimited,
    CountBased,
}

/// Lifecycle status of a membership card.
#[derive(Clone, Copy, Debug, PartialEq, Eq, Structural)]
pub enum CardStatus {
    Active,
    Expired,
    Suspended,
}

/// Lifecycle status of a booking row. Rows are never deleted: a cancelled
/// booking keeps its row and can be flipped back to confirmed.
#[derive(Clone, Copy, Debug, PartialEq, Eq, Structural)]
pub enum BookingStatus {
    Confirmed,
    Cancelled,
}

/// Kind of a usage-ledger row: a debit against a card, or its reversal.
#[derive(Clone, Copy, Debug, PartialEq, Eq, Structural)]
pub enum UsageType {
    Consume,
    Refund,
}

/// Business-rule failures of the booking operation. These are expected,
/// user-facing outcomes; they never leave the store changed.
#[derive(Clone, Copy, Debug, PartialEq, Eq, Structural)]
pub enum BookError {
    UserNotFound,
    LessonNotFound,
    LessonFull,
    NoValidMembership,
}

/// Business-rule failure of the cancel operation. A booking that does not
/// exist, is not confirmed, or belongs to another user is reported the same
/// way, so callers cannot probe for foreign bookings.
#[derive(Clone, Copy, Debug, PartialEq, Eq, Structural)]
pub enum CancelError {
    BookingNotFound,
}

/// Business-rule failures of a card purchase.
#[derive(Clone, Copy, Debug, PartialEq, Eq, Structural)]
pub enum PurchaseError {
    UserNotFound,
    PlanNotFound,
}

/// A registered user: an opaque external identity plus mutable profile
/// fields. Identity is immutable once created.
#[derive(Debug)]
pub struct UserRec {
    pub id: u64,
    pub open_id: String,
    pub nick_name: Option<String>,
    pub avatar_url: Option<String>,
    pub phone: Option<String>,
}

/// Mathematical view of a user record.
#[verifier::ext_equal]
pub struct UserView {
    pub id: u64,
    pub open_id: Seq<char>,
    pub nick_name: Option<Seq<char>>,
    pub avatar_url: Option<Seq<char>>,
    pub phone: Option<Seq<char>>,
}

/// View of an optional owned string as an optional character sequence.
pub open spec fn opt_str_view(o: Option<String>) -> Option<Seq<char>> {
    match o {
        Some(s) => Some(s@),
        None => None,
    }
}

impl View for UserRec {
    type V = UserView;

    open spec fn view(&self) -> UserView {
        UserView {
            id: self.id,
            open_id: self.open_id@,
            nick_name: opt_str_view(self.nick_name),
            avatar_url: opt_str_view(self.avatar_url),
            phone: opt_str_view(self.phone),
        }
    }
}

/// A scheduled class occurrence. Created by admin tooling; the core reads
/// its capacity, type tag and active flag, and never edits it.
#[derive(Debug)]
pub struct LessonRec {
    pub id: u64,
    pub title: String,
    pub teacher_name: Option<String>,
    pub location_name: Option<String>,
    pub lesson_type: String,
    pub start_time: i64,
    pub end_time: i64,
    pub max_students: u32,
    pub is_active: bool,
}

/// Mathematical view of a lesson record.
#[verifier::ext_equal]
pub struct LessonView {
    pub id: u64,
    pub title: Seq<char>,
    pub teacher_name: Option<Seq<char>>,
    pub location_name: Option<Seq<char>>,
    pub lesson_type: Seq<char>,
    pub start_time: i64,
    pub end_time: i64,
    pub max_students: u32,
    pub is_active: bool,
}

impl View for LessonRec {
    type V = LessonView;

    open spec fn view(&self) -> LessonView {
        LessonView {
            id: self.id,
            title: self.title@,
            teacher_name: opt_str_view(self.teacher_name),
            location_name: opt_str_view(self.location_name),
            lesson_type: self.lesson_type@,
            start_time: self.start_time,
            end_time: self.end_time,
            max_students: self.max_students,
            is_active: self.is_active,
        }
    }
}

/// A purchasable membership plan template. Read-only to the core; its terms
/// are snapshotted onto a card at purchase time.
#[derive(Debug)]
pub struct PlanRec {
    pub id: u64,
    pub name: String,
    pub card_type: CardType,
    pub validity_days: u32,
    pub total_classes: Option<u32>,
    pub price_cents: i64,
    pub applicable_lesson_types: Option<Vec<String>>,
    pub max_bookings_per_day: u32,
    pub is_active: bool,
}

/// Mathematical view of a plan record.
#[verifier::ext_equal]
pub struct PlanView {
    pub id: u64,
    pub name: Seq<char>,
    pub card_type: CardType,
    pub validity_days: u32,
    pub total_classes: Option<u32>,
    pub price_cents: i64,
    pub applicable_lesson_types: Option<Seq<Seq<char>>>,
    pub max_bookings_per_day: u32,
    pub is_active: bool,
}

/// View of an optional list of lesson-type tags.
pub open spec fn opt_types_view(o: Option<Vec<String>>) -> Option<Seq<Seq<char>>> {
    match o {
        Some(v) => Some(v@.map_values(|s: String| s@)),
        None => None,
    }
}

impl View for PlanRec {
    type V = PlanView;

    open spec fn view(&self) -> PlanView {
        PlanView {
            id: self.id,
            name: self.name@,
            card_type: self.card_type,
            validity_days: self.validity_days,
            total_classes: self.total_classes,
            price_cents: self.price_cents,
            applicable_lesson_types: opt_types_view(self.applicable_lesson_types),
            max_bookings_per_day: self.max_bookings_per_day,
            is_active: self.is_active,
        }
    }
}

/// A user's instance of a purchased plan. Plan terms are copied at purchase
/// time, so later plan edits do not change issued cards. The balance of a
/// count-based card is mutated only by the booking engine's debit and
/// credit operations. The card deliberately carries no payment amounts:
/// what was paid is the embedding's billing record, not part of the
/// consumable state the engine guards; a plan's asking price is listed on
/// the plan itself.
#[derive(Debug)]
pub struct CardRec {
    pub id: u64,
    pub user_id: u64,
    pub plan_id: u64,
    pub plan_name: String,
    pub card_number: String,
    pub card_type: CardType,
    pub status: CardStatus,
    pub total_classes: Option<u32>,
    pub remaining_classes: Option<u32>,
    pub applicable_lesson_types: Option<Vec<String>>,
    pub activated_at: i64,
    pub expires_at: i64,
}

/// Mathematical view of a membership card.
#[verifier::ext_equal]
pub struct CardView {
    pub id: u64,
    pub user_id: u64,
    pub plan_id: u64,
    pub plan_name: Seq<char>,
    pub card_number: Seq<char>,
    pub card_type: CardType,
    pub status: CardStatus,
    pub total_classes: Option<u32>,
    pub remaining_classes: Option<u32>,
    pub applicable_lesson_types: Option<Seq<Seq<char>>>,
    pub activated_at: i64,
    pub expires_at: i64,
}

impl View for CardRec {
    type V = CardView;

    open spec fn view(&self) -> CardView {
        CardView {
            id: self.id,
            user_id: self.user_id,
            plan_id: self.plan_id,
            plan_name: self.plan_name@,
            card_number: self.card_number@,
            card_type: self.card_type,
            status: self.status,
            total_classes: self.total_classes,
            remaining_classes: self.remaining_classes,
            applicable_lesson_types: opt_types_view(self.applicable_lesson_types),
            activated_at: self.activated_at,
            expires_at: self.expires_at,
        }
    }
}

impl CardView {
    /// Balance sanity of a single card: a count-based card always carries a
    /// non-negative balance bounded by the classes it was sold with; an
    /// unlimited card carries no balance at all.
    pub open spec fn wf(self) -> bool {
        match self.card_type {
            CardType::CountBased => {
                &&& self.total_classes is Some
                &&& self.remaining_classes is Some
                &&& self.remaining_classes->0 <= self.total_classes->0
            },
            CardType::Unlimited => {
                &&& self.total_classes is None
                &&& self.remaining_classes is None
            },
        }
    }
}

/// The reservation of one seat in one lesson by one user. At most one row
/// exists per (user, lesson) pair; re-booking after cancellation flips the
/// row back instead of creating a duplicate.
#[derive(Clone, Copy, Debug)]
pub struct BookingRec {
    pub id: u64,
    pub user_id: u64,
    pub lesson_id: u64,
    pub status: BookingStatus,
    pub booking_time: i64,
}

/// One append-only ledger row tying a booking to a card debit or credit.
/// This audit trail is what makes refunds traceable and not repeatable.
#[derive(Clone, Copy, Debug)]
pub struct UsageRec {
    pub id: u64,
    pub user_card_id: u64,
    pub booking_id: u64,
    pub lesson_id: u64,
    pub user_id: u64,
    pub usage_type: UsageType,
    pub classes_consumed: u32,
    pub remaining_after: Option<u32>,
    pub used_at: i64,
}

} // verus!
