//! The executable store and booking engine. Every public operation is
//! proved to implement the corresponding transition function of the model
//! exactly, and to preserve the store invariant. In the running system each
//! operation is one database transaction; the transaction discipline
//! linearizes concurrent requests into a sequence of these operations.

use vstd::prelude::*;
use vstd::pervasive::VecAdditionalExecFns;
use crate::domain::{
    BookError, BookingRec, BookingStatus, CancelError, CardRec, CardStatus, CardType, LessonRec,
    PlanRec, PurchaseError, UsageRec, UsageType, UserRec, opt_str_view, opt_types_view,
};
use crate::laws::{
    lemma_add_lesson_preserves_inv, lemma_add_plan_preserves_inv, lemma_book_preserves_inv,
    lemma_cancel_preserves_inv, lemma_purchase_preserves_inv, lemma_register_preserves_inv,
};
use crate::lemmas::lemma_best_card_char;
use crate::state::{
    add_lesson_tr, add_plan_tr, best_card, best_card_upto, book_tr, cancel_tr, confirmed_count,
    confirmed_count_upto, eligible, find_consume, find_consume_upto, find_pair, find_pair_upto,
    find_user, find_user_upto, purchase_tr, register_tr, types_cover, StoreView,
};
use crate::digits::card_number;

verus! {

/// The persistent state: one vector per table. Rows are append-only (never
/// deleted), and a row's id is its position plus one.
pub struct Store {
    users: Vec<UserRec>,
    lessons: Vec<LessonRec>,
    plans: Vec<PlanRec>,
    cards: Vec<CardRec>,
    bookings: Vec<BookingRec>,
    usages: Vec<UsageRec>,
}

impl View for Store {
    type V = StoreView;

    closed spec fn view(&self) -> StoreView {
        StoreView {
            users: self.users@.map_values(|u: UserRec| u@),
            lessons: self.lessons@.map_values(|l: LessonRec| l@),
            plans: self.plans@.map_values(|p: PlanRec| p@),
            cards: self.cards@.map_values(|c: CardRec| c@),
            bookings: self.bookings@,
            usages: self.usages@,
        }
    }
}

impl Store {
    /// The store invariant, stated over the view.
    pub open spec fn inv(&self) -> bool {
        self@.inv()
    }

    /// An empty store.
    pub fn new() -> (s: Store)
        ensures
            s@ == StoreView::empty(),
            s.inv(),
    {
        let s = Store {
            users: Vec::new(),
            lessons: Vec::new(),
            plans: Vec::new(),
            cards: Vec::new(),
            bookings: Vec::new(),
            usages: Vec::new(),
        };
        proof {
            assert(s@ =~= StoreView::empty());
        }
        s
    }

    /// Index of the user with this external identity, if any.
    fn find_user_index(&self, open_id: &String) -> (r: Option<usize>)
        ensures
            match r {
                Some(i) => i < self.users.len() && find_user(self@.users, open_id@) == Some(
                    i as int,
                ),
                None => find_user(self@.users, open_id@) is None,
            },
    {
        let mut i: usize = 0;
        let mut found: Option<usize> = None;
        while i < self.users.len()
            invariant
                i <= self.users.len(),
                match found {
                    Some(f) => f < i && find_user_upto(self@.users, open_id@, i as int) == Some(
                        f as int,
                    ),
                    None => find_user_upto(self@.users, open_id@, i as int) is None,
                },
            decreases self.users.len() - i,
        {
            proof {
                assert(self@.users[i as int] == self.users@[i as int]@);
            }
            if found.is_none() && self.users[i].open_id == *open_id {
                found = Some(i);
            }
            i += 1;
        }
        found
    }

    /// Index of the booking row for this (user, lesson) pair, if any.
    fn find_pair_index(&self, user_id: u64, lesson_id: u64) -> (r: Option<usize>)
        ensures
            match r {
                Some(i) => i < self.bookings.len() && find_pair(
                    self@.bookings,
                    user_id,
                    lesson_id,
                ) == Some(i as int),
                None => find_pair(self@.bookings, user_id, lesson_id) is None,
            },
    {
        let mut i: usize = 0;
        let mut found: Option<usize> = None;
        while i < self.bookings.len()
            invariant
                i <= self.bookings.len(),
                match found {
                    Some(f) => f < i && find_pair_upto(self@.bookings, user_id, lesson_id, i as int)
                        == Some(f as int),
                    None => find_pair_upto(self@.bookings, user_id, lesson_id, i as int) is None,
                },
            decreases self.bookings.len() - i,
        {
            if found.is_none() && self.bookings[i].user_id == user_id && self.bookings[i].lesson_id
                == lesson_id {
                found = Some(i);
            }
            i += 1;
        }
        found
    }

    /// Index of the outstanding debit row for this booking, if any.
    fn find_consume_index(&self, booking_id: u64) -> (r: Option<usize>)
        ensures
            match r {
                Some(i) => i < self.usages.len() && find_consume(self@.usages, booking_id) == Some(
                    i as int,
                ),
                None => find_consume(self@.usages, booking_id) is None,
            },
    {
        let mut i: usize = 0;
        let mut found: Option<usize> = None;
        while i < self.usages.len()
            invariant
                i <= self.usages.len(),
                match found {
                    Some(f) => f < i && find_consume_upto(self@.usages, booking_id, i as int)
                        == Some(f as int),
                    None => find_consume_upto(self@.usages, booking_id, i as int) is None,
                },
            decreases self.usages.len() - i,
        {
            if found.is_none() && self.usages[i].booking_id == booking_id && matches!(
                self.usages[i].usage_type,
                UsageType::Consume,
            ) {
                found = Some(i);
            }
            i += 1;
        }
        found
    }

    /// The live number of confirmed bookings for a lesson, recomputed from
    /// the booking rows on every call; it is never cached.
    pub fn confirmed_count_exec(&self, lesson_id: u64) -> (n: usize)
        ensures
            n as nat == confirmed_count(self@.bookings, lesson_id),
    {
        let mut i: usize = 0;
        let mut n: usize = 0;
        while i < self.bookings.len()
            invariant
                i <= self.bookings.len(),
                n <= i,
                n as nat == confirmed_count_upto(self@.bookings, lesson_id, i as int),
            decreases self.bookings.len() - i,
        {
            if self.bookings[i].lesson_id == lesson_id && matches!(
                self.bookings[i].status,
                BookingStatus::Confirmed,
            ) {
                n += 1;
            }
            i += 1;
        }
        n
    }

    /// Does a card's applicability list cover this lesson type?
    fn types_cover_exec(applicable: &Option<Vec<String>>, lesson_type: &String) -> (r: bool)
        ensures
            r == types_cover(opt_types_view(*applicable), lesson_type@),
    {
        match applicable {
            None => true,
            Some(ts) => {
                let ghost tsv = opt_types_view(*applicable)->0;
                proof {
                    assert(tsv.len() == ts@.len());
                }
                let mut j: usize = 0;
                while j < ts.len()
                    invariant
                        j <= ts.len(),
                        ts@.len() == tsv.len(),
                        opt_types_view(*applicable) == Some(tsv),
                        forall|x: int| 0 <= x < tsv.len() ==> tsv[x] == ts@[x]@,
                        forall|x: int| 0 <= x < j ==> tsv[x] != lesson_type@,
                    decreases ts.len() - j,
                {
                    if ts[j] == *lesson_type {
                        proof {
                            assert(tsv[j as int] == lesson_type@);
                            assert(tsv.contains(lesson_type@));
                        }
                        return true;
                    }
                    j += 1;
                }
                proof {
                    assert(!tsv.contains(lesson_type@));
                }
                false
            },
        }
    }

    /// Eligibility of one card: ownership, active status, non-expiry,
    /// lesson-type applicability and, for a count-based card, a strictly
    /// positive balance.
    pub fn card_eligible(card: &CardRec, user_id: u64, lesson_type: &String, now: i64) -> (r:
        bool)
        ensures
            r == eligible(card@, user_id, lesson_type@, now),
    {
        if card.user_id != user_id {
            return false;
        }
        if !matches!(card.status, CardStatus::Active) {
            return false;
        }
        if card.expires_at <= now {
            return false;
        }
        if !Self::types_cover_exec(&card.applicable_lesson_types, lesson_type) {
            return false;
        }
        match card.card_type {
            CardType::Unlimited => true,
            CardType::CountBased => match card.remaining_classes {
                Some(r) => r > 0,
                None => false,
            },
        }
    }

    /// Index of the card the engine debits: the eligible card expiring
    /// soonest (use-it-before-it-expires), the earlier row winning a tie.
    fn best_card_index(&self, user_id: u64, lesson_type: &String, now: i64) -> (r: Option<usize>)
        ensures
            match r {
                Some(i) => i < self.cards.len() && best_card(
                    self@.cards,
                    user_id,
                    lesson_type@,
                    now,
                ) == Some(i as int),
                None => best_card(self@.cards, user_id, lesson_type@, now) is None,
            },
    {
        let mut i: usize = 0;
        let mut best: Option<usize> = None;
        while i < self.cards.len()
            invariant
                i <= self.cards.len(),
                match best {
                    Some(b) => b < i && best_card_upto(
                        self@.cards,
                        user_id,
                        lesson_type@,
                        now,
                        i as int,
                    ) == Some(b as int),
                    None => best_card_upto(self@.cards, user_id, lesson_type@, now, i as int)
                        is None,
                },
            decreases self.cards.len() - i,
        {
            proof {
                assert(self@.cards[i as int] == self.cards@[i as int]@);
            }
            if Self::card_eligible(&self.cards[i], user_id, lesson_type, now) {
                best = match best {
                    None => Some(i),
                    Some(b) => if self.cards[i].expires_at < self.cards[b].expires_at {
                        Some(i)
                    } else {
                        Some(b)
                    },
                };
            }
            i += 1;
        }
        best
    }

    /// Registers a caller identity, or refreshes a known one: a new identity
    /// gets a fresh user row; a known identity keeps its row and id, and
    /// each profile field is overwritten only when a value is supplied.
    pub fn register(
        &mut self,
        open_id: &str,
        nick_name: Option<String>,
        avatar_url: Option<String>,
        phone: Option<String>,
    ) -> (r: u64)
        requires
            old(self).inv(),
            old(self)@.users.len() + 1 <= u64::MAX,
        ensures
            final(self)@ == register_tr(
                old(self)@,
                open_id@,
                opt_str_view(nick_name),
                opt_str_view(avatar_url),
                opt_str_view(phone),
            ).0,
            r == register_tr(
                old(self)@,
                open_id@,
                opt_str_view(nick_name),
                opt_str_view(avatar_url),
                opt_str_view(phone),
            ).1,
            final(self).inv(),
    {
        proof {
            lemma_register_preserves_inv(
                old(self)@,
                open_id@,
                opt_str_view(nick_name),
                opt_str_view(avatar_url),
                opt_str_view(phone),
            );
        }
        let oid = open_id.to_owned();
        match self.find_user_index(&oid) {
            Some(u) => {
                let mut tmp = UserRec {
                    id: 0,
                    open_id: String::new(),
                    nick_name: None,
                    avatar_url: None,
                    phone: None,
                };
                self.users.set_and_swap(u, &mut tmp);
                let rid = tmp.id;
                let updated = UserRec {
                    id: tmp.id,
                    open_id: tmp.open_id,
                    nick_name: match nick_name {
                        Some(v) => Some(v),
                        None => tmp.nick_name,
                    },
                    avatar_url: match avatar_url {
                        Some(v) => Some(v),
                        None => tmp.avatar_url,
                    },
                    phone: match phone {
                        Some(v) => Some(v),
                        None => tmp.phone,
                    },
                };
                self.users.set(u, updated);
                proof {
                    assert(self@ =~= register_tr(
                        old(self)@,
                        open_id@,
                        opt_str_view(nick_name),
                        opt_str_view(avatar_url),
                        opt_str_view(phone),
                    ).0);
                }
                rid
            },
            None => {
                let rid = self.users.len() as u64 + 1;
                self.users.push(
                    UserRec {
                        id: rid,
                        open_id: oid,
                        nick_name: nick_name,
                        avatar_url: avatar_url,
                        phone: phone,
                    },
                );
                proof {
                    assert(self@ =~= register_tr(
                        old(self)@,
                        open_id@,
                        opt_str_view(nick_name),
                        opt_str_view(avatar_url),
                        opt_str_view(phone),
                    ).0);
                }
                rid
            },
        }
    }

    /// Creates a lesson (admin tooling). The id field of the argument is
    /// ignored: the store assigns the next id.
    pub fn add_lesson(&mut self, lesson: LessonRec) -> (r: u64)
        requires
            old(self).inv(),
            old(self)@.lessons.len() + 1 <= u64::MAX,
        ensures
            final(self)@ == add_lesson_tr(old(self)@, lesson@).0,
            r == add_lesson_tr(old(self)@, lesson@).1,
            final(self).inv(),
    {
        proof {
            lemma_add_lesson_preserves_inv(old(self)@, lesson@);
        }
        let rid = self.lessons.len() as u64 + 1;
        self.lessons.push(
            LessonRec {
                id: rid,
                title: lesson.title,
                teacher_name: lesson.teacher_name,
                location_name: lesson.location_name,
                lesson_type: lesson.lesson_type,
                start_time: lesson.start_time,
                end_time: lesson.end_time,
                max_students: lesson.max_students,
                is_active: lesson.is_active,
            },
        );
        proof {
            assert(self@ =~= add_lesson_tr(old(self)@, lesson@).0);
        }
        rid
    }

    /// Creates a membership plan (admin tooling). A count-based plan must
    /// state how many classes it sells; an unlimited one must state none.
    /// The id field of the argument is ignored: the store assigns the next
    /// id.
    pub fn add_plan(&mut self, plan: PlanRec) -> (r: u64)
        requires
            old(self).inv(),
            old(self)@.plans.len() + 1 <= u64::MAX,
            match plan.card_type {
                CardType::CountBased => plan.total_classes is Some,
                CardType::Unlimited => plan.total_classes is None,
            },
        ensures
            final(self)@ == add_plan_tr(old(self)@, plan@).0,
            r == add_plan_tr(old(self)@, plan@).1,
            final(self).inv(),
    {
        proof {
            lemma_add_plan_preserves_inv(old(self)@, plan@);
        }
        let rid = self.plans.len() as u64 + 1;
        self.plans.push(
            PlanRec {
                id: rid,
                name: plan.name,
                card_type: plan.card_type,
                validity_days: plan.validity_days,
                total_classes: plan.total_classes,
                price_cents: plan.price_cents,
                applicable_lesson_types: plan.applicable_lesson_types,
                max_bookings_per_day: plan.max_bookings_per_day,
                is_active: plan.is_active,
            },
        );
        proof {
            assert(self@ =~= add_plan_tr(old(self)@, plan@).0);
        }
        rid
    }

    /// Purchases a card from a plan: the plan's terms are copied onto a
    /// fresh card, a count-based card starts with its full balance, and the
    /// card expires after the plan's validity period. Payment handling
    /// (amount paid, discount) stays with the embedding's billing; the card
    /// itself records none of it.
    pub fn purchase(&mut self, open_id: &str, plan_id: u64, now: i64) -> (r: Result<
        u64,
        PurchaseError,
    >)
        requires
            old(self).inv(),
            old(self)@.cards.len() + 1 <= u64::MAX,
        ensures
            final(self)@ == purchase_tr(old(self)@, open_id@, plan_id, now).0,
            r == purchase_tr(old(self)@, open_id@, plan_id, now).1,
            final(self).inv(),
    {
        proof {
            lemma_purchase_preserves_inv(old(self)@, open_id@, plan_id, now);
        }
        let oid = open_id.to_owned();
        let u = match self.find_user_index(&oid) {
            None => {
                return Err(PurchaseError::UserNotFound);
            },
            Some(u) => u,
        };
        if plan_id < 1 || plan_id > self.plans.len() as u64 {
            return Err(PurchaseError::PlanNotFound);
        }
        let pi = (plan_id - 1) as usize;
        if !self.plans[pi].is_active {
            return Err(PurchaseError::PlanNotFound);
        }
        proof {
            assert(self@.plans[pi as int] == self.plans@[pi as int]@);
        }
        let user_id = self.users[u].id;
        let card_id = self.cards.len() as u64 + 1;
        let number = card_number(card_id);
        let plan_name = self.plans[pi].name.clone();
        let types = Self::clone_opt_strings(&self.plans[pi].applicable_lesson_types);
        let total = self.plans[pi].total_classes;
        let ctype = self.plans[pi].card_type;
        let validity = self.plans[pi].validity_days;
        let grace = (validity as i64) * 86400;
        let expires = if now > i64::MAX - grace {
            i64::MAX
        } else {
            now + grace
        };
        let remaining = if matches!(ctype, CardType::CountBased) {
            total
        } else {
            None
        };
        self.cards.push(
            CardRec {
                id: card_id,
                user_id: user_id,
                plan_id: plan_id,
                plan_name: plan_name,
                card_number: number,
                card_type: ctype,
                status: CardStatus::Active,
                total_classes: total,
                remaining_classes: remaining,
                applicable_lesson_types: types,
                activated_at: now,
                expires_at: expires,
            },
        );
        proof {
            assert(self@ =~= purchase_tr(old(self)@, open_id@, plan_id, now).0);
        }
        Ok(card_id)
    }

    /// A placeholder card record, used only to swap a card out of the table
    /// while its balance is rewritten.
    fn blank_card() -> CardRec {
        CardRec {
            id: 0,
            user_id: 0,
            plan_id: 0,
            plan_name: String::new(),
            card_number: String::new(),
            card_type: CardType::Unlimited,
            status: CardStatus::Active,
            total_classes: None,
            remaining_classes: None,
            applicable_lesson_types: None,
            activated_at: 0,
            expires_at: 0,
        }
    }

    /// Books one seat in a lesson as one atomic operation: resolve the
    /// caller, check the lesson and its live confirmed count, pick the
    /// eligible card expiring soonest, debit it, record the debit in the
    /// ledger, and confirm the booking row for the pair (inserting one if
    /// absent). Any failure leaves the store untouched. Booking a lesson the
    /// caller already holds confirmed is an idempotent success: it returns
    /// the existing booking id and debits nothing.
    pub fn book(&mut self, lesson_id: u64, open_id: &str, now: i64) -> (r: Result<u64, BookError>)
        requires
            old(self).inv(),
            old(self)@.bookings.len() + 1 <= u64::MAX,
            old(self)@.usages.len() + 1 <= u64::MAX,
        ensures
            final(self)@ == book_tr(old(self)@, lesson_id, open_id@, now).0,
            r == book_tr(old(self)@, lesson_id, open_id@, now).1,
            final(self).inv(),
    {
        proof {
            lemma_book_preserves_inv(old(self)@, lesson_id, open_id@, now);
        }
        let oid = open_id.to_owned();
        let u = match self.find_user_index(&oid) {
            None => {
                return Err(BookError::UserNotFound);
            },
            Some(u) => u,
        };
        proof {
            assert(self@.users[u as int] == self.users@[u as int]@);
        }
        let user_id = self.users[u].id;
        if lesson_id < 1 || lesson_id > self.lessons.len() as u64 {
            return Err(BookError::LessonNotFound);
        }
        let li = (lesson_id - 1) as usize;
        proof {
            assert(self@.lessons[li as int] == self.lessons@[li as int]@);
        }
        if !self.lessons[li].is_active {
            return Err(BookError::LessonNotFound);
        }
        let pair = self.find_pair_index(user_id, lesson_id);
        if let Some(k) = pair {
            if matches!(self.bookings[k].status, BookingStatus::Confirmed) {
                return Ok(self.bookings[k].id);
            }
        }
        let count = self.confirmed_count_exec(lesson_id);
        if count >= self.lessons[li].max_students as usize {
            return Err(BookError::LessonFull);
        }
        let c = match self.best_card_index(user_id, &self.lessons[li].lesson_type, now) {
            None => {
                return Err(BookError::NoValidMembership);
            },
            Some(c) => c,
        };
        proof {
            lemma_best_card_char(
                self@.cards,
                user_id,
                self@.lessons[li as int].lesson_type,
                now,
                self@.cards.len() as int,
            );
            assert(self@.cards[c as int] == self.cards@[c as int]@);
            assert(old(self)@.cards[c as int].wf());
        }
        let card_id = self.cards[c].id;
        let is_count = matches!(self.cards[c].card_type, CardType::CountBased);
        let new_rem: Option<u32> = if is_count {
            Some(self.cards[c].remaining_classes.unwrap() - 1)
        } else {
            None
        };
        if is_count {
            let mut ctmp = Self::blank_card();
            self.cards.set_and_swap(c, &mut ctmp);
            let updated = CardRec {
                id: ctmp.id,
                user_id: ctmp.user_id,
                plan_id: ctmp.plan_id,
                plan_name: ctmp.plan_name,
                card_number: ctmp.card_number,
                card_type: ctmp.card_type,
                status: ctmp.status,
                total_classes: ctmp.total_classes,
                remaining_classes: new_rem,
                applicable_lesson_types: ctmp.applicable_lesson_types,
                activated_at: ctmp.activated_at,
                expires_at: ctmp.expires_at,
            };
            self.cards.set(c, updated);
        }
        proof {
            assert(self@.cards =~= old(self)@.cards.update(
                c as int,
                crate::state::debited_card(old(self)@.cards[c as int]),
            ));
        }
        let bid: u64;
        match pair {
            Some(k) => {
                let b = self.bookings[k];
                bid = b.id;
                self.bookings.set(
                    k,
                    BookingRec {
                        id: b.id,
                        user_id: b.user_id,
                        lesson_id: b.lesson_id,
                        status: BookingStatus::Confirmed,
                        booking_time: now,
                    },
                );
            },
            None => {
                bid = self.bookings.len() as u64 + 1;
                self.bookings.push(
                    BookingRec {
                        id: bid,
                        user_id: user_id,
                        lesson_id: lesson_id,
                        status: BookingStatus::Confirmed,
                        booking_time: now,
                    },
                );
            },
        }
        let row_id = self.usages.len() as u64 + 1;
        self.usages.push(
            UsageRec {
                id: row_id,
                user_card_id: card_id,
                booking_id: bid,
                lesson_id: lesson_id,
                user_id: user_id,
                usage_type: UsageType::Consume,
                classes_consumed: if is_count {
                    1
                } else {
                    0
                },
                remaining_after: new_rem,
                used_at: now,
            },
        );
        proof {
            assert(self@ =~= book_tr(old(self)@, lesson_id, open_id@, now).0);
        }
        Ok(bid)
    }

    /// Cancels a booking as one atomic operation: only the owner of a
    /// booking that is currently confirmed may cancel it; the booking row is
    /// flipped to cancelled, and if an outstanding debit row exists for it,
    /// the debited card is credited back exactly what was consumed (clamped
    /// at the card's total) and the row is marked as a refund. A missing
    /// debit row is not an error: the refund is best-effort. A booking that
    /// does not exist, is already cancelled, or belongs to someone else
    /// fails identically, so callers cannot probe for foreign bookings.
    pub fn cancel(&mut self, booking_id: u64, open_id: &str) -> (r: Result<u64, CancelError>)
        requires
            old(self).inv(),
        ensures
            final(self)@ == cancel_tr(old(self)@, booking_id, open_id@).0,
            r == cancel_tr(old(self)@, booking_id, open_id@).1,
            final(self).inv(),
    {
        proof {
            lemma_cancel_preserves_inv(old(self)@, booking_id, open_id@);
        }
        let oid = open_id.to_owned();
        let u = match self.find_user_index(&oid) {
            None => {
                return Err(CancelError::BookingNotFound);
            },
            Some(u) => u,
        };
        proof {
            assert(self@.users[u as int] == self.users@[u as int]@);
        }
        let user_id = self.users[u].id;
        if booking_id < 1 || booking_id > self.bookings.len() as u64 {
            return Err(CancelError::BookingNotFound);
        }
        let k = (booking_id - 1) as usize;
        let b = self.bookings[k];
        if b.user_id != user_id || !matches!(b.status, BookingStatus::Confirmed) {
            return Err(CancelError::BookingNotFound);
        }
        self.bookings.set(
            k,
            BookingRec {
                id: b.id,
                user_id: b.user_id,
                lesson_id: b.lesson_id,
                status: BookingStatus::Cancelled,
                booking_time: b.booking_time,
            },
        );
        match self.find_consume_index(booking_id) {
            None => {
                proof {
                    assert(self@ =~= cancel_tr(old(self)@, booking_id, open_id@).0);
                }
                Ok(booking_id)
            },
            Some(ui) => {
                let row = self.usages[ui];
                let clen = self.cards.len();
                proof {
                    assert(old(self)@.usages[ui as int] == row);
                    assert(1 <= row.user_card_id as int <= old(self)@.cards.len());
                    assert(self@.cards == old(self)@.cards);
                    assert(clen as int == self@.cards.len());
                    assert(1 <= row.user_card_id as int <= clen as int);
                }
                let ci = (row.user_card_id - 1) as usize;
                proof {
                    assert(ci as int == row.user_card_id as int - 1);
                }
                proof {
                    assert(self@.cards[ci as int] == self.cards@[ci as int]@);
                    assert(old(self)@.cards[ci as int].wf());
                }
                let is_count = matches!(self.cards[ci].card_type, CardType::CountBased);
                if is_count {
                    let rem = self.cards[ci].remaining_classes.unwrap();
                    let total = self.cards[ci].total_classes.unwrap();
                    let sum = rem as u64 + row.classes_consumed as u64;
                    let newv: u32 = if sum <= total as u64 {
                        sum as u32
                    } else {
                        total
                    };
                    let mut ctmp = Self::blank_card();
                    self.cards.set_and_swap(ci, &mut ctmp);
                    let updated = CardRec {
                        id: ctmp.id,
                        user_id: ctmp.user_id,
                        plan_id: ctmp.plan_id,
                        plan_name: ctmp.plan_name,
                        card_number: ctmp.card_number,
                        card_type: ctmp.card_type,
                        status: ctmp.status,
                        total_classes: ctmp.total_classes,
                        remaining_classes: Some(newv),
                        applicable_lesson_types: ctmp.applicable_lesson_types,
                        activated_at: ctmp.activated_at,
                        expires_at: ctmp.expires_at,
                    };
                    self.cards.set(ci, updated);
                }
                self.usages.set(
                    ui,
                    UsageRec {
                        id: row.id,
                        user_card_id: row.user_card_id,
                        booking_id: row.booking_id,
                        lesson_id: row.lesson_id,
                        user_id: row.user_id,
                        usage_type: UsageType::Refund,
                        classes_consumed: row.classes_consumed,
                        remaining_after: row.remaining_after,
                        used_at: row.used_at,
                    },
                );
                proof {
                    assert(self@ =~= cancel_tr(old(self)@, booking_id, open_id@).0);
                }
                Ok(booking_id)
            },
        }
    }

    /// Number of user rows.
    pub fn users_len(&self) -> (n: usize)
        ensures
            n == self@.users.len(),
    {
        self.users.len()
    }

    /// Number of lesson rows.
    pub fn lessons_len(&self) -> (n: usize)
        ensures
            n == self@.lessons.len(),
    {
        self.lessons.len()
    }

    /// Number of plan rows.
    pub fn plans_len(&self) -> (n: usize)
        ensures
            n == self@.plans.len(),
    {
        self.plans.len()
    }

    /// Number of card rows.
    pub fn cards_len(&self) -> (n: usize)
        ensures
            n == self@.cards.len(),
    {
        self.cards.len()
    }

    /// Number of booking rows.
    pub fn bookings_len(&self) -> (n: usize)
        ensures
            n == self@.bookings.len(),
    {
        self.bookings.len()
    }

    /// Number of usage-ledger rows.
    pub fn usages_len(&self) -> (n: usize)
        ensures
            n == self@.usages.len(),
    {
        self.usages.len()
    }

    /// The lesson at a row index.
    pub fn lesson_at(&self, i: usize) -> (l: &LessonRec)
        requires
            i < self@.lessons.len(),
        ensures
            l@ == self@.lessons[i as int],
    {
        proof {
            assert(self@.lessons[i as int] == self.lessons@[i as int]@);
        }
        &self.lessons[i]
    }

    /// The user at a row index.
    pub fn user_at(&self, i: usize) -> (u: &UserRec)
        requires
            i < self@.users.len(),
        ensures
            u@ == self@.users[i as int],
    {
        proof {
            assert(self@.users[i as int] == self.users@[i as int]@);
        }
        &self.users[i]
    }

    /// The plan at a row index.
    pub fn plan_at(&self, i: usize) -> (p: &PlanRec)
        requires
            i < self@.plans.len(),
        ensures
            p@ == self@.plans[i as int],
    {
        proof {
            assert(self@.plans[i as int] == self.plans@[i as int]@);
        }
        &self.plans[i]
    }

    /// The card at a row index.
    pub fn card_at(&self, i: usize) -> (c: &CardRec)
        requires
            i < self@.cards.len(),
        ensures
            c@ == self@.cards[i as int],
    {
        proof {
            assert(self@.cards[i as int] == self.cards@[i as int]@);
        }
        &self.cards[i]
    }

    /// The booking row at a row index.
    pub fn booking_at(&self, i: usize) -> (b: BookingRec)
        requires
            i < self@.bookings.len(),
        ensures
            b == self@.bookings[i as int],
    {
        self.bookings[i]
    }

    /// The usage-ledger row at a row index.
    pub fn usage_at(&self, i: usize) -> (u: UsageRec)
        requires
            i < self@.usages.len(),
        ensures
            u == self@.usages[i as int],
    {
        self.usages[i]
    }

    /// The capacity of a lesson, or nothing when the lesson is missing or
    /// inactive.
    pub fn capacity(&self, lesson_id: u64) -> (r: Option<u32>)
        ensures
            r == (if 1 <= lesson_id as int <= self@.lessons.len()
                && self@.lessons[lesson_id as int - 1].is_active {
                Some(self@.lessons[lesson_id as int - 1].max_students)
            } else {
                None::<u32>
            }),
    {
        if lesson_id < 1 || lesson_id > self.lessons.len() as u64 {
            return None;
        }
        let li = (lesson_id - 1) as usize;
        proof {
            assert(self@.lessons[li as int] == self.lessons@[li as int]@);
        }
        if !self.lessons[li].is_active {
            return None;
        }
        Some(self.lessons[li].max_students)
    }

    /// The card the ledger would debit for this caller and lesson type: the
    /// eligible card expiring soonest, if the caller holds any.
    pub fn find_eligible_card(&self, open_id: &str, lesson_type: &String, now: i64) -> (r: Option<
        u64,
    >)
        ensures
            r == (match crate::state::user_id_of(self@, open_id@) {
                Some(uid) => match best_card(self@.cards, uid, lesson_type@, now) {
                    Some(c) => Some(self@.cards[c].id),
                    None => None::<u64>,
                },
                None => None::<u64>,
            }),
    {
        let oid = open_id.to_owned();
        match self.find_user_index(&oid) {
            None => None,
            Some(u) => {
                proof {
                    assert(self@.users[u as int] == self.users@[u as int]@);
                }
                let user_id = self.users[u].id;
                match self.best_card_index(user_id, lesson_type, now) {
                    None => None,
                    Some(c) => {
                        proof {
                            assert(self@.cards[c as int] == self.cards@[c as int]@);
                        }
                        Some(self.cards[c].id)
                    },
                }
            },
        }
    }

    /// Resolves an external identity to the internal user id, if known.
    pub fn user_id_by_open_id(&self, open_id: &str) -> (r: Option<u64>)
        ensures
            r == crate::state::user_id_of(self@, open_id@),
    {
        let oid = open_id.to_owned();
        match self.find_user_index(&oid) {
            Some(u) => {
                proof {
                    assert(self@.users[u as int] == self.users@[u as int]@);
                }
                Some(self.users[u].id)
            },
            None => None,
        }
    }

    /// The booking row held by a user for a lesson, whatever its status, if
    /// one exists.
    pub fn user_booking_for(&self, user_id: u64, lesson_id: u64) -> (r: Option<BookingRec>)
        ensures
            match find_pair(self@.bookings, user_id, lesson_id) {
                Some(k) => r == Some(self@.bookings[k]),
                None => r is None,
            },
    {
        match self.find_pair_index(user_id, lesson_id) {
            Some(k) => Some(self.bookings[k]),
            None => None,
        }
    }

    /// Clones an optional list of lesson-type tags.
    pub(crate) fn clone_opt_strings(o: &Option<Vec<String>>) -> (r: Option<Vec<String>>)
        ensures
            opt_types_view(r) == opt_types_view(*o),
    {
        match o {
            None => None,
            Some(v) => {
                let mut out: Vec<String> = Vec::new();
                let mut i: usize = 0;
                while i < v.len()
                    invariant
                        i <= v.len(),
                        out@.len() == i as nat,
                        forall|j: int| 0 <= j < i ==> (#[trigger] out@[j])@ == v@[j]@,
                    decreases v.len() - i,
                {
                    out.push(v[i].clone());
                    i += 1;
                }
                proof {
                    assert(opt_types_view(Some(out)) == opt_types_view(*o)) by {
                        assert(out@.map_values(|s: String| s@) =~= v@.map_values(
                            |s: String| s@,
                        ));
                    }
                }
                Some(out)
            },
        }
    }
}

} // verus!
