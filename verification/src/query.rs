//! The booking query service: the read path that joins lesson, booking and
//! membership state for the listing UI. It enforces no invariant of its own,
//! but its seat counting is the same function the booking engine checks
//! against, so the UI can never show availability the engine would reject.

use vstd::prelude::*;
use crate::domain::{BookingStatus, CardRec, CardStatus, CardView, LessonView, PlanRec, PlanView,
    UsageRec, UsageType, opt_str_view};
use crate::state::{confirmed_count, find_pair, find_user, user_id_of, StoreView};
use crate::store::Store;

verus! {

/// One lesson as the listing UI sees it: the lesson's own fields, the
/// computed number of confirmed bookings, and whether the requesting caller
/// holds a confirmed booking in it.
pub struct LessonWithBookingInfo {
    pub id: u64,
    pub title: String,
    pub teacher_name: Option<String>,
    pub location_name: Option<String>,
    pub start_time: i64,
    pub end_time: i64,
    pub date_time: i64,
    pub max_students: u32,
    pub current_students: u64,
    pub is_booked: bool,
    pub booking_id: Option<u64>,
}

/// Mathematical view of one listing entry.
#[verifier::ext_equal]
pub struct LessonInfoView {
    pub id: u64,
    pub title: Seq<char>,
    pub teacher_name: Option<Seq<char>>,
    pub location_name: Option<Seq<char>>,
    pub start_time: i64,
    pub end_time: i64,
    pub date_time: i64,
    pub max_students: u32,
    pub current_students: u64,
    pub is_booked: bool,
    pub booking_id: Option<u64>,
}

impl View for LessonWithBookingInfo {
    type V = LessonInfoView;

    open spec fn view(&self) -> LessonInfoView {
        LessonInfoView {
            id: self.id,
            title: self.title@,
            teacher_name: opt_str_view(self.teacher_name),
            location_name: opt_str_view(self.location_name),
            start_time: self.start_time,
            end_time: self.end_time,
            date_time: self.date_time,
            max_students: self.max_students,
            current_students: self.current_students,
            is_booked: self.is_booked,
            booking_id: self.booking_id,
        }
    }
}

/// The listing window: active lessons starting between the window start and
/// fourteen days after it.
pub open spec fn in_window(l: LessonView, window_start: i64) -> bool {
    &&& l.is_active
    &&& l.start_time >= window_start
    &&& l.start_time <= window_start + 14 * 86400
}

/// A new listing entry's place among earlier ones: before the first entry
/// starting strictly later, so lessons starting together keep their row
/// order.
pub open spec fn insert_by_start(xs: Seq<LessonInfoView>, x: LessonInfoView) -> Seq<
    LessonInfoView,
>
    decreases xs.len(),
{
    if xs.len() == 0 {
        seq![x]
    } else if x.start_time < xs.first().start_time {
        seq![x] + xs
    } else {
        seq![xs.first()] + insert_by_start(xs.drop_first(), x)
    }
}

/// The listing built from the first `n` lesson rows: every lesson inside the
/// window, placed in ascending order of start time.
pub open spec fn listing_upto(
    s: StoreView,
    window_start: i64,
    user_id: Option<u64>,
    n: int,
) -> Seq<LessonInfoView>
    recommends
        0 <= n <= s.lessons.len(),
    decreases n,
{
    if n <= 0 {
        Seq::empty()
    } else {
        let p = listing_upto(s, window_start, user_id, n - 1);
        if in_window(s.lessons[n - 1], window_start) {
            insert_by_start(p, info_of(s, n - 1, user_id))
        } else {
            p
        }
    }
}

/// The whole listing: the lessons of the window, ascending by start time.
pub open spec fn listing_of(s: StoreView, window_start: i64, user_id: Option<u64>) -> Seq<
    LessonInfoView,
> {
    listing_upto(s, window_start, user_id, s.lessons.len() as int)
}

/// Entries in ascending order of start time.
pub open spec fn sorted_by_start(xs: Seq<LessonInfoView>) -> bool {
    forall|i: int, j: int| 0 <= i <= j < xs.len() ==> xs[i].start_time <= xs[j].start_time
}

/// Where the recursive placement puts the new entry: at the first position
/// whose entry starts strictly later.
proof fn lemma_insert_by_start_at(xs: Seq<LessonInfoView>, x: LessonInfoView, p: int)
    requires
        0 <= p <= xs.len(),
        forall|q: int| 0 <= q < p ==> !(x.start_time < (#[trigger] xs[q]).start_time),
        p < xs.len() ==> x.start_time < xs[p].start_time,
    ensures
        insert_by_start(xs, x) == xs.subrange(0, p) + seq![x] + xs.subrange(p, xs.len() as int),
    decreases xs.len(),
{
    if xs.len() == 0 || p == 0 {
        assert(insert_by_start(xs, x) =~= xs.subrange(0, p) + seq![x] + xs.subrange(
            p,
            xs.len() as int,
        ));
    } else {
        assert(forall|q: int|
            0 <= q < p - 1 ==> !(x.start_time < (#[trigger] xs.drop_first()[q]).start_time));
        lemma_insert_by_start_at(xs.drop_first(), x, p - 1);
        assert(insert_by_start(xs, x) =~= xs.subrange(0, p) + seq![x] + xs.subrange(
            p,
            xs.len() as int,
        ));
    }
}

/// What the recursive placement holds: one more entry, and exactly the old
/// entries plus the new one.
proof fn lemma_insert_by_start_elems(xs: Seq<LessonInfoView>, x: LessonInfoView)
    ensures
        insert_by_start(xs, x).len() == xs.len() + 1,
        forall|y: LessonInfoView|
            #[trigger] insert_by_start(xs, x).contains(y) <==> xs.contains(y) || y == x,
    decreases xs.len(),
{
    if xs.len() == 0 {
        assert forall|y: LessonInfoView| #[trigger] insert_by_start(xs, x).contains(y) <==> xs
            .contains(y) || y == x by {
            if y == x {
                assert(insert_by_start(xs, x)[0] == y);
                assert(insert_by_start(xs, x).contains(y));
            }
        }
    } else if x.start_time < xs.first().start_time {
        let r = seq![x] + xs;
        assert forall|y: LessonInfoView| #[trigger] r.contains(y) <==> xs.contains(y) || y
            == x by {
            if y == x {
                assert(r[0] == y);
            }
            if xs.contains(y) {
                let w = choose|w: int| 0 <= w < xs.len() && xs[w] == y;
                assert(r[w + 1] == y);
            }
            if r.contains(y) && y != x {
                let w = choose|w: int| 0 <= w < r.len() && r[w] == y;
                assert(xs[w - 1] == y);
            }
        }
    } else {
        lemma_insert_by_start_elems(xs.drop_first(), x);
        let rec = insert_by_start(xs.drop_first(), x);
        let r = seq![xs.first()] + rec;
        assert(insert_by_start(xs, x) == r);
        assert forall|y: LessonInfoView| #[trigger] r.contains(y) <==> xs.contains(y) || y
            == x by {
            if y == xs.first() {
                assert(r[0] == y);
                assert(xs[0] == y);
            }
            if xs.contains(y) && y != xs.first() {
                let w = choose|w: int| 0 <= w < xs.len() && xs[w] == y;
                assert(xs.drop_first()[w - 1] == y);
                assert(xs.drop_first().contains(y));
                assert(rec.contains(y));
                let v = choose|v: int| 0 <= v < rec.len() && rec[v] == y;
                assert(r[v + 1] == y);
            }
            if y == x {
                assert(rec.contains(y));
                let v = choose|v: int| 0 <= v < rec.len() && rec[v] == y;
                assert(r[v + 1] == y);
            }
            if r.contains(y) && y != x && y != xs.first() {
                let w = choose|w: int| 0 <= w < r.len() && r[w] == y;
                assert(rec[w - 1] == y);
                assert(rec.contains(y));
                assert(xs.drop_first().contains(y));
                let v = choose|v: int| 0 <= v < xs.drop_first().len() && xs.drop_first()[v] == y;
                assert(xs[v + 1] == y);
            }
        }
    }
}

/// The listing is complete and nothing more: it holds the entry of every
/// lesson inside the window among the first `n` rows, every entry in it is
/// such a lesson's entry, and it has one entry per lesson in the window.
pub proof fn lemma_listing_complete(s: StoreView, window_start: i64, user_id: Option<u64>, n: int)
    requires
        0 <= n <= s.lessons.len(),
    ensures
        forall|l: int|
            0 <= l < n && in_window(#[trigger] s.lessons[l], window_start) ==> listing_upto(
                s,
                window_start,
                user_id,
                n,
            ).contains(info_of(s, l, user_id)),
        forall|y: LessonInfoView|
            #[trigger] listing_upto(s, window_start, user_id, n).contains(y) ==> exists|l: int|
                0 <= l < n && in_window(#[trigger] s.lessons[l], window_start) && y == info_of(
                    s,
                    l,
                    user_id,
                ),
    decreases n,
{
    if n > 0 {
        lemma_listing_complete(s, window_start, user_id, n - 1);
        if in_window(s.lessons[n - 1], window_start) {
            lemma_insert_by_start_elems(
                listing_upto(s, window_start, user_id, n - 1),
                info_of(s, n - 1, user_id),
            );
        }
    }
}

/// The listing entry for one lesson row, as seen by the caller with the
/// given resolved user id. The seat count is the engine's own live count,
/// and the caller's booking is reported only while it is confirmed.
pub open spec fn info_of(s: StoreView, l: int, user_id: Option<u64>) -> LessonInfoView {
    let lesson = s.lessons[l];
    let pair = match user_id {
        Some(uid) => find_pair(s.bookings, uid, lesson.id),
        None => None,
    };
    let booked = match pair {
        Some(k) => s.bookings[k].status == BookingStatus::Confirmed,
        None => false,
    };
    LessonInfoView {
        id: lesson.id,
        title: lesson.title,
        teacher_name: lesson.teacher_name,
        location_name: lesson.location_name,
        start_time: lesson.start_time,
        end_time: lesson.end_time,
        date_time: lesson.start_time,
        max_students: lesson.max_students,
        current_students: confirmed_count(s.bookings, lesson.id) as u64,
        is_booked: booked,
        booking_id: if booked {
            Some(s.bookings[pair->0].id)
        } else {
            None
        },
    }
}

/// Clones an optional string.
fn clone_opt_string(o: &Option<String>) -> (r: Option<String>)
    ensures
        opt_str_view(r) == opt_str_view(*o),
{
    match o {
        None => None,
        Some(s) => Some(s.clone()),
    }
}

/// Lists the lessons of the next fourteen days in ascending order of start
/// time, with their live seat counts and the caller's own booking status,
/// computed with the very counting function the booking engine checks
/// against.
pub fn lessons_with_booking_status(store: &Store, window_start: i64, open_id: &str) -> (r: Vec<
    LessonWithBookingInfo,
>)
    requires
        window_start + 14 * 86400 <= i64::MAX,
    ensures
        ({
            let entries = r@.map_values(|e: LessonWithBookingInfo| e@);
            &&& entries == listing_of(store@, window_start, user_id_of(store@, open_id@))
            &&& sorted_by_start(entries)
        }),
{
    let uid = store.user_id_by_open_id(open_id);
    let window_end = window_start + 14 * 86400;
    let n = store.lessons_len();
    let mut out: Vec<LessonWithBookingInfo> = Vec::new();
    let mut i: usize = 0;
    while i < n
        invariant
            i <= n,
            n == store@.lessons.len(),
            uid == user_id_of(store@, open_id@),
            window_end == window_start + 14 * 86400,
            out@.map_values(|e: LessonWithBookingInfo| e@) == listing_upto(
                store@,
                window_start,
                uid,
                i as int,
            ),
            sorted_by_start(out@.map_values(|e: LessonWithBookingInfo| e@)),
        decreases n - i,
    {
        let ghost xs = out@.map_values(|e: LessonWithBookingInfo| e@);
        let l = store.lesson_at(i);
        if l.is_active && l.start_time >= window_start && l.start_time <= window_end {
            let count = store.confirmed_count_exec(l.id);
            let mut booked: bool = false;
            let mut booking_id: Option<u64> = None;
            if let Some(x) = uid {
                if let Some(b) = store.user_booking_for(x, l.id) {
                    if matches!(b.status, BookingStatus::Confirmed) {
                        booked = true;
                        booking_id = Some(b.id);
                    }
                }
            }
            let entry = LessonWithBookingInfo {
                id: l.id,
                title: l.title.clone(),
                teacher_name: clone_opt_string(&l.teacher_name),
                location_name: clone_opt_string(&l.location_name),
                start_time: l.start_time,
                end_time: l.end_time,
                date_time: l.start_time,
                max_students: l.max_students,
                current_students: count as u64,
                is_booked: booked,
                booking_id: booking_id,
            };
            proof {
                assert(entry@ =~= info_of(store@, i as int, uid));
            }
            // the new entry goes before the first one starting strictly
            // later, keeping the listing sorted.
            let mut p: usize = 0;
            while p < out.len() && out[p].start_time <= entry.start_time
                invariant
                    p <= out.len(),
                    xs == out@.map_values(|e: LessonWithBookingInfo| e@),
                    forall|q: int|
                        0 <= q < p ==> !(entry.start_time < (#[trigger] xs[q]).start_time),
                decreases out.len() - p,
            {
                p += 1;
            }
            proof {
                lemma_insert_by_start_at(xs, entry@, p as int);
            }
            out.insert(p, entry);
            proof {
                assert(out@.map_values(|e: LessonWithBookingInfo| e@) =~= insert_by_start(
                    xs,
                    entry@,
                ));
                assert(sorted_by_start(out@.map_values(|e: LessonWithBookingInfo| e@))) by {
                    assert(forall|q: int| 0 <= q < p ==> !(entry@.start_time < (#[trigger] xs[
                        q]).start_time));
                }
            }
        }
        i += 1;
    }
    out
}

/// One usage-ledger row as the UI sees it: the row itself joined with the
/// lesson's title and teacher and the card's number. Rows come newest
/// first.
pub struct MembershipCardUsageWithDetails {
    pub id: u64,
    pub lesson_title: String,
    pub lesson_start_time: i64,
    pub teacher_name: Option<String>,
    pub usage_type: UsageType,
    pub classes_consumed: u32,
    pub used_at: i64,
    pub remaining_classes_after: Option<u32>,
    pub card_number: Option<String>,
}

/// Mathematical view of one usage detail entry.
#[verifier::ext_equal]
pub struct UsageDetailView {
    pub id: u64,
    pub lesson_title: Seq<char>,
    pub lesson_start_time: i64,
    pub teacher_name: Option<Seq<char>>,
    pub usage_type: UsageType,
    pub classes_consumed: u32,
    pub used_at: i64,
    pub remaining_classes_after: Option<u32>,
    pub card_number: Option<Seq<char>>,
}

impl View for MembershipCardUsageWithDetails {
    type V = UsageDetailView;

    open spec fn view(&self) -> UsageDetailView {
        UsageDetailView {
            id: self.id,
            lesson_title: self.lesson_title@,
            lesson_start_time: self.lesson_start_time,
            teacher_name: opt_str_view(self.teacher_name),
            usage_type: self.usage_type,
            classes_consumed: self.classes_consumed,
            used_at: self.used_at,
            remaining_classes_after: self.remaining_classes_after,
            card_number: opt_str_view(self.card_number),
        }
    }
}

/// Does this ledger row belong to the user, and to the card the caller asked
/// about (no filter means every card)?
pub open spec fn usage_selected(row: UsageRec, user_id: u64, card: Option<u64>) -> bool {
    row.user_id == user_id && match card {
        Some(cid) => row.user_card_id == cid,
        None => true,
    }
}

/// A new usage entry's place among earlier ones: before the first entry used
/// strictly earlier, so the listing comes newest first and rows used at the
/// same instant keep their row order.
pub open spec fn insert_by_used_at(xs: Seq<UsageDetailView>, x: UsageDetailView) -> Seq<
    UsageDetailView,
>
    decreases xs.len(),
{
    if xs.len() == 0 {
        seq![x]
    } else if x.used_at > xs.first().used_at {
        seq![x] + xs
    } else {
        seq![xs.first()] + insert_by_used_at(xs.drop_first(), x)
    }
}

/// The usage listing built from the first `n` ledger rows: every selected
/// row, placed in descending order of its instant.
pub open spec fn usage_listing_upto(
    s: StoreView,
    user_id: u64,
    card: Option<u64>,
    n: int,
) -> Seq<UsageDetailView>
    recommends
        0 <= n <= s.usages.len(),
    decreases n,
{
    if n <= 0 {
        Seq::empty()
    } else {
        let p = usage_listing_upto(s, user_id, card, n - 1);
        if usage_selected(s.usages[n - 1], user_id, card) {
            insert_by_used_at(p, usage_detail_of(s, n - 1))
        } else {
            p
        }
    }
}

/// The whole usage listing: the selected ledger rows, newest first.
pub open spec fn usage_listing_of(s: StoreView, user_id: u64, card: Option<u64>) -> Seq<
    UsageDetailView,
> {
    usage_listing_upto(s, user_id, card, s.usages.len() as int)
}

/// Entries in descending order of their instant.
pub open spec fn newest_first(xs: Seq<UsageDetailView>) -> bool {
    forall|i: int, j: int| 0 <= i <= j < xs.len() ==> xs[i].used_at >= xs[j].used_at
}

/// Where the recursive placement puts the new entry: at the first position
/// whose entry was used strictly earlier.
proof fn lemma_insert_by_used_at_at(xs: Seq<UsageDetailView>, x: UsageDetailView, p: int)
    requires
        0 <= p <= xs.len(),
        forall|q: int| 0 <= q < p ==> !(x.used_at > (#[trigger] xs[q]).used_at),
        p < xs.len() ==> x.used_at > xs[p].used_at,
    ensures
        insert_by_used_at(xs, x) == xs.subrange(0, p) + seq![x] + xs.subrange(p, xs.len() as int),
    decreases xs.len(),
{
    if xs.len() == 0 || p == 0 {
        assert(insert_by_used_at(xs, x) =~= xs.subrange(0, p) + seq![x] + xs.subrange(
            p,
            xs.len() as int,
        ));
    } else {
        assert(forall|q: int|
            0 <= q < p - 1 ==> !(x.used_at > (#[trigger] xs.drop_first()[q]).used_at));
        lemma_insert_by_used_at_at(xs.drop_first(), x, p - 1);
        assert(insert_by_used_at(xs, x) =~= xs.subrange(0, p) + seq![x] + xs.subrange(
            p,
            xs.len() as int,
        ));
    }
}

/// The usage detail entry for one ledger row.
pub open spec fn usage_detail_of(s: StoreView, u: int) -> UsageDetailView {
    let row = s.usages[u];
    let lesson = s.lessons[row.lesson_id - 1];
    let card = s.cards[row.user_card_id - 1];
    UsageDetailView {
        id: row.id,
        lesson_title: lesson.title,
        lesson_start_time: lesson.start_time,
        teacher_name: lesson.teacher_name,
        usage_type: row.usage_type,
        classes_consumed: row.classes_consumed,
        used_at: row.used_at,
        remaining_classes_after: row.remaining_after,
        card_number: Some(card.card_number),
    }
}

/// Lists a user's usage-ledger rows, optionally narrowed to one card, each
/// joined with its lesson and card, newest first. An unknown identity gets
/// an empty listing.
pub fn card_usage_of(store: &Store, open_id: &str, card: Option<u64>) -> (r: Vec<
    MembershipCardUsageWithDetails,
>)
    requires
        store.inv(),
    ensures
        ({
            let entries = r@.map_values(|e: MembershipCardUsageWithDetails| e@);
            match user_id_of(store@, open_id@) {
                Some(uid) => {
                    &&& entries == usage_listing_of(store@, uid, card)
                    &&& newest_first(entries)
                },
                None => r@.len() == 0,
            }
        }),
{
    let uid = match store.user_id_by_open_id(open_id) {
        None => {
            return Vec::new();
        },
        Some(uid) => uid,
    };
    let n = store.usages_len();
    let nl = store.lessons_len();
    let nc = store.cards_len();
    let mut out: Vec<MembershipCardUsageWithDetails> = Vec::new();
    let mut i: usize = 0;
    while i < n
        invariant
            i <= n,
            n == store@.usages.len(),
            nl == store@.lessons.len(),
            nc == store@.cards.len(),
            store.inv(),
            user_id_of(store@, open_id@) == Some(uid),
            out@.map_values(|e: MembershipCardUsageWithDetails| e@) == usage_listing_upto(
                store@,
                uid,
                card,
                i as int,
            ),
            newest_first(out@.map_values(|e: MembershipCardUsageWithDetails| e@)),
        decreases n - i,
    {
        let ghost xs = out@.map_values(|e: MembershipCardUsageWithDetails| e@);
        let row = store.usage_at(i);
        let selected = row.user_id == uid && match card {
            Some(cid) => row.user_card_id == cid,
            None => true,
        };
        if selected {
            proof {
                assert(1 <= row.lesson_id as int <= nl as int);
                assert(1 <= row.user_card_id as int <= nc as int);
            }
            let lesson = store.lesson_at((row.lesson_id - 1) as usize);
            let title = lesson.title.clone();
            let teacher = clone_opt_string(&lesson.teacher_name);
            let start = lesson.start_time;
            let cardrec = store.card_at((row.user_card_id - 1) as usize);
            let entry = MembershipCardUsageWithDetails {
                id: row.id,
                lesson_title: title,
                lesson_start_time: start,
                teacher_name: teacher,
                usage_type: row.usage_type,
                classes_consumed: row.classes_consumed,
                used_at: row.used_at,
                remaining_classes_after: row.remaining_after,
                card_number: Some(cardrec.card_number.clone()),
            };
            proof {
                assert(entry@ =~= usage_detail_of(store@, i as int));
            }
            // the new entry goes before the first one used strictly
            // earlier, keeping the listing newest first.
            let mut p: usize = 0;
            while p < out.len() && out[p].used_at >= entry.used_at
                invariant
                    p <= out.len(),
                    xs == out@.map_values(|e: MembershipCardUsageWithDetails| e@),
                    forall|q: int| 0 <= q < p ==> !(entry.used_at > (#[trigger] xs[q]).used_at),
                decreases out.len() - p,
            {
                p += 1;
            }
            proof {
                lemma_insert_by_used_at_at(xs, entry@, p as int);
            }
            out.insert(p, entry);
            proof {
                assert(out@.map_values(|e: MembershipCardUsageWithDetails| e@)
                    =~= insert_by_used_at(xs, entry@));
                assert(newest_first(out@.map_values(|e: MembershipCardUsageWithDetails| e@))) by {
                    assert(forall|q: int|
                        0 <= q < p ==> !(entry@.used_at > (#[trigger] xs[q]).used_at));
                }
            }
        }
        i += 1;
    }
    out
}

/// The display rank of a card's status: active cards list first, expired
/// ones after them, suspended ones last.
pub open spec fn status_rank(st: CardStatus) -> int {
    match st {
        CardStatus::Active => 0,
        CardStatus::Expired => 1,
        CardStatus::Suspended => 2,
    }
}

/// Whether one card lists strictly before another: by status rank, and
/// within a rank the card expiring later comes first.
pub open spec fn card_precedes(a: CardView, b: CardView) -> bool {
    ||| status_rank(a.status) < status_rank(b.status)
    ||| (status_rank(a.status) == status_rank(b.status) && a.expires_at > b.expires_at)
}

/// A new card's place among earlier ones: before the first card it strictly
/// precedes, so cards that rank together keep their row order.
pub open spec fn insert_card(xs: Seq<CardView>, x: CardView) -> Seq<CardView>
    decreases xs.len(),
{
    if xs.len() == 0 {
        seq![x]
    } else if card_precedes(x, xs.first()) {
        seq![x] + xs
    } else {
        seq![xs.first()] + insert_card(xs.drop_first(), x)
    }
}

/// The card listing built from the first `n` card rows: every card of the
/// user, placed by status rank and then latest expiry first.
pub open spec fn cards_listing_upto(s: StoreView, user_id: u64, n: int) -> Seq<CardView>
    recommends
        0 <= n <= s.cards.len(),
    decreases n,
{
    if n <= 0 {
        Seq::empty()
    } else {
        let p = cards_listing_upto(s, user_id, n - 1);
        if s.cards[n - 1].user_id == user_id {
            insert_card(p, s.cards[n - 1])
        } else {
            p
        }
    }
}

/// The whole card listing of one user.
pub open spec fn cards_listing_of(s: StoreView, user_id: u64) -> Seq<CardView> {
    cards_listing_upto(s, user_id, s.cards.len() as int)
}

/// Cards in listing order: no card strictly precedes an earlier one.
pub open spec fn cards_ordered(xs: Seq<CardView>) -> bool {
    forall|i: int, j: int| 0 <= i <= j < xs.len() ==> !card_precedes(#[trigger] xs[j], #[trigger] xs[i])
}

/// Where the recursive placement puts the new card: at the first position
/// whose card it strictly precedes.
proof fn lemma_insert_card_at(xs: Seq<CardView>, x: CardView, p: int)
    requires
        0 <= p <= xs.len(),
        forall|q: int| 0 <= q < p ==> !card_precedes(x, #[trigger] xs[q]),
        p < xs.len() ==> card_precedes(x, xs[p]),
    ensures
        insert_card(xs, x) == xs.subrange(0, p) + seq![x] + xs.subrange(p, xs.len() as int),
    decreases xs.len(),
{
    if xs.len() == 0 || p == 0 {
        assert(insert_card(xs, x) =~= xs.subrange(0, p) + seq![x] + xs.subrange(
            p,
            xs.len() as int,
        ));
    } else {
        assert(forall|q: int|
            0 <= q < p - 1 ==> !card_precedes(x, #[trigger] xs.drop_first()[q]));
        lemma_insert_card_at(xs.drop_first(), x, p - 1);
        assert(insert_card(xs, x) =~= xs.subrange(0, p) + seq![x] + xs.subrange(
            p,
            xs.len() as int,
        ));
    }
}

/// The display rank of a card's status.
fn status_rank_exec(st: CardStatus) -> (g: u8)
    ensures
        g as int == status_rank(st),
{
    match st {
        CardStatus::Active => 0,
        CardStatus::Expired => 1,
        CardStatus::Suspended => 2,
    }
}

/// Whether one card lists strictly before another.
fn card_precedes_exec(a: &CardRec, b: &CardRec) -> (r: bool)
    ensures
        r == card_precedes(a@, b@),
{
    let ga = status_rank_exec(a.status);
    let gb = status_rank_exec(b.status);
    ga < gb || (ga == gb && a.expires_at > b.expires_at)
}

/// Clones one card record.
fn clone_card(c: &CardRec) -> (r: CardRec)
    ensures
        r@ == c@,
{
    CardRec {
        id: c.id,
        user_id: c.user_id,
        plan_id: c.plan_id,
        plan_name: c.plan_name.clone(),
        card_number: c.card_number.clone(),
        card_type: c.card_type,
        status: c.status,
        total_classes: c.total_classes,
        remaining_classes: c.remaining_classes,
        applicable_lesson_types: Store::clone_opt_strings(&c.applicable_lesson_types),
        activated_at: c.activated_at,
        expires_at: c.expires_at,
    }
}

/// Lists a user's membership cards, active ones first and the latest
/// expiry first within a rank. An unknown
/// identity gets an empty listing.
pub fn membership_cards_of(store: &Store, open_id: &str) -> (r: Vec<CardRec>)
    ensures
        ({
            let entries = r@.map_values(|e: CardRec| e@);
            match user_id_of(store@, open_id@) {
                Some(uid) => {
                    &&& entries == cards_listing_of(store@, uid)
                    &&& cards_ordered(entries)
                },
                None => r@.len() == 0,
            }
        }),
{
    let uid = match store.user_id_by_open_id(open_id) {
        None => {
            return Vec::new();
        },
        Some(uid) => uid,
    };
    let n = store.cards_len();
    let mut out: Vec<CardRec> = Vec::new();
    let mut i: usize = 0;
    while i < n
        invariant
            i <= n,
            n == store@.cards.len(),
            user_id_of(store@, open_id@) == Some(uid),
            out@.map_values(|e: CardRec| e@) == cards_listing_upto(store@, uid, i as int),
            cards_ordered(out@.map_values(|e: CardRec| e@)),
        decreases n - i,
    {
        let ghost xs = out@.map_values(|e: CardRec| e@);
        let c = store.card_at(i);
        if c.user_id == uid {
            let entry = clone_card(c);
            // the new card goes before the first one it strictly precedes,
            // keeping the listing ordered by status rank and expiry.
            let mut p: usize = 0;
            while p < out.len() && !card_precedes_exec(&entry, &out[p])
                invariant
                    p <= out.len(),
                    entry@ == store@.cards[i as int],
                    i < store@.cards.len(),
                    xs == out@.map_values(|e: CardRec| e@),
                    forall|q: int| 0 <= q < p ==> !card_precedes(entry@, #[trigger] xs[q]),
                decreases out.len() - p,
            {
                p += 1;
            }
            proof {
                lemma_insert_card_at(xs, entry@, p as int);
            }
            out.insert(p, entry);
            proof {
                let entryv = store@.cards[i as int];
                let ys = out@.map_values(|e: CardRec| e@);
                assert(ys =~= insert_card(xs, entryv));
                assert(ys == xs.subrange(0, p as int) + seq![entryv] + xs.subrange(
                    p as int,
                    xs.len() as int,
                ));
                assert forall|i2: int, j2: int| 0 <= i2 <= j2 < ys.len() implies !card_precedes(
                    ys[j2],
                    ys[i2],
                ) by {
                    if j2 == p {
                        if i2 < p {
                            assert(!card_precedes(entryv, xs[i2]));
                        }
                    } else if j2 > p {
                        let b = xs[j2 - 1];
                        assert(ys[j2] == b);
                        if i2 == p {
                            // the new card precedes the card it displaced,
                            // which nothing after it precedes.
                            assert(card_precedes(entryv, xs[p as int]));
                            assert(!card_precedes(b, xs[p as int]));
                            assert(!card_precedes(b, entryv));
                        } else if i2 < p {
                            assert(!card_precedes(b, xs[i2]));
                        } else {
                            assert(!card_precedes(b, xs[i2 - 1]));
                        }
                    } else {
                        assert(!card_precedes(xs[j2], xs[i2]));
                    }
                }
                assert(cards_ordered(ys));
            }
        }
        i += 1;
    }
    out
}

/// Row indexes of the active plans among the first `n`, in row order.
pub open spec fn active_plan_indices(plans: Seq<PlanView>, n: int) -> Seq<int>
    recommends
        0 <= n <= plans.len(),
    decreases n,
{
    if n <= 0 {
        Seq::empty()
    } else {
        let p = active_plan_indices(plans, n - 1);
        if plans[n - 1].is_active {
            p.push(n - 1)
        } else {
            p
        }
    }
}

/// Lists the plans currently on sale, in row order.
pub fn active_plans(store: &Store) -> (r: Vec<PlanRec>)
    ensures
        ({
            let idxs = active_plan_indices(store@.plans, store@.plans.len() as int);
            &&& r@.len() == idxs.len()
            &&& forall|t: int|
                0 <= t < r@.len() ==> (#[trigger] r@[t])@ == store@.plans[idxs[t]]
        }),
{
    let n = store.plans_len();
    let mut out: Vec<PlanRec> = Vec::new();
    let mut i: usize = 0;
    while i < n
        invariant
            i <= n,
            n == store@.plans.len(),
            out@.len() == active_plan_indices(store@.plans, i as int).len(),
            forall|t: int|
                0 <= t < out@.len() ==> (#[trigger] out@[t])@ == store@.plans[active_plan_indices(
                    store@.plans,
                    i as int,
                )[t]],
        decreases n - i,
    {
        let ghost prev = active_plan_indices(store@.plans, i as int);
        let p = store.plan_at(i);
        if p.is_active {
            let entry = PlanRec {
                id: p.id,
                name: p.name.clone(),
                card_type: p.card_type,
                validity_days: p.validity_days,
                total_classes: p.total_classes,
                price_cents: p.price_cents,
                applicable_lesson_types: Store::clone_opt_strings(&p.applicable_lesson_types),
                max_bookings_per_day: p.max_bookings_per_day,
                is_active: p.is_active,
            };
            proof {
                assert(entry@ =~= store@.plans[i as int]);
                assert(active_plan_indices(store@.plans, i as int + 1) == prev.push(i as int));
            }
            out.push(entry);
        }
        i += 1;
    }
    out
}

} // verus!
