//! Statically shaped request and response records for the operations around
//! the core: admin content management, account handling, and the booking
//! endpoints. Each request is a fixed set of typed fields, so a missing or
//! misshapen field is rejected at the boundary instead of defaulting
//! silently; the embedding program converts between its wire format and
//! these records.

use vstd::prelude::*;

verus! {

/// Request to create a home-screen action entry.
pub struct CreateActionRequest {
    pub name: String,
    pub icon: Option<String>,
    pub link: String,
    pub sort_order: Option<i32>,
}

/// Request to update a home-screen action entry.
pub struct UpdateActionRequest {
    pub name: Option<String>,
    pub icon: Option<String>,
    pub link: Option<String>,
    pub sort_order: Option<i32>,
    pub is_active: Option<bool>,
}

/// Request to create an action button.
pub struct ActionButtonCreateRequest {
    pub name: String,
    pub icon: Option<String>,
    pub link: String,
    pub sort_order: Option<i32>,
    pub is_active: Option<bool>,
}

/// Request to update an action button.
pub struct ActionButtonUpdateRequest {
    pub name: Option<String>,
    pub icon: Option<String>,
    pub link: Option<String>,
    pub sort_order: Option<i32>,
    pub is_active: Option<bool>,
}

/// Outcome of an action-button operation.
pub struct ActionButtonResponse {
    pub success: bool,
    pub message: String,
    pub id: Option<i32>,
}

/// The id handed back for a freshly created button.
pub struct CreatedButton {
    pub id: i32,
}

/// Administrator login credentials.
pub struct LoginRequest {
    pub username: String,
    pub password: String,
}

/// A successful administrator login.
pub struct LoginResponse {
    pub token: String,
    pub user_id: i32,
    pub username: String,
}

/// Request to create a notice.
pub struct CreateNoticeRequest {
    pub title: String,
    pub content: String,
    pub author: Option<String>,
    pub priority: Option<i32>,
}

/// Request to update a notice.
pub struct UpdateNoticeRequest {
    pub title: Option<String>,
    pub content: Option<String>,
    pub author: Option<String>,
    pub priority: Option<i32>,
    pub is_active: Option<bool>,
}

/// Request to create a poster.
pub struct CreatePosterRequest {
    pub title: Option<String>,
    pub image: String,
    pub link_url: Option<String>,
    pub sort_order: Option<i32>,
    pub start_date: Option<String>,
    pub end_date: Option<String>,
}

/// Request to update a poster.
pub struct UpdatePosterRequest {
    pub title: Option<String>,
    pub image: Option<String>,
    pub link_url: Option<String>,
    pub sort_order: Option<i32>,
    pub is_active: Option<bool>,
    pub start_date: Option<String>,
    pub end_date: Option<String>,
}

/// Request to create a teacher profile.
pub struct CreateTeacherRequest {
    pub name: String,
    pub description: Option<String>,
    pub avatar_url: Option<String>,
    pub bio: Option<String>,
    pub certifications: Option<Vec<String>>,
    pub specialties: Option<Vec<String>>,
    pub experience_years: Option<i32>,
}

/// Request to update a teacher profile.
pub struct UpdateTeacherRequest {
    pub name: Option<String>,
    pub description: Option<String>,
    pub avatar_url: Option<String>,
    pub bio: Option<String>,
    pub certifications: Option<Vec<String>>,
    pub specialties: Option<Vec<String>>,
    pub experience_years: Option<i32>,
    pub is_active: Option<bool>,
}

/// Request to create a teacher profile, as the teacher endpoint shapes it.
pub struct TeacherCreateRequest {
    pub name: String,
    pub description: Option<String>,
    pub avatar_url: Option<String>,
    pub bio: Option<String>,
    pub certifications: Option<Vec<String>>,
    pub specialties: Option<Vec<String>>,
    pub experience_years: Option<i32>,
}

/// Request to update a teacher profile, keyed by id.
pub struct TeacherUpdateRequest {
    pub id: i32,
    pub name: Option<String>,
    pub description: Option<String>,
    pub avatar_url: Option<String>,
    pub bio: Option<String>,
    pub certifications: Option<Vec<String>>,
    pub specialties: Option<Vec<String>>,
    pub experience_years: Option<i32>,
    pub is_active: Option<bool>,
}

/// Request to create a user account with profile fields.
pub struct CreateUserRequest {
    pub open_id: String,
    pub nick_name: Option<String>,
    pub avatar_url: Option<String>,
    pub phone: Option<String>,
}

/// Request to update a user's profile fields.
pub struct UpdateUserRequest {
    pub nick_name: Option<String>,
    pub avatar_url: Option<String>,
    pub phone: Option<String>,
}

/// Request to register or refresh a user account, keyed by identity.
pub struct UserCreateRequest {
    pub open_id: String,
    pub nick_name: Option<String>,
    pub avatar_url: Option<String>,
    pub phone: Option<String>,
}

/// Request to update a user account, keyed by identity.
pub struct UserUpdateRequest {
    pub open_id: String,
    pub nick_name: Option<String>,
    pub avatar_url: Option<String>,
    pub phone: Option<String>,
}

/// Request to create an administrator account.
pub struct CreateAdminUserRequest {
    pub username: String,
    pub password: String,
}

/// Request to update an administrator account.
pub struct UpdateAdminUserRequest {
    pub username: Option<String>,
    pub password: Option<String>,
    pub is_active: Option<bool>,
}

/// Request to create an administrator account, as the model layer shapes it.
pub struct AdminUserCreateRequest {
    pub username: String,
    pub password: String,
}

/// Request to update an administrator account, keyed by id.
pub struct AdminUserUpdateRequest {
    pub id: i32,
    pub username: Option<String>,
    pub password: Option<String>,
    pub is_active: Option<bool>,
}

/// Booking counters of one user, for the admin statistics view.
pub struct UserBookingStats {
    pub user_id: i32,
    pub total_bookings: i64,
    pub confirmed_bookings: i64,
    pub cancelled_bookings: i64,
    pub completed_bookings: i64,
    pub no_show_bookings: i64,
}

/// Request to book one seat in one lesson.
pub struct BookingCreateRequest {
    pub user_open_id: String,
    pub lesson_id: i32,
    pub notes: Option<String>,
}

/// A resolved internal user id.
pub struct UserIdResult {
    pub id: i32,
}

/// A lesson's capacity beside its live confirmed count.
pub struct LessonCapacity {
    pub max_students: i32,
    pub current_bookings: i64,
}

/// Whether the caller holds any card valid for the lesson.
pub struct CardCheckResult {
    pub has_valid_card: bool,
}

/// The id of a committed booking.
pub struct BookingResult {
    pub id: i32,
}

/// The key fields of one booking row.
pub struct BookingInfo {
    pub id: i32,
    pub user_id: i32,
    pub lesson_id: i32,
}

/// A location's name and whether it can be booked.
pub struct LocationInfo {
    pub name: String,
    pub booking_enabled: bool,
}

/// Outcome of a card purchase.
pub struct MembershipCardResponse {
    pub success: bool,
    pub message: String,
    pub card_id: Option<i32>,
    pub card_number: Option<String>,
}

/// The id and number of a freshly issued card.
pub struct CardCreated {
    pub id: i32,
    pub card_number: String,
}

} // verus!
