//! The data shapes of the surrounding registry: user profiles, family
//! records, invitations, ghost-profile claims and notifications. The
//! ledger itself treats these subsystems as external collaborators — it
//! consumes only an authorized caller identity — but their request and
//! record shapes are plain values and are kept here, with the free-text
//! validation of `crate::validation` applied to their fields by whoever
//! stores them.

use vstd::prelude::*;

verus! {

/// A registered user's profile.
#[derive(Clone, Debug)]
pub struct UserProfile {
    pub id: String,
    pub full_name: String,
    pub surname_at_birth: String,
    pub sex: String,
    pub birthday: String,
    pub birth_city: String,
    pub birth_country: String,
    pub created_at: u64,
    pub updated_at: u64,
}

/// A request to create a profile.
#[derive(Clone, Debug)]
pub struct CreateProfileRequest {
    pub full_name: String,
    pub surname_at_birth: String,
    pub sex: String,
    pub birthday: String,
    pub birth_city: String,
    pub birth_country: String,
}

/// A request to update a profile; absent fields stay unchanged.
#[derive(Clone, Debug)]
pub struct UpdateProfileRequest {
    pub full_name: Option<String>,
    pub surname_at_birth: Option<String>,
    pub sex: Option<String>,
    pub birthday: Option<String>,
    pub birth_city: Option<String>,
    pub birth_country: Option<String>,
}

/// A request to create a family.
#[derive(Clone, Debug)]
pub struct CreateFamilyRequest {
    pub name: String,
    pub description: String,
    pub is_visible: Option<bool>,
}

/// A request to add a member to a family.
#[derive(Clone, Debug)]
pub struct AddFamilyMemberRequest {
    pub family_id: String,
    pub full_name: String,
    pub surname_at_birth: String,
    pub sex: String,
    pub birthday: Option<String>,
    pub birth_city: Option<String>,
    pub birth_country: Option<String>,
    pub death_date: Option<String>,
    pub relationship_to_admin: String,
}

/// A request to add an event to a family member's record.
#[derive(Clone, Debug)]
pub struct AddEventRequest {
    pub family_id: String,
    pub member_id: String,
    pub title: String,
    pub description: String,
    pub event_date: String,
    pub event_type: String,
}

/// A request to update a family member; absent fields stay unchanged.
#[derive(Clone, Debug)]
pub struct UpdateFamilyMemberRequest {
    pub family_id: String,
    pub member_id: String,
    pub full_name: Option<String>,
    pub surname_at_birth: Option<String>,
    pub sex: Option<String>,
    pub birthday: Option<String>,
    pub birth_city: Option<String>,
    pub birth_country: Option<String>,
    pub death_date: Option<String>,
    pub relationship_to_admin: Option<String>,
}

/// A request to update an event; absent fields stay unchanged.
#[derive(Clone, Debug)]
pub struct UpdateEventRequest {
    pub family_id: String,
    pub member_id: String,
    pub event_id: String,
    pub title: Option<String>,
    pub description: Option<String>,
    pub event_date: Option<String>,
    pub event_type: Option<String>,
}

/// The families a user belongs to, by family id.
#[derive(Clone, Debug)]
pub struct UserFamilyList(pub Vec<String>);

/// A family member without an account whose profile resembles a
/// registered user's, with a 0–100 similarity score.
#[derive(Clone, Debug)]
pub struct GhostProfileMatch {
    pub family_id: String,
    pub member_id: String,
    pub family_name: String,
    pub ghost_profile_name: String,
    pub similarity_score: u8,
}

/// The lifecycle of a ghost-profile claim.
#[derive(Clone, Copy, Debug, PartialEq, Eq, Structural)]
pub enum ClaimStatus {
    Pending,
    Approved,
    Rejected,
    Expired,
}

/// An admin's decision on a ghost-profile claim.
#[derive(Clone, Debug)]
pub struct ProcessClaimRequest {
    pub claim_id: String,
    pub approve: bool,
    pub admin_message: Option<String>,
}

/// The lifecycle of a family invitation.
#[derive(Clone, Copy, Debug, PartialEq, Eq, Structural)]
pub enum InvitationStatus {
    Pending,
    Accepted,
    Declined,
    Expired,
}

/// A request to invite a user into a family.
#[derive(Clone, Debug)]
pub struct SendInvitationRequest {
    pub user_id: String,
    pub family_id: String,
    pub message: Option<String>,
    pub relationship_to_admin: String,
}

/// An invitee's decision on a family invitation.
#[derive(Clone, Debug)]
pub struct ProcessInvitationRequest {
    pub invitation_id: String,
    pub accept: bool,
}

/// What a notification is about.
#[derive(Clone, Copy, Debug, PartialEq, Eq, Structural)]
pub enum NotificationType {
    FamilyInvitation,
    GhostProfileClaim,
    FamilyUpdate,
    SystemAlert,
}

} // verus!
