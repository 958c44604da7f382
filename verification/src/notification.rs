//! The notification data model: the parsed payload shape, the closed set of
//! notification kinds, and the authorized-user roster shape.

use vstd::prelude::*;
use crate::strutil::str_eq;

verus! {

/// One user of the authorized-user roster returned by the backend.
pub struct AuthorizedUser {
    pub telegram_user_id: i64,
    pub username: String,
    pub authorized: bool,
}

/// The authorized-user roster.
pub struct AuthorizedUsersResponse {
    pub users: Vec<AuthorizedUser>,
}

/// The closed set of notification kinds.  A payload whose `type` field is
/// absent or holds anything outside this set is a generic announcement.
#[derive(Clone, Copy, Debug, PartialEq, Eq, Structural)]
pub enum NotificationType {
    JoinRequest,
    TeamInvite,
    TeamAccepted,
    TeamRejected,
    InviteAccepted,
    InviteRejected,
    General,
}

/// A structured notification decoded from a log entry's payload.
pub struct Notification {
    pub message: String,
    pub notification_type: Option<String>,
    pub target_user_id: Option<i64>,
    pub request_id: Option<i64>,
    pub invite_id: Option<i64>,
    pub team_id: Option<i64>,
    pub team_name: Option<String>,
    pub user_name: Option<String>,
    pub inviter_name: Option<String>,
}

/// The kind named by a `type` field value.
pub open spec fn spec_kind_of(t: Option<Seq<char>>) -> NotificationType {
    match t {
        Option::None => NotificationType::General,
        Option::Some(s) => {
            if s == "join_request"@ {
                NotificationType::JoinRequest
            } else if s == "team_invite"@ {
                NotificationType::TeamInvite
            } else if s == "team_accepted"@ {
                NotificationType::TeamAccepted
            } else if s == "team_rejected"@ {
                NotificationType::TeamRejected
            } else if s == "invite_accepted"@ {
                NotificationType::InviteAccepted
            } else if s == "invite_rejected"@ {
                NotificationType::InviteRejected
            } else {
                NotificationType::General
            }
        },
    }
}

/// The view of an optional owned string.
pub open spec fn opt_str_view(t: Option<String>) -> Option<Seq<char>> {
    match t {
        Option::None => Option::None,
        Option::Some(s) => Option::Some(s@),
    }
}

impl Notification {
    /// The kind of this notification, as the dispatch table keys on it.
    pub open spec fn spec_kind(&self) -> NotificationType {
        spec_kind_of(opt_str_view(self.notification_type))
    }

    /// Classifies the `type` field into the closed kind set.
    pub fn kind(&self) -> (k: NotificationType)
        ensures
            k == self.spec_kind(),
    {
        match &self.notification_type {
            Option::None => NotificationType::General,
            Option::Some(s) => {
                if str_eq(s.as_str(), "join_request") {
                    NotificationType::JoinRequest
                } else if str_eq(s.as_str(), "team_invite") {
                    NotificationType::TeamInvite
                } else if str_eq(s.as_str(), "team_accepted") {
                    NotificationType::TeamAccepted
                } else if str_eq(s.as_str(), "team_rejected") {
                    NotificationType::TeamRejected
                } else if str_eq(s.as_str(), "invite_accepted") {
                    NotificationType::InviteAccepted
                } else if str_eq(s.as_str(), "invite_rejected") {
                    NotificationType::InviteRejected
                } else {
                    NotificationType::General
                }
            },
        }
    }
}

} // verus!
