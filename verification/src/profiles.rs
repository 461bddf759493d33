//! User profiles: the create-or-update decision taken on one stored row.
//! Fetching and storing the row is the profile store's job.

use vstd::prelude::*;

verus! {

/// A stored profile row, as plain values.
#[derive(Debug)]
pub struct UserProfile {
    pub id: u128,
    pub user_id: u128,
    pub full_name: String,
    pub phone: Option<String>,
    pub bio: Option<String>,
    pub created_at: i64,
    pub updated_at: i64,
}

/// The mathematical value of a profile row.
pub ghost struct ProfileView {
    pub id: u128,
    pub user_id: u128,
    pub full_name: Seq<char>,
    pub phone: Option<Seq<char>>,
    pub bio: Option<Seq<char>>,
    pub created_at: i64,
    pub updated_at: i64,
}

impl View for UserProfile {
    type V = ProfileView;

    open spec fn view(&self) -> ProfileView {
        ProfileView {
            id: self.id,
            user_id: self.user_id,
            full_name: self.full_name@,
            phone: match self.phone {
                Some(p) => Some(p@),
                None => None,
            },
            bio: match self.bio {
                Some(b) => Some(b@),
                None => None,
            },
            created_at: self.created_at,
            updated_at: self.updated_at,
        }
    }
}

/// What a client sends to create or change its profile.
#[derive(Debug)]
pub struct ProfileRequest {
    pub full_name: String,
    pub phone: Option<String>,
    pub bio: Option<String>,
}

pub open spec fn view_of_opt(s: Option<String>) -> Option<Seq<char>> {
    match s {
        Some(x) => Some(x@),
        None => None,
    }
}

fn clone_opt(s: &Option<String>) -> (c: Option<String>)
    ensures
        view_of_opt(c) == view_of_opt(*s),
{
    match s {
        Some(x) => Some(x.clone()),
        None => None,
    }
}

/// The create-or-update decision: an existing row keeps its identity and its
/// creation time and takes every field of the request; a missing row is
/// created fresh for the subject. Either way the request's fields replace the
/// stored ones whole, and the update time is refreshed.
pub fn upsert_profile(
    existing: Option<&UserProfile>,
    req: &ProfileRequest,
    user_id: u128,
    fresh_id: u128,
    now: i64,
) -> (p: UserProfile)
    ensures
        p@.full_name == req.full_name@,
        p@.phone == view_of_opt(req.phone),
        p@.bio == view_of_opt(req.bio),
        p@.updated_at == now,
        match existing {
            Some(e) => p@.id == e@.id && p@.user_id == e@.user_id && p@.created_at == e@.created_at,
            None => p@.id == fresh_id && p@.user_id == user_id && p@.created_at == now,
        },
{
    match existing {
        Some(e) => UserProfile {
            id: e.id,
            user_id: e.user_id,
            full_name: req.full_name.clone(),
            phone: clone_opt(&req.phone),
            bio: clone_opt(&req.bio),
            created_at: e.created_at,
            updated_at: now,
        },
        None => UserProfile {
            id: fresh_id,
            user_id,
            full_name: req.full_name.clone(),
            phone: clone_opt(&req.phone),
            bio: clone_opt(&req.bio),
            created_at: now,
            updated_at: now,
        },
    }
}

} // verus!
