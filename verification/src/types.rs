//! Basic data types: authorization levels, the identity attached to an
//! inbound message, and the structured result a command behavior produces.

use vstd::prelude::*;

verus! {

/// Authorization levels, totally ordered `User < Moderator < Superuser`.
#[derive(Copy, Clone, Debug, PartialEq, Eq, Structural)]
pub enum PermissionLevel {
    User,
    Moderator,
    Superuser,
}

/// Position of a level in the total order `User < Moderator < Superuser`.
pub open spec fn rank(level: PermissionLevel) -> int {
    match level {
        PermissionLevel::User => 0,
        PermissionLevel::Moderator => 1,
        PermissionLevel::Superuser => 2,
    }
}

/// The level a stored permission number denotes; unknown numbers fall back
/// to the least privileged level.
pub open spec fn level_of_num(n: int) -> PermissionLevel {
    if n == 1 {
        PermissionLevel::Moderator
    } else if n == 2 {
        PermissionLevel::Superuser
    } else {
        PermissionLevel::User
    }
}

impl PermissionLevel {
    pub fn new(permission_num: i32) -> (level: PermissionLevel)
        ensures
            level == level_of_num(permission_num as int),
    {
        match permission_num {
            1 => PermissionLevel::Moderator,
            2 => PermissionLevel::Superuser,
            _ => PermissionLevel::User,
        }
    }

    /// Lower-case name of the level, as it appears in chat replies.
    pub open spec fn name_seq(self) -> Seq<char> {
        match self {
            PermissionLevel::Superuser => "superuser"@,
            PermissionLevel::Moderator => "moderator"@,
            PermissionLevel::User => "user"@,
        }
    }

    /// Lower-case name of the level, as it appears in chat replies.
    pub fn name_text(self) -> (r: &'static str)
        ensures
            r@ == self.name_seq(),
    {
        match self {
            PermissionLevel::Superuser => "superuser",
            PermissionLevel::Moderator => "moderator",
            PermissionLevel::User => "user",
        }
    }

    /// Whether a held level grants access to something that requires
    /// `permission_needed`: exactly the comparison `self >= permission_needed`
    /// in the total order.
    pub fn satisfies(self, permission_needed: PermissionLevel) -> (r: bool)
        ensures
            r == (rank(self) >= rank(permission_needed)),
    {
        match self {
            PermissionLevel::Superuser => true,
            PermissionLevel::Moderator => {
                permission_needed == PermissionLevel::Moderator
                    || permission_needed == PermissionLevel::User
            },
            PermissionLevel::User => permission_needed == PermissionLevel::User,
        }
    }
}

/// The satisfies relation is exactly the total order on levels: it is
/// reflexive, transitive and total, Superuser satisfies everything, and
/// User is satisfied by everything.
pub proof fn lemma_satisfies_is_total_order(a: PermissionLevel, b: PermissionLevel, c: PermissionLevel)
    ensures
        rank(a) >= rank(a),
        rank(a) >= rank(b) && rank(b) >= rank(c) ==> rank(a) >= rank(c),
        rank(a) >= rank(b) || rank(b) >= rank(a),
        rank(a) >= rank(b) && rank(b) >= rank(a) ==> a == b,
        rank(PermissionLevel::Superuser) >= rank(b),
        rank(b) >= rank(PermissionLevel::User),
{
}

/// The identity that sent an inbound message: a stable numeric id, a login
/// name, and the permission level loaded from the store.
#[derive(Debug)]
pub struct UserContext {
    pub uid: i32,
    pub login: String,
    pub permissions: PermissionLevel,
}

impl UserContext {
    pub fn new(uid: i32, login: String, permission_num: i32) -> (user: UserContext)
        ensures
            user.uid == uid,
            user.login == login,
            user.permissions == level_of_num(permission_num as int),
    {
        UserContext { uid, login, permissions: PermissionLevel::new(permission_num) }
    }
}

/// The structured result of a command behavior. Empty response text means
/// "send nothing". `questionable_output` marks text that embeds unmoderated
/// user-supplied content and must be screened before delivery.
pub struct CommandResponse {
    pub response: String,
    pub questionable_output: bool,
}

impl CommandResponse {
    pub fn new(response: String, questionable_output: bool) -> (r: CommandResponse)
        ensures
            r.response == response,
            r.questionable_output == questionable_output,
    {
        CommandResponse { response, questionable_output }
    }
}

} // verus!
