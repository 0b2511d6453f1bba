//! The users of the bot and their roles.
use vstd::prelude::*;

use crate::text::same_text;

verus! {

/// What a user may do.
#[derive(Clone, Copy, PartialEq, Eq, Debug, Structural)]
pub enum UserRole {
    Admin,
    User,
    Nobody,
}

/// The name under which a role is stored.
pub open spec fn role_name(role: UserRole) -> Seq<char> {
    match role {
        UserRole::Admin => "admin"@,
        UserRole::User => "user"@,
        UserRole::Nobody => "none"@,
    }
}

/// The role that is stored under a name.
pub open spec fn role_named(name: Seq<char>) -> Option<UserRole> {
    if name == "admin"@ {
        Some(UserRole::Admin)
    } else if name == "user"@ {
        Some(UserRole::User)
    } else if name == "none"@ {
        Some(UserRole::Nobody)
    } else {
        None
    }
}

impl UserRole {
    /// The name under which the role is stored.
    pub fn as_str(&self) -> (r: &'static str)
        ensures
            r@ == role_name(*self),
    {
        match self {
            UserRole::Admin => "admin",
            UserRole::User => "user",
            UserRole::Nobody => "none",
        }
    }

    /// The role that is stored under the name, or the message that there is none.
    pub fn from_str(value: &str) -> (r: Result<UserRole, String>)
        ensures
            match r {
                Ok(role) => role_named(value@) == Some(role),
                Err(m) => role_named(value@) is None && m@ == "invalid stored user role: "@
                    + value@,
            },
    {
        if same_text(value, "admin") {
            Ok(UserRole::Admin)
        } else if same_text(value, "user") {
            Ok(UserRole::User)
        } else if same_text(value, "none") {
            Ok(UserRole::Nobody)
        } else {
            let mut message = "invalid stored user role: ".to_owned();
            message.append(value);
            Err(message)
        }
    }

    /// Whether the role allows its holder to use the bot.
    pub fn is_allowed(self) -> (r: bool)
        ensures
            r == (self == UserRole::Admin || self == UserRole::User),
    {
        match self {
            UserRole::Admin => true,
            UserRole::User => true,
            UserRole::Nobody => false,
        }
    }
}

/// A role is found again under the name it is stored under.
pub proof fn stored_role_is_found(role: UserRole)
    ensures
        role_named(role_name(role)) == Some(role),
{
    reveal_strlit("admin");
    reveal_strlit("user");
    reveal_strlit("none");
    assert("admin"@.len() == 5);
    assert("user"@[0] == 'u');
    assert("none"@[0] == 'n');
}

} // verus!
