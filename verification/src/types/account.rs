use vstd::prelude::*;

verus! {

/// Unique identifier of an account, opaque to callers and immutable once
/// assigned by the store.
#[derive(Clone, Copy, PartialEq, Eq, Hash, Structural, Debug)]
pub struct AccountId(pub i32);

/// A user account: an email address (unique across the store) and an opaque
/// credential hash. The identifier is absent until the account is persisted
/// and fixed for life afterwards.
#[derive(Debug)]
pub struct Account {
    /// Identifier, assigned on persistence.
    pub id: Option<AccountId>,
    /// Email address; no two stored accounts share one.
    pub email: String,
    /// Opaque credential hash; never inspected by this library.
    pub password: String,
}

/// Mathematical image of an [`Account`].
pub struct AccountV {
    pub id: Option<int>,
    pub email: Seq<char>,
    pub password: Seq<char>,
}

impl View for Account {
    type V = AccountV;

    open spec fn view(&self) -> AccountV {
        AccountV {
            id: match self.id {
                Some(aid) => Some(aid.0 as int),
                None => None,
            },
            email: self.email@,
            password: self.password@,
        }
    }
}

impl Clone for Account {
    fn clone(&self) -> (res: Self)
        ensures
            res@ == self@,
    {
        Account { id: self.id, email: self.email.clone(), password: self.password.clone() }
    }
}

/// The authenticated principal attached to a request, derived from a verified
/// credential by an external collaborator. Instants are seconds since the
/// Unix epoch.
#[derive(Clone, Copy, Debug)]
pub struct Session {
    /// Expiration instant of the session.
    pub exp: i64,
    /// The account the session authenticates.
    pub account_id: AccountId,
    /// Instant before which the session is not yet valid.
    pub nbf: i64,
}

} // verus!
