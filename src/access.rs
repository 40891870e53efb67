//! Who may do what: the role policy of each operation, the roots through
//! which requests reach the store, and the check of a user's credentials.

use crate::types::{User, UserRole};
use sha2::{Digest, Sha256};
use vstd::prelude::*;

verus! {

/// Operations that need a role.
#[derive(Clone, Copy, Debug, PartialEq, Eq, Structural)]
pub enum Action {
    ListUsers,
    ListAllOrders,
    SetUserRole,
    SendDirectNotification,
    BroadcastNotification,
    ManageCatalog,
}

#[derive(Clone, Copy, Debug, PartialEq, Eq, Structural)]
pub enum AccessError {
    /// The caller's role does not allow the operation.
    Denied,
    /// A manager tried to change their own role.
    OwnRole,
}

/// Managers may do everything; riders may send direct notifications and list
/// all orders; customers may do none of these.
pub open spec fn allowed(role: UserRole, action: Action) -> bool {
    match action {
        Action::ListAllOrders | Action::SendDirectNotification => role != UserRole::Customer,
        _ => role == UserRole::Manager,
    }
}

pub fn is_allowed(role: UserRole, action: Action) -> (r: bool)
    ensures
        r == allowed(role, action),
{
    match action {
        Action::ListAllOrders | Action::SendDirectNotification => role != UserRole::Customer,
        _ => role == UserRole::Manager,
    }
}

/// Whether two texts are equal.
pub fn text_eq(a: &str, b: &str) -> (r: bool)
    ensures
        r == (a@ == b@),
{
    let n = a.unicode_len();
    if n != b.unicode_len() {
        return false;
    }
    let mut i: usize = 0;
    while i < n
        invariant
            i <= n,
            n == a@.len(),
            n == b@.len(),
            forall|k: int| 0 <= k < i ==> a@[k] == b@[k],
        decreases n - i,
    {
        if a.get_char(i) != b.get_char(i) {
            return false;
        }
        i = i + 1;
    }
    proof {
        assert(a@ =~= b@);
    }
    true
}

/// The lowercase hexadecimal SHA-256 digest of the UTF-8 bytes of a text.
pub uninterp spec fn sha256_hex(s: Seq<char>) -> Seq<char>;

/// Relies on `sha2::Sha256::digest` and the `LowerHex` formatting of its
/// output: the lowercase hex digest of the text's bytes.
#[verifier::external_body]
fn digest_hex(data: &str) -> (r: String)
    ensures
        r@ == sha256_hex(data@),
{
    format!("{:x}", Sha256::digest(data.as_bytes()))
}

/// The lowercase hexadecimal SHA-256 digest of `data`, as stored for passwords.
pub fn sha256(data: &str) -> (r: String)
    ensures
        r@ == sha256_hex(data@),
{
    digest_hex(data)
}

/// Whether `user` is the one named `username` and `digest` is the stored digest of its password.
pub fn digest_matches(user: &User, username: &str, digest: &str) -> (r: bool)
    ensures
        r == (user.username@ == username@ && user.password@ == digest@),
{
    text_eq(user.username.as_str(), username) && text_eq(user.password.as_str(), digest)
}

/// Whether `user` is the one named `username` and `password` is its password.
pub fn is_credentials_valid(user: &User, username: &str, password: &str) -> (r: bool)
    ensures
        r == (user.username@ == username@ && user.password@ == sha256_hex(password@)),
{
    let digest = sha256(password);
    digest_matches(user, username, digest.as_str())
}

/// Refuses `action` to `current` unless its role allows it.
pub fn authorize(current: &User, action: Action) -> (r: Result<(), AccessError>)
    ensures
        r is Ok == allowed(current.role, action),
        r matches Err(e) ==> e == AccessError::Denied,
{
    if is_allowed(current.role, action) {
        Ok(())
    } else {
        Err(AccessError::Denied)
    }
}

/// The root of the read operations, over a store handle `D`.
pub struct QueryRoot<D> {
    db: D,
}

impl<D> QueryRoot<D> {
    pub closed spec fn db_spec(&self) -> D {
        self.db
    }

    pub fn new(db: D) -> (r: Self)
        ensures
            r.db_spec() == db,
    {
        QueryRoot { db }
    }

    pub fn db(&self) -> (r: &D)
        ensures
            *r == self.db_spec(),
    {
        &self.db
    }
}

/// The root of the write operations, over a store handle `D`.
pub struct MutationRoot<D> {
    db: D,
}

impl<D> MutationRoot<D> {
    pub closed spec fn db_spec(&self) -> D {
        self.db
    }

    pub fn new(db: D) -> (r: Self)
        ensures
            r.db_spec() == db,
    {
        MutationRoot { db }
    }

    pub fn db(&self) -> (r: &D)
        ensures
            *r == self.db_spec(),
    {
        &self.db
    }

    /// A manager may set the role of any user but themself.
    pub fn check_set_user_role(current: &User, username: &str) -> (r: Result<(), AccessError>)
        ensures
            current.role != UserRole::Manager ==> r == Err::<(), AccessError>(AccessError::Denied),
            current.role == UserRole::Manager && current.username@ == username@ ==> r == Err::<
                (),
                AccessError,
            >(AccessError::OwnRole),
            current.role == UserRole::Manager && current.username@ != username@ ==> r is Ok,
    {
        authorize(current, Action::SetUserRole)?;
        if text_eq(current.username.as_str(), username) {
            return Err(AccessError::OwnRole);
        }
        Ok(())
    }
}

} // verus!
