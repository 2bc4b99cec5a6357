//! The example user model.

use vstd::prelude::*;
use crate::database::model::{Param, ParamV};

verus! {

/// A lower-case hexadecimal digit.
pub open spec fn lower_hex(c: char) -> bool {
    ('0' <= c && c <= '9') || ('a' <= c && c <= 'f')
}

/// The hyphenated lower-case text of a UUID: 36 characters, `-` at
/// positions 8, 13, 18 and 23, and lower-case hexadecimal digits elsewhere.
pub open spec fn uuid_text(s: Seq<char>) -> bool {
    &&& s.len() == 36
    &&& forall|i: int|
        0 <= i < 36 ==> if i == 8 || i == 13 || i == 18 || i == 23 {
            s[i] == '-'
        } else {
            lower_hex(#[trigger] s[i])
        }
}

/// A new random (version 4) UUID as text (uuid's `Uuid::new_v4`, shown
/// with `Display`). Claimed: the text has the hyphenated lower-case form,
/// which is what the crate's `Display` writes; which UUID comes out is
/// random and not claimed.
#[verifier::external_body]
fn new_uuid_text() -> (r: String)
    ensures
        uuid_text(r@),
{
    uuid::Uuid::new_v4().to_string()
}

/// The current time in UTC as RFC 3339 text (chrono's `Utc::now`, written
/// with `to_rfc3339`). Nothing is claimed of the time.
#[verifier::external_body]
fn now_rfc3339() -> String {
    chrono::Utc::now().to_rfc3339()
}

/// A user.
#[derive(Debug, Clone)]
pub struct User {
    pub id: String,
    pub name: String,
    pub email: String,
    pub created_at: String,
}

/// The columns and values that a user is stored with: its id, name and
/// email, as text.
pub open spec fn user_values(u: User) -> Seq<(Seq<char>, ParamV)> {
    seq![
        ("id"@, ParamV::Text(u.id@)),
        ("name"@, ParamV::Text(u.name@)),
        ("email"@, ParamV::Text(u.email@)),
    ]
}

impl User {
    /// A new user with a fresh random id, created now.
    pub fn new(name: &str, email: &str) -> (r: User)
        ensures
            r.name@ == name@,
            r.email@ == email@,
            uuid_text(r.id@),
    {
        User {
            id: new_uuid_text(),
            name: name.to_string(),
            email: email.to_string(),
            created_at: now_rfc3339(),
        }
    }

    /// The table that users are stored in.
    pub fn table_name() -> (r: &'static str)
        ensures
            r@ == "users"@,
    {
        "users"
    }

    /// The primary key column.
    pub fn primary_key() -> (r: &'static str)
        ensures
            r@ == "id"@,
    {
        "id"
    }

    /// The columns and values to store the user with.
    pub fn to_values(&self) -> (r: Vec<(String, Param)>)
        ensures
            r@.len() == 3,
            forall|i: int|
                0 <= i < 3 ==> (#[trigger] r@[i]).0@ == user_values(*self)[i].0 && r@[i].1@
                    == user_values(*self)[i].1,
    {
        let mut v: Vec<(String, Param)> = Vec::new();
        v.push(("id".to_string(), Param::Text(self.id.clone())));
        v.push(("name".to_string(), Param::Text(self.name.clone())));
        v.push(("email".to_string(), Param::Text(self.email.clone())));
        v
    }
}

} // verus!
