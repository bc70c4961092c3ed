//! The user directory: resolves a caller-asserted identifier (username,
//! email or phone) to the stable internal identity the record store is keyed
//! by. Resolution fails cleanly on unknown identifiers instead of guessing.

use vstd::prelude::*;
use crate::protocol::str_eq;

verus! {

/// One registered user; the email is the stable internal identity.
pub struct UserEntry {
    pub email: String,
    pub username: String,
    pub phone: String,
}

/// An asserted identifier matches an entry by username, email or phone.
pub open spec fn entry_matches(e: UserEntry, q: Seq<char>) -> bool {
    e.username@ == q || e.email@ == q || e.phone@ == q
}

/// The internal identity of the first entry matching `q`, if any.
pub open spec fn spec_resolve(s: Seq<UserEntry>, q: Seq<char>) -> Option<Seq<char>>
    decreases s.len(),
{
    if s.len() == 0 {
        None
    } else if entry_matches(s[0], q) {
        Some(s[0].email@)
    } else {
        spec_resolve(s.skip(1), q)
    }
}

/// Some entry already uses this email as its identity.
pub open spec fn spec_email_taken(s: Seq<UserEntry>, e: Seq<char>) -> bool {
    exists|i: int| 0 <= i < s.len() && s[i].email@ == e
}

/// Maps asserted identifiers to internal identities for the record store.
pub struct UserDirectory {
    users: Vec<UserEntry>,
}

impl UserDirectory {
    /// The registered entries, in registration order.
    pub closed spec fn entries(&self) -> Seq<UserEntry> {
        self.users@
    }

    pub fn new() -> (r: Self)
        ensures
            r.entries() =~= Seq::<UserEntry>::empty(),
    {
        UserDirectory { users: Vec::new() }
    }

    /// Whether some registered user already has this email.
    pub fn check_email(&self, email: &String) -> (r: bool)
        ensures
            r == spec_email_taken(self.entries(), email@),
    {
        let n = self.users.len();
        let mut i: usize = 0;
        while i < n
            invariant
                i <= n,
                n == self.users@.len(),
                forall|k: int| 0 <= k < i ==> self.users@[k].email@ != email@,
            decreases n - i,
        {
            if self.users[i].email == *email {
                return true;
            }
            i = i + 1;
        }
        false
    }

    /// Registers a user; refused if the email identity is already taken.
    pub fn add_user(&mut self, entry: UserEntry) -> (r: bool)
        ensures
            r == !spec_email_taken(old(self).entries(), entry.email@),
            r ==> final(self).entries() =~= old(self).entries().push(entry),
            !r ==> *final(self) == *old(self),
    {
        if self.check_email(&entry.email) {
            return false;
        }
        self.users.push(entry);
        true
    }

    /// Resolves a caller-asserted identifier to the internal identity, or
    /// nothing when no registered user matches.
    pub fn resolve(&self, asserted: &String) -> (r: Option<String>)
        ensures
            match r {
                Some(owner) => spec_resolve(self.entries(), asserted@) == Some(owner@),
                None => spec_resolve(self.entries(), asserted@) == None::<Seq<char>>,
            },
    {
        let n = self.users.len();
        let mut i: usize = 0;
        proof {
            assert(self.users@.skip(0) =~= self.users@);
        }
        while i < n
            invariant
                i <= n,
                n == self.users@.len(),
                spec_resolve(self.users@, asserted@) == spec_resolve(
                    self.users@.skip(i as int),
                    asserted@,
                ),
            decreases n - i,
        {
            let e = &self.users[i];
            let hit = str_eq(e.username.as_str(), asserted.as_str()) || str_eq(
                e.email.as_str(),
                asserted.as_str(),
            ) || str_eq(e.phone.as_str(), asserted.as_str());
            proof {
                assert(self.users@.skip(i as int)[0] == self.users@[i as int]);
                assert(self.users@.skip(i as int).skip(1) =~= self.users@.skip(i + 1));
            }
            if hit {
                return Some(self.users[i].email.clone());
            }
            i = i + 1;
        }
        proof {
            assert(self.users@.skip(n as int) =~= Seq::<UserEntry>::empty());
        }
        None
    }
}

} // verus!
