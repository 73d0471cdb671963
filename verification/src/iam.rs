//! Authorization data: the role a credential carries, the level at which it
//! is valid, and the capability that tags the two together.

use core::cmp::Ordering;
use vstd::prelude::*;
use vstd::std_specs::cmp::PartialOrdSpecImpl;

verus! {

/// The privilege tier of a credential. The tiers are totally ordered,
/// `Viewer < Editor < Owner`, and a higher tier contains every lower one.
#[derive(Clone, Copy, Debug, PartialEq, Eq, Ord, Hash, Structural)]
pub enum Role {
    Viewer,
    Editor,
    Owner,
}

impl Role {
    /// The position of the tier in the order: 0 for `Viewer`, 2 for `Owner`.
    pub open spec fn rank(self) -> nat {
        match self {
            Role::Viewer => 0,
            Role::Editor => 1,
            Role::Owner => 2,
        }
    }

    /// Whether this tier contains `other`: whether a credential of this tier
    /// may do whatever one of tier `other` may.
    pub fn includes(&self, other: &Role) -> (b: bool)
        ensures
            b == (other.rank() <= self.rank()),
    {
        match (self, other) {
            (Role::Owner, _) => true,
            (Role::Editor, Role::Owner) => false,
            (Role::Editor, _) => true,
            (Role::Viewer, Role::Viewer) => true,
            (Role::Viewer, _) => false,
        }
    }
}

impl PartialOrd for Role {
    fn partial_cmp(&self, other: &Role) -> (r: Option<Ordering>) {
        if self.includes(other) {
            if other.includes(self) {
                Some(Ordering::Equal)
            } else {
                Some(Ordering::Greater)
            }
        } else {
            Some(Ordering::Less)
        }
    }
}

impl PartialOrdSpecImpl for Role {
    open spec fn obeys_partial_cmp_spec() -> bool {
        true
    }

    open spec fn partial_cmp_spec(&self, other: &Role) -> Option<Ordering> {
        if self.rank() < other.rank() {
            Some(Ordering::Less)
        } else if self.rank() == other.rank() {
            Some(Ordering::Equal)
        } else {
            Some(Ordering::Greater)
        }
    }
}

/// The order of the tiers is total: of two tiers one contains the other, and
/// two tiers that contain each other are the same.
pub proof fn law_role_order_total(a: Role, b: Role)
    ensures
        a.rank() <= b.rank() || b.rank() <= a.rank(),
        a.rank() == b.rank() <==> a == b,
{
}

/// Containment is monotonic: whatever tier a credential must contain, a
/// credential of a higher tier contains it as well.
pub proof fn law_role_monotonic(required: Role, lower: Role, higher: Role)
    requires
        required.rank() <= lower.rank(),
        lower.rank() <= higher.rank(),
    ensures
        required.rank() <= higher.rank(),
{
}

/// The level at which a credential is valid, as a mathematical value.
pub enum Realm {
    No,
    Root,
    Namespace(Seq<char>),
    Database(Seq<char>, Seq<char>),
}

/// The level at which a credential is valid: nowhere, everywhere, within one
/// namespace, or within one database of a namespace.
#[derive(Clone, Debug, PartialEq, Eq, Hash)]
pub enum Level {
    /// No level: what an unauthenticated connection holds.
    No,
    Root,
    Namespace(String),
    Database(String, String),
}

impl View for Level {
    type V = Realm;

    open spec fn view(&self) -> Realm {
        match self {
            Level::No => Realm::No,
            Level::Root => Realm::Root,
            Level::Namespace(ns) => Realm::Namespace(ns@),
            Level::Database(ns, db) => Realm::Database(ns@, db@),
        }
    }
}

/// A capability: the level at which a credential is valid and the role it
/// carries there. Once built it never changes.
#[derive(Clone, Debug, PartialEq, Eq, Hash)]
pub struct Auth {
    level: Level,
    role: Role,
}

impl View for Auth {
    type V = (Realm, Role);

    closed spec fn view(&self) -> (Realm, Role) {
        (self.level@, self.role)
    }
}

impl Auth {
    /// A capability for the whole system.
    pub fn for_root(role: Role) -> (auth: Auth)
        ensures
            auth@ == (Realm::Root, role),
    {
        Auth { level: Level::Root, role }
    }

    /// A capability for the namespace `ns`.
    pub fn for_ns(role: Role, ns: &str) -> (auth: Auth)
        ensures
            auth@ == (Realm::Namespace(ns@), role),
    {
        Auth { level: Level::Namespace(ns.to_owned()), role }
    }

    /// A capability for the database `db` of the namespace `ns`.
    pub fn for_db(role: Role, ns: &str, db: &str) -> (auth: Auth)
        ensures
            auth@ == (Realm::Database(ns@, db@), role),
    {
        Auth { level: Level::Database(ns.to_owned(), db.to_owned()), role }
    }

    /// The level at which the capability is valid.
    pub fn level(&self) -> (level: &Level)
        ensures
            level@ == self@.0,
    {
        &self.level
    }

    /// The role that the capability carries.
    pub fn role(&self) -> (role: Role)
        ensures
            role == self@.1,
    {
        self.role
    }
}

impl Default for Auth {
    /// The capability of an unauthenticated connection: no level, and the
    /// lowest role.
    fn default() -> (auth: Auth)
        ensures
            auth@ == (Realm::No, Role::Viewer),
    {
        Auth { level: Level::No, role: Role::Viewer }
    }
}

} // verus!
