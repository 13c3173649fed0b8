//! Principals and the authorization gate.
//!
//! An account is an opaque, externally issued identity: the ledger needs
//! nothing of it beyond equality, so it is carried as a plain integer.
//!
//! Authorization is a capability check performed by the host before any
//! mutation proceeds. The host hands each invocation the set of principals
//! that sanctioned it; [`AuthGate`] answers membership questions about
//! that set and has no side effect besides accept/reject. A test double
//! simply lists the principals it wants granted.

use vstd::prelude::*;

verus! {

/// An externally issued account identity.
pub type Account = u64;

/// The capability-check collaborator: the set of principals that have
/// sanctioned the current invocation.
pub struct AuthGate {
    granted: Vec<Account>,
}

impl View for AuthGate {
    type V = Set<Account>;

    /// The set of principals this gate grants.
    closed spec fn view(&self) -> Set<Account> {
        self.granted@.to_set()
    }
}

impl AuthGate {
    /// A gate that grants exactly the given principals.
    pub fn new(granted: Vec<Account>) -> (gate: AuthGate)
        ensures
            gate@ == granted@.to_set(),
    {
        AuthGate { granted }
    }

    /// A gate that grants no principal at all.
    pub fn deny_all() -> (gate: AuthGate)
        ensures
            gate@ == Set::<Account>::empty(),
    {
        let gate = AuthGate { granted: Vec::new() };
        proof {
            assert(gate.granted@.to_set() =~= Set::<Account>::empty());
        }
        gate
    }

    /// Whether the invocation is sanctioned by `principal`.
    pub fn grants(&self, principal: Account) -> (sanctioned: bool)
        ensures
            sanctioned == self@.contains(principal),
    {
        let n = self.granted.len();
        let mut i: usize = 0;
        while i < n
            invariant
                n == self.granted.len(),
                0 <= i <= n,
                forall|j: int| 0 <= j < i ==> self.granted@[j] != principal,
            decreases n - i,
        {
            if self.granted[i] == principal {
                return true;
            }
            i = i + 1;
        }
        proof {
            assert(!self.granted@.to_set().contains(principal));
        }
        false
    }
}

} // verus!
