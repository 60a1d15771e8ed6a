//! Who stands behind an invocation.
//!
//! The engine checks no signatures. Its host does, and tells the engine
//! which identities have approved the call that is being handled.

use vstd::prelude::*;
use crate::errors::Error;
use crate::types::Identity;

verus! {

/// The identities that have authorized the current invocation.
pub struct AuthContext {
    pub authorized: Vec<Identity>,
}

impl View for AuthContext {
    type V = Set<Seq<char>>;

    /// The authorizing identities, as a set of addresses.
    open spec fn view(&self) -> Set<Seq<char>> {
        Set::new(
            |id: Seq<char>|
                exists|i: int|
                    0 <= i < self.authorized@.len() && #[trigger] self.authorized@[i]@ == id,
        )
    }
}

impl AuthContext {
    /// An invocation that nobody has authorized.
    pub fn none() -> (auth: AuthContext)
        ensures
            auth@ == Set::<Seq<char>>::empty(),
    {
        AuthContext { authorized: Vec::new() }
    }

    /// An invocation that `id` alone has authorized.
    pub fn of(id: Identity) -> (auth: AuthContext)
        ensures
            auth@ == set![id@],
    {
        let ghost address = id@;
        let mut authorized: Vec<Identity> = Vec::new();
        authorized.push(id);
        let auth = AuthContext { authorized };
        assert(auth.authorized@[0]@ == address);
        auth
    }

    /// Records that `id` has authorized the invocation as well.
    pub fn grant(&mut self, id: Identity)
        ensures
            final(self)@ == old(self)@.insert(id@),
    {
        let ghost address = id@;
        let ghost before = self.authorized@;
        self.authorized.push(id);
        proof {
            let after = self.authorized@;
            assert(after[before.len() as int]@ == address);
            assert forall|x: Seq<char>| self@.contains(x) <==> old(self)@.insert(address).contains(
                x,
            ) by {
                if old(self)@.contains(x) {
                    let i = choose|i: int| 0 <= i < before.len() && #[trigger] before[i]@ == x;
                    assert(after[i]@ == x);
                }
                if self@.contains(x) {
                    let i = choose|i: int| 0 <= i < after.len() && #[trigger] after[i]@ == x;
                }
            }
        }
    }

    /// Succeeds exactly when `id` has authorized the invocation.
    pub fn assert_identity(&self, id: &Identity) -> (result: Result<(), Error>)
        ensures
            result is Ok <==> self@.contains(id@),
            result is Err ==> result == Err::<(), Error>(Error::Unauthorized),
    {
        let mut i: usize = 0;
        while i < self.authorized.len()
            invariant
                i <= self.authorized@.len(),
                forall|j: int| 0 <= j < i ==> #[trigger] self.authorized@[j]@ != id@,
            decreases self.authorized@.len() - i,
        {
            if self.authorized[i].same_as(id) {
                return Ok(());
            }
            i = i + 1;
        }
        Err(Error::Unauthorized)
    }
}

} // verus!
