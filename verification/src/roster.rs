//! The roster: the global table of known identities and their
//! connectivity state.
//!
//! Rows are created on an identity's first connection and never deleted;
//! later connect and disconnect events only flip the `online` flag.

use vstd::prelude::*;

use crate::identity::Identity;

verus! {

/// One roster row.  `identity` is the primary key; `name` is reserved and
/// stays unset in this crate's flows.
#[derive(Clone, Debug)]
pub struct User {
    pub identity: Identity,
    pub name: Option<String>,
    pub online: bool,
}

/// The roster table.  Well-formed when no identity owns two rows.
#[derive(Clone, Debug)]
pub struct Roster {
    pub users: Vec<User>,
}

impl Roster {
    /// Each identity owns at most one roster row.
    pub open spec fn wf(self) -> bool {
        forall|i: int, j: int|
            0 <= i < j < self.users@.len() ==> (#[trigger] self.users@[i]).identity != (
            #[trigger] self.users@[j]).identity
    }

    /// Some row carries this identity.
    pub open spec fn has_user(self, id: Identity) -> bool {
        exists|i: int| 0 <= i < self.users@.len() && (#[trigger] self.users@[i]).identity == id
    }

    pub fn new() -> (r: Roster)
        ensures
            r.wf(),
            r.users@ == Seq::<User>::empty(),
    {
        Roster { users: Vec::new() }
    }

    /// Look a row up by its identity.
    pub fn find(&self, id: Identity) -> (r: Option<&User>)
        requires
            self.wf(),
        ensures
            match r {
                Some(u) => self.has_user(id) && u.identity == id && exists|i: int|
                    0 <= i < self.users@.len() && #[trigger] self.users@[i] == *u,
                None => !self.has_user(id),
            },
    {
        let n: usize = self.users.len();
        let mut i: usize = 0;
        while i < n
            invariant
                n == self.users@.len(),
                i <= n,
                forall|j: int| 0 <= j < i ==> (#[trigger] self.users@[j]).identity != id,
            decreases n - i,
        {
            if self.users[i].identity == id {
                return Some(&self.users[i]);
            }
            i += 1;
        }
        None
    }
}

/// What a connect event leaves behind: the row carrying `id` is set online
/// in place, and when no such row exists one is appended with no name.
pub open spec fn connect_post(pre: Roster, post: Roster, id: Identity) -> bool {
    &&& forall|i: int|
        0 <= i < pre.users@.len() && (#[trigger] pre.users@[i]).identity == id
            ==> post.users@ == pre.users@.update(i, User { online: true, ..pre.users@[i] })
    &&& !pre.has_user(id) ==> post.users@ == pre.users@.push(
        User { identity: id, name: None, online: true },
    )
}

/// What a disconnect event leaves behind: the row carrying `id`, if any,
/// is set offline in place; an unknown identity leaves the roster alone.
pub open spec fn disconnect_post(pre: Roster, post: Roster, id: Identity) -> bool {
    &&& forall|i: int|
        0 <= i < pre.users@.len() && (#[trigger] pre.users@[i]).identity == id
            ==> post.users@ == pre.users@.update(i, User { online: false, ..pre.users@[i] })
    &&& !pre.has_user(id) ==> post.users@ == pre.users@
}

/// Mark `sender` online, creating its roster row on first connection.
/// Fire-and-forget: never fails.
pub fn client_connected(roster: &mut Roster, sender: Identity)
    requires
        old(roster).wf(),
    ensures
        final(roster).wf(),
        final(roster).has_user(sender),
        connect_post(*old(roster), *final(roster), sender),
{
    let n: usize = roster.users.len();
    let mut i: usize = 0;
    while i < n
        invariant
            old(roster).wf(),
            n == roster.users@.len(),
            i <= n,
            *roster == *old(roster),
            forall|j: int| 0 <= j < i ==> (#[trigger] roster.users@[j]).identity != sender,
        decreases n - i,
    {
        if roster.users[i].identity == sender {
            roster.users[i].online = true;
            proof {
                let pre = old(roster).users@;
                assert forall|k: int|
                    0 <= k < pre.len() && (#[trigger] pre[k]).identity == sender
                        implies roster.users@ == pre.update(
                        k,
                        User { online: true, ..pre[k] },
                    ) by {
                    if k < i {
                        assert(pre[k].identity != pre[i as int].identity);
                    } else if k > i {
                        assert(pre[i as int].identity != pre[k].identity);
                    }
                }
                assert forall|a: int, b: int|
                    0 <= a < b < roster.users@.len() implies (#[trigger] roster.users@[a]).identity
                    != (#[trigger] roster.users@[b]).identity by {
                    assert(roster.users@[a].identity == pre[a].identity);
                    assert(roster.users@[b].identity == pre[b].identity);
                }
                assert(roster.users@[i as int].identity == sender);
            }
            return;
        }
        i += 1;
    }
    roster.users.push(User { identity: sender, name: None, online: true });
    proof {
        let pre = old(roster).users@;
        assert(!old(roster).has_user(sender));
        assert forall|a: int, b: int|
            0 <= a < b < roster.users@.len() implies (#[trigger] roster.users@[a]).identity != (
        #[trigger] roster.users@[b]).identity by {
            if b < pre.len() {
                assert(roster.users@[a] == pre[a]);
                assert(roster.users@[b] == pre[b]);
            } else {
                assert(roster.users@[a] == pre[a]);
                assert(roster.users@[b].identity == sender);
            }
        }
        assert(roster.users@[pre.len() as int].identity == sender);
    }
}

/// Mark `sender` offline if it has a roster row; otherwise do nothing.
/// Fire-and-forget: never fails and never creates a row.
pub fn client_disconnected(roster: &mut Roster, sender: Identity)
    requires
        old(roster).wf(),
    ensures
        final(roster).wf(),
        disconnect_post(*old(roster), *final(roster), sender),
{
    let n: usize = roster.users.len();
    let mut i: usize = 0;
    while i < n
        invariant
            old(roster).wf(),
            n == roster.users@.len(),
            i <= n,
            *roster == *old(roster),
            forall|j: int| 0 <= j < i ==> (#[trigger] roster.users@[j]).identity != sender,
        decreases n - i,
    {
        if roster.users[i].identity == sender {
            roster.users[i].online = false;
            proof {
                let pre = old(roster).users@;
                assert forall|k: int|
                    0 <= k < pre.len() && (#[trigger] pre[k]).identity == sender
                        implies roster.users@ == pre.update(
                        k,
                        User { online: false, ..pre[k] },
                    ) by {
                    if k < i {
                        assert(pre[k].identity != pre[i as int].identity);
                    } else if k > i {
                        assert(pre[i as int].identity != pre[k].identity);
                    }
                }
                assert forall|a: int, b: int|
                    0 <= a < b < roster.users@.len() implies (#[trigger] roster.users@[a]).identity
                    != (#[trigger] roster.users@[b]).identity by {
                    assert(roster.users@[a].identity == pre[a].identity);
                    assert(roster.users@[b].identity == pre[b].identity);
                }
            }
            return;
        }
        i += 1;
    }
}

/// A connect event is idempotent: a second connect by the same identity
/// leaves the roster exactly as the first one left it.
pub proof fn lemma_connect_idempotent(pre: Roster, mid: Roster, post: Roster, id: Identity)
    requires
        pre.wf(),
        connect_post(pre, mid, id),
        connect_post(mid, post, id),
    ensures
        post.users@ == mid.users@,
{
    if pre.has_user(id) {
        let i = choose|i: int|
            0 <= i < pre.users@.len() && (#[trigger] pre.users@[i]).identity == id;
        assert(mid.users@ == pre.users@.update(i, User { online: true, ..pre.users@[i] }));
        assert(mid.users@[i].identity == id);
        assert(post.users@ == mid.users@.update(i, User { online: true, ..mid.users@[i] }));
        assert(User { online: true, ..mid.users@[i] } == mid.users@[i]);
        assert(post.users@ =~= mid.users@);
    } else {
        let i = pre.users@.len() as int;
        assert(mid.users@ == pre.users@.push(User { identity: id, name: None, online: true }));
        assert(mid.users@[i].identity == id);
        assert(post.users@ == mid.users@.update(i, User { online: true, ..mid.users@[i] }));
        assert(User { online: true, ..mid.users@[i] } == mid.users@[i]);
        assert(post.users@ =~= mid.users@);
    }
}

} // verus!
