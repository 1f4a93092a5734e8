//! Lobbies: two-slot session records keyed by a short alphanumeric code.
//!
//! A lobby is created with its creator seated in the `red` slot, fills its
//! `blue` slot on a later join, and carries one independently advanced,
//! saturating counter per slot.  Slots are never vacated and lobbies are
//! never deleted.

use vstd::prelude::*;

use crate::Reject;
use crate::code::{normalize_code, normalized, valid_code, validate_code};
use crate::identity::Identity;

verus! {

/// One lobby row.  `code` is the primary key, stored normalized; `red` and
/// `blue` are the two participant slots; `created` is the environment's
/// timestamp at creation, in microseconds since the Unix epoch.
#[derive(Clone, Debug)]
pub struct Lobby {
    pub code: String,
    pub red: Option<Identity>,
    pub blue: Option<Identity>,
    pub red_count: u32,
    pub blue_count: u32,
    pub created: i64,
}

/// A stored code: valid and already in normalized form.
pub open spec fn canonical_code(s: Seq<char>) -> bool {
    valid_code(s) && normalized(s) == s
}

/// The lobby table.
#[derive(Clone, Debug)]
pub struct LobbyTable {
    pub lobbies: Vec<Lobby>,
}

impl LobbyTable {
    /// Every stored code is valid and normalized, no two rows share a
    /// code, and the two slots of a row never hold the same identity.
    pub open spec fn wf(self) -> bool {
        &&& forall|i: int|
            0 <= i < self.lobbies@.len() ==> canonical_code(
                (#[trigger] self.lobbies@[i]).code@,
            )
        &&& forall|i: int, j: int|
            0 <= i < j < self.lobbies@.len() ==> (#[trigger] self.lobbies@[i]).code@ != (
            #[trigger] self.lobbies@[j]).code@
        &&& forall|i: int|
            0 <= i < self.lobbies@.len() ==> (((#[trigger] self.lobbies@[i]).red is Some
                && self.lobbies@[i].blue is Some) ==> self.lobbies@[i].red
                != self.lobbies@[i].blue)
    }

    /// Some row carries this exact (already normalized) code.
    pub open spec fn has_code(self, code: Seq<char>) -> bool {
        exists|i: int| 0 <= i < self.lobbies@.len() && (#[trigger] self.lobbies@[i]).code@ == code
    }

    /// The index of the row carrying `code`; meaningful only when
    /// `has_code` holds, unique whenever `wf` holds.
    pub open spec fn index_of(self, code: Seq<char>) -> int {
        choose|i: int| 0 <= i < self.lobbies@.len() && (#[trigger] self.lobbies@[i]).code@ == code
    }

    /// The row carrying `code`; meaningful only when `has_code` holds.
    pub open spec fn lobby_at(self, code: Seq<char>) -> Lobby {
        self.lobbies@[self.index_of(code)]
    }

    pub fn new() -> (r: LobbyTable)
        ensures
            r.wf(),
            r.lobbies@ == Seq::<Lobby>::empty(),
    {
        LobbyTable { lobbies: Vec::new() }
    }

    /// Find the index of the row whose code equals `code` exactly.
    fn find_index(&self, code: &String) -> (r: Option<usize>)
        requires
            self.wf(),
        ensures
            match r {
                Some(i) => self.has_code(code@) && i == self.index_of(code@) && i
                    < self.lobbies@.len() && self.lobbies@[i as int].code@ == code@,
                None => !self.has_code(code@),
            },
    {
        let n: usize = self.lobbies.len();
        let mut i: usize = 0;
        while i < n
            invariant
                self.wf(),
                n == self.lobbies@.len(),
                i <= n,
                forall|j: int| 0 <= j < i ==> (#[trigger] self.lobbies@[j]).code@ != code@,
            decreases n - i,
        {
            if self.lobbies[i].code == *code {
                proof {
                    assert(self.lobbies@[i as int].code@ == code@);
                    let j = self.index_of(code@);
                    if j < i {
                        assert(self.lobbies@[j].code@ != code@);
                    } else if j > i {
                        assert(self.lobbies@[i as int].code@ != self.lobbies@[j].code@);
                    }
                }
                return Some(i);
            }
            i += 1;
        }
        None
    }

    /// Look a lobby up by its code, given exactly as stored (normalized).
    /// External readers that start from raw input should normalize first.
    pub fn find(&self, code: &String) -> (r: Option<&Lobby>)
        requires
            self.wf(),
        ensures
            match r {
                Some(l) => self.has_code(code@) && *l == self.lobby_at(code@),
                None => !self.has_code(code@),
            },
    {
        match self.find_index(code) {
            Some(i) => Some(&self.lobbies[i]),
            None => None,
        }
    }
}

/// One saturating step of a slot counter.
pub open spec fn sat_inc(c: u32) -> u32 {
    if c == u32::MAX {
        c
    } else {
        (c + 1) as u32
    }
}

/// What a create operation leaves behind, for every input and outcome:
/// an invalid code or a duplicate is rejected with the table unchanged;
/// otherwise exactly one row is appended, seating the creator in `red`
/// with both counters zero, and the new code looks it up.
pub open spec fn create_post(
    pre: LobbyTable,
    post: LobbyTable,
    sender: Identity,
    code: Seq<char>,
    now: i64,
    r: Result<(), Reject>,
) -> bool {
    let n = normalized(code);
    &&& !valid_code(n) ==> r == Err::<(), Reject>(Reject::InvalidCode) && post.lobbies@
        == pre.lobbies@
    &&& valid_code(n) && pre.has_code(n) ==> r == Err::<(), Reject>(Reject::DuplicateCode)
        && post.lobbies@ == pre.lobbies@
    &&& valid_code(n) && !pre.has_code(n) ==> {
        &&& r == Ok::<(), Reject>(())
        &&& post.lobbies@.len() == pre.lobbies@.len() + 1
        &&& post.lobbies@.subrange(0, pre.lobbies@.len() as int) == pre.lobbies@
        &&& post.lobbies@.last().code@ == n
        &&& post.lobbies@.last().red == Some(sender)
        &&& post.lobbies@.last().blue is None
        &&& post.lobbies@.last().red_count == 0
        &&& post.lobbies@.last().blue_count == 0
        &&& post.lobbies@.last().created == now
        &&& post.has_code(n)
        &&& post.lobby_at(n) == post.lobbies@.last()
    }
}

/// What a join operation leaves behind, for every input and outcome: the
/// first empty slot in the fixed order `red` then `blue` is filled with
/// the caller; a caller already seated succeeds without any change; a
/// full lobby of two other identities is rejected.
pub open spec fn join_post(
    pre: LobbyTable,
    post: LobbyTable,
    sender: Identity,
    code: Seq<char>,
    r: Result<(), Reject>,
) -> bool {
    let n = normalized(code);
    &&& !valid_code(n) ==> r == Err::<(), Reject>(Reject::InvalidCode) && post.lobbies@
        == pre.lobbies@
    &&& valid_code(n) && !pre.has_code(n) ==> r == Err::<(), Reject>(Reject::NotFound)
        && post.lobbies@ == pre.lobbies@
    &&& valid_code(n) && pre.has_code(n) ==> {
        let i = pre.index_of(n);
        let l = pre.lobbies@[i];
        &&& (l.red == Some(sender) || l.blue == Some(sender)) ==> r == Ok::<(), Reject>(())
            && post.lobbies@ == pre.lobbies@
        &&& (l.red != Some(sender) && l.blue != Some(sender) && l.red is None) ==> r == Ok::<
            (),
            Reject,
        >(()) && post.lobbies@ == pre.lobbies@.update(i, Lobby { red: Some(sender), ..l })
        &&& (l.red != Some(sender) && l.blue != Some(sender) && l.red is Some
            && l.blue is None) ==> r == Ok::<(), Reject>(()) && post.lobbies@
            == pre.lobbies@.update(i, Lobby { blue: Some(sender), ..l })
        &&& (l.red != Some(sender) && l.blue != Some(sender) && l.red is Some
            && l.blue is Some) ==> r == Err::<(), Reject>(Reject::LobbyFull) && post.lobbies@
            == pre.lobbies@
    }
}

/// What an increment operation leaves behind, for every input and
/// outcome: the caller's own slot counter advances by one saturating
/// step, the other counter and everything else stay as they were; a
/// caller in neither slot, or an unknown code, is rejected unchanged.
pub open spec fn increment_post(
    pre: LobbyTable,
    post: LobbyTable,
    sender: Identity,
    code: Seq<char>,
    r: Result<(), Reject>,
) -> bool {
    let n = normalized(code);
    &&& !pre.has_code(n) ==> r == Err::<(), Reject>(Reject::NotFound) && post.lobbies@
        == pre.lobbies@
    &&& pre.has_code(n) ==> {
        let i = pre.index_of(n);
        let l = pre.lobbies@[i];
        &&& l.red == Some(sender) ==> r == Ok::<(), Reject>(()) && post.lobbies@
            == pre.lobbies@.update(i, Lobby { red_count: sat_inc(l.red_count), ..l })
        &&& (l.red != Some(sender) && l.blue == Some(sender)) ==> r == Ok::<(), Reject>(())
            && post.lobbies@ == pre.lobbies@.update(
            i,
            Lobby { blue_count: sat_inc(l.blue_count), ..l },
        )
        &&& (l.red != Some(sender) && l.blue != Some(sender)) ==> r == Err::<(), Reject>(
            Reject::NotAMember,
        ) && post.lobbies@ == pre.lobbies@
    }
}

/// Replacing one row with a row of the same code, whose slots do not
/// collide, keeps the table well-formed.
proof fn lemma_wf_update(pre: LobbyTable, post: LobbyTable, i: int, l: Lobby)
    requires
        pre.wf(),
        0 <= i < pre.lobbies@.len(),
        post.lobbies@ == pre.lobbies@.update(i, l),
        l.code@ == pre.lobbies@[i].code@,
        (l.red is Some && l.blue is Some) ==> l.red != l.blue,
    ensures
        post.wf(),
{
    let a = pre.lobbies@;
    let b = post.lobbies@;
    assert forall|k: int| 0 <= k < b.len() implies canonical_code((#[trigger] b[k]).code@) by {
        if k == i {
            assert(canonical_code(a[i].code@));
        } else {
            assert(b[k] == a[k]);
            assert(canonical_code(a[k].code@));
        }
    }
    assert forall|p: int, q: int|
        0 <= p < q < b.len() implies (#[trigger] b[p]).code@ != (#[trigger] b[q]).code@ by {
        if p == i {
            assert(b[q] == a[q]);
        } else if q == i {
            assert(b[p] == a[p]);
        } else {
            assert(b[p] == a[p]);
            assert(b[q] == a[q]);
        }
        assert(a[p].code@ != a[q].code@);
    }
    assert forall|k: int|
        0 <= k < b.len() && (#[trigger] b[k]).red is Some && b[k].blue is Some implies b[k].red
        != b[k].blue by {
        if k != i {
            assert(b[k] == a[k]);
        }
    }
}

/// Appending a row with a fresh, canonical code keeps the table
/// well-formed, and the new code looks the new row up.
proof fn lemma_wf_push(pre: LobbyTable, post: LobbyTable, l: Lobby)
    requires
        pre.wf(),
        post.lobbies@ == pre.lobbies@.push(l),
        canonical_code(l.code@),
        !pre.has_code(l.code@),
        (l.red is Some && l.blue is Some) ==> l.red != l.blue,
    ensures
        post.wf(),
        post.has_code(l.code@),
        post.index_of(l.code@) == pre.lobbies@.len(),
        post.lobby_at(l.code@) == l,
{
    let a = pre.lobbies@;
    let b = post.lobbies@;
    assert(b[a.len() as int] == l);
    assert forall|k: int| 0 <= k < b.len() implies canonical_code((#[trigger] b[k]).code@) by {
        if k < a.len() {
            assert(b[k] == a[k]);
            assert(canonical_code(a[k].code@));
        }
    }
    assert forall|p: int, q: int|
        0 <= p < q < b.len() implies (#[trigger] b[p]).code@ != (#[trigger] b[q]).code@ by {
        assert(b[p] == a[p]);
        if q < a.len() {
            assert(b[q] == a[q]);
            assert(a[p].code@ != a[q].code@);
        } else {
            if b[p].code@ == l.code@ {
                assert(pre.has_code(l.code@));
            }
        }
    }
    assert forall|k: int|
        0 <= k < b.len() && (#[trigger] b[k]).red is Some && b[k].blue is Some implies b[k].red
        != b[k].blue by {
        if k < a.len() {
            assert(b[k] == a[k]);
        }
    }
    assert(post.has_code(l.code@));
    let j = post.index_of(l.code@);
    assert(0 <= j < b.len() && b[j].code@ == l.code@);
    if j < a.len() {
        assert(b[j] == a[j]);
        assert(pre.has_code(l.code@));
    }
}

/// Create a lobby under `code`, seating the caller in the `red` slot with
/// both counters at zero and `now` as the creation time.  Rejects
/// `InvalidCode` before any lookup, and `DuplicateCode` when the
/// normalized code is already taken.
pub fn create_lobby(
    table: &mut LobbyTable,
    sender: Identity,
    code: &str,
    now: i64,
) -> (r: Result<(), Reject>)
    requires
        old(table).wf(),
    ensures
        final(table).wf(),
        create_post(*old(table), *final(table), sender, code@, now, r),
{
    let code_up = normalize_code(code);
    match validate_code(code_up.as_str()) {
        Err(e) => {
            return Err(e);
        },
        Ok(()) => {},
    }
    match table.find_index(&code_up) {
        Some(_) => Err(Reject::DuplicateCode),
        None => {
            let ghost pre = *table;
            let ghost n = code_up@;
            table.lobbies.push(
                Lobby {
                    code: code_up,
                    red: Some(sender),
                    blue: None,
                    red_count: 0,
                    blue_count: 0,
                    created: now,
                },
            );
            proof {
                let l = table.lobbies@.last();
                assert(l.code@ == n);
                crate::code::lemma_normalized_idempotent(code@);
                lemma_wf_push(pre, *table, l);
                assert(table.lobbies@.subrange(0, pre.lobbies@.len() as int) =~= pre.lobbies@);
            }
            Ok(())
        },
    }
}

/// Seat the caller in the lobby under `code`: a no-op when already
/// seated, otherwise the first empty slot in the fixed order `red` then
/// `blue`.  Rejects `InvalidCode`, `NotFound`, and `LobbyFull` when both
/// slots hold other identities.
pub fn join_lobby(table: &mut LobbyTable, sender: Identity, code: &str) -> (r: Result<(), Reject>)
    requires
        old(table).wf(),
    ensures
        final(table).wf(),
        join_post(*old(table), *final(table), sender, code@, r),
{
    let code_up = normalize_code(code);
    match validate_code(code_up.as_str()) {
        Err(e) => {
            return Err(e);
        },
        Ok(()) => {},
    }
    match table.find_index(&code_up) {
        None => Err(Reject::NotFound),
        Some(i) => {
            let ghost pre = *table;
            let ghost l = table.lobbies@[i as int];
            let red = table.lobbies[i].red;
            let blue = table.lobbies[i].blue;
            let red_mine = match red {
                Some(x) => x == sender,
                None => false,
            };
            let blue_mine = match blue {
                Some(x) => x == sender,
                None => false,
            };
            if red_mine || blue_mine {
                Ok(())
            } else if red.is_none() {
                table.lobbies[i].red = Some(sender);
                proof {
                    assert(table.lobbies@ == pre.lobbies@.update(
                        i as int,
                        Lobby { red: Some(sender), ..l },
                    ));
                    lemma_wf_update(pre, *table, i as int, Lobby { red: Some(sender), ..l });
                }
                Ok(())
            } else if blue.is_none() {
                table.lobbies[i].blue = Some(sender);
                proof {
                    assert(table.lobbies@ == pre.lobbies@.update(
                        i as int,
                        Lobby { blue: Some(sender), ..l },
                    ));
                    lemma_wf_update(pre, *table, i as int, Lobby { blue: Some(sender), ..l });
                }
                Ok(())
            } else {
                Err(Reject::LobbyFull)
            }
        },
    }
}

/// Advance the caller's own slot counter by one saturating step, leaving
/// the other counter and everything else untouched.  Rejects `NotFound`
/// for an unknown code and `NotAMember` for a caller in neither slot.
pub fn increment(table: &mut LobbyTable, sender: Identity, code: &str) -> (r: Result<(), Reject>)
    requires
        old(table).wf(),
    ensures
        final(table).wf(),
        increment_post(*old(table), *final(table), sender, code@, r),
{
    let code_up = normalize_code(code);
    match table.find_index(&code_up) {
        None => Err(Reject::NotFound),
        Some(i) => {
            let ghost pre = *table;
            let ghost l = table.lobbies@[i as int];
            let red = table.lobbies[i].red;
            let blue = table.lobbies[i].blue;
            let red_mine = match red {
                Some(x) => x == sender,
                None => false,
            };
            let blue_mine = match blue {
                Some(x) => x == sender,
                None => false,
            };
            if red_mine {
                let c: u32 = table.lobbies[i].red_count;
                table.lobbies[i].red_count = if c == u32::MAX {
                    c
                } else {
                    c + 1
                };
                proof {
                    assert(table.lobbies@ == pre.lobbies@.update(
                        i as int,
                        Lobby { red_count: sat_inc(l.red_count), ..l },
                    ));
                    lemma_wf_update(
                        pre,
                        *table,
                        i as int,
                        Lobby { red_count: sat_inc(l.red_count), ..l },
                    );
                }
                Ok(())
            } else if blue_mine {
                let c: u32 = table.lobbies[i].blue_count;
                table.lobbies[i].blue_count = if c == u32::MAX {
                    c
                } else {
                    c + 1
                };
                proof {
                    assert(table.lobbies@ == pre.lobbies@.update(
                        i as int,
                        Lobby { blue_count: sat_inc(l.blue_count), ..l },
                    ));
                    lemma_wf_update(
                        pre,
                        *table,
                        i as int,
                        Lobby { blue_count: sat_inc(l.blue_count), ..l },
                    );
                }
                Ok(())
            } else {
                Err(Reject::NotAMember)
            }
        },
    }
}

/// Below the ceiling a counter step is strictly additive; at the ceiling
/// the counter stays put instead of wrapping; a counter never decreases.
pub proof fn lemma_sat_inc_strict(c: u32)
    ensures
        c < u32::MAX ==> sat_inc(c) == c + 1,
        c == u32::MAX ==> sat_inc(c) == c,
        sat_inc(c) >= c,
{
}

/// Creating a lobby under a fresh valid code succeeds, and a lookup of
/// the normalized code immediately afterwards yields the new row: the
/// creator seated in `red`, `blue` empty, both counters zero, and the
/// supplied timestamp as the creation time.
pub proof fn lemma_create_then_lookup(
    pre: LobbyTable,
    post: LobbyTable,
    sender: Identity,
    code: Seq<char>,
    now: i64,
    r: Result<(), Reject>,
)
    requires
        pre.wf(),
        create_post(pre, post, sender, code, now, r),
        valid_code(normalized(code)),
        !pre.has_code(normalized(code)),
    ensures
        r == Ok::<(), Reject>(()),
        post.has_code(normalized(code)),
        post.lobby_at(normalized(code)).red == Some(sender),
        post.lobby_at(normalized(code)).blue is None,
        post.lobby_at(normalized(code)).red_count == 0,
        post.lobby_at(normalized(code)).blue_count == 0,
        post.lobby_at(normalized(code)).created == now,
{
}

/// A lobby, once created, is never deleted, and creation touches no
/// existing row: every row of the old table survives unchanged, whatever
/// the outcome of the operation.
pub proof fn lemma_create_preserves_rows(
    pre: LobbyTable,
    post: LobbyTable,
    sender: Identity,
    code: Seq<char>,
    now: i64,
    r: Result<(), Reject>,
)
    requires
        pre.wf(),
        create_post(pre, post, sender, code, now, r),
    ensures
        pre.lobbies@.len() <= post.lobbies@.len(),
        forall|i: int|
            0 <= i < pre.lobbies@.len() ==> #[trigger] post.lobbies@[i] == pre.lobbies@[i],
{
    let n = normalized(code);
    if valid_code(n) && !pre.has_code(n) {
        assert forall|i: int|
            0 <= i < pre.lobbies@.len() implies #[trigger] post.lobbies@[i]
            == pre.lobbies@[i] by {
            assert(post.lobbies@.subrange(0, pre.lobbies@.len() as int)[i] == post.lobbies@[i]);
        }
    }
}

/// A join never removes a lobby, never changes a code, a creation time
/// or a counter, and never vacates an occupied slot, whatever the
/// outcome of the operation.
pub proof fn lemma_join_monotonic(
    pre: LobbyTable,
    post: LobbyTable,
    sender: Identity,
    code: Seq<char>,
    r: Result<(), Reject>,
)
    requires
        pre.wf(),
        join_post(pre, post, sender, code, r),
    ensures
        post.lobbies@.len() == pre.lobbies@.len(),
        forall|i: int|
            0 <= i < pre.lobbies@.len() ==> {
                let a = #[trigger] pre.lobbies@[i];
                let b = post.lobbies@[i];
                &&& b.code@ == a.code@
                &&& b.created == a.created
                &&& b.red_count == a.red_count
                &&& b.blue_count == a.blue_count
                &&& (a.red is Some ==> b.red == a.red)
                &&& (a.blue is Some ==> b.blue == a.blue)
            },
{
    let n = normalized(code);
    if valid_code(n) && pre.has_code(n) {
        let i0 = pre.index_of(n);
        assert(0 <= i0 < pre.lobbies@.len() && pre.lobbies@[i0].code@ == n);
    }
}

/// An increment never changes membership, codes or creation times; the
/// counters never decrease, and at most one of them changes, whatever
/// the outcome of the operation.
pub proof fn lemma_increment_monotonic(
    pre: LobbyTable,
    post: LobbyTable,
    sender: Identity,
    code: Seq<char>,
    r: Result<(), Reject>,
)
    requires
        pre.wf(),
        increment_post(pre, post, sender, code, r),
    ensures
        post.lobbies@.len() == pre.lobbies@.len(),
        forall|i: int|
            0 <= i < pre.lobbies@.len() ==> {
                let a = #[trigger] pre.lobbies@[i];
                let b = post.lobbies@[i];
                &&& b.code@ == a.code@
                &&& b.created == a.created
                &&& b.red == a.red
                &&& b.blue == a.blue
                &&& b.red_count >= a.red_count
                &&& b.blue_count >= a.blue_count
                &&& (b.red_count != a.red_count ==> b.blue_count == a.blue_count)
                &&& (b.blue_count != a.blue_count ==> b.red_count == a.red_count)
            },
{
    let n = normalized(code);
    if pre.has_code(n) {
        let i0 = pre.index_of(n);
        assert(0 <= i0 < pre.lobbies@.len() && pre.lobbies@[i0].code@ == n);
    }
}

} // verus!
