//! Capacity-bounded commodity leaderboards, kept in descending order of
//! power, with each entry found by the content hash of its commodity id.

use vstd::prelude::*;
use crate::power::{AccountId, PowerSize};
use crate::table::bytes_eq;

verus! {

/// The BLAKE2b-256 digest of a byte string.
pub uninterp spec fn blake2_256_of(data: Seq<u8>) -> Seq<u8>;

/// Relies on `sp_core::Blake2Hasher` (`Hasher::hash`): the 32-byte BLAKE2b
/// digest of the bytes, a function of the bytes alone.
#[verifier::external_body]
fn content_hash(data: &Vec<u8>) -> (r: Vec<u8>)
    ensures
        r@ == blake2_256_of(data@),
        r@.len() == 32,
{
    <sp_core::Blake2Hasher as sp_core::Hasher>::hash(data).0.to_vec()
}

/// One entry of a leaderboard.
#[derive(Clone, Debug)]
pub struct CommodityLeaderBoardData {
    pub cart_id: Vec<u8>,
    pub cart_id_hash: Vec<u8>,
    pub power: PowerSize,
    pub owner: AccountId,
}

/// Entries in non-increasing order of power.
pub open spec fn descending(s: Seq<CommodityLeaderBoardData>) -> bool {
    forall|i: int, j: int| 0 <= i < j < s.len() ==> s[i].power >= s[j].power
}

/// Entries in strictly decreasing order of power.
pub open spec fn strictly_descending(s: Seq<CommodityLeaderBoardData>) -> bool {
    forall|i: int, j: int| 0 <= i < j < s.len() ==> s[i].power > s[j].power
}

/// No commodity id occurs twice.
pub open spec fn unique_ids(s: Seq<CommodityLeaderBoardData>) -> bool {
    forall|i: int, j: int| 0 <= i < j < s.len() ==> s[i].cart_id@ != s[j].cart_id@
}

/// `rest` is `s` without the entry of `cart_id` (`s` itself when it has none).
pub open spec fn without_entry(
    s: Seq<CommodityLeaderBoardData>,
    cart_id: Seq<u8>,
    rest: Seq<CommodityLeaderBoardData>,
) -> bool {
    ||| exists|i: int| 0 <= i < s.len() && s[i].cart_id@ == cart_id && rest == s.remove(i)
    ||| (forall|j: int| 0 <= j < s.len() ==> s[j].cart_id@ != cart_id) && rest == s
}

/// Whether an entry stands for a commodity id.
pub open spec fn entry_of(e: CommodityLeaderBoardData, cart_id: Seq<u8>) -> bool {
    e.cart_id_hash@ == blake2_256_of(cart_id) && e.cart_id@ == cart_id
}

/// The leaderboard of one model of an app (or of the whole app, when the
/// model id is empty).
pub struct LeaderBoard {
    pub app_id: u32,
    pub model_id: Vec<u8>,
    pub capacity: u32,
    pub items: Vec<CommodityLeaderBoardData>,
}

impl View for LeaderBoard {
    type V = Seq<CommodityLeaderBoardData>;

    open spec fn view(&self) -> Seq<CommodityLeaderBoardData> {
        self.items@
    }
}

/// The entries of `s` with the one at `i` taken out and `e` put at `pos`,
/// cut to `cap` entries.
pub open spec fn placed(
    s: Seq<CommodityLeaderBoardData>,
    pos: int,
    e: CommodityLeaderBoardData,
    cap: int,
) -> Seq<CommodityLeaderBoardData> {
    let t = s.insert(pos, e);
    if t.len() > cap {
        t.subrange(0, cap)
    } else {
        t
    }
}

/// `pos` is where an entry of power `p` goes among `s`: after every entry
/// of at least that power, before every weaker one.
pub open spec fn insertion_point(s: Seq<CommodityLeaderBoardData>, pos: int, p: PowerSize) -> bool {
    &&& 0 <= pos <= s.len()
    &&& forall|j: int| 0 <= j < pos ==> s[j].power >= p
    &&& forall|j: int| pos <= j < s.len() ==> s[j].power < p
}

/// The shape of a board after an update that changed a power.
pub open spec fn final_shape(
    rest: Seq<CommodityLeaderBoardData>,
    pos: int,
    e: CommodityLeaderBoardData,
    cart_id: Seq<u8>,
    power: PowerSize,
    owner: Seq<u8>,
    after: Seq<CommodityLeaderBoardData>,
    cap: int,
) -> bool {
    &&& insertion_point(rest, pos, power)
    &&& entry_of(e, cart_id)
    &&& e.power == power
    &&& e.owner@ == owner
    &&& after == placed(rest, pos, e, cap)
}

/// What recording a commodity's power does to a board's entries.
pub open spec fn board_update(
    before: Seq<CommodityLeaderBoardData>,
    after: Seq<CommodityLeaderBoardData>,
    cart_id: Seq<u8>,
    power: PowerSize,
    owner: Seq<u8>,
    cap: int,
) -> bool {
    &&& (exists|i: int| 0 <= i < before.len() && before[i].cart_id@ == cart_id && before[i].power == power)
        ==> after == before
    &&& (forall|i: int| 0 <= i < before.len() && before[i].cart_id@ == cart_id ==> before[i].power != power)
        ==> exists|rest: Seq<CommodityLeaderBoardData>, pos: int, e: CommodityLeaderBoardData|
        {
            &&& without_entry(before, cart_id, rest)
            &&& final_shape(rest, pos, e, cart_id, power, owner, after, cap)
        }
}

impl LeaderBoard {
    /// Well-formed: descending, within capacity, each entry hashed.
    pub open spec fn wf(&self) -> bool {
        &&& descending(self@)
        &&& unique_ids(self@)
        &&& self@.len() <= self.capacity
        &&& forall|i: int| 0 <= i < self@.len() ==> entry_of(#[trigger] self@[i], self@[i].cart_id@)
    }

    /// An empty board of the given capacity.
    pub fn new(app_id: u32, model_id: Vec<u8>, capacity: u32) -> (r: LeaderBoard)
        ensures
            r.wf(),
            r@.len() == 0,
            r.capacity == capacity,
            r.app_id == app_id,
            r.model_id@ == model_id@,
    {
        LeaderBoard { app_id, model_id, capacity, items: Vec::new() }
    }

    /// The entries, strongest first.
    pub fn items(&self) -> (r: &Vec<CommodityLeaderBoardData>)
        ensures
            r@ == self@,
    {
        &self.items
    }

    /// Position and copy of the entry of a commodity, found by the content
    /// hash of its id.
    pub fn get_leader_item(&self, cart_id: &Vec<u8>) -> (r: Option<(usize, PowerSize)>)
        requires
            self.wf(),
        ensures
            match r {
                Some((i, p)) => i < self@.len() && self@[i as int].cart_id@ == cart_id@ && p
                    == self@[i as int].power,
                None => forall|j: int| 0 <= j < self@.len() ==> self@[j].cart_id@ != cart_id@,
            },
    {
        let hash = content_hash(cart_id);
        let mut i: usize = 0;
        while i < self.items.len()
            invariant
                0 <= i <= self.items@.len(),
                self.wf(),
                hash@ == blake2_256_of(cart_id@),
                forall|j: int| 0 <= j < i ==> self@[j].cart_id@ != cart_id@,
            decreases self.items@.len() - i,
        {
            let item = &self.items[i];
            if bytes_eq(&item.cart_id_hash, &hash) && bytes_eq(&item.cart_id, cart_id) {
                return Some((i, item.power));
            }
            proof {
                assert(entry_of(self@[i as int], self@[i as int].cart_id@));
            }
            i = i + 1;
        }
        None
    }

    /// Where an entry of power `power` goes: after all entries at least as strong.
    fn insert_position(&self, power: PowerSize) -> (r: usize)
        requires
            descending(self@),
        ensures
            insertion_point(self@, r as int, power),
    {
        let mut lo: usize = 0;
        let mut hi: usize = self.items.len();
        while lo < hi
            invariant
                0 <= lo <= hi <= self.items@.len(),
                descending(self@),
                forall|j: int| 0 <= j < lo ==> self@[j].power >= power,
                forall|j: int| hi <= j < self@.len() ==> self@[j].power < power,
            decreases hi - lo,
        {
            let mid = lo + (hi - lo) / 2;
            if self.items[mid].power >= power {
                lo = mid + 1;
            } else {
                hi = mid;
            }
        }
        lo
    }

    /// Records a commodity's new power. An unchanged power leaves the board
    /// as it is; otherwise the old entry leaves, the new one goes after
    /// every entry at least as strong, and the weakest entry drops when the
    /// board is over capacity.
    pub fn update(&mut self, cart_id: &Vec<u8>, power: PowerSize, owner: &AccountId)
        requires
            old(self).wf(),
        ensures
            final(self).wf(),
            final(self).capacity == old(self).capacity,
            final(self).app_id == old(self).app_id,
            final(self).model_id == old(self).model_id,
            board_update(old(self)@, final(self)@, cart_id@, power, owner@, old(self).capacity as int),
    {
        let ghost old_items = self@;
        match self.get_leader_item(cart_id) {
            Some((index, org_power)) => {
                if org_power == power {
                    return ;
                }
                self.items.remove(index);
                proof {
                    assert(self@ == old_items.remove(index as int));
                    assert forall|j: int| 0 <= j < self@.len() implies self@[j].cart_id@ != cart_id@ by {
                        if j < index {
                            assert(self@[j] == old_items[j]);
                        } else {
                            assert(self@[j] == old_items[j + 1]);
                        }
                    }
                    assert forall|a: int, b: int| 0 <= a < b < self@.len() implies self@[a].power
                        >= self@[b].power && self@[a].cart_id@ != self@[b].cart_id@ by {
                        let a2 = if a < index { a } else { a + 1 };
                        let b2 = if b < index { b } else { b + 1 };
                        assert(self@[a] == old_items[a2]);
                        assert(self@[b] == old_items[b2]);
                    }
                    assert(without_entry(old_items, cart_id@, self@));
                }
            },
            None => {
                proof {
                    assert(without_entry(old_items, cart_id@, self@));
                }
            },
        }
        let ghost rest = self@;
        let pos = self.insert_position(power);
        let item = CommodityLeaderBoardData {
            cart_id_hash: content_hash(cart_id),
            cart_id: cart_id.clone(),
            power,
            owner: owner.clone(),
        };
        let ghost e = item;
        self.items.insert(pos, item);
        proof {
            let t = self@;
            assert(t == rest.insert(pos as int, item));
            assert forall|a: int, b: int| 0 <= a < b < t.len() implies t[a].power >= t[b].power
                && t[a].cart_id@ != t[b].cart_id@ by {
                if a < pos {
                    assert(t[a] == rest[a]);
                }
                if a > pos {
                    assert(t[a] == rest[a - 1]);
                }
                if b < pos {
                    assert(t[b] == rest[b]);
                }
                if b > pos {
                    assert(t[b] == rest[b - 1]);
                }
            }
            assert forall|i: int| 0 <= i < t.len() implies entry_of(#[trigger] t[i], t[i].cart_id@) by {
                if i < pos {
                    assert(t[i] == rest[i]);
                }
                if i > pos {
                    assert(t[i] == rest[i - 1]);
                }
            }
        }
        if self.items.len() > self.capacity as usize {
            self.items.pop();
            proof {
                assert(self@ =~= rest.insert(pos as int, e).subrange(0, self.capacity as int));
            }
        }
        proof {
            assert(final_shape(rest, pos as int, e, cart_id@, power, owner@, self@, self.capacity as int));
        }
    }

    /// Takes a commodity's entry off the board, if it is there.
    pub fn remove_leader_board_item(&mut self, cart_id: &Vec<u8>) -> (r: bool)
        requires
            old(self).wf(),
        ensures
            final(self).wf(),
            final(self).capacity == old(self).capacity,
            final(self).app_id == old(self).app_id,
            final(self).model_id == old(self).model_id,
            without_entry(old(self)@, cart_id@, final(self)@),
            r == (exists|i: int| 0 <= i < old(self)@.len() && old(self)@[i].cart_id@ == cart_id@),
    {
        let ghost old_items = self@;
        match self.get_leader_item(cart_id) {
            Some((index, _)) => {
                self.items.remove(index);
                proof {
                    assert(self@ == old_items.remove(index as int));
                    assert forall|a: int, b: int| 0 <= a < b < self@.len() implies self@[a].power
                        >= self@[b].power && self@[a].cart_id@ != self@[b].cart_id@ by {
                        let a2 = if a < index { a } else { a + 1 };
                        let b2 = if b < index { b } else { b + 1 };
                        assert(self@[a] == old_items[a2]);
                        assert(self@[b] == old_items[b2]);
                    }
                    assert forall|i: int| 0 <= i < self@.len() implies entry_of(#[trigger] self@[i], self@[i].cart_id@) by {
                        let i2 = if i < index { i } else { i + 1 };
                        assert(self@[i] == old_items[i2]);
                    }
                }
                true
            },
            None => false,
        }
    }
}

/// A strictly descending board stays strictly descending when an entry
/// leaves it.
pub proof fn lemma_removal_keeps_strict(
    before: Seq<CommodityLeaderBoardData>,
    cart_id: Seq<u8>,
    after: Seq<CommodityLeaderBoardData>,
)
    requires
        strictly_descending(before),
        without_entry(before, cart_id, after),
    ensures
        strictly_descending(after),
{
    if exists|i: int| 0 <= i < before.len() && before[i].cart_id@ == cart_id && after == before.remove(i) {
        let i = choose|i: int| 0 <= i < before.len() && before[i].cart_id@ == cart_id && after == before.remove(i);
        assert forall|a: int, b: int| 0 <= a < b < after.len() implies after[a].power > after[b].power by {
            let a2 = if a < i { a } else { a + 1 };
            let b2 = if b < i { b } else { b + 1 };
            assert(after[a] == before[a2]);
            assert(after[b] == before[b2]);
        }
    }
}

/// A strictly descending board stays strictly descending through an
/// update whose power no other commodity on the board has; ties are the
/// one way to equal powers, as ties keep arrival order.
pub proof fn lemma_update_keeps_strict(
    before: Seq<CommodityLeaderBoardData>,
    cart_id: Seq<u8>,
    power: PowerSize,
    owner: Seq<u8>,
    cap: int,
    after: Seq<CommodityLeaderBoardData>,
)
    requires
        strictly_descending(before),
        unique_ids(before),
        cap >= 0,
        forall|i: int| 0 <= i < before.len() && before[i].cart_id@ != cart_id ==> before[i].power != power,
        after == before || exists|rest: Seq<CommodityLeaderBoardData>, pos: int, e: CommodityLeaderBoardData|
            {
                &&& without_entry(before, cart_id, rest)
                &&& final_shape(rest, pos, e, cart_id, power, owner, after, cap)
            },
    ensures
        strictly_descending(after),
{
    if after != before {
        let (rest, pos, e) = choose|rest: Seq<CommodityLeaderBoardData>, pos: int, e: CommodityLeaderBoardData|
            {
                &&& without_entry(before, cart_id, rest)
                &&& final_shape(rest, pos, e, cart_id, power, owner, after, cap)
            };
        lemma_removal_keeps_strict(before, cart_id, rest);
        assert forall|j: int| 0 <= j < rest.len() implies rest[j].power != power by {
            if exists|i: int| 0 <= i < before.len() && before[i].cart_id@ == cart_id && rest == before.remove(i) {
                let i = choose|i: int| 0 <= i < before.len() && before[i].cart_id@ == cart_id && rest == before.remove(i);
                let j2 = if j < i { j } else { j + 1 };
                assert(rest[j] == before[j2]);
                assert(before[j2].cart_id@ != cart_id);
            } else {
                assert(rest == before);
                assert(rest[j].cart_id@ != cart_id);
            }
        }
        let t = rest.insert(pos, e);
        assert forall|a: int, b: int| 0 <= a < b < t.len() implies t[a].power > t[b].power by {
            if a < pos {
                assert(t[a] == rest[a]);
            }
            if a > pos {
                assert(t[a] == rest[a - 1]);
            }
            if b < pos {
                assert(t[b] == rest[b]);
            }
            if b > pos {
                assert(t[b] == rest[b - 1]);
            }
        }
        if t.len() > cap {
            assert(after == t.subrange(0, cap));
            assert forall|a: int, b: int| 0 <= a < b < after.len() implies after[a].power > after[b].power by {
                assert(after[a] == t[a]);
                assert(after[b] == t[b]);
            }
        }
    }
}

/// An ordered, duplicate-free board of at most `cap` entries.
pub open spec fn ordered_within(s: Seq<CommodityLeaderBoardData>, cap: int) -> bool {
    descending(s) && unique_ids(s) && s.len() <= cap
}

proof fn lemma_removal_keeps_order(
    before: Seq<CommodityLeaderBoardData>,
    cart_id: Seq<u8>,
    after: Seq<CommodityLeaderBoardData>,
    cap: int,
)
    requires
        ordered_within(before, cap),
        without_entry(before, cart_id, after),
    ensures
        ordered_within(after, cap),
        forall|j: int| 0 <= j < after.len() ==> after[j].cart_id@ != cart_id,
{
    if exists|i: int| 0 <= i < before.len() && before[i].cart_id@ == cart_id && after == before.remove(i) {
        let i = choose|i: int| 0 <= i < before.len() && before[i].cart_id@ == cart_id && after == before.remove(i);
        assert forall|a: int, b: int| 0 <= a < b < after.len() implies after[a].power >= after[b].power
            && after[a].cart_id@ != after[b].cart_id@ by {
            let a2 = if a < i { a } else { a + 1 };
            let b2 = if b < i { b } else { b + 1 };
            assert(after[a] == before[a2]);
            assert(after[b] == before[b2]);
        }
        assert forall|j: int| 0 <= j < after.len() implies after[j].cart_id@ != cart_id by {
            let j2 = if j < i { j } else { j + 1 };
            assert(after[j] == before[j2]);
        }
    }
}

proof fn lemma_update_keeps_order(
    before: Seq<CommodityLeaderBoardData>,
    after: Seq<CommodityLeaderBoardData>,
    cart_id: Seq<u8>,
    power: PowerSize,
    owner: Seq<u8>,
    cap: int,
)
    requires
        ordered_within(before, cap),
        board_update(before, after, cart_id, power, owner, cap),
    ensures
        ordered_within(after, cap),
{
    if !(exists|i: int| 0 <= i < before.len() && before[i].cart_id@ == cart_id && before[i].power == power) {
        let (rest, pos, e) = choose|rest: Seq<CommodityLeaderBoardData>, pos: int, e: CommodityLeaderBoardData|
            {
                &&& without_entry(before, cart_id, rest)
                &&& final_shape(rest, pos, e, cart_id, power, owner, after, cap)
            };
        lemma_removal_keeps_order(before, cart_id, rest, cap);
        let t = rest.insert(pos, e);
        assert forall|a: int, b: int| 0 <= a < b < t.len() implies t[a].power >= t[b].power
            && t[a].cart_id@ != t[b].cart_id@ by {
            if a < pos {
                assert(t[a] == rest[a]);
            }
            if a > pos {
                assert(t[a] == rest[a - 1]);
            }
            if b < pos {
                assert(t[b] == rest[b]);
            }
            if b > pos {
                assert(t[b] == rest[b - 1]);
            }
        }
        if t.len() > cap {
            assert(after == t.subrange(0, cap));
            assert forall|a: int, b: int| 0 <= a < b < after.len() implies after[a].power >= after[b].power
                && after[a].cart_id@ != after[b].cart_id@ by {
                assert(after[a] == t[a]);
                assert(after[b] == t[b]);
            }
        } else {
            assert(after == t);
        }
    }
}

/// One update or removal on a board of capacity `cap`.
pub open spec fn board_step(
    before: Seq<CommodityLeaderBoardData>,
    after: Seq<CommodityLeaderBoardData>,
    cap: int,
) -> bool {
    ||| exists|cart_id: Seq<u8>, power: PowerSize, owner: Seq<u8>|
        #[trigger] board_update(before, after, cart_id, power, owner, cap)
    ||| exists|cart_id: Seq<u8>| #[trigger] without_entry(before, cart_id, after)
}

/// Leaderboard invariant: along any sequence of updates and removals from
/// an empty board, every board reached is in descending order of power,
/// holds each commodity at most once and stays within its capacity.
pub proof fn lemma_board_sequence_invariant(states: Seq<Seq<CommodityLeaderBoardData>>, cap: int)
    requires
        cap >= 0,
        states.len() > 0,
        states[0].len() == 0,
        forall|i: int| 0 <= i < states.len() - 1 ==> board_step(#[trigger] states[i], states[i + 1], cap),
    ensures
        forall|i: int| 0 <= i < states.len() ==> ordered_within(#[trigger] states[i], cap),
{
    lemma_board_prefix(states, cap, states.len() - 1);
    assert forall|i: int| 0 <= i < states.len() implies ordered_within(#[trigger] states[i], cap) by {
        lemma_board_prefix(states, cap, i);
    }
}

proof fn lemma_board_prefix(states: Seq<Seq<CommodityLeaderBoardData>>, cap: int, n: int)
    requires
        cap >= 0,
        0 <= n < states.len(),
        states[0].len() == 0,
        forall|i: int| 0 <= i < states.len() - 1 ==> board_step(#[trigger] states[i], states[i + 1], cap),
    ensures
        ordered_within(states[n], cap),
    decreases n,
{
    if n > 0 {
        lemma_board_prefix(states, cap, n - 1);
        assert(board_step(states[n - 1], states[n], cap));
        if exists|cart_id: Seq<u8>, power: PowerSize, owner: Seq<u8>|
            #[trigger] board_update(states[n - 1], states[n], cart_id, power, owner, cap) {
            let (c, p, o) = choose|cart_id: Seq<u8>, power: PowerSize, owner: Seq<u8>|
                #[trigger] board_update(states[n - 1], states[n], cart_id, power, owner, cap);
            lemma_update_keeps_order(states[n - 1], states[n], c, p, o, cap);
        } else {
            let c = choose|cart_id: Seq<u8>| #[trigger] without_entry(states[n - 1], cart_id, states[n]);
            lemma_removal_keeps_order(states[n - 1], c, states[n], cap);
        }
    }
}

/// Recording the same power of a commodity twice leaves the board as the
/// first recording left it.
pub proof fn lemma_board_update_idempotent(
    b0: Seq<CommodityLeaderBoardData>,
    b1: Seq<CommodityLeaderBoardData>,
    b2: Seq<CommodityLeaderBoardData>,
    cart_id: Seq<u8>,
    power: PowerSize,
    owner: Seq<u8>,
    cap: int,
)
    requires
        cap >= 0,
        ordered_within(b0, cap),
        board_update(b0, b1, cart_id, power, owner, cap),
        board_update(b1, b2, cart_id, power, owner, cap),
    ensures
        b2 == b1,
{
    lemma_update_keeps_order(b0, b1, cart_id, power, owner, cap);
    if exists|i: int| 0 <= i < b1.len() && b1[i].cart_id@ == cart_id && b1[i].power == power {
        return;
    }
    if exists|i: int| 0 <= i < b0.len() && b0[i].cart_id@ == cart_id && b0[i].power == power {
        assert(b1 == b0);
        return;
    }
    let (rest, pos, e) = choose|rest: Seq<CommodityLeaderBoardData>, pos: int, e: CommodityLeaderBoardData|
        {
            &&& without_entry(b0, cart_id, rest)
            &&& final_shape(rest, pos, e, cart_id, power, owner, b1, cap)
        };
    lemma_removal_keeps_order(b0, cart_id, rest, cap);
    let t = rest.insert(pos, e);
    if pos < cap {
        if t.len() > cap {
            assert(b1[pos] == t[pos]);
        }
        assert(b1[pos] == e);
        assert(false);
    }
    assert(rest.len() <= b0.len());
    assert(t.len() > cap);
    assert(pos == rest.len());
    assert(b1 =~= rest);
    assert forall|j: int| 0 <= j < b1.len() implies b1[j].power >= power && b1[j].cart_id@ != cart_id by {}
    let (rest2, pos2, e2) = choose|rest: Seq<CommodityLeaderBoardData>, pos: int, e: CommodityLeaderBoardData|
        {
            &&& without_entry(b1, cart_id, rest)
            &&& final_shape(rest, pos, e, cart_id, power, owner, b2, cap)
        };
    assert(rest2 == b1);
    if pos2 < rest2.len() {
        assert(rest2[pos2].power < power);
    }
    assert(pos2 == rest2.len());
    assert(b2 =~= b1);
}

/// A board on which recording `power` for `cart_id` changes nothing: the
/// commodity is there with that power, or the board is full of entries at
/// least as strong and without it.
pub open spec fn settled(b: Seq<CommodityLeaderBoardData>, cart_id: Seq<u8>, power: PowerSize, cap: int) -> bool {
    ||| exists|i: int| 0 <= i < b.len() && b[i].cart_id@ == cart_id && b[i].power == power
    ||| b.len() == cap && forall|j: int| 0 <= j < b.len() ==> b[j].power >= power && b[j].cart_id@ != cart_id
}

/// A recording leaves its board settled.
pub proof fn lemma_update_settles(
    b0: Seq<CommodityLeaderBoardData>,
    b1: Seq<CommodityLeaderBoardData>,
    cart_id: Seq<u8>,
    power: PowerSize,
    owner: Seq<u8>,
    cap: int,
)
    requires
        cap >= 0,
        ordered_within(b0, cap),
        board_update(b0, b1, cart_id, power, owner, cap),
    ensures
        settled(b1, cart_id, power, cap),
        ordered_within(b1, cap),
{
    lemma_update_keeps_order(b0, b1, cart_id, power, owner, cap);
    if exists|i: int| 0 <= i < b1.len() && b1[i].cart_id@ == cart_id && b1[i].power == power {
        return;
    }
    if exists|i: int| 0 <= i < b0.len() && b0[i].cart_id@ == cart_id && b0[i].power == power {
        assert(b1 == b0);
        return;
    }
    let (rest, pos, e) = choose|rest: Seq<CommodityLeaderBoardData>, pos: int, e: CommodityLeaderBoardData|
        {
            &&& without_entry(b0, cart_id, rest)
            &&& final_shape(rest, pos, e, cart_id, power, owner, b1, cap)
        };
    lemma_removal_keeps_order(b0, cart_id, rest, cap);
    let t = rest.insert(pos, e);
    if pos < cap {
        if t.len() > cap {
            assert(b1[pos] == t[pos]);
        }
        assert(b1[pos] == e);
        assert(false);
    }
    assert(t.len() > cap);
    assert(pos == rest.len());
    assert(b1 =~= rest);
}

/// Recording on a settled board changes nothing.
pub proof fn lemma_settled_update_is_noop(
    b1: Seq<CommodityLeaderBoardData>,
    b2: Seq<CommodityLeaderBoardData>,
    cart_id: Seq<u8>,
    power: PowerSize,
    owner: Seq<u8>,
    cap: int,
)
    requires
        cap >= 0,
        ordered_within(b1, cap),
        settled(b1, cart_id, power, cap),
        board_update(b1, b2, cart_id, power, owner, cap),
    ensures
        b2 == b1,
{
    if exists|i: int| 0 <= i < b1.len() && b1[i].cart_id@ == cart_id && b1[i].power == power {
        return;
    }
    let (rest2, pos2, e2) = choose|rest: Seq<CommodityLeaderBoardData>, pos: int, e: CommodityLeaderBoardData|
        {
            &&& without_entry(b1, cart_id, rest)
            &&& final_shape(rest, pos, e, cart_id, power, owner, b2, cap)
        };
    assert(rest2 == b1);
    if pos2 < rest2.len() {
        assert(rest2[pos2].power < power);
    }
    assert(pos2 == rest2.len());
    assert(b2 =~= b1);
}

} // verus!
