//! Commodity power aggregation: a commodity's composite power replaces its
//! previous value in the global and per-account totals, and is forwarded to
//! the model's and the app's leaderboards.

use vstd::prelude::*;
use crate::board::{
    board_update, lemma_settled_update_is_noop, lemma_update_settles, ordered_within, settled, LeaderBoard,
    without_entry,
};
use crate::error::Error;
use crate::power::{
    compute_price_power, price_power_spec, AccountId, DocumentPower, DocumentSpecificData,
    KPDocumentData, PowerSize, PowerWeights,
};
use crate::table::{bytes_eq, Table};

verus! {

/// The five parts of a commodity's power: publish, identify and try
/// document power, the owner's attendance power and the price power.
#[derive(Clone, Copy, Debug, PartialEq, Eq, Structural)]
pub struct CommodityPowerSet {
    pub publish: DocumentPower,
    pub identify: DocumentPower,
    pub try_power: DocumentPower,
    pub owner_action: PowerSize,
    pub price: PowerSize,
}

/// The composite power of a commodity.
pub open spec fn commodity_power_spec(s: CommodityPowerSet) -> int {
    s.publish.total_spec() + s.identify.total_spec() + s.try_power.total_spec() + s.owner_action
        + s.price
}

/// The composite power of a commodity.
pub fn compute_commodity_power(power: &CommodityPowerSet) -> (r: PowerSize)
    requires
        commodity_power_spec(*power) <= u64::MAX,
    ensures
        r == commodity_power_spec(*power),
{
    power.publish.total() + power.identify.total() + power.try_power.total() + power.owner_action
        + power.price
}

/// `a - b`, or zero where `b` exceeds `a`.
pub open spec fn clamp_sub(a: int, b: int) -> int {
    if a >= b {
        a - b
    } else {
        0
    }
}

/// A total after a commodity's previous power (if any) was replaced by `p`.
pub open spec fn replaced_total(total: int, prev: Option<int>, p: int) -> int {
    match prev {
        Some(o) => clamp_sub(total, o) + p,
        None => total + p,
    }
}

/// The composite power stored for a commodity, if any.
pub open spec fn stored_power(m: Map<(u32, Seq<u8>), CommodityPowerSet>, k: (u32, Seq<u8>)) -> Option<int> {
    if m.contains_key(k) {
        Some(commodity_power_spec(m[k]))
    } else {
        None
    }
}

/// Whether every stored power set has a composite power that fits a `u64`.
pub open spec fn sets_fit(m: Map<(u32, Seq<u8>), CommodityPowerSet>) -> bool {
    forall|k: (u32, Seq<u8>)| m.contains_key(k) ==> commodity_power_spec(#[trigger] m[k]) <= u64::MAX
}

/// Whether a board belongs to `(app_id, model_id)`.
pub open spec fn board_of(b: LeaderBoard, app_id: u32, model_id: Seq<u8>) -> bool {
    b.app_id == app_id && b.model_id@ == model_id
}

/// `after` is `before` with a commodity's power recorded on the board of
/// `(app_id, model_id)`, which is opened (empty) when there is none.
pub open spec fn forwarded(
    before: Seq<LeaderBoard>,
    after: Seq<LeaderBoard>,
    app_id: u32,
    model_id: Seq<u8>,
    cart_id: Seq<u8>,
    power: PowerSize,
    owner: Seq<u8>,
    cap: u32,
) -> bool {
    ||| exists|i: int|
        {
            &&& 0 <= i < before.len()
            &&& board_of(before[i], app_id, model_id)
            &&& after.len() == before.len()
            &&& board_of(after[i], app_id, model_id)
            &&& board_update(before[i]@, after[i]@, cart_id, power, owner, cap as int)
            &&& forall|j: int| 0 <= j < before.len() && j != i ==> after[j] == before[j]
        }
    ||| {
        &&& forall|i: int| 0 <= i < before.len() ==> !board_of(before[i], app_id, model_id)
        &&& after.len() == before.len() + 1
        &&& board_of(after.last(), app_id, model_id)
        &&& board_update(Seq::empty(), after.last()@, cart_id, power, owner, cap as int)
        &&& forall|j: int| 0 <= j < before.len() ==> after[j] == before[j]
    }
}

/// The scope under which account powers are kept.
pub const ACCOUNT_SCOPE: u32 = 0;

/// Global and per-account power totals, the stored power of each
/// commodity, the blacklist of slashed commodities and the leaderboards.
pub struct PowerLedger {
    pub total_power: PowerSize,
    pub account_power: Table<PowerSize>,
    pub commodity_power: Table<CommodityPowerSet>,
    pub black_list: Table<bool>,
    pub boards: Vec<LeaderBoard>,
    pub board_capacity: u32,
}

impl PowerLedger {
    /// Well-formed: stored powers fit, and each board is well-formed and
    /// has the configured capacity.
    pub open spec fn wf(&self) -> bool {
        &&& sets_fit(self.commodity_power@)
        &&& forall|i: int| 0 <= i < self.boards@.len() ==> (#[trigger] self.boards@[i]).wf()
            && self.boards@[i].capacity == self.board_capacity
        &&& forall|i: int, j: int|
            0 <= i < j < self.boards@.len() ==> !(self.boards@[i].app_id == self.boards@[j].app_id
                && self.boards@[i].model_id@ == self.boards@[j].model_id@)
    }

    /// An empty ledger whose boards hold at most `board_capacity` entries.
    pub fn new(board_capacity: u32) -> (r: PowerLedger)
        ensures
            r.wf(),
            r.total_power == 0,
            r.account_power@ == Map::<(u32, Seq<u8>), PowerSize>::empty(),
            r.commodity_power@ == Map::<(u32, Seq<u8>), CommodityPowerSet>::empty(),
            r.black_list@ == Map::<(u32, Seq<u8>), bool>::empty(),
            r.boards@.len() == 0,
    {
        PowerLedger {
            total_power: 0,
            account_power: Table::new(),
            commodity_power: Table::new(),
            black_list: Table::new(),
            boards: Vec::new(),
            board_capacity,
        }
    }

    /// The global total power.
    pub fn kp_total_power(&self) -> (r: PowerSize)
        ensures
            r == self.total_power,
    {
        self.total_power
    }

    /// An account's power (zero for an account never credited).
    pub fn kp_account_power(&self, account: &AccountId) -> (r: PowerSize)
        ensures
            r == (if self.account_power@.contains_key((ACCOUNT_SCOPE, account@)) {
                self.account_power@[(ACCOUNT_SCOPE, account@)]
            } else {
                0
            }),
    {
        match self.account_power.get(ACCOUNT_SCOPE, account) {
            Some(p) => p,
            None => 0,
        }
    }

    /// Whether a commodity was slashed.
    pub fn is_commodity_in_black_list(&self, app_id: u32, cart_id: &Vec<u8>) -> (r: bool)
        ensures
            r == self.black_list@.contains_key((app_id, cart_id@)),
    {
        self.black_list.contains(app_id, cart_id)
    }

    /// The composite power stored for a commodity (zero when none is).
    pub fn get_purchase_power(&self, app_id: u32, cart_id: &Vec<u8>) -> (r: PowerSize)
        requires
            self.wf(),
        ensures
            r == (match stored_power(self.commodity_power@, (app_id, cart_id@)) {
                Some(p) => p,
                None => 0,
            }),
    {
        match self.commodity_power.get(app_id, cart_id) {
            Some(s) => compute_commodity_power(&s),
            None => 0,
        }
    }

    /// Position of the board of `(app_id, model_id)`.
    pub fn find_board(&self, app_id: u32, model_id: &Vec<u8>) -> (r: Option<usize>)
        ensures
            match r {
                Some(i) => i < self.boards@.len() && self.boards@[i as int].app_id == app_id
                    && self.boards@[i as int].model_id@ == model_id@,
                None => forall|i: int|
                    0 <= i < self.boards@.len() ==> !(self.boards@[i].app_id == app_id
                        && self.boards@[i].model_id@ == model_id@),
            },
    {
        let mut i: usize = 0;
        while i < self.boards.len()
            invariant
                0 <= i <= self.boards@.len(),
                forall|j: int|
                    0 <= j < i ==> !(self.boards@[j].app_id == app_id && self.boards@[j].model_id@
                        == model_id@),
            decreases self.boards@.len() - i,
        {
            if self.boards[i].app_id == app_id && bytes_eq(&self.boards[i].model_id, model_id) {
                return Some(i);
            }
            i = i + 1;
        }
        None
    }

    /// Forwards a commodity's power to the board of `(app_id, model_id)`,
    /// opening the board on first use.
    pub fn update_realtime_power_leader_boards(
        &mut self,
        app_id: u32,
        model_id: &Vec<u8>,
        cart_id: &Vec<u8>,
        power: PowerSize,
        owner: &AccountId,
    )
        requires
            old(self).wf(),
        ensures
            final(self).wf(),
            final(self).total_power == old(self).total_power,
            final(self).account_power@ == old(self).account_power@,
            final(self).commodity_power@ == old(self).commodity_power@,
            final(self).black_list@ == old(self).black_list@,
            final(self).board_capacity == old(self).board_capacity,
            forwarded(old(self).boards@, final(self).boards@, app_id, model_id@, cart_id@, power, owner@,
                old(self).board_capacity),
    {
        let ghost orig = self.boards@;
        let found = self.find_board(app_id, model_id);
        let idx = match found {
            Some(i) => i,
            None => {
                let b = LeaderBoard::new(app_id, model_id.clone(), self.board_capacity);
                let ghost prev = self.boards@;
                self.boards.push(b);
                proof {
                    assert forall|i: int, j: int| 0 <= i < j < self.boards@.len() implies !(
                        self.boards@[i].app_id == self.boards@[j].app_id
                        && self.boards@[i].model_id@ == self.boards@[j].model_id@) by {
                        if j < prev.len() {
                            assert(self.boards@[i] == prev[i]);
                            assert(self.boards@[j] == prev[j]);
                        } else {
                            assert(self.boards@[i] == prev[i]);
                        }
                    }
                    assert forall|i: int| 0 <= i < self.boards@.len() implies (#[trigger] self.boards@[i]).wf()
                        && self.boards@[i].capacity == self.board_capacity by {
                        if i < prev.len() {
                            assert(self.boards@[i] == prev[i]);
                        }
                    }
                }
                self.boards.len() - 1
            },
        };
        let ghost before = self.boards@;
        let mut board = self.boards.remove(idx);
        board.update(cart_id, power, owner);
        self.boards.insert(idx, board);
        proof {
            assert forall|i: int| 0 <= i < self.boards@.len() implies (#[trigger] self.boards@[i]).wf()
                && self.boards@[i].capacity == self.board_capacity by {
                if i != idx {
                    assert(self.boards@[i] == before[i]);
                }
            }
            assert forall|i: int, j: int| 0 <= i < j < self.boards@.len() implies !(
                self.boards@[i].app_id == self.boards@[j].app_id
                && self.boards@[i].model_id@ == self.boards@[j].model_id@) by {
                assert(self.boards@[i].app_id == before[i].app_id);
                assert(self.boards@[j].app_id == before[j].app_id);
                assert(self.boards@[i].model_id@ == before[i].model_id@);
                assert(self.boards@[j].model_id@ == before[j].model_id@);
            }
            assert forall|j: int| 0 <= j < before.len() && j != idx implies self.boards@[j] == before[j] by {}
            assert(board_update(before[idx as int]@, self.boards@[idx as int]@, cart_id@, power, owner@,
                self.board_capacity as int));
            assert(board_of(self.boards@[idx as int], app_id, model_id@));
            if found is Some {
                assert(before == orig);
                assert(board_of(orig[idx as int], app_id, model_id@));
            } else {
                assert(before[idx as int]@ == Seq::<crate::board::CommodityLeaderBoardData>::empty());
                assert(self.boards@.last() == self.boards@[idx as int]);
                assert forall|j: int| 0 <= j < orig.len() implies self.boards@[j] == orig[j] by {
                    assert(before[j] == orig[j]);
                }
            }
        }
    }

    /// Takes a commodity off the board of `(app_id, model_id)`, if that
    /// board exists and holds it.
    pub fn remove_leader_board_item(&mut self, app_id: u32, model_id: &Vec<u8>, cart_id: &Vec<u8>)
        requires
            old(self).wf(),
        ensures
            final(self).wf(),
            final(self).total_power == old(self).total_power,
            final(self).account_power@ == old(self).account_power@,
            final(self).commodity_power@ == old(self).commodity_power@,
            final(self).black_list@ == old(self).black_list@,
            final(self).board_capacity == old(self).board_capacity,
            final(self).boards@.len() == old(self).boards@.len(),
            forall|i: int|
                0 <= i < old(self).boards@.len() ==> {
                    let b = #[trigger] old(self).boards@[i];
                    if b.app_id == app_id && b.model_id@ == model_id@ {
                        without_entry(b@, cart_id@, final(self).boards@[i]@)
                    } else {
                        final(self).boards@[i] == b
                    }
                },
    {
        match self.find_board(app_id, model_id) {
            Some(idx) => {
                let ghost before = self.boards@;
                let mut board = self.boards.remove(idx);
                board.remove_leader_board_item(cart_id);
                self.boards.insert(idx, board);
                proof {
                    assert forall|i: int| 0 <= i < self.boards@.len() implies (#[trigger] self.boards@[i]).wf()
                        && self.boards@[i].capacity == self.board_capacity by {
                        if i != idx {
                            assert(self.boards@[i] == before[i]);
                        }
                    }
                    assert forall|i: int| 0 <= i < before.len() && i != idx implies
                        #[trigger] self.boards@[i] == before[i] && !(before[i].app_id == app_id
                        && before[i].model_id@ == model_id@) by {
                        if i < idx {
                            assert(!(before[i].app_id == before[idx as int].app_id
                                && before[i].model_id@ == before[idx as int].model_id@));
                        } else {
                            assert(!(before[idx as int].app_id == before[i].app_id
                                && before[idx as int].model_id@ == before[i].model_id@));
                        }
                    }
                    assert forall|i: int, j: int| 0 <= i < j < self.boards@.len() implies !(
                        self.boards@[i].app_id == self.boards@[j].app_id
                        && self.boards@[i].model_id@ == self.boards@[j].model_id@) by {
                        assert(self.boards@[i].app_id == before[i].app_id);
                        assert(self.boards@[j].app_id == before[j].app_id);
                        assert(self.boards@[i].model_id@ == before[i].model_id@);
                        assert(self.boards@[j].model_id@ == before[j].model_id@);
                    }
                }
            },
            None => {},
        }
    }

    /// Replaces a commodity's composite power: its previous power (if any)
    /// leaves the global total and the owner's power, each clamped at zero,
    /// and the new power joins both; the power set is stored and the new
    /// power goes to the model's and the app's boards. A slashed commodity
    /// is left as it is.
    pub fn update_purchase_power(
        &mut self,
        power_set: &CommodityPowerSet,
        app_id: u32,
        model_id: &Vec<u8>,
        cart_id: &Vec<u8>,
        owner: &AccountId,
    ) -> (r: Result<(), Error>)
        requires
            old(self).wf(),
        ensures
            update_effect(*old(self), *final(self), *power_set, app_id, model_id@, cart_id@, owner@, r),
    {
        if self.black_list.contains(app_id, cart_id) {
            return Ok(());
        }
        let power = match checked_commodity_power(power_set) {
            Some(p) => p,
            None => {
                return Err(Error::AddOverflow);
            },
        };
        let mut total_power = self.total_power;
        let mut account_power = self.kp_account_power(owner);
        match self.commodity_power.get(app_id, cart_id) {
            Some(org_set) => {
                let org_power = compute_commodity_power(&org_set);
                if total_power >= org_power {
                    total_power = total_power - org_power;
                } else {
                    total_power = 0;
                }
                if account_power >= org_power {
                    account_power = account_power - org_power;
                } else {
                    account_power = 0;
                }
            },
            None => {},
        }
        let new_total = match total_power.checked_add(power) {
            Some(t) => t,
            None => {
                return Err(Error::AddOverflow);
            },
        };
        let new_account = match account_power.checked_add(power) {
            Some(a) => a,
            None => {
                return Err(Error::AddOverflow);
            },
        };
        self.total_power = new_total;
        self.commodity_power.insert(app_id, cart_id, *power_set);
        self.account_power.insert(ACCOUNT_SCOPE, owner, new_account);
        let ghost fixed = *self;
        self.update_realtime_power_leader_boards(app_id, model_id, cart_id, power, owner);
        let ghost mid = self.boards@;
        let app_board: Vec<u8> = Vec::new();
        self.update_realtime_power_leader_boards(app_id, &app_board, cart_id, power, owner);
        proof {
            assert(app_board@ == Seq::<u8>::empty());
            assert(forwarded(fixed.boards@, mid, app_id, model_id@, cart_id@, power, owner@, fixed.board_capacity));
            assert(forwarded(mid, self.boards@, app_id, Seq::empty(), cart_id@, power, owner@, fixed.board_capacity));
            assert(fixed.boards == old(self).boards);
            assert(power == commodity_power_spec(*power_set) as u64);
            assert(sets_fit(fixed.commodity_power@)) by {
                assert forall|k: (u32, Seq<u8>)| fixed.commodity_power@.contains_key(k) implies
                    commodity_power_spec(#[trigger] fixed.commodity_power@[k]) <= u64::MAX by {
                    if k != (app_id, cart_id@) {
                        assert(old(self).commodity_power@.contains_key(k));
                    }
                }
            }
        }
        Ok(())
    }

    /// Zeroes a commodity's power, takes its previous power off the global
    /// total (clamped at zero) and blacklists it for good.
    pub fn clear_purchase_power(&mut self, app_id: u32, cart_id: &Vec<u8>)
        requires
            old(self).wf(),
        ensures
            final(self).wf(),
            final(self).total_power == match stored_power(old(self).commodity_power@, (app_id, cart_id@)) {
                Some(o) => clamp_sub(old(self).total_power as int, o),
                None => old(self).total_power as int,
            },
            final(self).commodity_power@ == old(self).commodity_power@.insert((app_id, cart_id@), zero_set()),
            final(self).black_list@ == old(self).black_list@.insert((app_id, cart_id@), true),
            final(self).account_power@ == old(self).account_power@,
            final(self).boards == old(self).boards,
            final(self).board_capacity == old(self).board_capacity,
    {
        match self.commodity_power.get(app_id, cart_id) {
            Some(org_set) => {
                let org_power = compute_commodity_power(&org_set);
                if self.total_power >= org_power {
                    self.total_power = self.total_power - org_power;
                } else {
                    self.total_power = 0;
                }
            },
            None => {},
        }
        let z = DocumentPower::zero();
        self.commodity_power.insert(
            app_id,
            cart_id,
            CommodityPowerSet { publish: z, identify: z, try_power: z, owner_action: 0, price: 0 },
        );
        self.black_list.insert(app_id, cart_id, true);
        proof {
            assert forall|k: (u32, Seq<u8>)| self.commodity_power@.contains_key(k) implies
                commodity_power_spec(#[trigger] self.commodity_power@[k]) <= u64::MAX by {
                if k != (app_id, cart_id@) {
                    assert(old(self).commodity_power@.contains_key(k));
                }
            }
        }
    }

    /// Slashes a commodity with power: clears and blacklists it and takes
    /// its power off its owner (clamped at zero). Returns the power slashed;
    /// a commodity without power is left as it is.
    pub fn slash_power(&mut self, app_id: u32, cart_id: &Vec<u8>, power_owner: &AccountId) -> (r: PowerSize)
        requires
            old(self).wf(),
        ensures
            final(self).wf(),
            r == (match stored_power(old(self).commodity_power@, (app_id, cart_id@)) {
                Some(p) => p,
                None => 0,
            }),
            r == 0 ==> *final(self) == *old(self),
            r > 0 ==> {
                &&& final(self).total_power == clamp_sub(old(self).total_power as int, r as int)
                &&& final(self).black_list@ == old(self).black_list@.insert((app_id, cart_id@), true)
                &&& final(self).commodity_power@ == old(self).commodity_power@.insert((app_id, cart_id@), zero_set())
                &&& final(self).account_power@ == old(self).account_power@.insert(
                    (ACCOUNT_SCOPE, power_owner@),
                    clamp_sub(account_power_of(old(self).account_power@, power_owner@), r as int) as u64,
                )
                &&& final(self).boards == old(self).boards
            },
    {
        let cart_power = self.get_purchase_power(app_id, cart_id);
        if cart_power > 0 {
            self.clear_purchase_power(app_id, cart_id);
            let pow = self.kp_account_power(power_owner);
            let left = if pow > cart_power { pow - cart_power } else { 0 };
            self.account_power.insert(ACCOUNT_SCOPE, power_owner, left);
        }
        cart_power
    }

    /// Slashes a commodity's power for good: it is cleared and blacklisted
    /// (whatever its power was) and taken off its model's board. Rejected
    /// for an app that is not valid, or for a commodity already slashed.
    pub fn democracy_slash_commodity_power(
        &mut self,
        is_valid_app: bool,
        app_id: u32,
        model_id: &Vec<u8>,
        cart_id: &Vec<u8>,
        owner: &AccountId,
    ) -> (r: Result<PowerSize, Error>)
        requires
            old(self).wf(),
        ensures
            final(self).wf(),
            !is_valid_app ==> r == Err::<PowerSize, Error>(Error::AppIdInvalid) && *final(self) == *old(self),
            is_valid_app && old(self).black_list@.contains_key((app_id, cart_id@)) ==> r == Err::<
                PowerSize,
                Error,
            >(Error::CartIdInBlackList) && *final(self) == *old(self),
            is_valid_app && !old(self).black_list@.contains_key((app_id, cart_id@)) ==> {
                &&& r == Ok::<PowerSize, Error>(
                    match stored_power(old(self).commodity_power@, (app_id, cart_id@)) {
                        Some(p) => p as u64,
                        None => 0,
                    },
                )
                &&& final(self).black_list@.contains_key((app_id, cart_id@))
                &&& final(self).commodity_power@.contains_key((app_id, cart_id@))
                &&& final(self).commodity_power@[(app_id, cart_id@)] == zero_set()
                &&& forall|i: int|
                    0 <= i < final(self).boards@.len() ==> {
                        let b = #[trigger] final(self).boards@[i];
                        b.app_id == app_id && b.model_id@ == model_id@ ==> forall|j: int|
                            0 <= j < b@.len() ==> b@[j].cart_id@ != cart_id@
                    }
            },
    {
        if !is_valid_app {
            return Err(Error::AppIdInvalid);
        }
        if self.is_commodity_in_black_list(app_id, cart_id) {
            return Err(Error::CartIdInBlackList);
        }
        let slashed = self.slash_power(app_id, cart_id, owner);
        if slashed == 0 {
            self.clear_purchase_power(app_id, cart_id);
        }
        let ghost mid = *self;
        self.remove_leader_board_item(app_id, model_id, cart_id);
        proof {
            assert forall|i: int| 0 <= i < self.boards@.len() implies {
                let b = #[trigger] self.boards@[i];
                b.app_id == app_id && b.model_id@ == model_id@ ==> forall|j: int|
                    0 <= j < b@.len() ==> b@[j].cart_id@ != cart_id@
            } by {
                let b0 = mid.boards@[i];
                if b0.app_id == app_id && b0.model_id@ == model_id@ {
                    let b = self.boards@[i];
                    assert(without_entry(b0@, cart_id@, b@));
                    if exists|k: int| 0 <= k < b0@.len() && b0@[k].cart_id@ == cart_id@ && b@ == b0@.remove(k) {
                        let k = choose|k: int| 0 <= k < b0@.len() && b0@[k].cart_id@ == cart_id@ && b@ == b0@.remove(k);
                        assert forall|j: int| 0 <= j < b@.len() implies b@[j].cart_id@ != cart_id@ by {
                            let j2 = if j < k { j } else { j + 1 };
                            assert(b@[j] == b0@[j2]);
                            assert(b0.wf());
                        }
                    }
                }
            }
        }
        Ok(slashed)
    }
}

/// The power set of a slashed commodity.
pub open spec fn zero_set() -> CommodityPowerSet {
    CommodityPowerSet {
        publish: DocumentPower { attend: 0, content: 0, judge: 0 },
        identify: DocumentPower { attend: 0, content: 0, judge: 0 },
        try_power: DocumentPower { attend: 0, content: 0, judge: 0 },
        owner_action: 0,
        price: 0,
    }
}

/// An account's power in a table of account powers.
pub open spec fn account_power_of(m: Map<(u32, Seq<u8>), PowerSize>, account: Seq<u8>) -> int {
    if m.contains_key((ACCOUNT_SCOPE, account)) {
        m[(ACCOUNT_SCOPE, account)] as int
    } else {
        0
    }
}

/// What one commodity power update does to a ledger.
pub open spec fn update_effect(
    before: PowerLedger,
    after: PowerLedger,
    set: CommodityPowerSet,
    app_id: u32,
    model_id: Seq<u8>,
    cart_id: Seq<u8>,
    owner: Seq<u8>,
    r: Result<(), Error>,
) -> bool {
    let key = (app_id, cart_id);
    let prev = stored_power(before.commodity_power@, key);
    let p = commodity_power_spec(set);
    let t = replaced_total(before.total_power as int, prev, p);
    let a = replaced_total(account_power_of(before.account_power@, owner), prev, p);
    &&& after.wf()
    &&& before.black_list@.contains_key(key) ==> r == Ok::<(), Error>(()) && after == before
    &&& !before.black_list@.contains_key(key) ==> {
        &&& (r is Err) == (t > u64::MAX || a > u64::MAX)
        &&& r is Err ==> r == Err::<(), Error>(Error::AddOverflow) && after == before
        &&& r is Ok ==> {
            &&& after.total_power == t
            &&& after.account_power@ == before.account_power@.insert((ACCOUNT_SCOPE, owner), a as u64)
            &&& after.commodity_power@ == before.commodity_power@.insert(key, set)
            &&& after.black_list@ == before.black_list@
            &&& after.board_capacity == before.board_capacity
            &&& exists|mid: Seq<LeaderBoard>|
                forwarded(before.boards@, mid, app_id, model_id, cart_id, p as u64, owner, before.board_capacity)
                    && #[trigger] forwarded(mid, after.boards@, app_id, Seq::empty(), cart_id, p as u64, owner,
                    before.board_capacity)
        }
    }
}

/// Reapplying a commodity's unchanged composite power leaves the global
/// total, the owner's power, the stored power and every leaderboard as the
/// first application left them.
pub proof fn lemma_reapply_identical_power(
    l0: PowerLedger,
    l1: PowerLedger,
    l2: PowerLedger,
    set: CommodityPowerSet,
    app_id: u32,
    model_id: Seq<u8>,
    cart_id: Seq<u8>,
    owner: Seq<u8>,
    r2: Result<(), Error>,
)
    requires
        l0.wf(),
        update_effect(l0, l1, set, app_id, model_id, cart_id, owner, Ok(())),
        update_effect(l1, l2, set, app_id, model_id, cart_id, owner, r2),
    ensures
        r2 is Ok,
        l2.total_power == l1.total_power,
        account_power_of(l2.account_power@, owner) == account_power_of(l1.account_power@, owner),
        l2.commodity_power@ == l1.commodity_power@,
        same_boards(l2.boards@, l1.boards@),
{
    let key = (app_id, cart_id);
    if !l0.black_list@.contains_key(key) {
        assert(l1.commodity_power@.contains_key(key));
        assert(l1.commodity_power@[key] == set);
        assert(l1.account_power@.contains_key((ACCOUNT_SCOPE, owner)));
        let p = commodity_power_spec(set);
        let prev = stored_power(l0.commodity_power@, key);
        let a1 = replaced_total(account_power_of(l0.account_power@, owner), prev, p);
        assert(l1.account_power@[(ACCOUNT_SCOPE, owner)] == a1 as u64);
        assert(a1 >= p);
        assert(l1.total_power >= p);
        assert(account_power_of(l1.account_power@, owner) == a1);
        assert(stored_power(l1.commodity_power@, key) == Some(p));
        assert(replaced_total(l1.total_power as int, Some(p), p) == l1.total_power);
        assert(replaced_total(a1, Some(p), p) == a1);
        assert(l2.commodity_power@ =~= l1.commodity_power@);
        assert(l2.account_power@ =~= l1.account_power@);
        let pw = p as u64;
        let cap = l0.board_capacity;
        let empty = Seq::<u8>::empty();
        assert(boards_ok(l0.boards@, cap)) by {
            assert forall|i: int| 0 <= i < l0.boards@.len() implies ordered_within(#[trigger] l0.boards@[i]@, cap as int) by {
                assert(l0.boards@[i].wf());
            }
        }
        let mid1 = choose|mid: Seq<LeaderBoard>|
            forwarded(l0.boards@, mid, app_id, model_id, cart_id, pw, owner, cap) && #[trigger] forwarded(
                mid,
                l1.boards@,
                app_id,
                Seq::empty(),
                cart_id,
                pw,
                owner,
                cap,
            );
        lemma_forward(l0.boards@, mid1, app_id, model_id, cart_id, pw, owner, cap, empty);
        lemma_forward(mid1, l1.boards@, app_id, empty, cart_id, pw, owner, cap, model_id);
        assert(settled_at(l1.boards@, app_id, model_id, cart_id, pw, cap));
        assert(l1.board_capacity == cap);
        let mid2 = choose|mid: Seq<LeaderBoard>|
            forwarded(l1.boards@, mid, app_id, model_id, cart_id, pw, owner, cap) && #[trigger] forwarded(
                mid,
                l2.boards@,
                app_id,
                Seq::empty(),
                cart_id,
                pw,
                owner,
                cap,
            );
        lemma_forward(l1.boards@, mid2, app_id, model_id, cart_id, pw, owner, cap, empty);
        lemma_same_boards_settled(mid2, l1.boards@, app_id, empty, cart_id, pw, cap);
        lemma_forward(mid2, l2.boards@, app_id, empty, cart_id, pw, owner, cap, model_id);
    } else {
        assert(same_boards(l2.boards@, l1.boards@));
    }
}

proof fn lemma_same_boards_settled(
    a: Seq<LeaderBoard>,
    b: Seq<LeaderBoard>,
    app_id: u32,
    model_id: Seq<u8>,
    cart_id: Seq<u8>,
    power: PowerSize,
    cap: u32,
)
    requires
        same_boards(a, b),
        settled_at(b, app_id, model_id, cart_id, power, cap),
    ensures
        settled_at(a, app_id, model_id, cart_id, power, cap),
{
    let k = choose|k: int| 0 <= k < b.len() && board_of(b[k], app_id, model_id) && settled(b[k]@, cart_id, power, cap as int);
    assert(a[k]@ == b[k]@);
}

/// Once a commodity is blacklisted, an update of its power changes nothing:
/// neither the totals nor any board.
pub proof fn lemma_slashed_update_is_noop(
    before: PowerLedger,
    after: PowerLedger,
    set: CommodityPowerSet,
    app_id: u32,
    model_id: Seq<u8>,
    cart_id: Seq<u8>,
    owner: Seq<u8>,
    r: Result<(), Error>,
)
    requires
        before.black_list@.contains_key((app_id, cart_id)),
        update_effect(before, after, set, app_id, model_id, cart_id, owner, r),
    ensures
        after == before,
        r is Ok,
{
}

/// The composite power of a set, when it fits a `u64`.
pub fn checked_commodity_power(s: &CommodityPowerSet) -> (r: Option<PowerSize>)
    ensures
        r == (if commodity_power_spec(*s) <= u64::MAX {
            Some(commodity_power_spec(*s) as u64)
        } else {
            None::<u64>
        }),
{
    let parts: [u64; 11] = [
        s.publish.attend,
        s.publish.content,
        s.publish.judge,
        s.identify.attend,
        s.identify.content,
        s.identify.judge,
        s.try_power.attend,
        s.try_power.content,
        s.try_power.judge,
        s.owner_action,
        s.price,
    ];
    assert(sum_prefix(parts@, 11) == commodity_power_spec(*s)) by {
        reveal_with_fuel(sum_prefix, 12);
    }
    let mut sum: u64 = 0;
    let mut i: usize = 0;
    while i < 11
        invariant
            0 <= i <= 11,
            parts@ == seq![
                s.publish.attend,
                s.publish.content,
                s.publish.judge,
                s.identify.attend,
                s.identify.content,
                s.identify.judge,
                s.try_power.attend,
                s.try_power.content,
                s.try_power.judge,
                s.owner_action,
                s.price,
            ],
            sum == sum_prefix(parts@, i as int),
            sum_prefix(parts@, 11) == commodity_power_spec(*s),
        decreases 11 - i,
    {
        match sum.checked_add(parts[i]) {
            Some(t) => {
                sum = t;
            },
            None => {
                proof {
                    assert(sum_prefix(parts@, i + 1) == sum + parts@[i as int]);
                    lemma_sum_prefix_grows(parts@, (i + 1) as int, 11);
                }
                return None;
            },
        }
        i = i + 1;
    }
    Some(sum)
}

/// The sum of the first `n` values.
pub open spec fn sum_prefix(s: Seq<u64>, n: int) -> int
    decreases n,
{
    if n <= 0 {
        0
    } else {
        sum_prefix(s, n - 1) + s[n - 1]
    }
}

proof fn lemma_sum_prefix_grows(s: Seq<u64>, a: int, b: int)
    requires
        0 <= a <= b <= s.len(),
    ensures
        sum_prefix(s, a) <= sum_prefix(s, b),
    decreases b - a,
{
    if a < b {
        lemma_sum_prefix_grows(s, a, b - 1);
    }
}

/// The commodity id that an identify or try document names.
pub open spec fn cart_of(d: DocumentSpecificData) -> Option<Seq<u8>> {
    match d {
        DocumentSpecificData::ProductIdentify(x) => Some(x.cart_id@),
        DocumentSpecificData::ProductTry(x) => Some(x.cart_id@),
        _ => None,
    }
}

/// A commodity's power set after one of its documents changed: the
/// document's power goes to its slot, the publish document's power, the
/// owner's attendance power and the price power are refreshed.
pub open spec fn refreshed_set(
    old_set: CommodityPowerSet,
    d: DocumentSpecificData,
    doc_power: DocumentPower,
    publish_power: DocumentPower,
    owner_power: PowerSize,
    price_power: int,
) -> CommodityPowerSet {
    match d {
        DocumentSpecificData::ProductIdentify(_) => CommodityPowerSet {
            publish: publish_power,
            identify: doc_power,
            owner_action: owner_power,
            price: price_power as u64,
            ..old_set
        },
        _ => CommodityPowerSet {
            publish: publish_power,
            try_power: doc_power,
            owner_action: owner_power,
            price: price_power as u64,
            ..old_set
        },
    }
}

impl PowerLedger {
    /// The power set stored for a commodity, or all zeros.
    pub open spec fn set_or_zero(&self, app_id: u32, cart_id: Seq<u8>) -> CommodityPowerSet {
        if self.commodity_power@.contains_key((app_id, cart_id)) {
            self.commodity_power@[(app_id, cart_id)]
        } else {
            zero_set()
        }
    }

    /// Refreshes commodity power after a document changed. An identify or
    /// try document updates its commodity's power set (unless the commodity
    /// is slashed or its product has no model) and returns its composite
    /// power; a choose or model create document returns its own power plus
    /// its owner's attendance power; a publish document does nothing.
    pub fn process_commodity_power(
        &mut self,
        doc: &KPDocumentData,
        doc_power: &DocumentPower,
        publish_power: &DocumentPower,
        owner_attend_power: PowerSize,
        max_goods_price: PowerSize,
        model_id: &Option<Vec<u8>>,
        w: &PowerWeights,
    ) -> (r: Result<Option<PowerSize>, Error>)
        requires
            old(self).wf(),
        ensures
            final(self).wf(),
            match doc.document_data {
                DocumentSpecificData::ProductPublish(_) => r == Ok::<Option<PowerSize>, Error>(None)
                    && *final(self) == *old(self),
                DocumentSpecificData::ProductIdentify(x) => identify_or_try_effect(
                    *old(self), *final(self), *doc, x.cart_id@, x.goods_price, *doc_power,
                    *publish_power, owner_attend_power, max_goods_price, model_id is Some,
                    match model_id { Some(m) => m@, None => Seq::empty() }, *w, r),
                DocumentSpecificData::ProductTry(x) => identify_or_try_effect(
                    *old(self), *final(self), *doc, x.cart_id@, x.goods_price, *doc_power,
                    *publish_power, owner_attend_power, max_goods_price, model_id is Some,
                    match model_id { Some(m) => m@, None => Seq::empty() }, *w, r),
                _ => *final(self) == *old(self) && r == (if owner_attend_power
                    + doc_power.total_spec() <= u64::MAX {
                    Ok::<Option<PowerSize>, Error>(Some((owner_attend_power + doc_power.total_spec()) as u64))
                } else {
                    Err::<Option<PowerSize>, Error>(Error::AddOverflow)
                }),
            },
            r is Err <==> refresh_fails(*old(self), doc.app_id, doc.document_data, doc.owner@, *doc_power,
                *publish_power, owner_attend_power, max_goods_price, model_id is Some, *w),
            r is Err ==> r == Err::<Option<PowerSize>, Error>(Error::AddOverflow),
    {
        let (cart_id, goods_price) = match &doc.document_data {
            DocumentSpecificData::ProductPublish(_) => {
                return Ok(None);
            },
            DocumentSpecificData::ProductIdentify(x) => (&x.cart_id, x.goods_price),
            DocumentSpecificData::ProductTry(x) => (&x.cart_id, x.goods_price),
            _ => {
                let z = DocumentPower::zero();
                let misc = CommodityPowerSet {
                    publish: *doc_power,
                    identify: z,
                    try_power: z,
                    owner_action: owner_attend_power,
                    price: 0,
                };
                return match checked_commodity_power(&misc) {
                    Some(p) => Ok(Some(p)),
                    None => Err(Error::AddOverflow),
                };
            },
        };
        if self.black_list.contains(doc.app_id, cart_id) {
            return Ok(None);
        }
        let old_set = match self.commodity_power.get(doc.app_id, cart_id) {
            Some(s) => s,
            None => {
                let z = DocumentPower::zero();
                CommodityPowerSet { publish: z, identify: z, try_power: z, owner_action: 0, price: 0 }
            },
        };
        let price = compute_price_power(w, goods_price, max_goods_price);
        let set = match &doc.document_data {
            DocumentSpecificData::ProductIdentify(_) => CommodityPowerSet {
                publish: *publish_power,
                identify: *doc_power,
                owner_action: owner_attend_power,
                price,
                ..old_set
            },
            _ => CommodityPowerSet {
                publish: *publish_power,
                try_power: *doc_power,
                owner_action: owner_attend_power,
                price,
                ..old_set
            },
        };
        let model = match model_id {
            Some(m) => m,
            None => {
                return Ok(None);
            },
        };
        let total = match checked_commodity_power(&set) {
            Some(p) => p,
            None => {
                return Err(Error::AddOverflow);
            },
        };
        match self.update_purchase_power(&set, doc.app_id, model, cart_id, &doc.owner) {
            Ok(()) => Ok(Some(total)),
            Err(e) => Err(e),
        }
    }
}

/// Whether refreshing commodity power after a document changed overflows:
/// for an identify or try document of a commodity that is not slashed and
/// whose product has a model, when the new composite power, the new
/// global total or the owner's new power exceeds a `u64`; for a choose or
/// model create document, when its power plus its owner's attendance power
/// does.
pub open spec fn refresh_fails(
    l: PowerLedger,
    app_id: u32,
    data: DocumentSpecificData,
    owner: Seq<u8>,
    doc_power: DocumentPower,
    publish_power: DocumentPower,
    owner_power: PowerSize,
    max_goods_price: PowerSize,
    has_model: bool,
    w: PowerWeights,
) -> bool {
    match data {
        DocumentSpecificData::ProductPublish(_) => false,
        DocumentSpecificData::ProductIdentify(x) => purchase_refresh_fails(l, app_id, data, owner, x.cart_id@,
            price_power_spec(w, x.goods_price, max_goods_price), doc_power, publish_power, owner_power, has_model),
        DocumentSpecificData::ProductTry(x) => purchase_refresh_fails(l, app_id, data, owner, x.cart_id@,
            price_power_spec(w, x.goods_price, max_goods_price), doc_power, publish_power, owner_power, has_model),
        _ => owner_power + doc_power.total_spec() > u64::MAX,
    }
}

/// Whether refreshing an identify or try document's commodity overflows.
pub open spec fn purchase_refresh_fails(
    l: PowerLedger,
    app_id: u32,
    data: DocumentSpecificData,
    owner: Seq<u8>,
    cart_id: Seq<u8>,
    price_power: int,
    doc_power: DocumentPower,
    publish_power: DocumentPower,
    owner_power: PowerSize,
    has_model: bool,
) -> bool {
    let key = (app_id, cart_id);
    let set = refreshed_set(l.set_or_zero(app_id, cart_id), data, doc_power, publish_power, owner_power, price_power);
    let p = commodity_power_spec(set);
    let prev = stored_power(l.commodity_power@, key);
    &&& !l.black_list@.contains_key(key)
    &&& has_model
    &&& (p > u64::MAX || replaced_total(l.total_power as int, prev, p) > u64::MAX || replaced_total(
        account_power_of(l.account_power@, owner),
        prev,
        p,
    ) > u64::MAX)
}

/// What refreshing an identify or try document's commodity does.
pub open spec fn identify_or_try_effect(
    before: PowerLedger,
    after: PowerLedger,
    doc: KPDocumentData,
    cart_id: Seq<u8>,
    goods_price: PowerSize,
    doc_power: DocumentPower,
    publish_power: DocumentPower,
    owner_power: PowerSize,
    max_goods_price: PowerSize,
    has_model: bool,
    model_id: Seq<u8>,
    w: PowerWeights,
    r: Result<Option<PowerSize>, Error>,
) -> bool {
    let set = refreshed_set(
        before.set_or_zero(doc.app_id, cart_id),
        doc.document_data,
        doc_power,
        publish_power,
        owner_power,
        price_power_spec(w, goods_price, max_goods_price),
    );
    if before.black_list@.contains_key((doc.app_id, cart_id)) || !has_model {
        r == Ok::<Option<PowerSize>, Error>(None) && after == before
    } else if commodity_power_spec(set) > u64::MAX {
        r == Err::<Option<PowerSize>, Error>(Error::AddOverflow) && after == before
    } else {
        exists|u: Result<(), Error>|
            {
                &&& update_effect(before, after, set, doc.app_id, model_id, cart_id, doc.owner@, u)
                &&& r == match u {
                    Ok(_) => Ok::<Option<PowerSize>, Error>(Some(commodity_power_spec(set) as u64)),
                    Err(e) => Err::<Option<PowerSize>, Error>(e),
                }
            }
    }
}

/// Two lists of boards with the same keys and entries, board by board.
pub open spec fn same_boards(a: Seq<LeaderBoard>, b: Seq<LeaderBoard>) -> bool {
    &&& a.len() == b.len()
    &&& forall|i: int|
        0 <= i < a.len() ==> (#[trigger] a[i])@ == b[i]@ && a[i].app_id == b[i].app_id && a[i].model_id@
            == b[i].model_id@
}

/// Boards that are each ordered within `cap`, one per key.
pub open spec fn boards_ok(x: Seq<LeaderBoard>, cap: u32) -> bool {
    &&& forall|i: int| 0 <= i < x.len() ==> ordered_within(#[trigger] x[i]@, cap as int)
    &&& forall|i: int, j: int|
        0 <= i < j < x.len() ==> !(x[i].app_id == x[j].app_id && x[i].model_id@ == x[j].model_id@)
}

/// The board of `(app_id, model_id)` exists and is settled for the record.
pub open spec fn settled_at(
    x: Seq<LeaderBoard>,
    app_id: u32,
    model_id: Seq<u8>,
    cart_id: Seq<u8>,
    power: PowerSize,
    cap: u32,
) -> bool {
    exists|i: int| 0 <= i < x.len() && board_of(x[i], app_id, model_id) && settled(x[i]@, cart_id, power, cap as int)
}

proof fn lemma_forward(
    x: Seq<LeaderBoard>,
    y: Seq<LeaderBoard>,
    app_id: u32,
    model_id: Seq<u8>,
    cart_id: Seq<u8>,
    power: PowerSize,
    owner: Seq<u8>,
    cap: u32,
    other: Seq<u8>,
)
    requires
        boards_ok(x, cap),
        forwarded(x, y, app_id, model_id, cart_id, power, owner, cap),
    ensures
        boards_ok(y, cap),
        settled_at(y, app_id, model_id, cart_id, power, cap),
        other != model_id && settled_at(x, app_id, other, cart_id, power, cap) ==> settled_at(
            y,
            app_id,
            other,
            cart_id,
            power,
            cap,
        ),
        settled_at(x, app_id, model_id, cart_id, power, cap) ==> same_boards(y, x),
{
    if exists|i: int|
        {
            &&& 0 <= i < x.len()
            &&& board_of(x[i], app_id, model_id)
            &&& y.len() == x.len()
            &&& board_of(y[i], app_id, model_id)
            &&& board_update(x[i]@, y[i]@, cart_id, power, owner, cap as int)
            &&& forall|j: int| 0 <= j < x.len() && j != i ==> y[j] == x[j]
        } {
        let i = choose|i: int|
            {
                &&& 0 <= i < x.len()
                &&& board_of(x[i], app_id, model_id)
                &&& y.len() == x.len()
                &&& board_of(y[i], app_id, model_id)
                &&& board_update(x[i]@, y[i]@, cart_id, power, owner, cap as int)
                &&& forall|j: int| 0 <= j < x.len() && j != i ==> y[j] == x[j]
            };
        assert(ordered_within(x[i]@, cap as int));
        lemma_update_settles(x[i]@, y[i]@, cart_id, power, owner, cap as int);
        assert forall|a: int| 0 <= a < y.len() implies ordered_within(#[trigger] y[a]@, cap as int) by {
            if a != i {
                assert(y[a] == x[a]);
            }
        }
        assert forall|a: int, b: int| 0 <= a < b < y.len() implies !(y[a].app_id == y[b].app_id
            && y[a].model_id@ == y[b].model_id@) by {
            if a != i {
                assert(y[a] == x[a]);
            }
            if b != i {
                assert(y[b] == x[b]);
            }
        }
        if other != model_id && settled_at(x, app_id, other, cart_id, power, cap) {
            let k = choose|k: int| 0 <= k < x.len() && board_of(x[k], app_id, other) && settled(x[k]@, cart_id, power, cap as int);
            assert(k != i);
            assert(y[k] == x[k]);
        }
        if settled_at(x, app_id, model_id, cart_id, power, cap) {
            let k = choose|k: int| 0 <= k < x.len() && board_of(x[k], app_id, model_id) && settled(x[k]@, cart_id, power, cap as int);
            if k != i {
                if k < i {
                    assert(!(x[k].app_id == x[i].app_id && x[k].model_id@ == x[i].model_id@));
                } else {
                    assert(!(x[i].app_id == x[k].app_id && x[i].model_id@ == x[k].model_id@));
                }
            }
            lemma_settled_update_is_noop(x[i]@, y[i]@, cart_id, power, owner, cap as int);
            assert forall|a: int| 0 <= a < y.len() implies (#[trigger] y[a])@ == x[a]@ && y[a].app_id == x[a].app_id
                && y[a].model_id@ == x[a].model_id@ by {
                if a != i {
                    assert(y[a] == x[a]);
                }
            }
        }
    } else {
        let n = x.len() as int;
        assert(ordered_within(Seq::<crate::board::CommodityLeaderBoardData>::empty(), cap as int));
        lemma_update_settles(Seq::empty(), y[n]@, cart_id, power, owner, cap as int);
        assert(y.last() == y[n]);
        assert forall|a: int| 0 <= a < y.len() implies ordered_within(#[trigger] y[a]@, cap as int) by {
            if a < n {
                assert(y[a] == x[a]);
            }
        }
        assert forall|a: int, b: int| 0 <= a < b < y.len() implies !(y[a].app_id == y[b].app_id
            && y[a].model_id@ == y[b].model_id@) by {
            assert(y[a] == x[a]);
            if b < n {
                assert(y[b] == x[b]);
            }
        }
        if other != model_id && settled_at(x, app_id, other, cart_id, power, cap) {
            let k = choose|k: int| 0 <= k < x.len() && board_of(x[k], app_id, other) && settled(x[k]@, cart_id, power, cap as int);
            assert(y[k] == x[k]);
        }
        if settled_at(x, app_id, model_id, cart_id, power, cap) {
            let k = choose|k: int| 0 <= k < x.len() && board_of(x[k], app_id, model_id) && settled(x[k]@, cart_id, power, cap as int);
            assert(false);
        }
    }
}

} // verus!
