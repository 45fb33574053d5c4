use vstd::prelude::*;

use crate::table::{amount_at, Table};
use crate::types::{AccountId, AssetId, AssetInfo, Error, Event, TokenBalance};

verus! {

/// `x + y`, clamped at the largest amount.
pub open spec fn sat_add(x: nat, y: TokenBalance) -> TokenBalance {
    if x + y > TokenBalance::MAX {
        TokenBalance::MAX
    } else {
        (x + y) as TokenBalance
    }
}

/// The ledger's tables as mathematical values.
pub struct LedgerView {
    /// Metadata of each issued asset, at the index of its id.
    pub infos: Seq<AssetInfo>,
    /// Total supply of each issued asset, at the index of its id.
    pub supply: Seq<TokenBalance>,
    pub balances: Map<(AssetId, AccountId), TokenBalance>,
    pub allowances: Map<(AssetId, AccountId, AccountId), TokenBalance>,
    /// Notifications of the successful transitions so far, oldest first.
    pub events: Seq<Event>,
}

impl LedgerView {
    /// The id that the next issuance allocates.
    pub open spec fn next_id(self) -> nat {
        self.infos.len()
    }

    pub open spec fn info(self, id: AssetId) -> Option<AssetInfo> {
        if id < self.infos.len() {
            Some(self.infos[id as int])
        } else {
            None
        }
    }

    pub open spec fn supply_of(self, id: AssetId) -> nat {
        if id < self.supply.len() {
            self.supply[id as int] as nat
        } else {
            0
        }
    }

    pub open spec fn balance(self, id: AssetId, who: AccountId) -> nat {
        amount_at(self.balances, (id, who))
    }

    pub open spec fn allowance(self, id: AssetId, owner: AccountId, spender: AccountId) -> nat {
        amount_at(self.allowances, (id, owner, spender))
    }

    /// A new asset under the next id, its whole supply held by `owner`.
    pub open spec fn issue(self, owner: AccountId, initial: TokenBalance, info: AssetInfo) -> LedgerView {
        let id = self.infos.len() as AssetId;
        LedgerView {
            infos: self.infos.push(info),
            supply: self.supply.push(initial),
            balances: self.balances.insert((id, owner), initial),
            allowances: self.allowances,
            events: self.events.push(Event::Issued(id, owner, initial)),
        }
    }

    /// Moves `amount` from `owner` to `target`: debit first, then a
    /// saturating credit of what the debit left.
    pub open spec fn transfer(self, id: AssetId, owner: AccountId, target: AccountId, amount: TokenBalance) -> Result<LedgerView, Error> {
        if amount == 0 {
            Err(Error::AmountZero)
        } else if self.balance(id, owner) < amount {
            Err(Error::BalanceLow)
        } else {
            let debited = self.balances.insert((id, owner), (self.balance(id, owner) - amount) as TokenBalance);
            let credited = debited.insert((id, target), sat_add(amount_at(debited, (id, target)), amount));
            Ok(LedgerView {
                balances: credited,
                events: self.events.push(Event::Transferred(id, owner, target, amount)),
                ..self
            })
        }
    }

    /// A transfer on `spender`'s behalf, which uses up as much of its allowance.
    pub open spec fn transfer_from(
        self,
        id: AssetId,
        owner: AccountId,
        spender: AccountId,
        target: AccountId,
        amount: TokenBalance,
    ) -> Result<LedgerView, Error> {
        let allowed = self.allowance(id, owner, spender);
        if allowed < amount {
            Err(Error::AllowanceLow)
        } else {
            match self.transfer(id, owner, target, amount) {
                Err(e) => Err(e),
                Ok(moved) => Ok(LedgerView {
                    allowances: moved.allowances.insert((id, owner, spender), (allowed - amount) as TokenBalance),
                    ..moved
                }),
            }
        }
    }

    /// Sets the allowance to exactly `amount`.
    pub open spec fn approve(self, id: AssetId, owner: AccountId, spender: AccountId, amount: TokenBalance) -> LedgerView {
        LedgerView {
            allowances: self.allowances.insert((id, owner, spender), amount),
            events: self.events.push(Event::Approval(id, owner, spender, amount)),
            ..self
        }
    }

    /// Adds `amount` to an account and to the supply, each saturating.
    pub open spec fn mint(self, id: AssetId, who: AccountId, amount: TokenBalance) -> Result<LedgerView, Error> {
        if self.info(id) is None {
            Err(Error::AssetNotExists)
        } else {
            Ok(LedgerView {
                balances: self.balances.insert((id, who), sat_add(self.balance(id, who), amount)),
                supply: self.supply.update(id as int, sat_add(self.supply_of(id), amount)),
                events: self.events.push(Event::Minted(id, who, amount)),
                ..self
            })
        }
    }

    /// Takes `amount` out of an account and out of the supply (the latter
    /// clamped at zero).
    pub open spec fn burn(self, id: AssetId, who: AccountId, amount: TokenBalance) -> Result<LedgerView, Error> {
        if self.info(id) is None {
            Err(Error::AssetNotExists)
        } else if self.balance(id, who) < amount {
            Err(Error::BalanceLow)
        } else {
            let left: int = self.supply_of(id) - amount;
            Ok(LedgerView {
                balances: self.balances.insert((id, who), (self.balance(id, who) - amount) as TokenBalance),
                supply: self.supply.update(id as int, if left < 0 { 0 } else { left as TokenBalance }),
                events: self.events.push(Event::Burned(id, who, amount)),
                ..self
            })
        }
    }
}

/// The ledger: registry, supply, balances and allowances, with the
/// transitions that change them. A refused transition changes nothing.
pub struct Module {
    asset_infos: Vec<AssetInfo>,
    total_supply: Vec<TokenBalance>,
    balances: Table<(AssetId, AccountId)>,
    allowances: Table<(AssetId, AccountId, AccountId)>,
    events: Vec<Event>,
}

impl View for Module {
    type V = LedgerView;

    closed spec fn view(&self) -> LedgerView {
        LedgerView {
            infos: self.asset_infos@,
            supply: self.total_supply@,
            balances: self.balances@,
            allowances: self.allowances@,
            events: self.events@,
        }
    }
}

impl Module {
    pub closed spec fn wf(&self) -> bool {
        &&& self.balances.wf()
        &&& self.allowances.wf()
        &&& self.total_supply@.len() == self.asset_infos@.len()
        &&& self.asset_infos@.len() <= AssetId::MAX
    }

    /// The sum of the balances of asset `id` over all accounts.
    pub closed spec fn holdings(&self, id: AssetId) -> nat {
        self.balances.total(id)
    }

    /// Every asset's total supply equals the sum of its balances.
    pub open spec fn conserved(&self) -> bool {
        forall|id: AssetId| #[trigger] self@.supply_of(id) == self.holdings(id)
    }

    /// An empty ledger: no asset, no balance, no allowance.
    pub fn new() -> (m: Module)
        ensures
            m.wf(),
            m.conserved(),
            m@.infos.len() == 0,
            m@.supply.len() == 0,
            m@.balances == Map::<(AssetId, AccountId), TokenBalance>::empty(),
            m@.allowances == Map::<(AssetId, AccountId, AccountId), TokenBalance>::empty(),
            m@.events.len() == 0,
    {
        Module {
            asset_infos: Vec::new(),
            total_supply: Vec::new(),
            balances: Table::new(),
            allowances: Table::new(),
            events: Vec::new(),
        }
    }

    /// Creates an asset under the next id and credits its whole supply to
    /// `owner`.
    pub fn inner_issue(&mut self, owner: &AccountId, initial_supply: TokenBalance, info: &AssetInfo) -> (id: AssetId)
        requires
            old(self).wf(),
            old(self)@.next_id() < AssetId::MAX,
        ensures
            final(self).wf(),
            id == old(self)@.next_id(),
            final(self)@ == old(self)@.issue(*owner, initial_supply, *info),
            old(self).conserved() ==> final(self).conserved(),
    {
        let id = self.asset_infos.len() as AssetId;
        proof {
            if self.conserved() {
                assert(self@.supply_of(id) == 0);
                self.balances.lemma_amount_le_total((id, *owner));
            }
        }
        let ghost before = *self;
        self.balances.set((id, *owner), initial_supply);
        self.total_supply.push(initial_supply);
        self.asset_infos.push(*info);
        self.events.push(Event::Issued(id, *owner, initial_supply));
        proof {
            if before.conserved() {
                assert forall|a: AssetId| #[trigger] self@.supply_of(a) == self.holdings(a) by {
                    assert(before@.supply_of(a) == before.holdings(a));
                    if a != id {
                        assert(self@.supply_of(a) == before@.supply_of(a));
                    }
                }
            }
        }
        id
    }

    /// Moves `amount` of asset `id` from `owner` to `target`.
    pub fn inner_transfer(&mut self, id: &AssetId, owner: &AccountId, target: &AccountId, amount: TokenBalance) -> (r: Result<(), Error>)
        requires
            old(self).wf(),
        ensures
            final(self).wf(),
            match old(self)@.transfer(*id, *owner, *target, amount) {
                Ok(v) => r is Ok && final(self)@ == v,
                Err(e) => r == Err::<(), Error>(e) && *final(self) == *old(self),
            },
            old(self).conserved() ==> final(self).conserved(),
    {
        let owner_balance = self.balances.get(&(*id, *owner));
        if amount == 0 {
            return Err(Error::AmountZero);
        }
        if owner_balance < amount {
            return Err(Error::BalanceLow);
        }
        let ghost before = *self;
        let new_balance = owner_balance - amount;
        self.balances.set((*id, *owner), new_balance);
        let target_balance = self.balances.get(&(*id, *target));
        proof {
            self.balances.lemma_amount_le_total((*id, *target));
        }
        self.balances.set((*id, *target), target_balance.saturating_add(amount));
        self.events.push(Event::Transferred(*id, *owner, *target, amount));
        proof {
            if before.conserved() {
                assert forall|a: AssetId| #[trigger] self@.supply_of(a) == self.holdings(a) by {
                    assert(before@.supply_of(a) == before.holdings(a));
                }
            }
        }
        Ok(())
    }

    /// Moves `amount` of asset `id` from `owner` to `target` on behalf of
    /// `spender`, and takes it off `spender`'s allowance. The allowance is
    /// checked first and reduced only once the transfer went through.
    pub fn inner_transfer_from(
        &mut self,
        id: &AssetId,
        owner: &AccountId,
        spender: &AccountId,
        target: &AccountId,
        amount: TokenBalance,
    ) -> (r: Result<(), Error>)
        requires
            old(self).wf(),
        ensures
            final(self).wf(),
            match old(self)@.transfer_from(*id, *owner, *spender, *target, amount) {
                Ok(v) => r is Ok && final(self)@ == v,
                Err(e) => r == Err::<(), Error>(e) && *final(self) == *old(self),
            },
            old(self).conserved() ==> final(self).conserved(),
    {
        let allowance = self.allowances.get(&(*id, *owner, *spender));
        let new_allowance = match allowance.checked_sub(amount) {
            Some(left) => left,
            None => return Err(Error::AllowanceLow),
        };
        match self.inner_transfer(id, owner, target, amount) {
            Ok(()) => {},
            Err(e) => return Err(e),
        }
        let ghost moved = *self;
        self.allowances.set((*id, *owner, *spender), new_allowance);
        proof {
            if old(self).conserved() {
                assert forall|a: AssetId| #[trigger] self@.supply_of(a) == self.holdings(a) by {
                    assert(moved@.supply_of(a) == moved.holdings(a));
                }
            }
        }
        Ok(())
    }

    /// Sets `spender`'s allowance over `owner`'s asset `id` to exactly
    /// `amount`, whatever it was before.
    pub fn inner_approve(&mut self, id: &AssetId, owner: &AccountId, spender: &AccountId, amount: TokenBalance) -> (r: Result<(), Error>)
        requires
            old(self).wf(),
        ensures
            final(self).wf(),
            r is Ok,
            final(self)@ == old(self)@.approve(*id, *owner, *spender, amount),
            old(self).conserved() ==> final(self).conserved(),
    {
        let ghost before = *self;
        self.allowances.set((*id, *owner, *spender), amount);
        self.events.push(Event::Approval(*id, *owner, *spender, amount));
        proof {
            if before.conserved() {
                assert forall|a: AssetId| #[trigger] self@.supply_of(a) == self.holdings(a) by {
                    assert(before@.supply_of(a) == before.holdings(a));
                }
            }
        }
        Ok(())
    }

    /// Adds `amount` of an issued asset to `owner` and to the supply, each
    /// addition clamped at the largest amount. Conservation is kept whenever
    /// the supply does not clamp.
    pub fn inner_mint(&mut self, id: &AssetId, owner: &AccountId, amount: TokenBalance) -> (r: Result<(), Error>)
        requires
            old(self).wf(),
        ensures
            final(self).wf(),
            match old(self)@.mint(*id, *owner, amount) {
                Ok(v) => r is Ok && final(self)@ == v,
                Err(e) => r == Err::<(), Error>(e) && *final(self) == *old(self),
            },
            old(self).conserved() && old(self)@.supply_of(*id) + amount <= TokenBalance::MAX
                ==> final(self).conserved(),
    {
        if !self.asset_info(id).is_some() {
            return Err(Error::AssetNotExists);
        }
        let ghost before = *self;
        let new_balance = self.balances.get(&(*id, *owner)).saturating_add(amount);
        proof {
            self.balances.lemma_amount_le_total((*id, *owner));
        }
        self.balances.set((*id, *owner), new_balance);
        let idx = *id as usize;
        let new_supply = self.total_supply[idx].saturating_add(amount);
        self.total_supply.set(idx, new_supply);
        self.events.push(Event::Minted(*id, *owner, amount));
        proof {
            if before.conserved() && before@.supply_of(*id) + amount <= TokenBalance::MAX {
                assert forall|a: AssetId| #[trigger] self@.supply_of(a) == self.holdings(a) by {
                    assert(before@.supply_of(a) == before.holdings(a));
                }
            }
        }
        Ok(())
    }

    /// Takes `amount` of an issued asset out of `owner`'s balance and out of
    /// the supply; refused when the balance is smaller than `amount`.
    pub fn inner_burn(&mut self, id: &AssetId, owner: &AccountId, amount: TokenBalance) -> (r: Result<(), Error>)
        requires
            old(self).wf(),
        ensures
            final(self).wf(),
            match old(self)@.burn(*id, *owner, amount) {
                Ok(v) => r is Ok && final(self)@ == v,
                Err(e) => r == Err::<(), Error>(e) && *final(self) == *old(self),
            },
            old(self).conserved() ==> final(self).conserved(),
    {
        if !self.asset_info(id).is_some() {
            return Err(Error::AssetNotExists);
        }
        let new_balance = match self.balances.get(&(*id, *owner)).checked_sub(amount) {
            Some(left) => left,
            None => return Err(Error::BalanceLow),
        };
        let ghost before = *self;
        proof {
            self.balances.lemma_amount_le_total((*id, *owner));
        }
        self.balances.set((*id, *owner), new_balance);
        let idx = *id as usize;
        let new_supply = self.total_supply[idx].saturating_sub(amount);
        self.total_supply.set(idx, new_supply);
        self.events.push(Event::Burned(*id, *owner, amount));
        proof {
            if before.conserved() {
                assert forall|a: AssetId| #[trigger] self@.supply_of(a) == self.holdings(a) by {
                    assert(before@.supply_of(a) == before.holdings(a));
                }
            }
        }
        Ok(())
    }

    /// Caller-facing issuance: the signed caller `origin` becomes the
    /// holder of the whole initial supply.
    pub fn issue(&mut self, origin: AccountId, total: TokenBalance, asset_info: AssetInfo) -> (id: AssetId)
        requires
            old(self).wf(),
            old(self)@.next_id() < AssetId::MAX,
        ensures
            final(self).wf(),
            id == old(self)@.next_id(),
            final(self)@ == old(self)@.issue(origin, total, asset_info),
            old(self).conserved() ==> final(self).conserved(),
    {
        self.inner_issue(&origin, total, &asset_info)
    }

    /// Caller-facing approval: `origin` lets `spender` move up to `amount`
    /// of its asset `id`.
    pub fn approve(&mut self, origin: AccountId, id: AssetId, spender: AccountId, amount: TokenBalance) -> (r: Result<(), Error>)
        requires
            old(self).wf(),
        ensures
            final(self).wf(),
            r is Ok,
            final(self)@ == old(self)@.approve(id, origin, spender, amount),
            old(self).conserved() ==> final(self).conserved(),
    {
        self.inner_approve(&id, &origin, &spender, amount)
    }

    /// Caller-facing transfer: `origin` sends `amount` of asset `id` to
    /// `target`.
    pub fn transfer(&mut self, origin: AccountId, id: AssetId, target: AccountId, amount: TokenBalance) -> (r: Result<(), Error>)
        requires
            old(self).wf(),
        ensures
            final(self).wf(),
            match old(self)@.transfer(id, origin, target, amount) {
                Ok(v) => r is Ok && final(self)@ == v,
                Err(e) => r == Err::<(), Error>(e) && *final(self) == *old(self),
            },
            old(self).conserved() ==> final(self).conserved(),
    {
        self.inner_transfer(&id, &origin, &target, amount)
    }

    /// Caller-facing delegated transfer: `origin` is the spender, moving
    /// `amount` of `from`'s asset `id` to `target`.
    pub fn transfer_from(
        &mut self,
        origin: AccountId,
        id: AssetId,
        from: AccountId,
        target: AccountId,
        amount: TokenBalance,
    ) -> (r: Result<(), Error>)
        requires
            old(self).wf(),
        ensures
            final(self).wf(),
            match old(self)@.transfer_from(id, from, origin, target, amount) {
                Ok(v) => r is Ok && final(self)@ == v,
                Err(e) => r == Err::<(), Error>(e) && *final(self) == *old(self),
            },
            old(self).conserved() ==> final(self).conserved(),
    {
        self.inner_transfer_from(&id, &from, &origin, &target, amount)
    }

    /// Total supply of asset `id`; zero for an id never issued.
    pub fn total_supply(&self, id: &AssetId) -> (r: TokenBalance)
        requires
            self.wf(),
        ensures
            r as nat == self@.supply_of(*id),
    {
        if (*id as usize) < self.total_supply.len() {
            self.total_supply[*id as usize]
        } else {
            0
        }
    }

    /// What `owner` holds of asset `id`.
    pub fn balance_of(&self, id: &AssetId, owner: &AccountId) -> (r: TokenBalance)
        requires
            self.wf(),
        ensures
            r as nat == self@.balance(*id, *owner),
    {
        self.balances.get(&(*id, *owner))
    }

    /// Metadata of asset `id`, or `None` when it was never issued.
    pub fn asset_info(&self, id: &AssetId) -> (r: Option<AssetInfo>)
        requires
            self.wf(),
        ensures
            r == self@.info(*id),
    {
        if (*id as usize) < self.asset_infos.len() {
            Some(self.asset_infos[*id as usize])
        } else {
            None
        }
    }

    /// How much of `owner`'s asset `id` `spender` may still move.
    pub fn allowances(&self, id: &AssetId, owner: &AccountId, spender: &AccountId) -> (r: TokenBalance)
        requires
            self.wf(),
        ensures
            r as nat == self@.allowance(*id, *owner, *spender),
    {
        self.allowances.get(&(*id, *owner, *spender))
    }

    /// The id that the next issuance will allocate.
    pub fn next_asset_id(&self) -> (r: AssetId)
        requires
            self.wf(),
        ensures
            r as nat == self@.next_id(),
    {
        self.asset_infos.len() as AssetId
    }

    /// Notifications of the successful transitions so far, oldest first.
    pub fn events(&self) -> (r: &[Event])
        ensures
            r@ == self@.events,
    {
        self.events.as_slice()
    }
}

} // verus!
