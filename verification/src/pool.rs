//! The lending pool of one project: who invested how much, when the funding
//! goal is met, and what each investor is owed once the loan has matured.
//!
//! The pool only keeps books. No asset moves here.

use vstd::prelude::*;
use vstd::arithmetic::div_mod::lemma_hoist_over_denominator;
use crate::access::{has_proof, holds_proof, Fault};

verus! {

/// What one investor has put into the pool.
#[derive(Debug, PartialEq, Eq)]
pub struct Investment {
    pub investor: String,
    /// The sum of all accepted investments of this investor.
    pub amount: i128,
    /// The ledger time of the investor's first accepted investment.
    pub timestamp: u64,
    /// Fixed at withdrawal; 0 until then.
    pub interest_earned: i128,
    pub is_withdrawn: bool,
}

impl Clone for Investment {
    fn clone(&self) -> (copy: Self)
        ensures
            copy == *self,
    {
        Investment {
            investor: self.investor.clone(),
            amount: self.amount,
            timestamp: self.timestamp,
            interest_earned: self.interest_earned,
            is_withdrawn: self.is_withdrawn,
        }
    }
}

/// The terms and the running totals of a pool.
#[derive(Debug, PartialEq, Eq)]
pub struct PoolInfo {
    pub project_id: u64,
    pub creator: String,
    pub funding_goal: i128,
    /// In basis points: 500 is 5%.
    pub interest_rate: u32,
    /// In seconds.
    pub loan_term: u64,
    pub total_invested: i128,
    pub is_funded: bool,
    /// The ledger time of initialization plus `loan_term`.
    pub maturity_date: u64,
}

impl Clone for PoolInfo {
    fn clone(&self) -> (copy: Self)
        ensures
            copy == *self,
    {
        PoolInfo {
            project_id: self.project_id,
            creator: self.creator.clone(),
            funding_goal: self.funding_goal,
            interest_rate: self.interest_rate,
            loan_term: self.loan_term,
            total_invested: self.total_invested,
            is_funded: self.is_funded,
            maturity_date: self.maturity_date,
        }
    }
}

/// Whether `x` is a value of `i128`.
pub open spec fn fits_i128(x: int) -> bool {
    i128::MIN <= x <= i128::MAX
}

/// `a` divided by a positive `b`, rounded toward zero. For `a >= 0` this is
/// the floor of the quotient.
pub open spec fn quotient_toward_zero(a: int, b: int) -> int
    recommends
        b > 0,
{
    if a >= 0 {
        a / b
    } else {
        -((-a) / b)
    }
}

/// The interest on `principal` at `rate_bps` basis points.
pub open spec fn spec_interest(principal: int, rate_bps: int) -> int {
    quotient_toward_zero(principal * rate_bps, 10000)
}

/// On a principal that is not negative the interest is the floor of
/// principal times rate over 10000, so it is never negative itself.
pub proof fn interest_is_the_floor(principal: int, rate_bps: int)
    requires
        principal >= 0,
        rate_bps >= 0,
    ensures
        spec_interest(principal, rate_bps) == (principal * rate_bps) / 10000,
        10000 * spec_interest(principal, rate_bps) <= principal * rate_bps < 10000 * (
        spec_interest(principal, rate_bps) + 1),
        spec_interest(principal, rate_bps) >= 0,
{
    assert(principal * rate_bps >= 0) by (nonlinear_arith)
        requires
            principal >= 0,
            rate_bps >= 0,
    ;
}

/// Interest never runs against the principal: it is not negative on a
/// principal that is not negative, and not positive on one that is not
/// positive.
pub proof fn interest_follows_the_principal(principal: int, rate_bps: int)
    requires
        rate_bps >= 0,
    ensures
        principal >= 0 ==> spec_interest(principal, rate_bps) >= 0,
        principal <= 0 ==> spec_interest(principal, rate_bps) <= 0,
{
    assert(principal >= 0 ==> principal * rate_bps >= 0) by (nonlinear_arith)
        requires
            rate_bps >= 0,
    ;
    assert(principal <= 0 ==> principal * rate_bps <= 0) by (nonlinear_arith)
        requires
            rate_bps >= 0,
    ;
}

/// Principal plus interest.
pub open spec fn spec_payout(principal: int, rate_bps: int) -> int {
    principal + spec_interest(principal, rate_bps)
}

/// Whether the payout is a value of `i128`.
pub open spec fn payout_fits(principal: int, rate_bps: int) -> bool {
    fits_i128(spec_payout(principal, rate_bps))
}

/// The interest on a principal is the interest on its whole ten-thousands,
/// which is their number times the rate, plus the interest on what is left
/// of the principal.
pub proof fn interest_in_two_parts(principal: int, rate_bps: int)
    requires
        rate_bps >= 0,
    ensures
        spec_interest(principal, rate_bps) == quotient_toward_zero(principal, 10000) * rate_bps
            + spec_interest(principal - 10000 * quotient_toward_zero(principal, 10000), rate_bps),
{
    let size = if principal >= 0 {
        principal
    } else {
        -principal
    };
    let whole = size / 10000;
    let rest = size - 10000 * whole;
    assert(0 <= rest < 10000 && whole >= 0);
    assert(size * rate_bps == rest * rate_bps + (whole * rate_bps) * 10000) by (nonlinear_arith)
        requires
            size == rest + 10000 * whole,
    ;
    assert(rest * rate_bps >= 0 && size * rate_bps >= 0 && whole * rate_bps >= 0)
        by (nonlinear_arith)
        requires
            rest >= 0,
            size >= 0,
            whole >= 0,
            rate_bps >= 0,
    ;
    lemma_hoist_over_denominator(rest * rate_bps, whole * rate_bps, 10000);
    assert((size * rate_bps) / 10000 == (rest * rate_bps) / 10000 + whole * rate_bps);
    if principal < 0 {
        assert(principal * rate_bps == -(size * rate_bps)) by (nonlinear_arith)
            requires
                principal == -size,
        ;
        assert((principal + 10000 * whole) * rate_bps == -(rest * rate_bps)) by (nonlinear_arith)
            requires
                principal + 10000 * whole == -rest,
        ;
        assert((-whole) * rate_bps == -(whole * rate_bps)) by (nonlinear_arith);
    }
}

/// Principal plus interest at `rate_bps` basis points, or `None` where that
/// sum is no value of `i128`. The product of principal and rate is never
/// formed, so its size does not matter.
pub fn payout(principal: i128, rate_bps: u32) -> (owed: Option<i128>)
    ensures
        payout_fits(principal as int, rate_bps as int) ==> owed == Some(
            spec_payout(principal as int, rate_bps as int) as i128,
        ),
        !payout_fits(principal as int, rate_bps as int) ==> owed.is_none(),
{
    let rate: i128 = rate_bps as i128;
    let whole: i128 = principal / 10000;
    let rest: i128 = principal % 10000;
    proof {
        interest_in_two_parts(principal as int, rate as int);
        assert(whole == quotient_toward_zero(principal as int, 10000));
        assert(rest == principal - 10000 * whole);
        assert(-10000 < rest < 10000);
        assert(-10000 * 0x1_0000_0000 < rest * rate < 10000 * 0x1_0000_0000) by (nonlinear_arith)
            requires
                -10000 < rest < 10000,
                0 <= rate < 0x1_0000_0000,
        ;
        assert(principal >= 0 ==> whole * rate >= 0 && rest * rate >= 0) by (nonlinear_arith)
            requires
                principal >= 0 ==> whole >= 0 && rest >= 0,
                rate >= 0,
        ;
        assert(principal <= 0 ==> whole * rate <= 0 && rest * rate <= 0) by (nonlinear_arith)
            requires
                principal <= 0 ==> whole <= 0 && rest <= 0,
                rate >= 0,
        ;
    }
    let small: i128 = (rest * rate) / 10000;
    match whole.checked_mul(rate) {
        None => None,
        Some(large) => match large.checked_add(small) {
            None => None,
            Some(interest) => principal.checked_add(interest),
        },
    }
}

/// No two records of `records` belong to the same investor.
pub open spec fn one_record_each(records: Seq<Investment>) -> bool {
    forall|i: int, j: int|
        0 <= i < j < records.len() ==> (#[trigger] records[i]).investor@ != (
        #[trigger] records[j]).investor@
}

/// Whether `records` holds a record of `who`.
pub open spec fn has_record(records: Seq<Investment>, who: String) -> bool {
    exists|i: int| 0 <= i < records.len() && (#[trigger] records[i]).investor@ == who@
}

/// Where in `records` the record of `who` stands, if `has_record`.
pub open spec fn record_slot(records: Seq<Investment>, who: String) -> int {
    choose|i: int| 0 <= i < records.len() && (#[trigger] records[i]).investor@ == who@
}

/// A pool's whole state. `info` is `None` until the pool is initialized.
pub struct LendingPool {
    pub info: Option<PoolInfo>,
    /// How many distinct investors were recorded since initialization.
    pub investor_count: u64,
    pub investments: Vec<Investment>,
}

impl LendingPool {
    /// The total of a pool with these terms is within the goal, and the pool
    /// is funded exactly if the total has reached the goal.
    pub open spec fn within_goal(info: PoolInfo) -> bool {
        &&& info.total_invested <= info.funding_goal
        &&& info.is_funded == (info.total_invested >= info.funding_goal)
    }

    /// Every investor has at most one record, and an initialized pool is
    /// `within_goal`.
    pub open spec fn wf(&self) -> bool {
        &&& one_record_each(self.investments@)
        &&& self.info.is_some() ==> Self::within_goal(self.info.unwrap())
    }

    pub open spec fn has_investment(&self, who: String) -> bool {
        has_record(self.investments@, who)
    }

    /// The record of `who`, if `has_investment`.
    pub open spec fn investment(&self, who: String) -> Investment {
        self.investments@[record_slot(self.investments@, who)]
    }

    /// A pool that was never initialized and holds no record.
    pub fn new() -> (pool: Self)
        ensures
            pool.wf(),
            pool.info.is_none(),
            pool.investor_count == 0,
            pool.investments@.len() == 0,
    {
        LendingPool { info: None, investor_count: 0, investments: Vec::new() }
    }

    fn find(&self, who: &String) -> (slot: Option<usize>)
        requires
            self.wf(),
        ensures
            slot.is_some() == self.has_investment(*who),
            slot.is_some() ==> slot.unwrap() == record_slot(self.investments@, *who)
                && slot.unwrap() < self.investments@.len(),
    {
        let mut i: usize = 0;
        while i < self.investments.len()
            invariant
                self.wf(),
                i <= self.investments@.len(),
                forall|k: int| 0 <= k < i ==> (#[trigger] self.investments@[k]).investor@ != who@,
            decreases self.investments@.len() - i,
        {
            if self.investments[i].investor == *who {
                proof {
                    let chosen = record_slot(self.investments@, *who);
                    assert(self.investments@[i as int].investor@ == who@);
                    assert(self.investments@[chosen].investor@ == who@);
                }
                return Some(i);
            }
            i += 1;
        }
        None
    }

    /// What `initialize` answers. A negative goal is refused: the total,
    /// which starts at 0, would be over it.
    pub open spec fn initialize_outcome(
        signers: Seq<String>,
        creator: String,
        funding_goal: i128,
        loan_term: u64,
        now: u64,
    ) -> Result<(), Fault> {
        if !holds_proof(signers, creator) {
            Err(Fault::Unauthorized)
        } else if funding_goal < 0 {
            Err(Fault::InvalidGoal)
        } else if now + loan_term > u64::MAX {
            Err(Fault::Overflow)
        } else {
            Ok(())
        }
    }

    /// Sets the pool's terms, with the creator's proof of intent. The loan
    /// matures `loan_term` seconds after `now`. Totals and the investor count
    /// start at zero; records that the pool already holds stay. A pool with a
    /// goal of 0 has reached its goal with nothing invested: it starts funded,
    /// and so accepts no investment.
    pub fn initialize(
        &mut self,
        signers: &Vec<String>,
        project_id: u64,
        creator: &String,
        funding_goal: i128,
        interest_rate: u32,
        loan_term: u64,
        now: u64,
    ) -> (outcome: Result<(), Fault>)
        requires
            old(self).wf(),
        ensures
            final(self).wf(),
            outcome == Self::initialize_outcome(signers@, *creator, funding_goal, loan_term, now),
            outcome.is_err() ==> *final(self) == *old(self),
            outcome.is_ok() ==> final(self).info == Some(
                (PoolInfo {
                    project_id,
                    creator: *creator,
                    funding_goal,
                    interest_rate,
                    loan_term,
                    total_invested: 0,
                    is_funded: funding_goal == 0,
                    maturity_date: (now + loan_term) as u64,
                }),
            ),
            outcome.is_ok() ==> final(self).investor_count == 0,
            outcome.is_ok() ==> final(self).investments == old(self).investments,
    {
        if !has_proof(signers, creator) {
            return Err(Fault::Unauthorized);
        }
        if funding_goal < 0 {
            return Err(Fault::InvalidGoal);
        }
        match now.checked_add(loan_term) {
            None => Err(Fault::Overflow),
            Some(maturity_date) => {
                self.info = Some(
                    PoolInfo {
                        project_id,
                        creator: creator.clone(),
                        funding_goal,
                        interest_rate,
                        loan_term,
                        total_invested: 0,
                        is_funded: funding_goal == 0,
                        maturity_date,
                    },
                );
                self.investor_count = 0;
                Ok(())
            },
        }
    }

    /// What `invest` answers: `Ok(true)` where the investment is accepted,
    /// `Ok(false)` where the pool is funded already or the amount would carry
    /// the total over the goal, by however much. The sums are those of whole
    /// numbers: a total that would pass the largest `i128` has passed the goal.
    pub open spec fn invest_outcome(
        &self,
        signers: Seq<String>,
        investor: String,
        amount: i128,
    ) -> Result<bool, Fault> {
        if !holds_proof(signers, investor) {
            Err(Fault::Unauthorized)
        } else if self.info.is_none() {
            Err(Fault::NotInitialized)
        } else if self.info.unwrap().is_funded {
            Ok(false)
        } else if self.info.unwrap().total_invested + amount > self.info.unwrap().funding_goal {
            Ok(false)
        } else if self.info.unwrap().total_invested + amount < i128::MIN {
            Err(Fault::Overflow)
        } else if self.has_investment(investor) && !fits_i128(
            self.investment(investor).amount + amount,
        ) {
            Err(Fault::Overflow)
        } else if !self.has_investment(investor) && self.investor_count == u64::MAX {
            Err(Fault::Overflow)
        } else {
            Ok(true)
        }
    }

    /// How an accepted investment changes the pool: `self` is the pool before
    /// it, `after` the pool after it.
    pub open spec fn invested(
        &self,
        after: &Self,
        investor: String,
        amount: i128,
        now: u64,
    ) -> bool {
        let info = self.info.unwrap();
        let total = info.total_invested + amount;
        &&& after.info == Some(
            (PoolInfo {
                total_invested: total as i128,
                is_funded: total >= info.funding_goal,
                ..info
            }),
        )
        &&& if self.has_investment(investor) {
            let slot = record_slot(self.investments@, investor);
            let merged = Investment {
                amount: (self.investments@[slot].amount + amount) as i128,
                ..self.investments@[slot]
            };
            &&& after.investments@ == self.investments@.update(slot, merged)
            &&& after.investor_count == self.investor_count
        } else {
            let first = Investment {
                investor,
                amount,
                timestamp: now,
                interest_earned: 0,
                is_withdrawn: false,
            };
            &&& after.investments@ == self.investments@.push(first)
            &&& after.investor_count == self.investor_count + 1
        }
    }

    /// Records an investment of `amount` by `investor`, with the investor's
    /// proof of intent. A first investment opens a record dated `now`; a later
    /// one adds to the record's amount and leaves its date.
    pub fn invest(
        &mut self,
        signers: &Vec<String>,
        investor: &String,
        amount: i128,
        now: u64,
    ) -> (outcome: Result<bool, Fault>)
        requires
            old(self).wf(),
        ensures
            final(self).wf(),
            outcome == old(self).invest_outcome(signers@, *investor, amount),
            outcome != Ok::<bool, Fault>(true) ==> *final(self) == *old(self),
            outcome == Ok::<bool, Fault>(true) ==> old(self).invested(
                final(self),
                *investor,
                amount,
                now,
            ),
    {
        if !has_proof(signers, investor) {
            return Err(Fault::Unauthorized);
        }
        let info = match &self.info {
            None => {
                return Err(Fault::NotInitialized);
            },
            Some(info) => info.clone(),
        };
        if info.is_funded {
            return Ok(false);
        }
        let total = match info.total_invested.checked_add(amount) {
            None => {
                if amount > 0 {
                    return Ok(false);
                }
                return Err(Fault::Overflow);
            },
            Some(total) => total,
        };
        if total > info.funding_goal {
            return Ok(false);
        }
        match self.find(investor) {
            Some(slot) => {
                let held = &self.investments[slot];
                let merged = match held.amount.checked_add(amount) {
                    None => {
                        return Err(Fault::Overflow);
                    },
                    Some(sum) => Investment {
                        investor: held.investor.clone(),
                        amount: sum,
                        timestamp: held.timestamp,
                        interest_earned: held.interest_earned,
                        is_withdrawn: held.is_withdrawn,
                    },
                };
                self.investments.set(slot, merged);
            },
            None => {
                if self.investor_count == u64::MAX {
                    return Err(Fault::Overflow);
                }
                self.investments.push(
                    Investment {
                        investor: investor.clone(),
                        amount,
                        timestamp: now,
                        interest_earned: 0,
                        is_withdrawn: false,
                    },
                );
                self.investor_count = self.investor_count + 1;
            },
        }
        self.info = Some(
            PoolInfo {
                project_id: info.project_id,
                creator: info.creator,
                funding_goal: info.funding_goal,
                interest_rate: info.interest_rate,
                loan_term: info.loan_term,
                total_invested: total,
                is_funded: total >= info.funding_goal,
                maturity_date: info.maturity_date,
            },
        );
        Ok(true)
    }

    /// What `calculate_returns` answers: 0 before maturity and for an investor
    /// without a record, else principal plus interest.
    pub open spec fn returns_outcome(&self, investor: String, now: u64) -> Result<i128, Fault> {
        if self.info.is_none() {
            Err(Fault::NotInitialized)
        } else if !self.has_investment(investor) || now < self.info.unwrap().maturity_date {
            Ok(0)
        } else if !payout_fits(
            self.investment(investor).amount as int,
            self.info.unwrap().interest_rate as int,
        ) {
            Err(Fault::Overflow)
        } else {
            Ok(
                spec_payout(
                    self.investment(investor).amount as int,
                    self.info.unwrap().interest_rate as int,
                ) as i128,
            )
        }
    }

    /// What `investor` is owed at ledger time `now`, whether or not the
    /// investor has withdrawn already.
    pub fn calculate_returns(&self, investor: &String, now: u64) -> (outcome: Result<i128, Fault>)
        requires
            self.wf(),
        ensures
            outcome == self.returns_outcome(*investor, now),
    {
        match &self.info {
            None => Err(Fault::NotInitialized),
            Some(info) => {
                match self.find(investor) {
                    None => Ok(0),
                    Some(slot) => {
                        if now < info.maturity_date {
                            Ok(0)
                        } else {
                            match payout(self.investments[slot].amount, info.interest_rate) {
                                None => Err(Fault::Overflow),
                                Some(owed) => Ok(owed),
                            }
                        }
                    },
                }
            },
        }
    }

    /// Whether a withdrawal by `investor` at `now` pays out: the loan has
    /// matured, and the investor has a record that is not withdrawn yet.
    pub open spec fn withdrawal_is_due(&self, investor: String, now: u64) -> bool {
        &&& self.info.is_some()
        &&& now >= self.info.unwrap().maturity_date
        &&& self.has_investment(investor)
        &&& !self.investment(investor).is_withdrawn
    }

    /// What `withdraw` answers.
    pub open spec fn withdraw_outcome(
        &self,
        signers: Seq<String>,
        investor: String,
        now: u64,
    ) -> Result<i128, Fault> {
        if !holds_proof(signers, investor) {
            Err(Fault::Unauthorized)
        } else if self.info.is_none() {
            Err(Fault::NotInitialized)
        } else if !self.withdrawal_is_due(investor, now) {
            Ok(0)
        } else {
            self.returns_outcome(investor, now)
        }
    }

    /// How a withdrawal that paid `paid` changes the pool: `self` is the pool
    /// before it, `after` the pool after it.
    pub open spec fn withdrawn(&self, after: &Self, investor: String, paid: i128) -> bool {
        let slot = record_slot(self.investments@, investor);
        let closed = Investment {
            is_withdrawn: true,
            interest_earned: (paid - self.investments@[slot].amount) as i128,
            ..self.investments@[slot]
        };
        &&& after.info == self.info
        &&& after.investor_count == self.investor_count
        &&& after.investments@ == self.investments@.update(slot, closed)
    }

    /// Pays `investor` out, with the investor's proof of intent: once, and not
    /// before maturity. Answers the amount owed, or 0 where nothing is due.
    pub fn withdraw(
        &mut self,
        signers: &Vec<String>,
        investor: &String,
        now: u64,
    ) -> (outcome: Result<i128, Fault>)
        requires
            old(self).wf(),
        ensures
            final(self).wf(),
            outcome == old(self).withdraw_outcome(signers@, *investor, now),
            outcome.is_ok() && old(self).withdrawal_is_due(*investor, now) ==> old(self).withdrawn(
                final(self),
                *investor,
                outcome.unwrap(),
            ),
            !(outcome.is_ok() && old(self).withdrawal_is_due(*investor, now)) ==> *final(self) == *old(
                self,
            ),
    {
        if !has_proof(signers, investor) {
            return Err(Fault::Unauthorized);
        }
        let maturity_date = match &self.info {
            None => {
                return Err(Fault::NotInitialized);
            },
            Some(info) => info.maturity_date,
        };
        if now < maturity_date {
            return Ok(0);
        }
        match self.find(investor) {
            None => Ok(0),
            Some(slot) => {
                if self.investments[slot].is_withdrawn {
                    return Ok(0);
                }
                match self.calculate_returns(investor, now) {
                    Err(fault) => Err(fault),
                    Ok(paid) => {
                        let held = &self.investments[slot];
                        proof {
                            interest_follows_the_principal(
                                held.amount as int,
                                self.info.unwrap().interest_rate as int,
                            );
                        }
                        let closed = Investment {
                            investor: held.investor.clone(),
                            amount: held.amount,
                            timestamp: held.timestamp,
                            interest_earned: paid - held.amount,
                            is_withdrawn: true,
                        };
                        self.investments.set(slot, closed);
                        Ok(paid)
                    },
                }
            },
        }
    }

    /// The pool's terms and totals.
    pub fn get_pool_info(&self) -> (outcome: Result<PoolInfo, Fault>)
        ensures
            self.info.is_none() ==> outcome == Err::<PoolInfo, Fault>(Fault::NotInitialized),
            self.info.is_some() ==> outcome == Ok::<PoolInfo, Fault>(self.info.unwrap()),
    {
        match &self.info {
            None => Err(Fault::NotInitialized),
            Some(info) => Ok(info.clone()),
        }
    }

    /// What `get_investment` answers: the record of `investor`, if there is
    /// one.
    pub open spec fn investment_outcome(&self, investor: String) -> Result<
        Option<Investment>,
        Fault,
    > {
        if self.info.is_none() {
            Err(Fault::NotInitialized)
        } else if self.has_investment(investor) {
            Ok(Some(self.investment(investor)))
        } else {
            Ok(None)
        }
    }

    /// The record of `investor` in an initialized pool.
    pub fn get_investment(&self, investor: &String) -> (outcome: Result<Option<Investment>, Fault>)
        requires
            self.wf(),
        ensures
            outcome == self.investment_outcome(*investor),
    {
        if self.info.is_none() {
            return Err(Fault::NotInitialized);
        }
        match self.find(investor) {
            None => Ok(None),
            Some(slot) => Ok(Some(self.investments[slot].clone())),
        }
    }

    /// The pool's interest rate in basis points.
    pub fn get_apy(&self) -> (outcome: Result<u32, Fault>)
        ensures
            self.info.is_none() ==> outcome == Err::<u32, Fault>(Fault::NotInitialized),
            self.info.is_some() ==> outcome == Ok::<u32, Fault>(self.info.unwrap().interest_rate),
    {
        match &self.info {
            None => Err(Fault::NotInitialized),
            Some(info) => Ok(info.interest_rate),
        }
    }
}

impl LendingPool {
    /// The books of a pool into which `investor` alone has put `sum` so far:
    /// no record and a total of 0, or the investor's one record, whose amount
    /// is the total.
    pub open spec fn backed_only_by(&self, investor: String, sum: int) -> bool {
        &&& self.info.is_some()
        &&& self.info.unwrap().total_invested == sum
        &&& self.investor_count == self.investments@.len()
        &&& if self.investments@.len() == 0 {
            sum == 0
        } else {
            &&& self.investments@.len() == 1
            &&& self.investments@[0].investor@ == investor@
            &&& self.investments@[0].amount == sum
        }
    }

    /// A funded pool accepts no investment, whoever asks and whatever the
    /// amount: `invest` never answers `Ok(true)`, so it leaves the pool as it
    /// was.
    pub proof fn funded_pool_accepts_nothing(
        &self,
        signers: Seq<String>,
        investor: String,
        amount: i128,
    )
        requires
            self.info.is_some(),
            self.info.unwrap().is_funded,
        ensures
            self.invest_outcome(signers, investor, amount) != Ok::<bool, Fault>(true),
            holds_proof(signers, investor) ==> self.invest_outcome(signers, investor, amount) == Ok::<
                bool,
                Fault,
            >(false),
    {
    }

    /// An open pool turns down whatever would carry its total over the goal,
    /// by however much: `invest` answers `Ok(false)`, and so leaves the pool
    /// as it was.
    pub proof fn over_the_goal_is_rejected(
        &self,
        signers: Seq<String>,
        investor: String,
        amount: i128,
    )
        requires
            self.info.is_some(),
            holds_proof(signers, investor),
            self.info.unwrap().total_invested + amount > self.info.unwrap().funding_goal,
        ensures
            self.invest_outcome(signers, investor, amount) == Ok::<bool, Fault>(false),
    {
    }

    /// An accepted investment never carries the total over the goal, and the
    /// pool is funded after it exactly if the total has reached the goal.
    pub proof fn total_stays_within_goal(
        &self,
        after: &Self,
        signers: Seq<String>,
        investor: String,
        amount: i128,
        now: u64,
    )
        requires
            self.invest_outcome(signers, investor, amount) == Ok::<bool, Fault>(true),
            self.invested(after, investor, amount, now),
        ensures
            after.info.unwrap().total_invested <= after.info.unwrap().funding_goal,
            after.info.unwrap().is_funded == (after.info.unwrap().total_invested
                == after.info.unwrap().funding_goal),
    {
    }

    /// Investments of one investor add up in one record. Where `investor`
    /// alone has put `sum` into an open pool and invests `amount`: an amount
    /// that would carry the total over the goal changes nothing; any other that
    /// keeps the total in range is accepted, after which the investor's one
    /// record and the total hold `sum + amount`, and the pool is funded exactly if
    /// that reaches the goal. `after` is the pool as `invest` leaves it.
    pub proof fn investments_accumulate(
        &self,
        after: &Self,
        signers: Seq<String>,
        investor: String,
        amount: i128,
        now: u64,
        sum: int,
    )
        requires
            self.wf(),
            self.backed_only_by(investor, sum),
            !self.info.unwrap().is_funded,
            holds_proof(signers, investor),
            self.invest_outcome(signers, investor, amount) == Ok::<bool, Fault>(true)
                ==> self.invested(after, investor, amount, now),
            self.invest_outcome(signers, investor, amount) != Ok::<bool, Fault>(true) ==> *after
                == *self,
        ensures
            sum + amount > self.info.unwrap().funding_goal ==> *after == *self
                && self.invest_outcome(signers, investor, amount) == Ok::<bool, Fault>(false),
            i128::MIN <= sum + amount <= self.info.unwrap().funding_goal ==> {
                &&& self.invest_outcome(signers, investor, amount) == Ok::<bool, Fault>(true)
                &&& after.backed_only_by(investor, sum + amount)
                &&& after.investments@.len() == 1
                &&& after.info.unwrap().is_funded == (sum + amount
                    >= self.info.unwrap().funding_goal)
            },
    {
        if self.investments@.len() == 1 {
            assert(self.investments@[0].investor@ == investor@);
            assert(self.has_investment(investor));
            assert(record_slot(self.investments@, investor) == 0);
        } else {
            assert(!self.has_investment(investor));
        }
    }

    /// Before maturity a withdrawal pays nothing: it answers 0, and nothing is
    /// due, so `withdraw` leaves every record as it was.
    pub proof fn nothing_is_paid_before_maturity(
        &self,
        signers: Seq<String>,
        investor: String,
        now: u64,
    )
        requires
            self.info.is_some(),
            now < self.info.unwrap().maturity_date,
            holds_proof(signers, investor),
        ensures
            !self.withdrawal_is_due(investor, now),
            self.withdraw_outcome(signers, investor, now) == Ok::<i128, Fault>(0),
            self.returns_outcome(investor, now) == Ok::<i128, Fault>(0),
    {
    }

    /// A withdrawal pays once. Where `after` is the pool as a withdrawal that
    /// was due left it, the investor's record is marked withdrawn, and every
    /// later withdrawal of that investor answers 0 and finds nothing due.
    pub proof fn withdrawal_pays_once(
        &self,
        after: &Self,
        investor: String,
        now: u64,
        paid: i128,
        signers: Seq<String>,
        later: u64,
    )
        requires
            self.wf(),
            self.withdrawal_is_due(investor, now),
            self.withdrawn(after, investor, paid),
            holds_proof(signers, investor),
        ensures
            after.has_investment(investor),
            after.investment(investor).is_withdrawn,
            !after.withdrawal_is_due(investor, later),
            after.withdraw_outcome(signers, investor, later) == Ok::<i128, Fault>(0),
    {
        let slot = record_slot(self.investments@, investor);
        assert(after.investments@[slot].investor@ == investor@);
        assert(after.has_investment(investor));
        let again = record_slot(after.investments@, investor);
        assert(after.investments@[again].investor@ == investor@);
        assert(self.investments@[again].investor@ == investor@);
        assert(again == slot);
    }
}

/// The sum of `amounts`.
pub open spec fn total_of(amounts: Seq<i128>) -> int
    decreases amounts.len(),
{
    if amounts.len() == 0 {
        0
    } else {
        total_of(amounts.drop_last()) + amounts.last()
    }
}

/// Whether `states` tells of investments of `investor` in a row:
/// `states[k + 1]` is the pool that `invest` makes of `states[k]` when the
/// investor offers `amounts[k]` at the time `times[k]`.
pub open spec fn investments_in_a_row(
    states: Seq<LendingPool>,
    signers: Seq<String>,
    investor: String,
    amounts: Seq<i128>,
    times: Seq<u64>,
) -> bool {
    &&& states.len() == amounts.len() + 1
    &&& times.len() == amounts.len()
    &&& forall|k: int|
        0 <= k < amounts.len() ==> {
            let accepted = (#[trigger] states[k]).invest_outcome(signers, investor, amounts[k])
                == Ok::<bool, Fault>(true);
            &&& accepted ==> states[k].invested(&states[k + 1], investor, amounts[k], times[k])
            &&& !accepted ==> states[k + 1] == states[k]
        }
}

/// The investments of one investor add up. Where one investor offers
/// amounts, none of them negative, that together stay within the goal of a
/// pool that is open and holds nothing, then after each offer the pool is
/// well-formed and holds the sum so far, in the total and in the investor's
/// one record, and it is funded exactly from the offer on with which the sum
/// reaches the goal.
pub proof fn one_investor_adds_up(
    states: Seq<LendingPool>,
    signers: Seq<String>,
    investor: String,
    amounts: Seq<i128>,
    times: Seq<u64>,
)
    requires
        investments_in_a_row(states, signers, investor, amounts, times),
        holds_proof(signers, investor),
        states[0].wf(),
        states[0].backed_only_by(investor, 0),
        states[0].investments@.len() == 0,
        !states[0].info.unwrap().is_funded,
        forall|k: int| 0 <= k < amounts.len() ==> #[trigger] amounts[k] >= 0,
        total_of(amounts) <= states[0].info.unwrap().funding_goal,
    ensures
        forall|n: int|
            0 <= n <= amounts.len() ==> {
                &&& (#[trigger] states[n]).wf()
                &&& states[n].backed_only_by(investor, total_of(amounts.take(n)))
                &&& n > 0 ==> states[n].investments@.len() == 1
                &&& states[n].info.unwrap().is_funded == (n > 0 && total_of(amounts.take(n))
                    >= states[0].info.unwrap().funding_goal)
            },
        states.last().backed_only_by(investor, total_of(amounts)),
{
    assert forall|n: int| 0 <= n <= amounts.len() implies {
        &&& (#[trigger] states[n]).wf()
        &&& states[n].backed_only_by(investor, total_of(amounts.take(n)))
        &&& n > 0 ==> states[n].investments@.len() == 1
        &&& states[n].info.unwrap().is_funded == (n > 0 && total_of(amounts.take(n))
            >= states[0].info.unwrap().funding_goal)
    } by {
        adds_up_so_far(states, signers, investor, amounts, times, n as nat);
    }
    assert(amounts.take(amounts.len() as int) =~= amounts);
}

proof fn sum_so_far_is_within_the_sum(amounts: Seq<i128>, n: nat)
    requires
        n <= amounts.len(),
        forall|k: int| 0 <= k < amounts.len() ==> #[trigger] amounts[k] >= 0,
    ensures
        0 <= total_of(amounts.take(n as int)) <= total_of(amounts),
    decreases amounts.len() - n,
{
    if n == amounts.len() {
        assert(amounts.take(n as int) =~= amounts);
        nothing_negative_in_the_sum(amounts);
    } else {
        sum_so_far_is_within_the_sum(amounts, n + 1);
        let longer = amounts.take(n as int + 1);
        assert(longer.drop_last() =~= amounts.take(n as int));
        assert(longer.last() == amounts[n as int]);
        nothing_negative_in_the_sum(amounts.take(n as int));
    }
}

proof fn nothing_negative_in_the_sum(amounts: Seq<i128>)
    requires
        forall|k: int| 0 <= k < amounts.len() ==> #[trigger] amounts[k] >= 0,
    ensures
        total_of(amounts) >= 0,
    decreases amounts.len(),
{
    if amounts.len() > 0 {
        nothing_negative_in_the_sum(amounts.drop_last());
    }
}

proof fn adds_up_so_far(
    states: Seq<LendingPool>,
    signers: Seq<String>,
    investor: String,
    amounts: Seq<i128>,
    times: Seq<u64>,
    n: nat,
)
    requires
        investments_in_a_row(states, signers, investor, amounts, times),
        holds_proof(signers, investor),
        states[0].wf(),
        states[0].backed_only_by(investor, 0),
        states[0].investments@.len() == 0,
        !states[0].info.unwrap().is_funded,
        forall|k: int| 0 <= k < amounts.len() ==> #[trigger] amounts[k] >= 0,
        total_of(amounts) <= states[0].info.unwrap().funding_goal,
        n <= amounts.len(),
    ensures
        states[n as int].wf(),
        states[n as int].backed_only_by(investor, total_of(amounts.take(n as int))),
        n > 0 ==> states[n as int].investments@.len() == 1,
        states[n as int].info.unwrap().funding_goal == states[0].info.unwrap().funding_goal,
        states[n as int].info.unwrap().is_funded == (n > 0 && total_of(amounts.take(n as int))
            >= states[0].info.unwrap().funding_goal),
    decreases n,
{
    if n == 0 {
        assert(amounts.take(0) =~= Seq::<i128>::empty());
    } else {
        let k = n - 1;
        adds_up_so_far(states, signers, investor, amounts, times, k as nat);
        let before = states[k];
        let after = states[k + 1];
        let sum = total_of(amounts.take(k));
        let amount = amounts[k];
        let longer = amounts.take(n as int);
        assert(longer.drop_last() =~= amounts.take(k));
        assert(longer.last() == amount);
        assert(total_of(longer) == sum + amount);
        sum_so_far_is_within_the_sum(amounts, k as nat);
        sum_so_far_is_within_the_sum(amounts, n);
        if before.info.unwrap().is_funded {
            before.funded_pool_accepts_nothing(signers, investor, amount);
            assert(after == before);
        } else {
            before.investments_accumulate(&after, signers, investor, amount, times[k], sum);
        }
    }
}

} // verus!
