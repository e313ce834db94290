use vstd::prelude::*;

verus! {

/// The economic policy of a marketplace.
#[derive(Clone, Copy, Debug)]
pub struct Config {
    /// Balance an account must hold before it may publish a coupon.
    pub min_coupon_create_reputation: i32,
    /// Reputation debited for publishing one coupon.
    pub create_coupon_cost: i32,
    /// Reputation debited for casting one vote.
    pub vote_coupon_cost: i32,
    /// Balance a new account starts with.
    pub initial_reputation: i32,
}

impl Config {
    /// Costs and the starting grant are never negative.
    pub open spec fn wf(&self) -> bool {
        self.create_coupon_cost >= 0 && self.vote_coupon_cost >= 0 && self.initial_reputation >= 0
    }
}

impl Default for Config {
    fn default() -> (r: Self)
        ensures
            r.min_coupon_create_reputation == 10,
            r.create_coupon_cost == 5,
            r.vote_coupon_cost == 1,
            r.initial_reputation == 5,
    {
        Config {
            min_coupon_create_reputation: 10,
            create_coupon_cost: 5,
            vote_coupon_cost: 1,
            initial_reputation: 5,
        }
    }
}

} // verus!
