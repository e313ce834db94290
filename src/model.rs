use vstd::prelude::*;

verus! {

/// An account: its identity, its reputation balance and when it was created
/// (milliseconds since the Unix epoch).
#[derive(Clone, Copy, Debug, PartialEq, Eq, Structural)]
pub struct User {
    pub id: u128,
    pub reputation: i32,
    pub created_at: i64,
}

/// A published coupon, with its owner.
#[derive(Clone, Debug)]
pub struct Coupon {
    pub id: u128,
    pub creator_id: u128,
    pub code: String,
    pub description: String,
    pub expiry: Option<i64>,
    pub domain: String,
    pub score: i32,
    pub created_at: i64,
}

/// What callers see of a coupon: every field but the owner.
#[derive(Clone, Debug)]
pub struct CouponPublic {
    pub id: u128,
    pub code: String,
    pub description: String,
    pub expiry: Option<i64>,
    pub domain: String,
    pub score: i32,
    pub created_at: i64,
}

/// One vote of `voter_id` on `coupon_id`; `vote_type` is true for up.
#[derive(Clone, Copy, Debug, PartialEq, Eq, Structural)]
pub struct Vote {
    pub id: u128,
    pub voter_id: u128,
    pub coupon_id: u128,
    pub vote_type: bool,
}

/// The public projection of a coupon.
pub open spec fn public_of(c: Coupon) -> CouponPublic {
    CouponPublic {
        id: c.id,
        code: c.code,
        description: c.description,
        expiry: c.expiry,
        domain: c.domain,
        score: c.score,
        created_at: c.created_at,
    }
}

impl Coupon {
    /// The coupon without its owner.
    pub fn to_public(&self) -> (r: CouponPublic)
        ensures
            r == public_of(*self),
    {
        CouponPublic {
            id: self.id,
            code: self.code.clone(),
            description: self.description.clone(),
            expiry: self.expiry,
            domain: self.domain.clone(),
            score: self.score,
            created_at: self.created_at,
        }
    }
}

impl From<Coupon> for CouponPublic {
    fn from(c: Coupon) -> (r: CouponPublic)
        ensures
            r == public_of(c),
    {
        CouponPublic {
            id: c.id,
            code: c.code,
            description: c.description,
            expiry: c.expiry,
            domain: c.domain,
            score: c.score,
            created_at: c.created_at,
        }
    }
}

impl vstd::std_specs::convert::FromSpecImpl<Coupon> for CouponPublic {
    open spec fn obeys_from_spec() -> bool {
        true
    }

    open spec fn from_spec(c: Coupon) -> CouponPublic {
        public_of(c)
    }
}

} // verus!
