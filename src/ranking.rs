use vstd::prelude::*;
use crate::clock::now_millis;
use crate::market::Market;
use crate::model::{public_of, Coupon, CouponPublic};

verus! {

/// Number of coupons a listing returns unless told otherwise.
pub const DEFAULT_LIMIT: usize = 20;

/// Whether `c` is listed for `domain` at instant `now`: same domain, and no
/// expiry or one strictly after `now`.
pub open spec fn listed(c: Coupon, domain: Seq<char>, now: i64) -> bool {
    c.domain@ == domain && match c.expiry {
        None => true,
        Some(e) => e > now,
    }
}

/// Whether `a` comes before `b` in a listing: higher score first, then the
/// newer one, then the one with the larger identifier.
pub open spec fn ranks_before(a: Coupon, b: Coupon) -> bool {
    a.score > b.score || (a.score == b.score && (a.created_at > b.created_at || (a.created_at
        == b.created_at && a.id > b.id)))
}

/// `r` is the ranked listing of `coupons` for `domain` at `now`, cut to
/// `limit`, as positions in `coupons`: listed rows only, in strictly
/// ranked order, no longer than `limit`, with every listed row left out
/// ranking after all those kept, and none left out unless the limit is reached.
pub open spec fn is_ranking(
    coupons: Seq<Coupon>,
    domain: Seq<char>,
    now: i64,
    limit: int,
    r: Seq<usize>,
) -> bool {
    &&& r.len() <= limit
    &&& forall|k: int| 0 <= k < r.len() ==> (r[k] as int) < coupons.len() && listed(
        coupons[r[k] as int],
        domain,
        now,
    )
    &&& forall|k: int, l: int|
        0 <= k < l < r.len() ==> ranks_before(coupons[r[k] as int], coupons[r[l] as int])
    &&& forall|i: int|
        0 <= i < coupons.len() && listed(coupons[i], domain, now) && !r.contains(i as usize) ==> {
            &&& r.len() == limit
            &&& forall|k: int| 0 <= k < r.len() ==> ranks_before(coupons[r[k] as int], coupons[i])
        }
}

/// No two coupons share an identifier.
pub open spec fn distinct_ids(coupons: Seq<Coupon>) -> bool {
    forall|i: int, j: int|
        0 <= i < coupons.len() && 0 <= j < coupons.len() && i != j ==> coupons[i].id != coupons[j].id
}

/// `r` is the start of a ranked listing: listed rows in strictly ranked
/// order, and every listed row left out ranks after all those kept.
pub open spec fn is_ranking_prefix(coupons: Seq<Coupon>, domain: Seq<char>, now: i64, r: Seq<usize>) -> bool {
    &&& forall|k: int| 0 <= k < r.len() ==> (r[k] as int) < coupons.len() && listed(
        coupons[r[k] as int],
        domain,
        now,
    )
    &&& forall|k: int, l: int|
        0 <= k < l < r.len() ==> ranks_before(coupons[r[k] as int], coupons[r[l] as int])
    &&& forall|i: int|
        0 <= i < coupons.len() && listed(coupons[i], domain, now) && !r.contains(i as usize)
            ==> forall|k: int| 0 <= k < r.len() ==> ranks_before(coupons[r[k] as int], coupons[i])
}

/// Whether `c` ranks after the coupon at position `after`; anything does
/// where there is none.
pub open spec fn comes_after(coupons: Seq<Coupon>, after: Option<usize>, c: Coupon) -> bool {
    match after {
        None => true,
        Some(a) => ranks_before(coupons[a as int], c),
    }
}

/// Position of the best listed coupon that ranks after `after` (or of the
/// best listed coupon at all), if there is one.
fn best_after(coupons: &Vec<Coupon>, domain: &String, now: i64, after: Option<usize>) -> (r: Option<usize>)
    requires
        after matches Some(a) ==> a < coupons@.len(),
        distinct_ids(coupons@),
    ensures
        r matches Some(b) ==> {
            &&& b < coupons@.len()
            &&& listed(coupons@[b as int], domain@, now)
            &&& comes_after(coupons@, after, coupons@[b as int])
            &&& forall|i: int|
                0 <= i < coupons@.len() && i != b && listed(coupons@[i], domain@, now) && comes_after(coupons@, after, coupons@[i])
                    ==> ranks_before(coupons@[b as int], coupons@[i])
        },
        r is None ==> forall|i: int|
            0 <= i < coupons@.len() && listed(coupons@[i], domain@, now) ==> after is Some
                && !comes_after(coupons@, after, coupons@[i]),
{
    let mut best: Option<usize> = None;
    let mut i: usize = 0;
    while i < coupons.len()
        invariant
            i <= coupons@.len(),
            after matches Some(a) ==> a < coupons@.len(),
            distinct_ids(coupons@),
            best matches Some(b) ==> {
                &&& b < i
                &&& listed(coupons@[b as int], domain@, now)
                &&& comes_after(coupons@, after, coupons@[b as int])
                &&& forall|j: int|
                    0 <= j < i && j != b && listed(coupons@[j], domain@, now) && comes_after(coupons@, after, coupons@[j])
                        ==> ranks_before(coupons@[b as int], coupons@[j])
            },
            best is None ==> forall|j: int|
                0 <= j < i && listed(coupons@[j], domain@, now) ==> after is Some
                    && !comes_after(coupons@, after, coupons@[j]),
        decreases coupons@.len() - i,
    {
        let c = &coupons[i];
        let open = match c.expiry {
            None => true,
            Some(e) => e > now,
        };
        if open && c.domain == *domain {
            let eligible = match after {
                None => true,
                Some(a) => rank_less(&coupons[a], c),
            };
            if eligible {
                match best {
                    None => {
                        best = Some(i);
                    },
                    Some(b) => {
                        if rank_less(c, &coupons[b]) {
                            best = Some(i);
                        }
                    },
                }
            }
        }
        i = i + 1;
    }
    best
}

/// Whether `a` comes before `b` in a listing.
fn rank_less(a: &Coupon, b: &Coupon) -> (r: bool)
    ensures
        r == ranks_before(*a, *b),
{
    a.score > b.score || (a.score == b.score && (a.created_at > b.created_at || (a.created_at
        == b.created_at && a.id > b.id)))
}

impl Market {
    /// Positions of the coupons listed for `domain` at `now`, best first, at
    /// most `limit` of them.
    pub fn ranked_positions(&self, domain: &String, now: i64, limit: usize) -> (r: Vec<usize>)
        requires
            self.wf(),
        ensures
            is_ranking(self.coupons_view(), domain@, now, limit as int, r@),
    {
        let mut r: Vec<usize> = Vec::new();
        let mut last: Option<usize> = None;
        while r.len() < limit
            invariant
                self.wf(),
                is_ranking_prefix(self.coupons_view(), domain@, now, r@),
                last is None <==> r@.len() == 0,
                r@.len() <= limit,
                last matches Some(a) ==> a == r@.last(),
            decreases limit - r@.len(),
        {
            match best_after(&self.coupons, domain, now, last) {
                None => {
                    proof {
                        assert(is_ranking(self.coupons_view(), domain@, now, r@.len() as int, r@));
                    }
                    return r;
                },
                Some(b) => {
                    let ghost prev = r@;
                    r.push(b);
                    proof {
                        let cs = self.coupons_view();
                        assert(r@ == prev.push(b));
                        assert forall|k: int, l: int| 0 <= k < l < r@.len() implies ranks_before(
                            cs[r@[k] as int],
                            cs[r@[l] as int],
                        ) by {
                            if l == prev.len() {
                                if k < prev.len() - 1 {
                                    assert(ranks_before(cs[prev[k] as int], cs[prev.last() as int]));
                                }
                            }
                        }
                        assert forall|i: int|
                            0 <= i < cs.len() && listed(cs[i], domain@, now) && !r@.contains(
                                i as usize,
                            ) implies forall|k: int|
                            0 <= k < r@.len() ==> ranks_before(cs[r@[k] as int], cs[i]) by {
                            if prev.contains(i as usize) {
                                let k = choose|k: int| 0 <= k < prev.len() && prev[k] == i as usize;
                                assert(r@[k] == i as usize);
                            }
                            assert(r@[prev.len() as int] == b);
                            assert(comes_after(cs, last, cs[i]));
                        }
                    }
                    last = Some(b);
                },
            }
        }
        r
    }

    /// The coupons listed for `domain` at instant `now`, best first, at most
    /// `limit` of them, without their owners.
    pub fn list_coupons_at(&self, domain: &String, now: i64, limit: usize) -> (r: Vec<CouponPublic>)
        requires
            self.wf(),
        ensures
            exists|pos: Seq<usize>|
                is_ranking(self.coupons_view(), domain@, now, limit as int, pos) && r@ == pos.map_values(
                    |p: usize| public_of(self.coupons_view()[p as int]),
                ),
    {
        let pos = self.ranked_positions(domain, now, limit);
        let mut r: Vec<CouponPublic> = Vec::new();
        let mut k: usize = 0;
        while k < pos.len()
            invariant
                k <= pos@.len(),
                forall|j: int| 0 <= j < pos@.len() ==> (pos@[j] as int) < self.coupons_view().len(),
                r@ == pos@.take(k as int).map_values(|p: usize| public_of(self.coupons_view()[p as int])),
            decreases pos@.len() - k,
        {
            r.push(self.coupons[pos[k]].to_public());
            proof {
                assert(pos@.take(k as int + 1) =~= pos@.take(k as int).push(pos@[k as int]));
            }
            k = k + 1;
            proof {
                assert(r@ =~= pos@.take(k as int).map_values(|p: usize| public_of(self.coupons_view()[p as int])));
            }
        }
        proof {
            assert(pos@.take(pos@.len() as int) =~= pos@);
        }
        r
    }

    /// The coupons listed for `domain` now, best first, at most `limit`.
    pub fn list_coupons(&self, domain: &String, limit: usize) -> (r: Vec<CouponPublic>)
        requires
            self.wf(),
        ensures
            exists|now: i64, pos: Seq<usize>|
                is_ranking(self.coupons_view(), domain@, now, limit as int, pos) && r@ == pos.map_values(
                    |p: usize| public_of(self.coupons_view()[p as int]),
                ),
    {
        let now = now_millis();
        self.list_coupons_at(domain, now, limit)
    }
}

} // verus!
