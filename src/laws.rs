use vstd::prelude::*;
use crate::market::{balance_of, count_votes, coupon_index, coupons_by, has_coupon, has_user, votes_by, Market};
use crate::model::Coupon;
use crate::ranking::{distinct_ids, is_ranking, listed, ranks_before};

verus! {

/// In every well-formed marketplace (and every operation keeps it so), an
/// account's balance is never negative, and equals the starting grant minus
/// the cost of each coupon it published and of each vote it cast.
pub proof fn lemma_balance_is_grant_minus_paid(m: Market, id: u128)
    requires
        m.wf(),
        has_user(m.users_view(), id),
    ensures
        balance_of(m.users_view(), id) >= 0,
        balance_of(m.users_view(), id) == m.config_view().initial_reputation - m.config_view().create_coupon_cost
            * coupons_by(m.coupons_view(), id) - m.config_view().vote_coupon_cost * votes_by(m.votes_view(), id),
{
    let i = choose|i: int| 0 <= i < m.users_view().len() && m.users_view()[i].id == id;
}

/// In every well-formed marketplace, a coupon's score is the number of up
/// votes journaled against it minus the number of down votes.
pub proof fn lemma_score_is_vote_difference(m: Market, id: u128)
    requires
        m.wf(),
        has_coupon(m.coupons_view(), id),
    ensures
        m.coupons_view()[coupon_index(m.coupons_view(), id)].score == count_votes(m.votes_view(), id, true)
            - count_votes(m.votes_view(), id, false),
{
    let i = choose|i: int| 0 <= i < m.coupons_view().len() && m.coupons_view()[i].id == id;
}

/// A coupon whose expiry is not after `now` is never in a listing at `now`,
/// whatever its score.
pub proof fn lemma_expired_never_listed(
    coupons: Seq<Coupon>,
    domain: Seq<char>,
    now: i64,
    limit: int,
    r: Seq<usize>,
    i: int,
)
    requires
        is_ranking(coupons, domain, now, limit, r),
        0 <= i < coupons.len(),
        coupons[i].expiry matches Some(e) && e <= now,
    ensures
        forall|k: int| 0 <= k < r.len() ==> r[k] as int != i,
{
    assert forall|k: int| 0 <= k < r.len() implies r[k] as int != i by {
        assert(listed(coupons[r[k] as int], domain, now));
    }
}

proof fn lemma_rankings_agree_below(
    coupons: Seq<Coupon>,
    domain: Seq<char>,
    now: i64,
    limit: int,
    r1: Seq<usize>,
    r2: Seq<usize>,
    n: int,
)
    requires
        distinct_ids(coupons),
        is_ranking(coupons, domain, now, limit, r1),
        is_ranking(coupons, domain, now, limit, r2),
        0 <= n <= r1.len(),
        n <= r2.len(),
    ensures
        forall|k: int| 0 <= k < n ==> r1[k] == r2[k],
    decreases n,
{
    if n > 0 {
        lemma_rankings_agree_below(coupons, domain, now, limit, r1, r2, n - 1);
        let k = n - 1;
        let x = r1[k];
        let y = r2[k];
        if x != y {
            if r2.contains(x) {
                let p = choose|p: int| 0 <= p < r2.len() && r2[p] == x;
                if p < k {
                    assert(r1[p] == x);
                    assert(ranks_before(coupons[r1[p] as int], coupons[r1[k] as int]));
                }
                assert(ranks_before(coupons[y as int], coupons[x as int]));
            } else {
                assert(ranks_before(coupons[r2[k] as int], coupons[x as int]));
            }
            if r1.contains(y) {
                let p = choose|p: int| 0 <= p < r1.len() && r1[p] == y;
                if p < k {
                    assert(r2[p] == y);
                    assert(ranks_before(coupons[r2[p] as int], coupons[r2[k] as int]));
                }
                assert(ranks_before(coupons[x as int], coupons[y as int]));
            } else {
                assert(ranks_before(coupons[r1[k] as int], coupons[y as int]));
            }
        }
    }
}

proof fn lemma_ranking_not_shorter(
    coupons: Seq<Coupon>,
    domain: Seq<char>,
    now: i64,
    limit: int,
    r1: Seq<usize>,
    r2: Seq<usize>,
)
    requires
        distinct_ids(coupons),
        is_ranking(coupons, domain, now, limit, r1),
        is_ranking(coupons, domain, now, limit, r2),
        r1.len() <= r2.len(),
        forall|k: int| 0 <= k < r1.len() ==> r1[k] == r2[k],
    ensures
        r1.len() == r2.len(),
{
    if r1.len() < r2.len() {
        let m = r1.len() as int;
        let y = r2[m];
        assert(listed(coupons[y as int], domain, now));
        if r1.contains(y) {
            let p = choose|p: int| 0 <= p < r1.len() && r1[p] == y;
            assert(r2[p] == y);
            assert(ranks_before(coupons[r2[p] as int], coupons[r2[m] as int]));
        }
        assert(!r1.contains(y as int as usize));
    }
}

/// A listing is determined by the store, the domain, the instant and the
/// limit: two listings of the same coupons agree position by position, so
/// repeated calls with no write between them return the same order.
pub proof fn lemma_ranking_is_unique(
    coupons: Seq<Coupon>,
    domain: Seq<char>,
    now: i64,
    limit: int,
    r1: Seq<usize>,
    r2: Seq<usize>,
)
    requires
        distinct_ids(coupons),
        is_ranking(coupons, domain, now, limit, r1),
        is_ranking(coupons, domain, now, limit, r2),
    ensures
        r1 == r2,
{
    if r1.len() <= r2.len() {
        lemma_rankings_agree_below(coupons, domain, now, limit, r1, r2, r1.len() as int);
        lemma_ranking_not_shorter(coupons, domain, now, limit, r1, r2);
    } else {
        lemma_rankings_agree_below(coupons, domain, now, limit, r1, r2, r2.len() as int);
        lemma_ranking_not_shorter(coupons, domain, now, limit, r2, r1);
    }
    assert(r1 =~= r2);
}

} // verus!
