use vstd::prelude::*;
use crate::clock::{fresh_id, now_millis};
use crate::config::Config;
use crate::error::EngineError;
use crate::model::{public_of, Coupon, CouponPublic, User, Vote};

verus! {

/// Score change that one vote brings: +1 for up, -1 for down.
pub open spec fn vote_value(up: bool) -> int {
    if up { 1 } else { -1 }
}

/// Number of votes of direction `up` journaled against coupon `cid`.
pub open spec fn count_votes(votes: Seq<Vote>, cid: u128, up: bool) -> int
    decreases votes.len(),
{
    if votes.len() == 0 {
        0
    } else {
        count_votes(votes.drop_last(), cid, up) + (if votes.last().coupon_id == cid
            && votes.last().vote_type == up { 1int } else { 0int })
    }
}

/// Number of votes cast by account `uid`.
pub open spec fn votes_by(votes: Seq<Vote>, uid: u128) -> int
    decreases votes.len(),
{
    if votes.len() == 0 {
        0
    } else {
        votes_by(votes.drop_last(), uid) + (if votes.last().voter_id == uid { 1int } else { 0int })
    }
}

/// Number of coupons published by account `uid`.
pub open spec fn coupons_by(coupons: Seq<Coupon>, uid: u128) -> int
    decreases coupons.len(),
{
    if coupons.len() == 0 {
        0
    } else {
        coupons_by(coupons.drop_last(), uid) + (if coupons.last().creator_id == uid { 1int } else { 0int })
    }
}

/// Whether an account `id` exists.
pub open spec fn has_user(users: Seq<User>, id: u128) -> bool {
    exists|i: int| 0 <= i < users.len() && users[i].id == id
}

/// Whether a coupon `id` exists.
pub open spec fn has_coupon(coupons: Seq<Coupon>, id: u128) -> bool {
    exists|i: int| 0 <= i < coupons.len() && coupons[i].id == id
}

/// Whether the journal holds a vote `id`.
pub open spec fn has_vote(votes: Seq<Vote>, id: u128) -> bool {
    exists|i: int| 0 <= i < votes.len() && votes[i].id == id
}

/// Index of the account `id` (meaningful where `has_user`).
pub open spec fn user_index(users: Seq<User>, id: u128) -> int {
    choose|i: int| 0 <= i < users.len() && users[i].id == id
}

/// Index of the coupon `id` (meaningful where `has_coupon`).
pub open spec fn coupon_index(coupons: Seq<Coupon>, id: u128) -> int {
    choose|i: int| 0 <= i < coupons.len() && coupons[i].id == id
}

/// The balance an account holds when every operation it paid for is
/// subtracted from its starting grant.
pub open spec fn ledger_balance(cfg: Config, coupons: Seq<Coupon>, votes: Seq<Vote>, uid: u128) -> int {
    cfg.initial_reputation - cfg.create_coupon_cost * coupons_by(coupons, uid)
        - cfg.vote_coupon_cost * votes_by(votes, uid)
}

/// Balance of the account `id` (meaningful where `has_user`).
pub open spec fn balance_of(users: Seq<User>, id: u128) -> int {
    users[user_index(users, id)].reputation as int
}

/// The row that publishing writes into the catalog.
pub open spec fn coupon_row(
    id: u128,
    creator_id: u128,
    code: String,
    description: String,
    expiry: Option<i64>,
    domain: String,
    created_at: i64,
) -> Coupon {
    Coupon { id, creator_id, code, description, expiry, domain, score: 0, created_at }
}

proof fn lemma_no_votes_for(votes: Seq<Vote>, cid: u128, up: bool)
    requires
        forall|k: int| 0 <= k < votes.len() ==> votes[k].coupon_id != cid,
    ensures
        count_votes(votes, cid, up) == 0,
    decreases votes.len(),
{
    if votes.len() > 0 {
        lemma_no_votes_for(votes.drop_last(), cid, up);
    }
}

proof fn lemma_no_votes_by(votes: Seq<Vote>, uid: u128)
    requires
        forall|k: int| 0 <= k < votes.len() ==> votes[k].voter_id != uid,
    ensures
        votes_by(votes, uid) == 0,
    decreases votes.len(),
{
    if votes.len() > 0 {
        lemma_no_votes_by(votes.drop_last(), uid);
    }
}

proof fn lemma_no_coupons_by(coupons: Seq<Coupon>, uid: u128)
    requires
        forall|k: int| 0 <= k < coupons.len() ==> coupons[k].creator_id != uid,
    ensures
        coupons_by(coupons, uid) == 0,
    decreases coupons.len(),
{
    if coupons.len() > 0 {
        lemma_no_coupons_by(coupons.drop_last(), uid);
    }
}

/// Replacing a row by one with the same owner keeps each owner's count.
proof fn lemma_coupons_by_update(coupons: Seq<Coupon>, i: int, c: Coupon, uid: u128)
    requires
        0 <= i < coupons.len(),
        c.creator_id == coupons[i].creator_id,
    ensures
        coupons_by(coupons.update(i, c), uid) == coupons_by(coupons, uid),
    decreases coupons.len(),
{
    let s = coupons.update(i, c);
    if i == coupons.len() - 1 {
        assert(s.drop_last() =~= coupons.drop_last());
    } else {
        assert(s.drop_last() =~= coupons.drop_last().update(i, c));
        lemma_coupons_by_update(coupons.drop_last(), i, c, uid);
    }
}

/// Identities are unique, every balance is non-negative and equals the
/// starting grant minus what was paid, every score is the sum of its
/// votes, and every coupon and vote refers to rows that exist.
pub open spec fn store_wf(
    config: Config,
    users: Seq<User>,
    coupons: Seq<Coupon>,
    votes: Seq<Vote>,
) -> bool {
    &&& config.wf()
    &&& forall|i: int, j: int|
        0 <= i < users.len() && 0 <= j < users.len() && i != j ==> users[i].id != users[j].id
    &&& forall|i: int, j: int|
        0 <= i < coupons.len() && 0 <= j < coupons.len() && i != j ==> coupons[i].id
            != coupons[j].id
    &&& forall|i: int, j: int|
        0 <= i < votes.len() && 0 <= j < votes.len() && i != j ==> votes[i].id != votes[j].id
    &&& forall|i: int|
        0 <= i < users.len() ==> users[i].reputation >= 0 && users[i].reputation
            == ledger_balance(config, coupons, votes, users[i].id)
    &&& forall|i: int|
        0 <= i < coupons.len() ==> coupons[i].score == count_votes(votes, coupons[i].id, true)
            - count_votes(votes, coupons[i].id, false)
    &&& forall|i: int| 0 <= i < coupons.len() ==> has_user(users, #[trigger] coupons[i].creator_id)
    &&& forall|k: int| 0 <= k < votes.len() ==> has_user(users, #[trigger] votes[k].voter_id)
    &&& forall|k: int| 0 <= k < votes.len() ==> has_coupon(coupons, #[trigger] votes[k].coupon_id)
}

proof fn lemma_publish_keeps_wf(
    cfg: Config,
    users: Seq<User>,
    coupons: Seq<Coupon>,
    votes: Seq<Vote>,
    ui: int,
    u: User,
    c: Coupon,
)
    requires
        store_wf(cfg, users, coupons, votes),
        0 <= ui < users.len(),
        u.id == users[ui].id,
        u.id == c.creator_id,
        u.reputation == users[ui].reputation - cfg.create_coupon_cost,
        u.reputation >= 0,
        c.score == 0,
        !has_coupon(coupons, c.id),
    ensures
        store_wf(cfg, users.update(ui, u), coupons.push(c), votes),
{
    let users2 = users.update(ui, u);
    let coupons2 = coupons.push(c);
    assert(coupons2.drop_last() =~= coupons);
    assert forall|k: int| 0 <= k < votes.len() implies votes[k].coupon_id != c.id by {
        assert(has_coupon(coupons, votes[k].coupon_id));
    }
    lemma_no_votes_for(votes, c.id, true);
    lemma_no_votes_for(votes, c.id, false);
    assert forall|x: u128| has_user(users, x) implies has_user(users2, x) by {
        let i = choose|i: int| 0 <= i < users.len() && users[i].id == x;
        assert(users2[i].id == x);
    }
    assert forall|x: u128| has_coupon(coupons, x) implies has_coupon(coupons2, x) by {
        let i = choose|i: int| 0 <= i < coupons.len() && coupons[i].id == x;
        assert(coupons2[i] == coupons[i]);
    }
    assert forall|i: int| 0 <= i < users2.len() implies users2[i].reputation >= 0
        && users2[i].reputation == ledger_balance(cfg, coupons2, votes, users2[i].id) by {
        let n = coupons_by(coupons, users2[i].id);
        if i == ui {
            assert(cfg.create_coupon_cost * (n + 1) == cfg.create_coupon_cost * n
                + cfg.create_coupon_cost) by (nonlinear_arith);
        } else {
            assert(users[i].id != users[ui].id);
        }
    }
    assert forall|i: int| 0 <= i < coupons2.len() implies coupons2[i].score == count_votes(
        votes,
        coupons2[i].id,
        true,
    ) - count_votes(votes, coupons2[i].id, false) by {
        if i < coupons.len() {
            assert(coupons2[i] == coupons[i]);
        }
    }
    assert forall|i: int, j: int|
        0 <= i < coupons2.len() && 0 <= j < coupons2.len() && i != j implies coupons2[i].id
        != coupons2[j].id by {
        if i == coupons.len() {
            assert(coupons2[j] == coupons[j]);
        } else if j == coupons.len() {
            assert(coupons2[i] == coupons[i]);
        }
    }
    assert forall|i: int| 0 <= i < coupons2.len() implies has_user(users2, #[trigger] coupons2[i].creator_id) by {
        if i < coupons.len() {
            assert(coupons2[i] == coupons[i]);
            assert(has_user(users, coupons[i].creator_id));
        } else {
            assert(users2[ui].id == c.creator_id);
        }
    }
}

proof fn lemma_vote_keeps_wf(
    cfg: Config,
    users: Seq<User>,
    coupons: Seq<Coupon>,
    votes: Seq<Vote>,
    ui: int,
    u: User,
    ci: int,
    c: Coupon,
    v: Vote,
)
    requires
        store_wf(cfg, users, coupons, votes),
        0 <= ui < users.len(),
        0 <= ci < coupons.len(),
        u.id == users[ui].id,
        u.id == v.voter_id,
        u.reputation == users[ui].reputation - cfg.vote_coupon_cost,
        u.reputation >= 0,
        c.id == coupons[ci].id,
        c.creator_id == coupons[ci].creator_id,
        c.score == coupons[ci].score + vote_value(v.vote_type),
        v.coupon_id == c.id,
        !has_vote(votes, v.id),
    ensures
        store_wf(cfg, users.update(ui, u), coupons.update(ci, c), votes.push(v)),
{
    let users2 = users.update(ui, u);
    let coupons2 = coupons.update(ci, c);
    let votes2 = votes.push(v);
    assert(votes2.drop_last() =~= votes);
    lemma_coupons_by_update(coupons, ci, c, v.voter_id);
    assert forall|x: u128| has_user(users, x) implies has_user(users2, x) by {
        let i = choose|i: int| 0 <= i < users.len() && users[i].id == x;
        assert(users2[i].id == x);
    }
    assert forall|x: u128| has_coupon(coupons, x) implies has_coupon(coupons2, x) by {
        let i = choose|i: int| 0 <= i < coupons.len() && coupons[i].id == x;
        assert(coupons2[i].id == x);
    }
    assert forall|i: int| 0 <= i < users2.len() implies users2[i].reputation >= 0
        && users2[i].reputation == ledger_balance(cfg, coupons2, votes2, users2[i].id) by {
        lemma_coupons_by_update(coupons, ci, c, users2[i].id);
        let n = votes_by(votes, users2[i].id);
        if i == ui {
            assert(cfg.vote_coupon_cost * (n + 1) == cfg.vote_coupon_cost * n + cfg.vote_coupon_cost)
                by (nonlinear_arith);
        } else {
            assert(users[i].id != users[ui].id);
        }
    }
    assert forall|i: int| 0 <= i < coupons2.len() implies coupons2[i].score == count_votes(
        votes2,
        coupons2[i].id,
        true,
    ) - count_votes(votes2, coupons2[i].id, false) by {
        if i != ci {
            assert(coupons[i].id != coupons[ci].id);
        }
    }
    assert forall|i: int, j: int|
        0 <= i < coupons2.len() && 0 <= j < coupons2.len() && i != j implies coupons2[i].id
        != coupons2[j].id by {
        assert(coupons[i].id != coupons[j].id);
    }
    assert forall|i: int, j: int|
        0 <= i < votes2.len() && 0 <= j < votes2.len() && i != j implies votes2[i].id
        != votes2[j].id by {
        if i < votes.len() && j < votes.len() {
            assert(votes[i].id != votes[j].id);
        }
    }
    assert forall|i: int| 0 <= i < coupons2.len() implies has_user(users2, #[trigger] coupons2[i].creator_id) by {
        assert(has_user(users, coupons[i].creator_id));
    }
    assert forall|k: int| 0 <= k < votes2.len() implies has_user(users2, #[trigger] votes2[k].voter_id) by {
        if k < votes.len() {
            assert(votes2[k] == votes[k]);
            assert(has_user(users, votes[k].voter_id));
        } else {
            assert(users2[ui].id == v.voter_id);
        }
    }
    assert forall|k: int| 0 <= k < votes2.len() implies has_coupon(coupons2, #[trigger] votes2[k].coupon_id) by {
        if k < votes.len() {
            assert(votes2[k] == votes[k]);
            assert(has_coupon(coupons, votes[k].coupon_id));
        } else {
            assert(coupons2[ci].id == v.coupon_id);
        }
    }
}

/// The store of one marketplace: accounts, coupons and the vote journal.
pub struct Market {
    pub(crate) config: Config,
    pub(crate) users: Vec<User>,
    pub(crate) coupons: Vec<Coupon>,
    pub(crate) votes: Vec<Vote>,
}

impl Market {
    pub open spec fn wf(&self) -> bool {
        store_wf(self.config_view(), self.users_view(), self.coupons_view(), self.votes_view())
    }

    /// The policy this marketplace runs under.
    pub open(crate) spec fn config_view(&self) -> Config {
        self.config
    }

    /// The accounts, in order of creation.
    pub open(crate) spec fn users_view(&self) -> Seq<User> {
        self.users@
    }

    /// The coupons, in order of publication.
    pub open(crate) spec fn coupons_view(&self) -> Seq<Coupon> {
        self.coupons@
    }

    /// The vote journal, in order of casting.
    pub open(crate) spec fn votes_view(&self) -> Seq<Vote> {
        self.votes@
    }

    /// The policy this marketplace runs under.
    pub fn config(&self) -> (r: Config)
        ensures
            r == self.config_view(),
    {
        self.config
    }

    /// The accounts, in order of creation.
    pub fn users(&self) -> (r: &Vec<User>)
        ensures
            r@ == self.users_view(),
    {
        &self.users
    }

    /// The coupons, in order of publication.
    pub fn coupons(&self) -> (r: &Vec<Coupon>)
        ensures
            r@ == self.coupons_view(),
    {
        &self.coupons
    }

    /// The vote journal, in order of casting.
    pub fn votes(&self) -> (r: &Vec<Vote>)
        ensures
            r@ == self.votes_view(),
    {
        &self.votes
    }

    /// An empty marketplace under the policy `config`.
    pub fn new(config: Config) -> (r: Market)
        requires
            config.wf(),
        ensures
            r.wf(),
            r.config_view() == config,
            r.users_view().len() == 0,
            r.coupons_view().len() == 0,
            r.votes_view().len() == 0,
    {
        Market { config, users: Vec::new(), coupons: Vec::new(), votes: Vec::new() }
    }

    /// Position of the account `id`, if it has one.
    pub fn find_user(&self, id: u128) -> (r: Option<usize>)
        requires
            self.wf(),
        ensures
            r is None <==> !has_user(self.users_view(), id),
            r matches Some(i) ==> i == user_index(self.users_view(), id) && i < self.users_view().len()
                && self.users_view()[i as int].id == id,
    {
        let mut i: usize = 0;
        while i < self.users.len()
            invariant
                self.wf(),
                i <= self.users_view().len(),
                forall|j: int| 0 <= j < i ==> self.users_view()[j].id != id,
            decreases self.users_view().len() - i,
        {
            if self.users[i].id == id {
                proof {
                    let k = user_index(self.users_view(), id);
                    assert(self.users_view()[k].id == id);
                    assert(self.users_view()[i as int].id == id);
                    assert(k == i as int);
                }
                return Some(i);
            }
            i = i + 1;
        }
        None
    }

    /// Position of the coupon `id`, if it exists.
    pub fn find_coupon(&self, id: u128) -> (r: Option<usize>)
        requires
            self.wf(),
        ensures
            r is None <==> !has_coupon(self.coupons_view(), id),
            r matches Some(i) ==> i == coupon_index(self.coupons_view(), id) && i < self.coupons_view().len()
                && self.coupons_view()[i as int].id == id,
    {
        let mut i: usize = 0;
        while i < self.coupons.len()
            invariant
                self.wf(),
                i <= self.coupons_view().len(),
                forall|j: int| 0 <= j < i ==> self.coupons_view()[j].id != id,
            decreases self.coupons_view().len() - i,
        {
            if self.coupons[i].id == id {
                proof {
                    let k = coupon_index(self.coupons_view(), id);
                    assert(self.coupons_view()[k].id == id);
                    assert(self.coupons_view()[i as int].id == id);
                    assert(k == i as int);
                }
                return Some(i);
            }
            i = i + 1;
        }
        None
    }

    /// Whether the journal holds a vote with identifier `id`.
    pub fn vote_exists(&self, id: u128) -> (r: bool)
        ensures
            r == has_vote(self.votes_view(), id),
    {
        let mut i: usize = 0;
        while i < self.votes.len()
            invariant
                i <= self.votes_view().len(),
                forall|j: int| 0 <= j < i ==> self.votes_view()[j].id != id,
            decreases self.votes_view().len() - i,
        {
            if self.votes[i].id == id {
                return true;
            }
            i = i + 1;
        }
        false
    }

    /// Opens an account for `id` with the starting grant, created at `now`.
    pub fn add_user(&mut self, id: u128, now: i64) -> (r: Result<User, EngineError>)
        requires
            old(self).wf(),
        ensures
            final(self).wf(),
            has_user(old(self).users_view(), id) ==> r == Err::<User, EngineError>(EngineError::AlreadyExists)
                && *final(self) == *old(self),
            !has_user(old(self).users_view(), id) ==> {
                let u = User { id, reputation: old(self).config_view().initial_reputation, created_at: now };
                &&& r == Ok::<User, EngineError>(u)
                &&& final(self).users_view() == old(self).users_view().push(u)
                &&& final(self).coupons_view() == old(self).coupons_view()
                &&& final(self).votes_view() == old(self).votes_view()
                &&& final(self).config_view() == old(self).config_view()
            },
    {
        if self.find_user(id).is_some() {
            return Err(EngineError::AlreadyExists);
        }
        let u = User { id, reputation: self.config.initial_reputation, created_at: now };
        proof {
            let users = self.users_view();
            assert forall|k: int| 0 <= k < self.coupons_view().len() implies self.coupons_view()[k].creator_id
                != id by {
                assert(has_user(users, self.coupons_view()[k].creator_id));
            }
            assert forall|k: int| 0 <= k < self.votes_view().len() implies self.votes_view()[k].voter_id != id by {
                assert(has_user(users, self.votes_view()[k].voter_id));
            }
            lemma_no_coupons_by(self.coupons_view(), id);
            lemma_no_votes_by(self.votes_view(), id);
        }
        let ghost pre = self.users_view();
        self.users.push(u);
        proof {
            let users = self.users_view();
            assert forall|x: u128| has_user(pre, x) implies has_user(users, x) by {
                let i = choose|i: int| 0 <= i < pre.len() && pre[i].id == x;
                assert(users[i] == pre[i]);
            }
        }
        Ok(u)
    }

    /// Opens an account under a freshly minted identity, created now.
    pub fn create_user(&mut self) -> (r: Result<User, EngineError>)
        requires
            old(self).wf(),
        ensures
            final(self).wf(),
            r is Err ==> r == Err::<User, EngineError>(EngineError::AlreadyExists) && *final(self)
                == *old(self) && old(self).users_view().len() > 0,
            r matches Ok(u) ==> !has_user(old(self).users_view(), u.id) && u.reputation
                == old(self).config_view().initial_reputation && final(self).users_view() == old(self).users_view().push(u)
                && final(self).coupons_view() == old(self).coupons_view() && final(self).votes_view() == old(self).votes_view()
                && final(self).config_view() == old(self).config_view(),
    {
        let id = fresh_id();
        let now = now_millis();
        self.add_user(id, now)
    }

    /// Ledger: the balance that the account at `ui` holds after paying
    /// `amount`, or a refusal where it holds less.
    pub fn debit_if_sufficient(&self, ui: usize, amount: i32) -> (r: Result<i32, EngineError>)
        requires
            ui < self.users_view().len(),
            self.users_view()[ui as int].reputation >= 0,
            amount >= 0,
        ensures
            self.users_view()[ui as int].reputation < amount ==> r == Err::<i32, EngineError>(
                EngineError::InsufficientReputation,
            ),
            self.users_view()[ui as int].reputation >= amount ==> r == Ok::<i32, EngineError>(
                (self.users_view()[ui as int].reputation - amount) as i32,
            ),
    {
        let balance = self.users[ui].reputation;
        if balance < amount {
            Err(EngineError::InsufficientReputation)
        } else {
            Ok(balance - amount)
        }
    }

    /// Catalog: the row to insert for a new coupon, or `Aborted` where its
    /// identifier is taken.
    pub fn coupon_to_insert(
        &self,
        id: u128,
        creator_id: u128,
        code: String,
        description: String,
        expiry: Option<i64>,
        domain: String,
        now: i64,
    ) -> (r: Result<Coupon, EngineError>)
        requires
            self.wf(),
        ensures
            has_coupon(self.coupons_view(), id) ==> r == Err::<Coupon, EngineError>(EngineError::Aborted),
            !has_coupon(self.coupons_view(), id) ==> r == Ok::<Coupon, EngineError>(
                coupon_row(id, creator_id, code, description, expiry, domain, now),
            ),
    {
        if self.find_coupon(id).is_some() {
            return Err(EngineError::Aborted);
        }
        Ok(Coupon { id, creator_id, code, description, expiry, domain, score: 0, created_at: now })
    }

    /// Publishes a coupon `coupon_id` for the account `user_id` at `now`:
    /// checks its standing, then debits the cost and inserts the coupon in
    /// one unit of work. Nothing changes unless everything does.
    pub fn publish_coupon_with(
        &mut self,
        user_id: u128,
        coupon_id: u128,
        now: i64,
        code: String,
        description: String,
        domain: String,
        expiry: Option<i64>,
    ) -> (r: Result<CouponPublic, EngineError>)
        requires
            old(self).wf(),
        ensures
            final(self).wf(),
            r is Err ==> *final(self) == *old(self),
            ({
                let users = old(self).users_view();
                let cfg = old(self).config_view();
                let bal = balance_of(users, user_id);
                let ui = user_index(users, user_id);
                let c = coupon_row(coupon_id, user_id, code, description, expiry, domain, now);
                &&& !has_user(users, user_id) ==> r == Err::<CouponPublic, EngineError>(
                    EngineError::UnknownAccount,
                )
                &&& has_user(users, user_id) && (bal < cfg.min_coupon_create_reputation || bal
                    < cfg.create_coupon_cost) ==> r == Err::<CouponPublic, EngineError>(
                    EngineError::InsufficientReputation,
                )
                &&& has_user(users, user_id) && bal >= cfg.min_coupon_create_reputation && bal
                    >= cfg.create_coupon_cost && has_coupon(old(self).coupons_view(), coupon_id) ==> r
                    == Err::<CouponPublic, EngineError>(EngineError::Aborted)
                &&& has_user(users, user_id) && bal >= cfg.min_coupon_create_reputation && bal
                    >= cfg.create_coupon_cost && !has_coupon(old(self).coupons_view(), coupon_id) ==> {
                    &&& r == Ok::<CouponPublic, EngineError>(public_of(c))
                    &&& final(self).users_view() == users.update(
                        ui,
                        User {
                            id: user_id,
                            reputation: (bal - cfg.create_coupon_cost) as i32,
                            created_at: users[ui].created_at,
                        },
                    )
                    &&& final(self).coupons_view() == old(self).coupons_view().push(c)
                    &&& final(self).votes_view() == old(self).votes_view()
                    &&& final(self).config_view() == cfg
                }
            }),
    {
        let ui = match self.find_user(user_id) {
            Some(i) => i,
            None => return Err(EngineError::UnknownAccount),
        };
        if self.users[ui].reputation < self.config.min_coupon_create_reputation {
            return Err(EngineError::InsufficientReputation);
        }
        // The unit of work: every step below is staged; the store changes
        // only at commit.

        let new_balance = match self.debit_if_sufficient(ui, self.config.create_coupon_cost) {
            Ok(b) => b,
            Err(e) => return Err(e),
        };
        let coupon = match self.coupon_to_insert(
            coupon_id,
            user_id,
            code,
            description,
            expiry,
            domain,
            now,
        ) {
            Ok(c) => c,
            Err(e) => return Err(e),
        };
        let public = coupon.to_public();
        let old_user = self.users[ui];
        let debited = User { id: old_user.id, reputation: new_balance, created_at: old_user.created_at };
        proof {
            lemma_publish_keeps_wf(self.config, self.users_view(), self.coupons_view(), self.votes_view(), ui as int, debited, coupon);
        }
        self.users.set(ui, debited);
        self.coupons.push(coupon);
        Ok(public)
    }

    /// Journal: the vote record to append, or `Aborted` where its
    /// identifier is taken.
    pub fn vote_to_append(&self, id: u128, voter_id: u128, coupon_id: u128, vote_type: bool) -> (r:
        Result<Vote, EngineError>)
        ensures
            has_vote(self.votes_view(), id) ==> r == Err::<Vote, EngineError>(EngineError::Aborted),
            !has_vote(self.votes_view(), id) ==> r == Ok::<Vote, EngineError>(
                Vote { id, voter_id, coupon_id, vote_type },
            ),
    {
        if self.vote_exists(id) {
            return Err(EngineError::Aborted);
        }
        Ok(Vote { id, voter_id, coupon_id, vote_type })
    }

    /// Catalog: the score of the coupon at `ci` after one vote of direction
    /// `up`, or `Aborted` where it leaves the range of `i32`.
    pub fn adjusted_score(&self, ci: usize, up: bool) -> (r: Result<i32, EngineError>)
        requires
            ci < self.coupons_view().len(),
        ensures
            ({
                let s = self.coupons_view()[ci as int].score + vote_value(up);
                &&& i32::MIN <= s <= i32::MAX ==> r == Ok::<i32, EngineError>(s as i32)
                &&& !(i32::MIN <= s <= i32::MAX) ==> r == Err::<i32, EngineError>(
                    EngineError::Aborted,
                )
            }),
    {
        let score = self.coupons[ci].score;
        if up {
            if score == i32::MAX {
                Err(EngineError::Aborted)
            } else {
                Ok(score + 1)
            }
        } else {
            if score == i32::MIN {
                Err(EngineError::Aborted)
            } else {
                Ok(score - 1)
            }
        }
    }

    /// Casts a vote `vote_id` of `user_id` on `coupon_id`: checks the voter's
    /// standing and the coupon, then debits the cost, journals the vote and
    /// moves the score in one unit of work. Nothing changes unless
    /// everything does.
    ///
    /// Voting is not limited to once per voter and coupon: each vote is
    /// journaled, paid for and counted in the score, also where the same
    /// voter has voted on the coupon before.
    pub fn cast_vote_with(&mut self, user_id: u128, vote_id: u128, coupon_id: u128, up: bool) -> (r:
        Result<CouponPublic, EngineError>)
        requires
            old(self).wf(),
        ensures
            final(self).wf(),
            r is Err ==> *final(self) == *old(self),
            ({
                let users = old(self).users_view();
                let coupons = old(self).coupons_view();
                let cfg = old(self).config_view();
                let bal = balance_of(users, user_id);
                let ui = user_index(users, user_id);
                let ci = coupon_index(coupons, coupon_id);
                let s = coupons[ci].score + vote_value(up);
                let ready = has_user(users, user_id) && bal >= cfg.vote_coupon_cost && has_coupon(
                    coupons,
                    coupon_id,
                );
                &&& !has_user(users, user_id) ==> r == Err::<CouponPublic, EngineError>(
                    EngineError::UnknownAccount,
                )
                &&& has_user(users, user_id) && bal < cfg.vote_coupon_cost ==> r == Err::<
                    CouponPublic,
                    EngineError,
                >(EngineError::InsufficientReputation)
                &&& has_user(users, user_id) && bal >= cfg.vote_coupon_cost && !has_coupon(
                    coupons,
                    coupon_id,
                ) ==> r == Err::<CouponPublic, EngineError>(EngineError::UnknownCoupon)
                &&& ready && (has_vote(old(self).votes_view(), vote_id) || !(i32::MIN <= s <= i32::MAX))
                    ==> r == Err::<CouponPublic, EngineError>(EngineError::Aborted)
                &&& ready && !has_vote(old(self).votes_view(), vote_id) && i32::MIN <= s <= i32::MAX ==> {
                    let c = Coupon { score: s as i32, ..coupons[ci] };
                    &&& r == Ok::<CouponPublic, EngineError>(public_of(c))
                    &&& final(self).users_view() == users.update(
                        ui,
                        User {
                            id: user_id,
                            reputation: (bal - cfg.vote_coupon_cost) as i32,
                            created_at: users[ui].created_at,
                        },
                    )
                    &&& final(self).coupons_view() == coupons.update(ci, c)
                    &&& final(self).votes_view() == old(self).votes_view().push(
                        Vote { id: vote_id, voter_id: user_id, coupon_id, vote_type: up },
                    )
                    &&& final(self).config_view() == cfg
                }
            }),
    {
        let ui = match self.find_user(user_id) {
            Some(i) => i,
            None => return Err(EngineError::UnknownAccount),
        };
        if self.users[ui].reputation < self.config.vote_coupon_cost {
            return Err(EngineError::InsufficientReputation);
        }
        let ci = match self.find_coupon(coupon_id) {
            Some(i) => i,
            None => return Err(EngineError::UnknownCoupon),
        };
        // The unit of work: every step below is staged; the store changes
        // only at commit.
        let new_balance = match self.debit_if_sufficient(ui, self.config.vote_coupon_cost) {
            Ok(b) => b,
            Err(e) => return Err(e),
        };
        let vote = match self.vote_to_append(vote_id, user_id, coupon_id, up) {
            Ok(v) => v,
            Err(e) => return Err(e),
        };
        let new_score = match self.adjusted_score(ci, up) {
            Ok(s) => s,
            Err(e) => return Err(e),
        };
        let old_user = self.users[ui];
        let debited = User { id: old_user.id, reputation: new_balance, created_at: old_user.created_at };
        let ghost scored = Coupon { score: new_score, ..self.coupons_view()[ci as int] };
        proof {
            lemma_vote_keeps_wf(
                self.config,
                self.users_view(),
                self.coupons_view(),
                self.votes_view(),
                ui as int,
                debited,
                ci as int,
                scored,
                vote,
            );
        }
        self.users.set(ui, debited);
        self.coupons[ci].score = new_score;
        self.votes.push(vote);
        proof {
            assert(self.coupons_view() =~= old(self).coupons_view().update(ci as int, scored));
        }
        Ok(self.coupons[ci].to_public())
    }

    /// Publishes a coupon under a freshly minted identifier, created now.
    pub fn publish_coupon(
        &mut self,
        user_id: u128,
        code: String,
        description: String,
        domain: String,
        expiry: Option<i64>,
    ) -> (r: Result<CouponPublic, EngineError>)
        requires
            old(self).wf(),
        ensures
            final(self).wf(),
            r is Err ==> *final(self) == *old(self),
            ({
                let users = old(self).users_view();
                let cfg = old(self).config_view();
                let bal = balance_of(users, user_id);
                &&& !has_user(users, user_id) ==> r == Err::<CouponPublic, EngineError>(
                    EngineError::UnknownAccount,
                )
                &&& has_user(users, user_id) && (bal < cfg.min_coupon_create_reputation || bal
                    < cfg.create_coupon_cost) ==> r == Err::<CouponPublic, EngineError>(
                    EngineError::InsufficientReputation,
                )
                &&& has_user(users, user_id) && bal >= cfg.min_coupon_create_reputation && bal
                    >= cfg.create_coupon_cost && r is Err ==> r == Err::<CouponPublic, EngineError>(
                    EngineError::Aborted,
                ) && old(self).coupons_view().len() > 0
                &&& r matches Ok(p) ==> {
                    let ui = user_index(users, user_id);
                    let c = coupon_row(p.id, user_id, code, description, expiry, domain, p.created_at);
                    &&& p == public_of(c)
                    &&& !has_coupon(old(self).coupons_view(), p.id)
                    &&& final(self).users_view() == users.update(
                        ui,
                        User {
                            id: user_id,
                            reputation: (bal - cfg.create_coupon_cost) as i32,
                            created_at: users[ui].created_at,
                        },
                    )
                    &&& final(self).coupons_view() == old(self).coupons_view().push(c)
                    &&& final(self).votes_view() == old(self).votes_view()
                    &&& final(self).config_view() == cfg
                }
            }),
    {
        let id = fresh_id();
        let now = now_millis();
        self.publish_coupon_with(user_id, id, now, code, description, domain, expiry)
    }

    /// Casts a vote under a freshly minted identifier.
    pub fn cast_vote(&mut self, user_id: u128, coupon_id: u128, up: bool) -> (r: Result<
        CouponPublic,
        EngineError,
    >)
        requires
            old(self).wf(),
        ensures
            final(self).wf(),
            r is Err ==> *final(self) == *old(self),
            ({
                let users = old(self).users_view();
                let coupons = old(self).coupons_view();
                let cfg = old(self).config_view();
                let bal = balance_of(users, user_id);
                let ui = user_index(users, user_id);
                let ci = coupon_index(coupons, coupon_id);
                let s = coupons[ci].score + vote_value(up);
                &&& !has_user(users, user_id) ==> r == Err::<CouponPublic, EngineError>(
                    EngineError::UnknownAccount,
                )
                &&& has_user(users, user_id) && bal < cfg.vote_coupon_cost ==> r == Err::<
                    CouponPublic,
                    EngineError,
                >(EngineError::InsufficientReputation)
                &&& has_user(users, user_id) && bal >= cfg.vote_coupon_cost && !has_coupon(
                    coupons,
                    coupon_id,
                ) ==> r == Err::<CouponPublic, EngineError>(EngineError::UnknownCoupon)
                &&& has_user(users, user_id) && bal >= cfg.vote_coupon_cost && has_coupon(coupons, coupon_id)
                    && r is Err ==> r == Err::<CouponPublic, EngineError>(EngineError::Aborted) && (
                old(self).votes_view().len() > 0 || !(i32::MIN <= s <= i32::MAX))
                &&& r matches Ok(p) ==> {
                    let c = Coupon { score: s as i32, ..coupons[ci] };
                    &&& p == public_of(c)
                    &&& final(self).users_view() == users.update(
                        ui,
                        User {
                            id: user_id,
                            reputation: (bal - cfg.vote_coupon_cost) as i32,
                            created_at: users[ui].created_at,
                        },
                    )
                    &&& final(self).coupons_view() == coupons.update(ci, c)
                    &&& final(self).votes_view().len() == old(self).votes_view().len() + 1
                    &&& final(self).votes_view().drop_last() == old(self).votes_view()
                    &&& final(self).votes_view().last().voter_id == user_id
                    &&& final(self).votes_view().last().coupon_id == coupon_id
                    &&& final(self).votes_view().last().vote_type == up
                    &&& !has_vote(old(self).votes_view(), final(self).votes_view().last().id)
                    &&& final(self).config_view() == cfg
                }
            }),
    {
        let id = fresh_id();
        self.cast_vote_with(user_id, id, coupon_id, up)
    }

    /// The account of `id`.
    pub fn get_user(&self, id: u128) -> (r: Result<User, EngineError>)
        requires
            self.wf(),
        ensures
            !has_user(self.users_view(), id) ==> r == Err::<User, EngineError>(EngineError::UnknownAccount),
            has_user(self.users_view(), id) ==> r == Ok::<User, EngineError>(
                self.users_view()[user_index(self.users_view(), id)],
            ),
    {
        match self.find_user(id) {
            Some(i) => Ok(self.users[i]),
            None => Err(EngineError::UnknownAccount),
        }
    }
}

} // verus!
