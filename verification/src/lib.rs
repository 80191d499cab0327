//! A sealed, time-boxed ascending-price auction engine.
//!
//! The engine is a deterministic state machine over plain values: the host
//! supplies the authenticated caller and the current time as arguments, and
//! performs any value transfer the engine requests through the returned
//! [`TransferRequest`]. Refunds owed to outbid participants are tracked in a
//! ledger with remove-before-pay semantics, so that a reentrant callback from
//! the transfer collaborator can never withdraw the same amount twice.

use vstd::prelude::*;
use std::collections::HashMap;

verus! {

broadcast use vstd::std_specs::hash::group_hash_axioms;

/// An account identifier, as resolved by the host's identity source.
pub type AccountId = u128;

/// An amount of currency.
pub type Balance = u128;

/// A point in time, as supplied by the host's time source.
pub type Timestamp = u64;

/// A ghost record of one movement of refundable money: either an amount
/// becoming owed to an account that was displaced as highest bidder, or an
/// amount being paid out to an account that withdrew it.
pub enum RefundEvent {
    /// `account` was displaced as highest bidder and is now owed `amount` more.
    Displaced { account: AccountId, amount: Balance },
    /// `amount` was paid out to `account`, settling its ledger entry.
    Paid { account: AccountId, amount: Balance },
}

/// A transfer the engine asks the host to perform. The engine commits its own
/// state change before handing the request back, so a callback from the
/// transfer mechanism into the engine already sees the settled state.
#[derive(Clone, Copy, Debug, PartialEq, Eq, Structural)]
pub struct TransferRequest {
    pub recipient: AccountId,
    pub amount: Balance,
}

/// The sum of all amounts the refund history records as having become owed to
/// `account` through displacement events.
pub open spec fn displaced_sum(history: Seq<RefundEvent>, account: AccountId) -> int
    decreases history.len(),
{
    if history.len() == 0 {
        0
    } else {
        displaced_sum(history.drop_last(), account) + match history.last() {
            RefundEvent::Displaced { account: a, amount } => if a == account {
                amount as int
            } else {
                0
            },
            RefundEvent::Paid { .. } => 0,
        }
    }
}

/// The sum of all amounts the refund history records as having been paid out
/// to `account`.
pub open spec fn paid_sum(history: Seq<RefundEvent>, account: AccountId) -> int
    decreases history.len(),
{
    if history.len() == 0 {
        0
    } else {
        paid_sum(history.drop_last(), account) + match history.last() {
            RefundEvent::Paid { account: a, amount } => if a == account {
                amount as int
            } else {
                0
            },
            RefundEvent::Displaced { .. } => 0,
        }
    }
}

/// What the history says is still owed to `account`: everything it was
/// displaced by, minus everything already paid out to it.
pub open spec fn owed(history: Seq<RefundEvent>, account: AccountId) -> int {
    displaced_sum(history, account) - paid_sum(history, account)
}

/// Appending one event to the history changes the two per-account sums by
/// exactly that event's contribution.
proof fn lemma_sums_push(history: Seq<RefundEvent>, event: RefundEvent, account: AccountId)
    ensures
        displaced_sum(history.push(event), account) == displaced_sum(history, account)
            + (match event {
            RefundEvent::Displaced { account: a, amount } => if a == account {
                amount as int
            } else {
                0
            },
            RefundEvent::Paid { .. } => 0,
        }),
        paid_sum(history.push(event), account) == paid_sum(history, account) + (match event {
            RefundEvent::Paid { account: a, amount } => if a == account {
                amount as int
            } else {
                0
            },
            RefundEvent::Displaced { .. } => 0,
        }),
{
    assert(history.push(event).drop_last() =~= history);
    assert(history.push(event).last() == event);
}

/// Whether a settlement call at time `now` succeeds, given the window's end
/// and whether the auction has already been settled.
pub open spec fn settles(auction_end: Timestamp, ended: bool, now: Timestamp) -> bool {
    now >= auction_end && !ended
}

/// How many calls of a sequence of settlement attempts at the given times
/// succeed, starting with the settlement flag in state `ended`. Each
/// successful attempt sets the flag, as [`OpenAuction::end_auction`] does.
pub open spec fn settle_count(auction_end: Timestamp, ended: bool, times: Seq<Timestamp>) -> int
    decreases times.len(),
{
    if times.len() == 0 {
        0
    } else if settles(auction_end, ended, times.first()) {
        1 + settle_count(auction_end, true, times.drop_first())
    } else {
        settle_count(auction_end, ended, times.drop_first())
    }
}

/// Settlement happens at most once: across any number of `end_auction` calls
/// at any times, at most one succeeds (and none, once the auction is already
/// settled). The other operations never clear the settlement flag and never
/// move the window's end, so the bound holds over arbitrarily interleaved
/// calls as well.
pub proof fn lemma_end_auction_settles_at_most_once(
    auction_end: Timestamp,
    ended: bool,
    times: Seq<Timestamp>,
)
    ensures
        settle_count(auction_end, ended, times) <= if ended {
            0int
        } else {
            1int
        },
    decreases times.len(),
{
    if times.len() > 0 {
        if settles(auction_end, ended, times.first()) {
            lemma_end_auction_settles_at_most_once(auction_end, true, times.drop_first());
        } else {
            lemma_end_auction_settles_at_most_once(auction_end, ended, times.drop_first());
        }
    }
}

/// The auction record: a singleton created once and mutated by every
/// subsequent call.
pub struct OpenAuction {
    /// Receives the winning amount when the auction settles. Immutable.
    pub beneficiary: AccountId,
    /// When bidding opened. Immutable.
    pub auction_start: Timestamp,
    /// When bidding closes: `auction_start` plus the configured duration.
    /// Immutable.
    pub auction_end: Timestamp,
    /// The account currently holding the best bid; `None` until the first
    /// bid is accepted.
    pub highest_bidder: Option<AccountId>,
    /// The amount of the current best bid; zero while `highest_bidder` is
    /// `None`.
    pub highest_bid: Balance,
    /// `false` until settlement succeeds exactly once, then permanently
    /// `true`.
    pub ended: bool,
    /// Amounts owed back to outbid accounts. An entry exists only while an
    /// amount is owed; it is removed, not zeroed, when paid.
    pub pending_returns: HashMap<AccountId, Balance>,
    /// Ghost history of every displacement and payout, against which the
    /// ledger is audited.
    pub refund_history: Ghost<Seq<RefundEvent>>,
}

impl OpenAuction {
    /// The refund ledger as a mathematical map.
    pub open spec fn ledger(self) -> Map<AccountId, Balance> {
        self.pending_returns@
    }

    /// The amount the ledger holds for `account`, zero if it has no entry.
    pub open spec fn ledger_amount(self, account: AccountId) -> int {
        if self.ledger().contains_key(account) {
            self.ledger()[account] as int
        } else {
            0
        }
    }

    /// The ghost refund history.
    pub open spec fn history(self) -> Seq<RefundEvent> {
        self.refund_history@
    }

    /// Every account's ledger entry equals exactly what the refund history
    /// says it is owed: nothing is created or destroyed except by a
    /// displacement or a payout.
    pub open spec fn refunds_fully_accounted(self) -> bool {
        forall|account: AccountId|
            #[trigger] self.ledger_amount(account) == owed(self.history(), account)
    }

    /// The current best bid strictly exceeds every amount ever displaced
    /// from the highest-bidder slot.
    pub open spec fn highest_bid_dominates_history(self) -> bool {
        forall|i: int|
            0 <= i < self.history().len() ==> (#[trigger] self.history()[i] matches
                RefundEvent::Displaced { amount, .. } ==> amount < self.highest_bid)
    }

    /// Well-formedness of the auction record.
    pub open spec fn wf(self) -> bool {
        &&& self.auction_start <= self.auction_end
        &&& (self.highest_bidder is None ==> self.highest_bid == 0)
        &&& (self.highest_bidder is Some ==> self.highest_bid > 0)
        &&& (forall|account: AccountId|
            self.ledger().contains_key(account) ==> #[trigger] self.ledger()[account] > 0)
        &&& self.refunds_fully_accounted()
        &&& self.highest_bid_dominates_history()
    }

    /// Creates the singleton auction record. The bidding window runs from
    /// `now` to `now + bidding_time`; the ledger starts empty, no bid
    /// stands, and the auction is not ended.
    pub fn new(beneficiary: AccountId, bidding_time: Timestamp, now: Timestamp) -> (auction:
        OpenAuction)
        requires
            bidding_time > 0,
            now + bidding_time <= Timestamp::MAX,
        ensures
            auction.wf(),
            auction.beneficiary == beneficiary,
            auction.auction_start == now,
            auction.auction_end == now + bidding_time,
            auction.highest_bidder is None,
            auction.highest_bid == 0,
            !auction.ended,
            auction.ledger() == Map::<AccountId, Balance>::empty(),
            auction.history() == Seq::<RefundEvent>::empty(),
    {
        OpenAuction {
            beneficiary,
            auction_start: now,
            auction_end: now + bidding_time,
            highest_bidder: None,
            highest_bid: 0,
            ended: false,
            pending_returns: HashMap::new(),
            refund_history: Ghost(Seq::empty()),
        }
    }

    /// Crediting the displaced amount to the displaced bidder's existing
    /// ledger entry must not overflow. The host checks this before calling
    /// [`Self::bid`]; an overflow here would be a structural failure.
    pub open spec fn can_credit_displaced(self) -> bool {
        match self.highest_bidder {
            Some(prev) => self.ledger_amount(prev) + self.highest_bid <= Balance::MAX,
            None => true,
        }
    }

    /// Attempts to place a bid of `amount` by `caller` at time `now`.
    ///
    /// The bid is accepted exactly when the bidding window is still open and
    /// the amount strictly exceeds the current best bid; a rejected bid
    /// changes nothing. On acceptance the previous highest bidder's amount
    /// flows into its refund-ledger entry (also when `caller` outbids
    /// themself) and `caller` becomes the highest bidder. No funds move in
    /// this call. The host emits the bid-accepted notification when `true`
    /// comes back.
    pub fn bid(&mut self, caller: AccountId, amount: Balance, now: Timestamp) -> (accepted: bool)
        requires
            old(self).wf(),
            (now < old(self).auction_end && amount > old(self).highest_bid) ==> old(
                self,
            ).can_credit_displaced(),
        ensures
            final(self).wf(),
            accepted <==> (now < old(self).auction_end && amount > old(self).highest_bid),
            !accepted ==> *final(self) == *old(self),
            accepted ==> {
                &&& final(self).highest_bidder == Some(caller)
                &&& final(self).highest_bid == amount
                &&& final(self).highest_bid > old(self).highest_bid
                &&& final(self).beneficiary == old(self).beneficiary
                &&& final(self).auction_start == old(self).auction_start
                &&& final(self).auction_end == old(self).auction_end
                &&& final(self).ended == old(self).ended
                &&& match old(self).highest_bidder {
                    Some(prev) => {
                        &&& final(self).history() == old(self).history().push(
                            RefundEvent::Displaced {
                                account: prev,
                                amount: old(self).highest_bid,
                            },
                        )
                        &&& final(self).ledger_amount(prev) == old(self).ledger_amount(prev)
                            + old(self).highest_bid
                        &&& forall|account: AccountId|
                            account != prev ==> #[trigger] final(self).ledger_amount(account)
                                == old(self).ledger_amount(account)
                    },
                    None => {
                        &&& final(self).history() == old(self).history()
                        &&& final(self).ledger() == old(self).ledger()
                    },
                }
            },
    {
        if now >= self.auction_end {
            return false;
        }
        if amount <= self.highest_bid {
            return false;
        }
        let previous: Option<AccountId> = self.highest_bidder;
        match previous {
            Some(prev) => {
                let prev_amount: Balance = self.highest_bid;
                let credited: Balance = match self.pending_returns.get(&prev) {
                    Some(standing) => *standing + prev_amount,
                    None => prev_amount,
                };
                self.pending_returns.insert(prev, credited);
                self.highest_bidder = Some(caller);
                self.highest_bid = amount;
                proof {
                    let event = RefundEvent::Displaced { account: prev, amount: prev_amount };
                    self.refund_history@ = self.refund_history@.push(event);
                    assert forall|account: AccountId|
                        #[trigger] self.ledger_amount(account) == owed(
                            self.history(),
                            account,
                        ) by {
                        lemma_sums_push(old(self).history(), event, account);
                        assert(old(self).ledger_amount(account) == owed(
                            old(self).history(),
                            account,
                        ));
                    }
                }
            },
            None => {
                self.highest_bidder = Some(caller);
                self.highest_bid = amount;
                proof {
                    assert forall|account: AccountId|
                        #[trigger] self.ledger_amount(account) == owed(
                            self.history(),
                            account,
                        ) by {
                        assert(old(self).ledger_amount(account) == owed(
                            old(self).history(),
                            account,
                        ));
                    }
                }
            },
        }
        true
    }

    /// Withdraws the refund owed to `caller`, if any.
    ///
    /// With no ledger entry this is a benign no-op: nothing changes and no
    /// transfer is requested. With an entry, the entry is removed from the
    /// ledger first and only then is the transfer of the removed amount
    /// requested, so a reentrant callback from the transfer collaborator
    /// finds nothing left to withdraw.
    pub fn withdraw(&mut self, caller: AccountId) -> (transfer: Option<TransferRequest>)
        requires
            old(self).wf(),
        ensures
            final(self).wf(),
            transfer is Some <==> old(self).ledger().contains_key(caller),
            !old(self).ledger().contains_key(caller) ==> *final(self) == *old(self),
            old(self).ledger().contains_key(caller) ==> {
                &&& transfer == Some(
                    TransferRequest { recipient: caller, amount: old(self).ledger()[caller] },
                )
                &&& final(self).ledger() == old(self).ledger().remove(caller)
                &&& final(self).history() == old(self).history().push(
                    RefundEvent::Paid { account: caller, amount: old(self).ledger()[caller] },
                )
                &&& final(self).beneficiary == old(self).beneficiary
                &&& final(self).auction_start == old(self).auction_start
                &&& final(self).auction_end == old(self).auction_end
                &&& final(self).highest_bidder == old(self).highest_bidder
                &&& final(self).highest_bid == old(self).highest_bid
                &&& final(self).ended == old(self).ended
            },
    {
        let standing: Option<Balance> = match self.pending_returns.get(&caller) {
            Some(v) => Some(*v),
            None => None,
        };
        match standing {
            Some(pending_amount) => {
                self.pending_returns.remove(&caller);
                proof {
                    let event = RefundEvent::Paid { account: caller, amount: pending_amount };
                    self.refund_history@ = self.refund_history@.push(event);
                    assert forall|account: AccountId|
                        #[trigger] self.ledger_amount(account) == owed(
                            self.history(),
                            account,
                        ) by {
                        lemma_sums_push(old(self).history(), event, account);
                        assert(old(self).ledger_amount(account) == owed(
                            old(self).history(),
                            account,
                        ));
                    }
                }
                Some(TransferRequest { recipient: caller, amount: pending_amount })
            },
            None => None,
        }
    }

    /// Attempts to settle the auction at time `now`.
    ///
    /// Settlement succeeds exactly when the bidding window has closed and the
    /// auction has not been settled before; `Some` then carries the request to
    /// pay the winning amount to the beneficiary, and `ended` is set before
    /// the request is handed out. Every later call is a no-op returning
    /// `None`, whoever makes it.
    pub fn end_auction(&mut self, now: Timestamp) -> (transfer: Option<TransferRequest>)
        requires
            old(self).wf(),
        ensures
            final(self).wf(),
            transfer is Some <==> settles(old(self).auction_end, old(self).ended, now),
            transfer is None ==> *final(self) == *old(self),
            final(self).ended == (old(self).ended || transfer is Some),
            transfer is Some ==> {
                &&& transfer == Some(
                    TransferRequest {
                        recipient: old(self).beneficiary,
                        amount: old(self).highest_bid,
                    },
                )
                &&& final(self).ended
                &&& final(self).beneficiary == old(self).beneficiary
                &&& final(self).auction_start == old(self).auction_start
                &&& final(self).auction_end == old(self).auction_end
                &&& final(self).highest_bidder == old(self).highest_bidder
                &&& final(self).highest_bid == old(self).highest_bid
                &&& final(self).ledger() == old(self).ledger()
                &&& final(self).history() == old(self).history()
            },
    {
        if now < self.auction_end {
            return None;
        }
        if self.ended {
            return None;
        }
        self.ended = true;
        proof {
            assert forall|account: AccountId|
                #[trigger] self.ledger_amount(account) == owed(self.history(), account) by {
                assert(old(self).ledger_amount(account) == owed(old(self).history(), account));
            }
            assert forall|account: AccountId|
                self.ledger().contains_key(account) implies #[trigger] self.ledger()[account]
                > 0 by {
                assert(old(self).ledger()[account] > 0);
            }
        }
        Some(TransferRequest { recipient: self.beneficiary, amount: self.highest_bid })
    }

    /// Looks up the refund currently owed to `account`: `Some` with the
    /// ledger entry's amount, `None` when no entry exists.
    pub fn pending_return_of(&self, account: AccountId) -> (amount: Option<Balance>)
        ensures
            amount matches Some(a) ==> self.ledger().contains_key(account) && a == self.ledger()[account],
            amount is None ==> !self.ledger().contains_key(account),
    {
        match self.pending_returns.get(&account) {
            Some(standing) => Some(*standing),
            None => None,
        }
    }
}

} // verus!
