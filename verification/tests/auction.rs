use open_auction::{OpenAuction, TransferRequest};

const BENEFICIARY: u128 = 99;

#[test]
fn new_auction() {
    let auction = OpenAuction::new(BENEFICIARY, 100, 0);
    assert_eq!(auction.beneficiary, BENEFICIARY);
    assert_eq!(auction.auction_start, 0);
    assert_eq!(auction.auction_end, 100);
    assert_eq!(auction.highest_bidder, None);
    assert_eq!(auction.highest_bid, 0);
    assert!(!auction.ended);
    assert_eq!(auction.pending_return_of(BENEFICIARY), None);
}

#[test]
fn scenario_full_auction() {
    let b: u128 = BENEFICIARY;
    let x: u128 = 1;
    let y: u128 = 2;
    let mut auction = OpenAuction::new(b, 100, 0);

    assert!(auction.bid(x, 10, 1));
    assert_eq!(auction.highest_bidder, Some(x));
    assert_eq!(auction.highest_bid, 10);

    assert!(!auction.bid(y, 5, 2));
    assert_eq!(auction.highest_bidder, Some(x));
    assert_eq!(auction.highest_bid, 10);

    assert!(auction.bid(y, 20, 3));
    assert_eq!(auction.highest_bidder, Some(y));
    assert_eq!(auction.highest_bid, 20);
    assert_eq!(auction.pending_return_of(x), Some(10));

    let refund = auction.withdraw(x);
    assert_eq!(refund, Some(TransferRequest { recipient: x, amount: 10 }));
    assert_eq!(auction.pending_return_of(x), None);

    assert_eq!(auction.end_auction(50), None);
    assert!(!auction.ended);

    let payout = auction.end_auction(150);
    assert_eq!(payout, Some(TransferRequest { recipient: b, amount: 20 }));
    assert!(auction.ended);

    assert_eq!(auction.end_auction(200), None);
}

#[test]
fn low_bid_rejected_without_changes() {
    let mut auction = OpenAuction::new(BENEFICIARY, 100, 0);
    assert!(auction.bid(1, 10, 1));

    assert!(!auction.bid(2, 9, 2));
    assert_eq!(auction.highest_bidder, Some(1));
    assert_eq!(auction.highest_bid, 10);
    assert_eq!(auction.pending_return_of(1), None);
    assert_eq!(auction.pending_return_of(2), None);
}

#[test]
fn tie_bid_rejected() {
    let mut auction = OpenAuction::new(BENEFICIARY, 100, 0);
    assert!(auction.bid(1, 10, 1));
    assert!(!auction.bid(2, 10, 2));
    assert_eq!(auction.highest_bidder, Some(1));
}

#[test]
fn late_bid_rejected() {
    let mut auction = OpenAuction::new(BENEFICIARY, 100, 0);
    assert!(auction.bid(1, 10, 1));
    assert!(!auction.bid(2, 50, 100));
    assert!(!auction.bid(2, 50, 250));
    assert_eq!(auction.highest_bidder, Some(1));
    assert_eq!(auction.highest_bid, 10);
}

#[test]
fn zero_bid_rejected() {
    let mut auction = OpenAuction::new(BENEFICIARY, 100, 0);
    assert!(!auction.bid(1, 0, 1));
    assert_eq!(auction.highest_bidder, None);
}

#[test]
fn first_bid_creates_no_refund_entry() {
    let mut auction = OpenAuction::new(BENEFICIARY, 100, 0);
    assert!(auction.bid(1, 10, 1));
    assert_eq!(auction.pending_return_of(0), None);
    assert_eq!(auction.pending_return_of(1), None);
}

#[test]
fn self_outbid_credits_own_entry() {
    let mut auction = OpenAuction::new(BENEFICIARY, 100, 0);
    assert!(auction.bid(1, 10, 1));
    assert!(auction.bid(1, 20, 2));
    assert_eq!(auction.highest_bidder, Some(1));
    assert_eq!(auction.highest_bid, 20);
    assert_eq!(auction.pending_return_of(1), Some(10));
}

#[test]
fn displaced_amounts_accumulate() {
    let x: u128 = 1;
    let y: u128 = 2;
    let mut auction = OpenAuction::new(BENEFICIARY, 100, 0);
    assert!(auction.bid(x, 10, 1));
    assert!(auction.bid(y, 20, 2));
    assert!(auction.bid(x, 30, 3));
    assert!(auction.bid(y, 40, 4));
    assert_eq!(auction.pending_return_of(x), Some(40));
    assert_eq!(auction.pending_return_of(y), Some(20));
}

#[test]
fn ledger_tracks_displacements_minus_withdrawals() {
    let x: u128 = 1;
    let y: u128 = 2;
    let mut auction = OpenAuction::new(BENEFICIARY, 100, 0);
    assert!(auction.bid(x, 10, 1));
    assert!(auction.bid(y, 20, 2));
    assert_eq!(auction.withdraw(x), Some(TransferRequest { recipient: x, amount: 10 }));
    assert!(auction.bid(x, 30, 3));
    assert!(auction.bid(y, 40, 4));
    assert_eq!(auction.pending_return_of(x), Some(30));
    assert_eq!(auction.pending_return_of(y), Some(20));
}

#[test]
fn withdraw_without_entry_is_a_no_op() {
    let x: u128 = 1;
    let y: u128 = 2;
    let stranger: u128 = 7;
    let mut auction = OpenAuction::new(BENEFICIARY, 100, 0);
    assert!(auction.bid(x, 10, 1));
    assert!(auction.bid(y, 20, 2));

    assert_eq!(auction.withdraw(stranger), None);
    assert_eq!(auction.pending_return_of(x), Some(10));
    assert_eq!(auction.pending_return_of(y), None);
    assert_eq!(auction.highest_bidder, Some(y));
    assert_eq!(auction.highest_bid, 20);
}

#[test]
fn withdraw_removes_entry_before_paying() {
    let x: u128 = 1;
    let mut auction = OpenAuction::new(BENEFICIARY, 100, 0);
    assert!(auction.bid(x, 10, 1));
    assert!(auction.bid(2, 20, 2));

    assert_eq!(auction.withdraw(x), Some(TransferRequest { recipient: x, amount: 10 }));
    assert_eq!(auction.pending_return_of(x), None);
    assert_eq!(auction.withdraw(x), None);
}

#[test]
fn end_auction_before_window_closes_is_rejected() {
    let mut auction = OpenAuction::new(BENEFICIARY, 100, 0);
    assert!(auction.bid(1, 10, 1));
    assert_eq!(auction.end_auction(0), None);
    assert_eq!(auction.end_auction(99), None);
    assert!(!auction.ended);
}

#[test]
fn end_auction_settles_exactly_once() {
    let mut auction = OpenAuction::new(BENEFICIARY, 100, 0);
    assert!(auction.bid(1, 10, 1));

    let payout = auction.end_auction(100);
    assert_eq!(payout, Some(TransferRequest { recipient: BENEFICIARY, amount: 10 }));
    assert!(auction.ended);

    assert_eq!(auction.end_auction(100), None);
    assert_eq!(auction.end_auction(1000), None);
    assert_eq!(auction.end_auction(u64::MAX), None);
    assert!(auction.ended);
}

#[test]
fn end_auction_with_no_bids_pays_zero() {
    let mut auction = OpenAuction::new(BENEFICIARY, 100, 0);
    let payout = auction.end_auction(100);
    assert_eq!(payout, Some(TransferRequest { recipient: BENEFICIARY, amount: 0 }));
    assert!(auction.ended);
}

#[test]
fn accepted_bids_strictly_increase() {
    let mut auction = OpenAuction::new(BENEFICIARY, 1000, 0);
    let amounts: [u128; 5] = [3, 7, 8, 100, 101];
    let mut previous: u128 = 0;
    for (i, amount) in amounts.iter().enumerate() {
        assert!(auction.bid(i as u128, *amount, i as u64));
        assert!(auction.highest_bid > previous);
        previous = auction.highest_bid;
    }
}
