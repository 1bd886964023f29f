use krypto_pallets::krypt::{Config, Error, Event, Pallet};
use krypto_pallets::origin::Origin;

const ALICE: u64 = 1;
const BOB: u64 = 2;
const CHARLIE: u64 = 3;

fn ledger(max_token_supply: u128) -> Pallet {
    Pallet::new(&Config { max_token_supply })
}

#[test]
fn new_ledger_is_empty() {
    let pallet = ledger(1000);
    assert_eq!(pallet.total_issued(), 0);
    assert_eq!(pallet.get_balance_of(&ALICE), 0);
    assert_eq!(pallet.get_balance_of(&u64::MAX), 0);
}

#[test]
fn example_scenario() {
    let mut pallet = ledger(1000);
    assert_eq!(pallet.mint(Origin::Root, 600, ALICE), Ok(Event::MintedNewSupply(600)));
    assert_eq!(pallet.total_issued(), 600);
    assert_eq!(pallet.get_balance_of(&ALICE), 600);

    assert_eq!(pallet.mint(Origin::Root, 500, BOB), Err(Error::MintCausingTotalSupplyOverflow));
    assert_eq!(pallet.total_issued(), 600);
    assert_eq!(pallet.get_balance_of(&BOB), 0);

    assert_eq!(
        pallet.transfer_from(Origin::Signed(ALICE), BOB, 600),
        Ok(Event::TransferSuccess(ALICE, BOB, 600))
    );
    assert_eq!(pallet.get_balance_of(&ALICE), 0);
    assert_eq!(pallet.get_balance_of(&BOB), 600);
    assert_eq!(pallet.total_issued(), 600);

    assert_eq!(pallet.transfer_from(Origin::Signed(ALICE), BOB, 1), Err(Error::InsufficientFunds));
    assert_eq!(pallet.get_balance_of(&ALICE), 0);
    assert_eq!(pallet.get_balance_of(&BOB), 600);
}

#[test]
fn mint_needs_the_privileged_caller() {
    let mut pallet = ledger(1000);
    assert_eq!(pallet.mint(Origin::Signed(ALICE), 10, ALICE), Err(Error::NotAuthorized));
    assert_eq!(pallet.mint(Origin::Unsigned, 10, ALICE), Err(Error::NotAuthorized));
    assert_eq!(pallet.total_issued(), 0);
    assert_eq!(pallet.get_balance_of(&ALICE), 0);
}

#[test]
fn mint_reports_authorization_before_overflow() {
    let mut pallet = ledger(10);
    assert_eq!(pallet.mint(Origin::Signed(ALICE), 11, ALICE), Err(Error::NotAuthorized));
}

#[test]
fn mint_up_to_the_maximum() {
    let mut pallet = ledger(1000);
    assert_eq!(pallet.mint(Origin::Root, 1000, ALICE), Ok(Event::MintedNewSupply(1000)));
    assert_eq!(pallet.total_issued(), 1000);
    assert_eq!(pallet.mint(Origin::Root, 1, ALICE), Err(Error::MintCausingTotalSupplyOverflow));
    assert_eq!(pallet.mint(Origin::Root, 0, BOB), Ok(Event::MintedNewSupply(0)));
    assert_eq!(pallet.total_issued(), 1000);
    assert_eq!(pallet.get_balance_of(&ALICE), 1000);
    assert_eq!(pallet.get_balance_of(&BOB), 0);
}

#[test]
fn mint_adds_to_what_the_benefactor_holds() {
    let mut pallet = ledger(1000);
    assert_eq!(pallet.mint(Origin::Root, 100, ALICE), Ok(Event::MintedNewSupply(100)));
    assert_eq!(pallet.mint(Origin::Root, 250, ALICE), Ok(Event::MintedNewSupply(250)));
    assert_eq!(pallet.get_balance_of(&ALICE), 350);
    assert_eq!(pallet.total_issued(), 350);
}

#[test]
fn mint_beyond_the_balance_type() {
    let mut pallet = ledger(u128::MAX);
    assert_eq!(pallet.mint(Origin::Root, u128::MAX, ALICE), Ok(Event::MintedNewSupply(u128::MAX)));
    assert_eq!(pallet.mint(Origin::Root, 1, BOB), Err(Error::MintTypeOverflow));
    assert_eq!(pallet.total_issued(), u128::MAX);
    assert_eq!(pallet.get_balance_of(&ALICE), u128::MAX);
    assert_eq!(pallet.get_balance_of(&BOB), 0);
}

#[test]
fn type_overflow_is_reported_before_the_maximum() {
    let mut pallet = ledger(1000);
    assert_eq!(pallet.mint(Origin::Root, 1, ALICE), Ok(Event::MintedNewSupply(1)));
    assert_eq!(pallet.mint(Origin::Root, u128::MAX, ALICE), Err(Error::MintTypeOverflow));
    assert_eq!(pallet.mint(Origin::Root, u128::MAX - 1, ALICE), Err(Error::MintCausingTotalSupplyOverflow));
    assert_eq!(pallet.total_issued(), 1);
}

#[test]
fn does_adding_overflow_tells_which_limit() {
    let mut pallet = ledger(1000);
    assert_eq!(pallet.mint(Origin::Root, 600, ALICE), Ok(Event::MintedNewSupply(600)));
    assert_eq!(pallet.does_adding_overflow_maxtokensupply(400), Ok(()));
    assert_eq!(
        pallet.does_adding_overflow_maxtokensupply(401),
        Err(Error::MintCausingTotalSupplyOverflow)
    );
    assert_eq!(
        pallet.does_adding_overflow_maxtokensupply(u128::MAX - 600),
        Err(Error::MintCausingTotalSupplyOverflow)
    );
    assert_eq!(
        pallet.does_adding_overflow_maxtokensupply(u128::MAX - 599),
        Err(Error::MintTypeOverflow)
    );
}

#[test]
fn has_sufficient_funds_compares_with_the_balance() {
    let mut pallet = ledger(1000);
    assert_eq!(pallet.mint(Origin::Root, 600, ALICE), Ok(Event::MintedNewSupply(600)));
    assert!(pallet.has_sufficient_funds(&ALICE, 0));
    assert!(pallet.has_sufficient_funds(&ALICE, 600));
    assert!(!pallet.has_sufficient_funds(&ALICE, 601));
    assert!(pallet.has_sufficient_funds(&BOB, 0));
    assert!(!pallet.has_sufficient_funds(&BOB, 1));
}

#[test]
fn transfer_moves_the_amount() {
    let mut pallet = ledger(1000);
    assert_eq!(pallet.mint(Origin::Root, 600, ALICE), Ok(Event::MintedNewSupply(600)));
    assert_eq!(pallet.mint(Origin::Root, 50, BOB), Ok(Event::MintedNewSupply(50)));
    assert_eq!(
        pallet.transfer_from(Origin::Signed(ALICE), BOB, 150),
        Ok(Event::TransferSuccess(ALICE, BOB, 150))
    );
    assert_eq!(pallet.get_balance_of(&ALICE), 450);
    assert_eq!(pallet.get_balance_of(&BOB), 200);
    assert_eq!(pallet.get_balance_of(&CHARLIE), 0);
    assert_eq!(pallet.total_issued(), 650);
}

#[test]
fn transfer_of_more_than_held_changes_nothing() {
    let mut pallet = ledger(1000);
    assert_eq!(pallet.mint(Origin::Root, 600, ALICE), Ok(Event::MintedNewSupply(600)));
    assert_eq!(pallet.transfer_from(Origin::Signed(ALICE), BOB, 601), Err(Error::InsufficientFunds));
    assert_eq!(pallet.transfer_from(Origin::Signed(BOB), ALICE, 1), Err(Error::InsufficientFunds));
    assert_eq!(pallet.get_balance_of(&ALICE), 600);
    assert_eq!(pallet.get_balance_of(&BOB), 0);
    assert_eq!(pallet.total_issued(), 600);
}

#[test]
fn transfer_needs_a_signed_caller() {
    let mut pallet = ledger(1000);
    assert_eq!(pallet.mint(Origin::Root, 600, ALICE), Ok(Event::MintedNewSupply(600)));
    assert_eq!(pallet.transfer_from(Origin::Root, BOB, 1), Err(Error::NotAuthorized));
    assert_eq!(pallet.transfer_from(Origin::Unsigned, BOB, 1), Err(Error::NotAuthorized));
    assert_eq!(pallet.get_balance_of(&ALICE), 600);
    assert_eq!(pallet.get_balance_of(&BOB), 0);
}

#[test]
fn transfer_to_oneself_leaves_the_balance() {
    let mut pallet = ledger(1000);
    assert_eq!(pallet.mint(Origin::Root, 600, ALICE), Ok(Event::MintedNewSupply(600)));
    assert_eq!(
        pallet.transfer_from(Origin::Signed(ALICE), ALICE, 600),
        Ok(Event::TransferSuccess(ALICE, ALICE, 600))
    );
    assert_eq!(pallet.get_balance_of(&ALICE), 600);
    assert_eq!(
        pallet.transfer_from(Origin::Signed(ALICE), ALICE, 1),
        Ok(Event::TransferSuccess(ALICE, ALICE, 1))
    );
    assert_eq!(pallet.get_balance_of(&ALICE), 600);
    assert_eq!(pallet.transfer_from(Origin::Signed(ALICE), ALICE, 601), Err(Error::InsufficientFunds));
    assert_eq!(pallet.get_balance_of(&ALICE), 600);
    assert_eq!(pallet.total_issued(), 600);
}

#[test]
fn transfer_of_nothing_succeeds_for_an_unknown_sender() {
    let mut pallet = ledger(1000);
    assert_eq!(
        pallet.transfer_from(Origin::Signed(CHARLIE), BOB, 0),
        Ok(Event::TransferSuccess(CHARLIE, BOB, 0))
    );
    assert_eq!(pallet.get_balance_of(&CHARLIE), 0);
    assert_eq!(pallet.get_balance_of(&BOB), 0);
    assert_eq!(pallet.total_issued(), 0);
}

#[test]
fn total_issuance_reports_the_supply() {
    let mut pallet = ledger(1000);
    assert_eq!(pallet.total_issuance(Origin::Signed(BOB)), Ok(Event::TotalIssued(0)));
    assert_eq!(pallet.mint(Origin::Root, 600, ALICE), Ok(Event::MintedNewSupply(600)));
    assert_eq!(pallet.total_issuance(Origin::Signed(BOB)), Ok(Event::TotalIssued(600)));
    assert_eq!(pallet.total_issuance(Origin::Root), Err(Error::NotAuthorized));
    assert_eq!(pallet.total_issuance(Origin::Unsigned), Err(Error::NotAuthorized));
}

#[test]
fn supply_equals_the_sum_of_balances_after_each_operation() {
    let mut pallet = ledger(10_000);
    let accounts = [ALICE, BOB, CHARLIE];
    let sum = |pallet: &Pallet| -> u128 { accounts.iter().map(|a| pallet.get_balance_of(a)).sum() };

    assert_eq!(pallet.mint(Origin::Root, 4000, ALICE), Ok(Event::MintedNewSupply(4000)));
    assert_eq!(sum(&pallet), pallet.total_issued());
    assert_eq!(pallet.mint(Origin::Root, 2500, BOB), Ok(Event::MintedNewSupply(2500)));
    assert_eq!(sum(&pallet), pallet.total_issued());
    assert_eq!(
        pallet.transfer_from(Origin::Signed(ALICE), CHARLIE, 1234),
        Ok(Event::TransferSuccess(ALICE, CHARLIE, 1234))
    );
    assert_eq!(sum(&pallet), pallet.total_issued());
    assert_eq!(pallet.mint(Origin::Root, 3501, CHARLIE), Err(Error::MintCausingTotalSupplyOverflow));
    assert_eq!(sum(&pallet), pallet.total_issued());
    assert_eq!(pallet.transfer_from(Origin::Signed(BOB), ALICE, 2501), Err(Error::InsufficientFunds));
    assert_eq!(sum(&pallet), pallet.total_issued());
    assert_eq!(
        pallet.transfer_from(Origin::Signed(CHARLIE), CHARLIE, 1000),
        Ok(Event::TransferSuccess(CHARLIE, CHARLIE, 1000))
    );
    assert_eq!(sum(&pallet), pallet.total_issued());
    assert_eq!(pallet.mint(Origin::Root, 3500, CHARLIE), Ok(Event::MintedNewSupply(3500)));
    assert_eq!(sum(&pallet), pallet.total_issued());

    assert_eq!(pallet.total_issued(), 10_000);
    assert_eq!(pallet.get_balance_of(&ALICE), 2766);
    assert_eq!(pallet.get_balance_of(&BOB), 2500);
    assert_eq!(pallet.get_balance_of(&CHARLIE), 4734);
}

#[test]
fn no_mint_takes_the_supply_beyond_the_maximum() {
    let mut pallet = ledger(1000);
    for amount in [300u128, 300, 300, 300, 99, 1, 1] {
        let before = pallet.total_issued();
        match pallet.mint(Origin::Root, amount, ALICE) {
            Ok(event) => {
                assert_eq!(event, Event::MintedNewSupply(amount));
                assert_eq!(pallet.total_issued(), before + amount);
            }
            Err(error) => {
                assert_eq!(error, Error::MintCausingTotalSupplyOverflow);
                assert_eq!(pallet.total_issued(), before);
            }
        }
        assert!(pallet.total_issued() <= 1000);
    }
    assert_eq!(pallet.total_issued(), 1000);
}

#[test]
fn ensure_can_send_tells_the_sender_or_the_refusal() {
    let mut pallet = ledger(1000);
    assert_eq!(pallet.mint(Origin::Root, 600, ALICE), Ok(Event::MintedNewSupply(600)));
    assert_eq!(pallet.ensure_can_send(Origin::Signed(ALICE), 600), Ok(ALICE));
    assert_eq!(pallet.ensure_can_send(Origin::Signed(ALICE), 601), Err(Error::InsufficientFunds));
    assert_eq!(pallet.ensure_can_send(Origin::Signed(BOB), 0), Ok(BOB));
    assert_eq!(pallet.ensure_can_send(Origin::Root, 0), Err(Error::NotAuthorized));
    assert_eq!(pallet.ensure_can_send(Origin::Unsigned, 0), Err(Error::NotAuthorized));
}
