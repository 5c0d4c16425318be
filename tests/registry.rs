use collectables::{Config, Error, Event, Gender, Origin, Pallet, Payment};

const A: u64 = 1;
const B: u64 = 2;
const C: u64 = 3;

fn pallet(max: u32) -> Pallet {
    Pallet::new(Config { max_kitties_owned: max })
}

fn assert_consistent(p: &Pallet, accounts: &[u64], ids: &[u128]) {
    for &a in accounts {
        let owned = p.kitties_owned(a);
        assert!(owned.len() <= p.max_kitties_owned() as usize);
        for &id in ids {
            let listed = owned.contains(&id);
            let recorded = p.kitty(id).map(|k| k.owner == a).unwrap_or(false);
            assert_eq!(listed, recorded);
        }
    }
}

#[test]
fn mint_set_price_and_buy_scenario() {
    let mut p = pallet(10);
    let id = p.mint(A, 42, Gender::Male).unwrap();
    assert_eq!(id, 42);
    assert_eq!(p.kitties_owned(A), vec![42]);
    assert_eq!(p.count_for_kitties(), 1);

    assert_eq!(p.set_price(Origin::Signed(A), 42, Some(100)), Ok(()));
    assert_eq!(p.set_price(Origin::Signed(B), 42, Some(1)), Err(Error::NotOwner));
    assert_eq!(p.kitty(42).unwrap().price, Some(100));

    let before = p.events().len();
    assert_eq!(p.buy_quote(42, B, 50), Err(Error::BidPriceTooLow));
    assert_eq!(p.do_buy_kitty(42, B, 50, Ok(())), Err(Error::BidPriceTooLow));
    assert_eq!(p.kitty(42).unwrap().owner, A);
    assert_eq!(p.kitty(42).unwrap().price, Some(100));
    assert_eq!(p.events().len(), before);

    let quote = p.buy_quote(42, B, 100).unwrap();
    assert_eq!(quote, Payment { from: B, to: A, amount: 100 });
    assert_eq!(p.do_buy_kitty(42, B, 100, Ok(())), Ok(()));
    let k = p.kitty(42).unwrap();
    assert_eq!(k.owner, B);
    assert_eq!(k.price, None);
    assert_eq!(p.kitties_owned(A), Vec::<u128>::new());
    assert_eq!(p.kitties_owned(B), vec![42]);
    let ev = p.events();
    assert_eq!(ev[ev.len() - 2], Event::Transferred { from: A, to: B, kitty: 42 });
    assert_eq!(ev[ev.len() - 1], Event::Sold { seller: A, buyer: B, kitty: 42, price: 100 });
    assert_eq!(p.count_for_kitties(), 1);
}

#[test]
fn buy_pays_price_not_bid() {
    let mut p = pallet(10);
    p.mint(A, 1, Gender::Female).unwrap();
    p.set_price(Origin::Signed(A), 1, Some(30)).unwrap();
    assert_eq!(p.buy_quote(1, B, 500), Ok(Payment { from: B, to: A, amount: 30 }));
    p.do_buy_kitty(1, B, 500, Ok(())).unwrap();
    let ev = p.events();
    assert_eq!(ev[ev.len() - 1], Event::Sold { seller: A, buyer: B, kitty: 1, price: 30 });
}

#[test]
fn mint_emits_created() {
    let mut p = pallet(3);
    p.mint(A, 5, Gender::Male).unwrap();
    assert_eq!(p.events().clone(), vec![Event::Created { kitty: 5, owner: A }]);
    let k = p.kitty(5).unwrap();
    assert_eq!(k.dna, 5);
    assert_eq!(k.gender, Gender::Male);
    assert_eq!(k.price, None);
}

#[test]
fn mint_duplicate_rejected() {
    let mut p = pallet(10);
    p.mint(A, 7, Gender::Male).unwrap();
    assert_eq!(p.mint(B, 7, Gender::Female), Err(Error::DuplicateKitty));
    assert_eq!(p.count_for_kitties(), 1);
    assert_eq!(p.kitty(7).unwrap().owner, A);
    assert_eq!(p.kitties_owned(B), Vec::<u128>::new());
    assert_eq!(p.events().len(), 1);
}

#[test]
fn mint_at_capacity_rejected() {
    let mut p = pallet(2);
    p.mint(A, 1, Gender::Male).unwrap();
    p.mint(A, 2, Gender::Male).unwrap();
    assert_eq!(p.mint(A, 3, Gender::Male), Err(Error::TooManyOwned));
    assert_eq!(p.kitties_owned(A), vec![1, 2]);
    assert_eq!(p.kitty(3), None);
    assert_eq!(p.count_for_kitties(), 2);
    assert_eq!(p.mint(B, 3, Gender::Male), Ok(3));
}

#[test]
fn zero_capacity_refuses_every_mint() {
    let mut p = pallet(0);
    assert_eq!(p.mint(A, 1, Gender::Male), Err(Error::TooManyOwned));
    assert_eq!(p.count_for_kitties(), 0);
}

#[test]
fn transfer_to_full_owner_refused() {
    let mut p = pallet(1);
    p.mint(A, 1, Gender::Male).unwrap();
    p.mint(B, 2, Gender::Male).unwrap();
    p.set_price(Origin::Signed(A), 1, Some(9)).unwrap();
    assert_eq!(p.transfer(Origin::Signed(A), B, 1), Err(Error::TooManyOwned));
    assert_eq!(p.kitty(1).unwrap().owner, A);
    assert_eq!(p.kitty(1).unwrap().price, Some(9));
    assert_eq!(p.kitties_owned(A), vec![1]);
    assert_eq!(p.kitties_owned(B), vec![2]);
    assert_consistent(&p, &[A, B], &[1, 2]);
}

#[test]
fn buy_by_full_owner_refused_before_payment() {
    let mut p = pallet(1);
    p.mint(A, 1, Gender::Male).unwrap();
    p.mint(B, 2, Gender::Male).unwrap();
    p.set_price(Origin::Signed(A), 1, Some(9)).unwrap();
    assert_eq!(p.buy_quote(1, B, 9), Err(Error::TooManyOwned));
    assert_eq!(p.do_buy_kitty(1, B, 9, Ok(())), Err(Error::TooManyOwned));
    assert_eq!(p.kitty(1).unwrap().owner, A);
}

#[test]
fn transfer_moves_and_clears_price() {
    let mut p = pallet(5);
    p.mint(A, 1, Gender::Male).unwrap();
    p.set_price(Origin::Signed(A), 1, Some(10)).unwrap();
    assert_eq!(p.transfer(Origin::Signed(A), B, 1), Ok(()));
    let k = p.kitty(1).unwrap();
    assert_eq!(k.owner, B);
    assert_eq!(k.price, None);
    assert_eq!(p.kitties_owned(A), Vec::<u128>::new());
    assert_eq!(p.kitties_owned(B), vec![1]);
    let ev = p.events();
    assert_eq!(ev[ev.len() - 1], Event::Transferred { from: A, to: B, kitty: 1 });
}

#[test]
fn transfer_swaps_last_into_place() {
    let mut p = pallet(5);
    p.mint(A, 10, Gender::Male).unwrap();
    p.mint(A, 20, Gender::Male).unwrap();
    p.mint(A, 30, Gender::Male).unwrap();
    p.transfer(Origin::Signed(A), B, 10).unwrap();
    assert_eq!(p.kitties_owned(A), vec![30, 20]);
    p.transfer(Origin::Signed(B), A, 10).unwrap();
    assert_eq!(p.kitties_owned(A), vec![30, 20, 10]);
}

#[test]
fn transfer_errors() {
    let mut p = pallet(5);
    p.mint(A, 1, Gender::Male).unwrap();
    assert_eq!(p.transfer(Origin::Signed(A), B, 99), Err(Error::NoKitty));
    assert_eq!(p.transfer(Origin::Signed(B), C, 1), Err(Error::NotOwner));
    assert_eq!(p.transfer(Origin::Signed(A), A, 1), Err(Error::TransferToSelf));
    assert_eq!(p.transfer(Origin::Root, B, 1), Err(Error::BadOrigin));
    assert_eq!(p.transfer(Origin::Unsigned, B, 1), Err(Error::BadOrigin));
    assert_eq!(p.do_transfer(99, B), Err(Error::NoKitty));
    assert_eq!(p.do_transfer(1, A), Err(Error::TransferToSelf));
    assert_eq!(p.kitty(1).unwrap().owner, A);
    assert_eq!(p.events().len(), 1);
}

#[test]
fn set_price_errors_and_delist() {
    let mut p = pallet(5);
    p.mint(A, 1, Gender::Male).unwrap();
    assert_eq!(p.set_price(Origin::Signed(A), 2, Some(5)), Err(Error::NoKitty));
    assert_eq!(p.set_price(Origin::Unsigned, 1, Some(5)), Err(Error::BadOrigin));
    assert_eq!(p.set_price(Origin::Signed(A), 1, Some(5)), Ok(()));
    assert_eq!(p.set_price(Origin::Signed(A), 1, None), Ok(()));
    assert_eq!(p.kitty(1).unwrap().price, None);
    let ev = p.events();
    assert_eq!(ev[ev.len() - 1], Event::PriceSet { kitty: 1, price: None });
    assert_eq!(p.kitties_owned(A), vec![1]);
}

#[test]
fn buy_errors() {
    let mut p = pallet(5);
    p.mint(A, 1, Gender::Male).unwrap();
    assert_eq!(p.do_buy_kitty(2, B, 10, Ok(())), Err(Error::NoKitty));
    assert_eq!(p.do_buy_kitty(1, B, 10, Ok(())), Err(Error::NotForSale));
    p.set_price(Origin::Signed(A), 1, Some(10)).unwrap();
    assert_eq!(p.do_buy_kitty(1, A, 10, Ok(())), Err(Error::TransferToSelf));
    assert_eq!(p.do_buy_kitty(1, B, 9, Ok(())), Err(Error::BidPriceTooLow));
    assert_eq!(p.kitty(1).unwrap().owner, A);
}

#[test]
fn failed_payment_changes_nothing() {
    let mut p = pallet(5);
    p.mint(A, 1, Gender::Male).unwrap();
    p.set_price(Origin::Signed(A), 1, Some(10)).unwrap();
    let events = p.events().len();
    assert_eq!(p.do_buy_kitty(1, B, 10, Err(Error::InsufficientFunds)), Err(Error::InsufficientFunds));
    let k = p.kitty(1).unwrap();
    assert_eq!(k.owner, A);
    assert_eq!(k.price, Some(10));
    assert_eq!(p.kitties_owned(A), vec![1]);
    assert_eq!(p.kitties_owned(B), Vec::<u128>::new());
    assert_eq!(p.events().len(), events);
}

#[test]
fn count_unaffected_by_transfers_and_sales() {
    let mut p = pallet(10);
    for i in 0..5u128 {
        p.mint(A, i, Gender::Male).unwrap();
    }
    assert_eq!(p.count_for_kitties(), 5);
    p.transfer(Origin::Signed(A), B, 0).unwrap();
    p.set_price(Origin::Signed(A), 1, Some(3)).unwrap();
    p.do_buy_kitty(1, C, 3, Ok(())).unwrap();
    let _ = p.mint(B, 0, Gender::Male);
    assert_eq!(p.count_for_kitties(), 5);
    p.mint(C, 100, Gender::Female).unwrap();
    assert_eq!(p.count_for_kitties(), 6);
}

#[test]
fn ownership_stays_consistent() {
    let mut p = pallet(3);
    let ids = [1u128, 2, 3, 4, 5];
    p.mint(A, 1, Gender::Male).unwrap();
    p.mint(A, 2, Gender::Male).unwrap();
    p.mint(B, 3, Gender::Male).unwrap();
    p.mint(C, 4, Gender::Male).unwrap();
    assert_consistent(&p, &[A, B, C], &ids);
    p.transfer(Origin::Signed(A), B, 1).unwrap();
    assert_consistent(&p, &[A, B, C], &ids);
    p.set_price(Origin::Signed(B), 3, Some(1)).unwrap();
    p.do_buy_kitty(3, C, 1, Ok(())).unwrap();
    assert_consistent(&p, &[A, B, C], &ids);
    let _ = p.transfer(Origin::Signed(C), A, 4);
    let _ = p.mint(A, 5, Gender::Female);
    assert_consistent(&p, &[A, B, C], &ids);
}

#[test]
fn created_kitties_are_unique() {
    let mut p = pallet(100);
    let mut seen: Vec<u128> = Vec::new();
    for block in 0..50u32 {
        let id = p.create_kitty(Origin::Signed(A), [5u8; 32], Some(1), block).unwrap();
        assert!(!seen.contains(&id));
        seen.push(id);
    }
    assert_eq!(p.count_for_kitties(), 50);
    assert_eq!(p.kitties_owned(A).len(), 50);
}

#[test]
fn create_kitty_uses_generated_identifier() {
    let mut p = pallet(5);
    let id = p.create_kitty(Origin::Signed(A), [7u8; 32], None, 1).unwrap();
    assert_eq!(id, 127027698356401477259734530958642967391u128);
    assert_eq!(p.kitty(id).unwrap().gender, Gender::Female);
    assert_eq!(p.create_kitty(Origin::Signed(B), [7u8; 32], None, 1), Err(Error::DuplicateKitty));
    assert_eq!(p.create_kitty(Origin::Root, [8u8; 32], None, 1), Err(Error::BadOrigin));
    assert_eq!(p.count_for_kitties(), 1);
}
