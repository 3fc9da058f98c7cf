use exercises::vending::{Coin, Error, Money, Product, ProductName, VendingMachine};

fn stocked() -> VendingMachine<exercises::vending::WaitingForUserChoice> {
    let mut vm = VendingMachine::with_money_amount(17);
    vm.add_products(vec![
        Product::new(ProductName::ChocoBar, 23),
        Product::new(ProductName::Chips, 19),
        Product::new(ProductName::Crackers, 3),
        Product::new(ProductName::Soda, 15),
    ])
    .add_product(Product::new(ProductName::Water, 5))
    .add_coins(vec![Coin::One; 10]);
    vm.init()
}

#[test]
fn from_amount_pays_largest_coin_first() {
    assert_eq!(
        Money::from_amount(88).0,
        vec![Coin::Fifty, Coin::Twenty, Coin::Ten, Coin::Five, Coin::Two, Coin::One]
    );
    assert_eq!(Money::from_amount(0).0, vec![]);
    assert_eq!(Money::from_amount(4).0, vec![Coin::Two, Coin::Two]);
    assert_eq!(Money::from_amount(88).sum(), 88);
}

#[test]
fn sells_and_gives_change() {
    let vm = stocked();
    let mut vm = vm.choose_product(ProductName::Chips).unwrap();
    vm.insert_coin(Coin::Ten);

    let vm = match vm.try_get_product() {
        Err(Error::NotEnoughMoney(vm, money)) => {
            assert_eq!(money.0, vec![Coin::Ten]);
            vm
        }
        _ => panic!("expected too little money"),
    };

    let mut vm = vm.choose_product(ProductName::Chips).unwrap();
    vm.insert_coin(Coin::Ten);
    vm.insert_coin(Coin::Ten);
    let (_vm, product, rest) = match vm.try_get_product() {
        Ok(sale) => sale,
        Err(_) => panic!("expected a sale"),
    };
    assert_eq!(
        product,
        Product {
            name: ProductName::Chips,
            price: 19
        }
    );
    assert_eq!(rest.map(|m| m.0), Some(Money::from_amount(1).0));
}

#[test]
fn exact_payment_gives_no_change() {
    let vm = stocked();
    let mut vm = vm.choose_product(ProductName::Water).unwrap();
    vm.insert_coin(Coin::Five);
    match vm.try_get_product() {
        Ok((_, product, rest)) => {
            assert_eq!(product.name, ProductName::Water);
            assert!(rest.is_none());
        }
        Err(_) => panic!("expected a sale"),
    }
}

#[test]
fn sold_out_product_is_refused() {
    let mut vm = VendingMachine::with_coins(vec![Coin::Five]);
    vm.add_product(Product::new(ProductName::Soda, 15));
    let vm = vm.init();
    let mut vm = vm.choose_product(ProductName::Soda).unwrap();
    vm.insert_coin(Coin::Twenty);
    let vm = match vm.try_get_product() {
        Ok((vm, _, rest)) => {
            assert_eq!(rest.map(|m| m.0), Some(vec![Coin::Five]));
            vm
        }
        Err(_) => panic!("expected a sale"),
    };
    assert!(vm.stocks(ProductName::Soda));
    match vm.choose_product(ProductName::Soda) {
        Err(Error::NotEnoughProducts(_)) => {}
        _ => panic!("expected sold out"),
    }
}

#[test]
fn change_that_cannot_be_given_is_refused() {
    let mut vm = VendingMachine::with_coins(vec![Coin::Two, Coin::Two]);
    vm.add_product(Product::new(ProductName::Crackers, 3));
    let vm = vm.init();
    let mut vm = vm.choose_product(ProductName::Crackers).unwrap();
    vm.insert_coin(Coin::Ten);
    match vm.try_get_product() {
        Err(Error::CantGiveRest(_, money)) => assert_eq!(money.0, vec![Coin::Ten]),
        _ => panic!("expected no change"),
    }
}

#[test]
fn change_beyond_the_till_is_refused() {
    let mut vm = VendingMachine::default();
    vm.add_product(Product::new(ProductName::Crackers, 3));
    let vm = vm.init();
    let mut vm = vm.choose_product(ProductName::Crackers).unwrap();
    vm.insert_coin(Coin::Fifty);
    match vm.try_get_product() {
        Err(Error::CantGiveRest(_, money)) => assert_eq!(money.0, vec![Coin::Fifty]),
        _ => panic!("expected no change"),
    }
}

#[test]
fn unknown_product_is_not_stocked() {
    let vm = VendingMachine::default().init();
    assert!(!vm.stocks(ProductName::Water));
}
