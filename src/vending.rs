use vstd::prelude::*;

verus! {

/// What the machine sells.
#[derive(Debug, PartialEq, Eq, Structural, Clone, Copy)]
pub enum ProductName {
    ChocoBar,
    Chips,
    Crackers,
    Soda,
    Water,
}

/// A product and its price.
#[derive(Debug, PartialEq, Eq, Structural, Clone, Copy)]
pub struct Product {
    pub name: ProductName,
    pub price: usize,
}

impl Product {
    pub fn new(name: ProductName, price: usize) -> (r: Product)
        ensures
            r == (Product { name, price }),
    {
        Product { name, price }
    }
}

/// A coin that the machine takes and gives.
#[derive(Debug, PartialEq, Eq, Structural, Clone, Copy)]
pub enum Coin {
    One,
    Two,
    Five,
    Ten,
    Twenty,
    Fifty,
}

pub open spec fn coin_value(c: Coin) -> nat {
    match c {
        Coin::One => 1,
        Coin::Two => 2,
        Coin::Five => 5,
        Coin::Ten => 10,
        Coin::Twenty => 20,
        Coin::Fifty => 50,
    }
}

/// Where the machine counts coins of the kind of `c`.
pub open spec fn coin_slot(c: Coin) -> int {
    match c {
        Coin::One => 0,
        Coin::Two => 1,
        Coin::Five => 2,
        Coin::Ten => 3,
        Coin::Twenty => 4,
        Coin::Fifty => 5,
    }
}

impl Coin {
    /// What the coin is worth.
    pub fn value(&self) -> (r: usize)
        ensures
            r == coin_value(*self),
    {
        match self {
            Coin::One => 1,
            Coin::Two => 2,
            Coin::Five => 5,
            Coin::Ten => 10,
            Coin::Twenty => 20,
            Coin::Fifty => 50,
        }
    }

    fn slot(&self) -> (r: usize)
        ensures
            r == coin_slot(*self),
    {
        match self {
            Coin::One => 0,
            Coin::Two => 1,
            Coin::Five => 2,
            Coin::Ten => 3,
            Coin::Twenty => 4,
            Coin::Fifty => 5,
        }
    }
}

/// What the coins `s` are worth together.
pub open spec fn total(s: Seq<Coin>) -> nat
    decreases s.len(),
{
    if s.len() == 0 {
        0
    } else {
        coin_value(s[0]) + total(s.drop_first())
    }
}

/// The largest coin worth at most `a`, for `a > 0`.
pub open spec fn largest_coin(a: nat) -> Coin {
    if a >= 50 {
        Coin::Fifty
    } else if a >= 20 {
        Coin::Twenty
    } else if a >= 10 {
        Coin::Ten
    } else if a >= 5 {
        Coin::Five
    } else if a >= 2 {
        Coin::Two
    } else {
        Coin::One
    }
}

/// `a` paid out largest coin first.
pub open spec fn greedy(a: nat) -> Seq<Coin>
    decreases a,
{
    if a == 0 {
        Seq::empty()
    } else {
        seq![largest_coin(a)] + greedy((a - coin_value(largest_coin(a))) as nat)
    }
}

pub proof fn lemma_total_concat(a: Seq<Coin>, b: Seq<Coin>)
    ensures
        total(a + b) == total(a) + total(b),
    decreases a.len(),
{
    if a.len() > 0 {
        lemma_total_concat(a.drop_first(), b);
        assert((a + b).drop_first() =~= a.drop_first() + b);
    } else {
        assert(a + b =~= b);
    }
}

/// Paying out `a` largest coin first gives coins worth exactly `a`.
pub proof fn lemma_greedy_total(a: nat)
    ensures
        total(greedy(a)) == a,
    decreases a,
{
    if a > 0 {
        let c = largest_coin(a);
        lemma_greedy_total((a - coin_value(c)) as nat);
        assert((seq![c] + greedy((a - coin_value(c)) as nat)).drop_first() =~= greedy(
            (a - coin_value(c)) as nat,
        ));
    }
}

/// Coins.
#[derive(Debug)]
pub struct Money(pub Vec<Coin>);

impl Money {
    /// `amount` paid out largest coin first.
    pub fn from_amount(amount: usize) -> (r: Money)
        ensures
            r.0@ == greedy(amount as nat),
            total(r.0@) == amount,
    {
        let mut coins: Vec<Coin> = Vec::new();
        let ghost start = amount;
        let mut amount = amount;
        let ghost all = greedy(amount as nat);
        while amount != 0
            invariant
                coins@ + greedy(amount as nat) == all,
            decreases amount,
        {
            let c = if amount >= 50 {
                Coin::Fifty
            } else if amount >= 20 {
                Coin::Twenty
            } else if amount >= 10 {
                Coin::Ten
            } else if amount >= 5 {
                Coin::Five
            } else if amount >= 2 {
                Coin::Two
            } else {
                Coin::One
            };
            let ghost before = coins@;
            let v = c.value();
            proof {
                assert(c == largest_coin(amount as nat));
                assert(greedy(amount as nat) == seq![c] + greedy((amount - v) as nat));
            }
            coins.push(c);
            amount = amount - v;
            proof {
                assert(before + (seq![c] + greedy(amount as nat)) =~= coins@ + greedy(amount as nat));
            }
        }
        proof {
            assert(coins@ + greedy(0) =~= coins@);
            lemma_greedy_total(start as nat);
        }
        Money(coins)
    }

    /// What the coins are worth together.
    pub fn sum(&self) -> (r: usize)
        requires
            total(self.0@) <= usize::MAX,
        ensures
            r == total(self.0@),
    {
        let ghost s = self.0@;
        let mut acc: usize = 0;
        let mut i: usize = 0;
        assert(s.subrange(0, s.len() as int) =~= s);
        while i < self.0.len()
            invariant
                s == self.0@,
                i <= s.len(),
                total(s) <= usize::MAX,
                acc + total(s.subrange(i as int, s.len() as int)) == total(s),
            decreases s.len() - i,
        {
            proof {
                assert(s.subrange(i as int, s.len() as int).drop_first() =~= s.subrange(i + 1, s.len() as int));
            }
            acc = acc + self.0[i].value();
            i = i + 1;
        }
        proof {
            assert(s.subrange(i as int, s.len() as int) =~= Seq::<Coin>::empty());
        }
        acc
    }
}


/// What coin counts `t` are worth; `t` counts coins of each kind, in the
/// order of `coin_slot`.
pub open spec fn till_value(t: Seq<int>) -> int {
    t[0] + 2 * t[1] + 5 * t[2] + 10 * t[3] + 20 * t[4] + 50 * t[5]
}

/// Six counts, none negative.
pub open spec fn is_till(t: Seq<int>) -> bool {
    t.len() == 6 && forall|k: int| 0 <= k < 6 ==> t[k] >= 0
}

/// The counts `t` with the coins `s` added.
pub open spec fn deposit(t: Seq<int>, s: Seq<Coin>) -> Seq<int>
    decreases s.len(),
{
    if s.len() == 0 {
        t
    } else {
        deposit(t.update(coin_slot(s[0]), t[coin_slot(s[0])] + 1), s.drop_first())
    }
}

/// The counts `t` with the coins `s` taken out, one by one; `None` where a
/// coin is missing when its turn comes.
pub open spec fn withdraw(t: Seq<int>, s: Seq<Coin>) -> Option<Seq<int>>
    decreases s.len(),
{
    if s.len() == 0 {
        Some(t)
    } else if t[coin_slot(s[0])] <= 0 {
        None
    } else {
        withdraw(t.update(coin_slot(s[0]), t[coin_slot(s[0])] - 1), s.drop_first())
    }
}

/// No coins at all.
pub open spec fn empty_till() -> Seq<int> {
    seq![0int, 0int, 0int, 0int, 0int, 0int]
}

pub proof fn lemma_deposit_value(t: Seq<int>, s: Seq<Coin>)
    requires
        is_till(t),
    ensures
        is_till(deposit(t, s)),
        till_value(deposit(t, s)) == till_value(t) + total(s),
    decreases s.len(),
{
    if s.len() > 0 {
        lemma_deposit_value(t.update(coin_slot(s[0]), t[coin_slot(s[0])] + 1), s.drop_first());
    }
}

pub proof fn lemma_withdraw_value(t: Seq<int>, s: Seq<Coin>)
    requires
        is_till(t),
    ensures
        withdraw(t, s) is Some ==> is_till(withdraw(t, s).unwrap()) && till_value(
            withdraw(t, s).unwrap(),
        ) == till_value(t) - total(s),
    decreases s.len(),
{
    if s.len() > 0 && t[coin_slot(s[0])] > 0 {
        lemma_withdraw_value(t.update(coin_slot(s[0]), t[coin_slot(s[0])] - 1), s.drop_first());
    }
}

/// Whether the stock `st` has an entry for `p`.
pub open spec fn has_product(st: Seq<(Product, usize)>, p: Product) -> bool {
    exists|i: int| 0 <= i < st.len() && st[i].0 == p
}

/// The entry of the stock `st` for `p`.
pub open spec fn product_slot(st: Seq<(Product, usize)>, p: Product) -> int {
    choose|i: int| 0 <= i < st.len() && st[i].0 == p
}

/// Whether the stock `st` has an entry for a product named `n`.
pub open spec fn has_name(st: Seq<(Product, usize)>, n: ProductName) -> bool {
    exists|i: int| 0 <= i < st.len() && st[i].0.name == n
}

/// The entry of the stock `st` for the product named `n`.
pub open spec fn name_slot(st: Seq<(Product, usize)>, n: ProductName) -> int {
    choose|i: int| 0 <= i < st.len() && st[i].0.name == n
}

/// No two entries of `st` are for products of the same name.
pub open spec fn names_distinct(st: Seq<(Product, usize)>) -> bool {
    forall|i: int, j: int| 0 <= i < st.len() && 0 <= j < st.len() && i != j ==> st[i].0.name != st[j].0.name
}

/// Whether `p` may be stocked in `st`: no product of its name at another
/// price is there.
pub open spec fn fits_stock(st: Seq<(Product, usize)>, p: Product) -> bool {
    forall|i: int| 0 <= i < st.len() && (#[trigger] st[i]).0.name == p.name ==> st[i].0.price == p.price
}

/// The stock `st` with one more `p`.
pub open spec fn stock_add(st: Seq<(Product, usize)>, p: Product) -> Seq<(Product, usize)> {
    if has_product(st, p) {
        st.update(product_slot(st, p), (p, (st[product_slot(st, p)].1 + 1) as usize))
    } else {
        st.push((p, 1usize))
    }
}

/// The stock `st` with one `p` fewer.
pub open spec fn stock_take(st: Seq<(Product, usize)>, p: Product) -> Seq<(Product, usize)> {
    st.update(product_slot(st, p), (p, (st[product_slot(st, p)].1 - 1) as usize))
}

/// Being stocked and filled with coins.
#[derive(Debug)]
pub struct Maintenance;

/// Waiting for a customer to pick a product.
#[derive(Debug)]
pub struct WaitingForUserChoice;

/// A product is picked; waiting for its price in coins.
#[derive(Debug)]
pub struct WaitingForCoin {
    product: Product,
    inserted: Money,
}

/// A stage of the machine.
pub trait State {}

impl State for Maintenance {}
impl State for WaitingForUserChoice {}
impl State for WaitingForCoin {}

/// A vending machine in stage `S`: products in stock with their counts,
/// and the coins it holds, counted by kind.
#[derive(Debug)]
pub struct VendingMachine<S> {
    products: Vec<(Product, usize)>,
    coins: Vec<usize>,
    state: S,
}

/// Why a request to the machine failed; each hands the machine back.
#[derive(Debug)]
pub enum Error {
    /// The picked product is sold out.
    NotEnoughProducts(VendingMachine<WaitingForUserChoice>),
    /// The coins inserted, handed back, are less than the price.
    NotEnoughMoney(VendingMachine<WaitingForUserChoice>, Money),
    /// The machine cannot pay the change; the coins inserted are handed back.
    CantGiveRest(VendingMachine<WaitingForUserChoice>, Money),
}

impl<S> VendingMachine<S> {
    /// The products in stock, each with its count.
    pub closed spec fn stock(&self) -> Seq<(Product, usize)> {
        self.products@
    }

    /// How many coins of each kind the machine holds.
    pub closed spec fn till(&self) -> Seq<int> {
        self.coins@.map_values(|c: usize| c as int)
    }

    pub closed spec fn wf(&self) -> bool {
        &&& self.coins@.len() == 6
        &&& names_distinct(self.products@)
        &&& till_value(self.till()) <= usize::MAX
    }

    /// Whether a product named `name` is stocked, sold out or not.
    pub fn stocks(&self, name: ProductName) -> (r: bool)
        ensures
            r == has_name(self.stock(), name),
    {
        let mut i: usize = 0;
        while i < self.products.len()
            invariant
                i <= self.products@.len(),
                forall|j: int| 0 <= j < i ==> self.products@[j].0.name != name,
            decreases self.products@.len() - i,
        {
            if self.products[i].0.name == name {
                return true;
            }
            i = i + 1;
        }
        false
    }
}

proof fn lemma_till_nonneg(v: Seq<usize>)
    ensures
        is_till(v.map_values(|c: usize| c as int)) <== v.len() == 6,
{
    let t = v.map_values(|c: usize| c as int);
    assert forall|k: int| 0 <= k < t.len() implies t[k] >= 0 by {
        assert(t[k] == v[k] as int);
    }
}

/// Adds the coins `s` to the counts `counts`.
fn deposit_coins(counts: &mut Vec<usize>, s: &Vec<Coin>)
    requires
        old(counts)@.len() == 6,
        till_value(old(counts)@.map_values(|c: usize| c as int)) + total(s@) <= usize::MAX,
    ensures
        final(counts)@.len() == 6,
        final(counts)@.map_values(|c: usize| c as int) == deposit(
            old(counts)@.map_values(|c: usize| c as int),
            s@,
        ),
{
    let ghost t0 = counts@.map_values(|c: usize| c as int);
    let mut i: usize = 0;
    assert(s@.subrange(0, s@.len() as int) =~= s@);
    while i < s.len()
        invariant
            counts@.len() == 6,
            i <= s@.len(),
            deposit(counts@.map_values(|c: usize| c as int), s@.subrange(i as int, s@.len() as int))
                == deposit(t0, s@),
            till_value(counts@.map_values(|c: usize| c as int)) + total(
                s@.subrange(i as int, s@.len() as int),
            ) == till_value(t0) + total(s@),
            till_value(t0) + total(s@) <= usize::MAX,
        decreases s@.len() - i,
    {
        let ghost cur = counts@.map_values(|c: usize| c as int);
        let ghost rest = s@.subrange(i as int, s@.len() as int);
        proof {
            assert(rest.drop_first() =~= s@.subrange(i + 1, s@.len() as int));
            assert(rest[0] == s@[i as int]);
        }
        let k = s[i].slot();
        let v = counts[k];
        counts.set(k, v + 1);
        proof {
            assert(counts@.map_values(|c: usize| c as int) =~= cur.update(k as int, cur[k as int] + 1));
        }
        i = i + 1;
    }
    proof {
        assert(s@.subrange(i as int, s@.len() as int) =~= Seq::<Coin>::empty());
    }
}

/// Takes the coins `s` out of the counts `counts`; `false`, with `counts`
/// in some state, where a coin is missing.
fn withdraw_coins(counts: &mut Vec<usize>, s: &Vec<Coin>) -> (ok: bool)
    requires
        old(counts)@.len() == 6,
    ensures
        final(counts)@.len() == 6,
        ok == withdraw(old(counts)@.map_values(|c: usize| c as int), s@) is Some,
        ok ==> final(counts)@.map_values(|c: usize| c as int) == withdraw(
            old(counts)@.map_values(|c: usize| c as int),
            s@,
        ).unwrap(),
{
    let ghost t0 = counts@.map_values(|c: usize| c as int);
    let mut i: usize = 0;
    assert(s@.subrange(0, s@.len() as int) =~= s@);
    while i < s.len()
        invariant
            counts@.len() == 6,
            i <= s@.len(),
            t0 == old(counts)@.map_values(|c: usize| c as int),
            withdraw(counts@.map_values(|c: usize| c as int), s@.subrange(i as int, s@.len() as int))
                == withdraw(t0, s@),
        decreases s@.len() - i,
    {
        let ghost cur = counts@.map_values(|c: usize| c as int);
        let ghost rest = s@.subrange(i as int, s@.len() as int);
        proof {
            assert(rest.drop_first() =~= s@.subrange(i + 1, s@.len() as int));
            assert(rest[0] == s@[i as int]);
        }
        let k = s[i].slot();
        let v = counts[k];
        if v == 0 {
            proof {
                assert(cur[k as int] == 0);
                assert(coin_slot(rest[0]) == k as int);
                assert(withdraw(cur, rest) is None);
                assert(withdraw(t0, s@) is None);
            }
            return false;
        }
        counts.set(k, v - 1);
        proof {
            assert(counts@.map_values(|c: usize| c as int) =~= cur.update(k as int, cur[k as int] - 1));
        }
        i = i + 1;
    }
    proof {
        assert(s@.subrange(i as int, s@.len() as int) =~= Seq::<Coin>::empty());
    }
    true
}

fn empty_counts() -> (r: Vec<usize>)
    ensures
        r@.len() == 6,
        r@.map_values(|c: usize| c as int) == empty_till(),
{
    let r = vec![0usize, 0, 0, 0, 0, 0];
    assert(r@.map_values(|c: usize| c as int) =~= empty_till());
    r
}

impl Default for VendingMachine<Maintenance> {
    /// A machine with no products and no coins.
    fn default() -> (r: VendingMachine<Maintenance>)
        ensures
            r.wf(),
            r.stock() == Seq::<(Product, usize)>::empty(),
            r.till() == empty_till(),
    {
        let r = VendingMachine { products: Vec::new(), coins: empty_counts(), state: Maintenance };
        assert(r.stock() =~= Seq::<(Product, usize)>::empty());
        r
    }
}

impl VendingMachine<Maintenance> {
    /// A machine with no products that holds `amount` paid out largest
    /// coin first.
    pub fn with_money_amount(amount: usize) -> (r: VendingMachine<Maintenance>)
        ensures
            r.wf(),
            r.stock() == Seq::<(Product, usize)>::empty(),
            r.till() == deposit(empty_till(), greedy(amount as nat)),
    {
        let money = Money::from_amount(amount);
        VendingMachine::with_coins(money.0)
    }

    /// A machine with no products that holds the coins `coins`.
    pub fn with_coins(coins: Vec<Coin>) -> (r: VendingMachine<Maintenance>)
        requires
            total(coins@) <= usize::MAX,
        ensures
            r.wf(),
            r.stock() == Seq::<(Product, usize)>::empty(),
            r.till() == deposit(empty_till(), coins@),
    {
        let mut counts = empty_counts();
        deposit_coins(&mut counts, &coins);
        proof {
            lemma_deposit_value(empty_till(), coins@);
        }
        let r = VendingMachine { products: Vec::new(), coins: counts, state: Maintenance };
        assert(r.stock() =~= Seq::<(Product, usize)>::empty());
        r
    }

    /// Stocks one more `product`.
    pub fn add_product(&mut self, product: Product) -> (r: &mut VendingMachine<Maintenance>)
        requires
            old(self).wf(),
            fits_stock(old(self).stock(), product),
            has_product(old(self).stock(), product) ==> old(self).stock()[product_slot(
                old(self).stock(),
                product,
            )].1 < usize::MAX,
        ensures
            r.wf(),
            r.stock() == stock_add(old(self).stock(), product),
            r.till() == old(self).till(),
            *final(self) == *final(r),
    {
        let ghost st = self.products@;
        let mut i: usize = 0;
        while i < self.products.len()
            invariant
                self.products@ == st,
                st == old(self).products@,
                self.coins@ == old(self).coins@,
                old(self).wf(),
                has_product(st, product) ==> st[product_slot(st, product)].1 < usize::MAX,
                i <= st.len(),
                forall|j: int| 0 <= j < i ==> st[j].0 != product,
            decreases st.len() - i,
        {
            if self.products[i].0 == product {
                let n = self.products[i].1;
                proof {
                    assert(has_product(st, product));
                    let k = product_slot(st, product);
                    assert(st[k].0 == product);
                    assert(st[k].0.name == st[i as int].0.name);
                    assert(k == i as int);
                }
                self.products.set(i, (product, n + 1));
                return self;
            }
            i = i + 1;
        }
        proof {
            assert(!has_product(st, product));
        }
        self.products.push((product, 1));
        proof {
            let n = self.products@;
            assert forall|a: int, b: int| 0 <= a < n.len() && 0 <= b < n.len() && a != b implies n[a].0.name != n[b].0.name by {
                if a == st.len() as int && b < st.len() {
                    assert(st[b].0.name == product.name ==> st[b].0.price == product.price);
                } else if b == st.len() as int && a < st.len() {
                    assert(st[a].0.name == product.name ==> st[a].0.price == product.price);
                }
            }
        }
        self
    }

    /// Stocks one more of each of `products`, in order.
    pub fn add_products(&mut self, products: Vec<Product>) -> (r: &mut VendingMachine<Maintenance>)
        requires
            old(self).wf(),
            forall|i: int| 0 <= i < products@.len() ==> fits_stock(old(self).stock(), #[trigger] products@[i]),
            forall|i: int, j: int| 0 <= i < products@.len() && 0 <= j < products@.len()
                && products@[i].name == products@[j].name ==> products@[i].price == products@[j].price,
            forall|i: int| 0 <= i < old(self).stock().len() ==> old(self).stock()[i].1 + products@.len() <= usize::MAX,
        ensures
            r.wf(),
            r.stock() == stock_add_all(old(self).stock(), products@),
            r.till() == old(self).till(),
            *final(self) == *final(r),
    {
        let ghost st0 = self.products@;
        let mut i: usize = 0;
        assert(products@.subrange(0, products@.len() as int) =~= products@);
        while i < products.len()
            invariant
                self.wf(),
                i <= products@.len(),
                self.till() == old(self).till(),
                stock_add_all(self.stock(), products@.subrange(i as int, products@.len() as int))
                    == stock_add_all(st0, products@),
                forall|j: int| i <= j < products@.len() ==> fits_stock(self.stock(), #[trigger] products@[j]),
                forall|j: int| 0 <= j < products@.len() ==> fits_stock(st0, #[trigger] products@[j]),
                forall|a: int, b: int| 0 <= a < products@.len() && 0 <= b < products@.len()
                    && products@[a].name == products@[b].name ==> products@[a].price == products@[b].price,
                forall|k: int| 0 <= k < self.stock().len() ==> self.stock()[k].1 + products@.len() - i <= usize::MAX,
            decreases products@.len() - i,
        {
            let p = products[i];
            let ghost st = self.stock();
            let ghost rest = products@.subrange(i as int, products@.len() as int);
            proof {
                assert(rest.drop_first() =~= products@.subrange(i + 1, products@.len() as int));
                assert(rest[0] == p);
                if has_product(st, p) {
                    let k = product_slot(st, p);
                    assert(st[k].1 + products@.len() - i <= usize::MAX);
                }
            }
            self.add_product(p);
            proof {
                let n = self.stock();
                assert forall|j: int| i + 1 <= j < products@.len() implies fits_stock(n, #[trigger] products@[j]) by {
                    let q = products@[j];
                    assert(fits_stock(st, q));
                    assert forall|k: int| 0 <= k < n.len() && (#[trigger] n[k]).0.name == q.name implies n[k].0.price == q.price by {
                        if k < st.len() && n[k] != st[k] {
                            assert(n[k].0 == p);
                        } else if k >= st.len() {
                            assert(n[k].0 == p);
                        }
                    }
                }
                assert forall|k: int| 0 <= k < n.len() implies n[k].1 + products@.len() - (i + 1) <= usize::MAX by {
                    if k < st.len() && n[k] != st[k] {
                    } else if k >= st.len() {
                    }
                }
            }
            i = i + 1;
        }
        proof {
            assert(products@.subrange(i as int, products@.len() as int) =~= Seq::<Product>::empty());
        }
        self
    }

    /// Adds the coins `coins` to those the machine holds.
    pub fn add_coins(&mut self, coins: Vec<Coin>) -> (r: &mut VendingMachine<Maintenance>)
        requires
            old(self).wf(),
            till_value(old(self).till()) + total(coins@) <= usize::MAX,
        ensures
            r.wf(),
            r.stock() == old(self).stock(),
            r.till() == deposit(old(self).till(), coins@),
            *final(self) == *final(r),
    {
        deposit_coins(&mut self.coins, &coins);
        proof {
            lemma_till_nonneg(old(self).coins@);
            lemma_deposit_value(old(self).till(), coins@);
        }
        self
    }

    /// Opens the machine to customers, with everything it holds; the
    /// machine under maintenance is left empty.
    pub fn init(&mut self) -> (r: VendingMachine<WaitingForUserChoice>)
        requires
            old(self).wf(),
        ensures
            r.wf(),
            r.stock() == old(self).stock(),
            r.till() == old(self).till(),
            final(self).wf(),
            final(self).stock() == Seq::<(Product, usize)>::empty(),
            final(self).till() == empty_till(),
    {
        let mut products: Vec<(Product, usize)> = Vec::new();
        std::mem::swap(&mut products, &mut self.products);
        let mut coins = empty_counts();
        std::mem::swap(&mut coins, &mut self.coins);
        assert(self.stock() =~= Seq::<(Product, usize)>::empty());
        VendingMachine { products, coins, state: WaitingForUserChoice }
    }
}

/// The stock `st` with one more of each of `ps`, in order.
pub open spec fn stock_add_all(st: Seq<(Product, usize)>, ps: Seq<Product>) -> Seq<(Product, usize)>
    decreases ps.len(),
{
    if ps.len() == 0 {
        st
    } else {
        stock_add_all(stock_add(st, ps[0]), ps.drop_first())
    }
}


/// The coins held after selling at `price` to a customer who inserted
/// `ins`, from the counts `t`: the inserted coins go in and the change,
/// `total(ins) - price` paid out largest coin first, comes out. `None`
/// where the change exceeds what `t` is worth, or a coin of it is missing.
pub open spec fn sale_till(t: Seq<int>, ins: Seq<Coin>, price: nat) -> Option<Seq<int>> {
    let rest = total(ins) - price;
    if rest == 0 {
        Some(deposit(t, ins))
    } else if rest > till_value(t) {
        None
    } else {
        withdraw(deposit(t, ins), greedy(rest as nat))
    }
}

fn copy_counts(c: &Vec<usize>) -> (r: Vec<usize>)
    requires
        c@.len() == 6,
    ensures
        r@ == c@,
{
    let r = vec![c[0], c[1], c[2], c[3], c[4], c[5]];
    assert(r@ =~= c@);
    r
}

/// Takes one `p` out of the stock `products`.
fn take_one(products: &mut Vec<(Product, usize)>, p: Product)
    requires
        names_distinct(old(products)@),
        has_product(old(products)@, p),
        old(products)@[product_slot(old(products)@, p)].1 >= 1,
    ensures
        final(products)@ == stock_take(old(products)@, p),
        names_distinct(final(products)@),
{
    let ghost st = products@;
    let ghost k = product_slot(st, p);
    let mut i: usize = 0;
    while i < products.len()
        invariant
            products@ == st,
            st == old(products)@,
            names_distinct(st),
            0 <= k < st.len(),
            st[k].0 == p,
            st[k].1 >= 1,
            k == product_slot(st, p),
            i <= k,
        decreases st.len() - i,
    {
        if products[i].0 == p {
            proof {
                assert(st[k].0.name == st[i as int].0.name);
                assert(i as int == k);
            }
            let n = products[i].1;
            products.set(i, (p, n - 1));
            proof {
                let f = products@;
                assert forall|a: int, b: int| 0 <= a < f.len() && 0 <= b < f.len() && a != b implies f[a].0.name != f[b].0.name by {
                    assert(f[a].0.name == st[a].0.name);
                    assert(f[b].0.name == st[b].0.name);
                }
            }
            return;
        }
        proof {
            assert(i != k);
        }
        i = i + 1;
    }
}

impl VendingMachine<WaitingForUserChoice> {
    /// Picks the product named `name`; refused where it is sold out.
    pub fn choose_product(self, name: ProductName) -> (r: Result<VendingMachine<WaitingForCoin>, Error>)
        requires
            self.wf(),
            has_name(self.stock(), name),
        ensures
            ({
                let i = name_slot(self.stock(), name);
                &&& self.stock()[i].1 == 0 ==> match r {
                    Err(Error::NotEnoughProducts(m)) => m.wf() && m.stock() == self.stock()
                        && m.till() == self.till(),
                    _ => false,
                }
                &&& self.stock()[i].1 > 0 ==> match r {
                    Ok(m) => m.ready() && m.stock() == self.stock() && m.till() == self.till()
                        && m.chosen() == self.stock()[i].0 && m.inserted() == Seq::<Coin>::empty(),
                    _ => false,
                }
            }),
    {
        let ghost st = self.products@;
        let ghost k = name_slot(st, name);
        let mut i: usize = 0;
        while i < self.products.len()
            invariant
                self.products@ == st,
                self.wf(),
                self.stock() == st,
                k == name_slot(self.stock(), name),
                names_distinct(st),
                0 <= k < st.len(),
                st[k].0.name == name,
                i <= k,
            decreases st.len() - i,
        {
            if self.products[i].0.name == name {
                proof {
                    assert(i as int == k);
                }
                let (product, amount) = self.products[i];
                if amount == 0 {
                    return Err(
                        Error::NotEnoughProducts(
                            VendingMachine {
                                products: self.products,
                                coins: self.coins,
                                state: WaitingForUserChoice,
                            },
                        ),
                    );
                }
                let m = VendingMachine {
                    products: self.products,
                    coins: self.coins,
                    state: WaitingForCoin { product, inserted: Money(Vec::new()) },
                };
                proof {
                    assert(has_product(st, product));
                    let j = product_slot(st, product);
                    assert(st[j].0.name == st[k].0.name);
                    assert(m.inserted() =~= Seq::<Coin>::empty());
                    lemma_till_nonneg(self.coins@);
                }
                return Ok(m);
            }
            i = i + 1;
        }
        proof {
            assert(false);
        }
        Err(
            Error::NotEnoughProducts(
                VendingMachine { products: self.products, coins: self.coins, state: WaitingForUserChoice },
            ),
        )
    }
}

impl VendingMachine<WaitingForCoin> {
    /// The product picked.
    pub closed spec fn chosen(&self) -> Product {
        self.state.product
    }

    /// The coins inserted so far.
    pub closed spec fn inserted(&self) -> Seq<Coin> {
        self.state.inserted.0@
    }

    /// The picked product is in stock, and all the money fits in `usize`.
    pub closed spec fn ready(&self) -> bool {
        &&& self.wf()
        &&& has_product(self.stock(), self.chosen())
        &&& self.stock()[product_slot(self.stock(), self.chosen())].1 >= 1
        &&& till_value(self.till()) + total(self.inserted()) <= usize::MAX
    }

    /// Inserts `coin`.
    pub fn insert_coin(&mut self, coin: Coin)
        requires
            old(self).ready(),
            till_value(old(self).till()) + total(old(self).inserted()) + coin_value(coin) <= usize::MAX,
        ensures
            final(self).ready(),
            final(self).stock() == old(self).stock(),
            final(self).till() == old(self).till(),
            final(self).chosen() == old(self).chosen(),
            final(self).inserted() == old(self).inserted().push(coin),
    {
        self.state.inserted.0.push(coin);
        proof {
            lemma_total_concat(old(self).inserted(), seq![coin]);
            assert(old(self).inserted() + seq![coin] =~= self.inserted());
            assert(seq![coin].drop_first() =~= Seq::<Coin>::empty());
            assert(total(Seq::<Coin>::empty()) == 0);
            assert(total(seq![coin]) == coin_value(coin));
            assert(self.stock() == old(self).stock());
            assert(self.till() == old(self).till());
            assert(self.chosen() == old(self).chosen());
        }
    }

    /// The coins held after giving change `rest` for the coins inserted,
    /// and that change; `None` where it cannot be given.
    fn calc_rest(&self, rest: usize) -> (r: Option<(Vec<usize>, Money)>)
        requires
            self.ready(),
            rest > 0,
        ensures
            r is Some <==> !(rest > till_value(self.till())) && withdraw(
                deposit(self.till(), self.inserted()),
                greedy(rest as nat),
            ) is Some,
            r is Some ==> r.unwrap().0@.map_values(|c: usize| c as int) == withdraw(
                deposit(self.till(), self.inserted()),
                greedy(rest as nat),
            ).unwrap(),
            r is Some ==> r.unwrap().0@.len() == 6,
            r is Some ==> r.unwrap().1.0@ == greedy(rest as nat),
    {
        let change = Money::from_amount(rest);
        let c = &self.coins;
        proof {
            lemma_till_nonneg(self.coins@);
            assert(self.till()[0] == c@[0] as int);
            assert(self.till()[1] == c@[1] as int);
            assert(self.till()[2] == c@[2] as int);
            assert(self.till()[3] == c@[3] as int);
            assert(self.till()[4] == c@[4] as int);
            assert(self.till()[5] == c@[5] as int);
        }
        let machine_money = c[0] + 2 * c[1] + 5 * c[2] + 10 * c[3] + 20 * c[4] + 50 * c[5];
        if rest > machine_money {
            return None;
        }
        let mut counts = copy_counts(&self.coins);
        deposit_coins(&mut counts, &self.state.inserted.0);
        if withdraw_coins(&mut counts, &change.0) {
            Some((counts, change))
        } else {
            None
        }
    }

    /// Sells the picked product for the coins inserted, giving change
    /// largest coin first. Refused, with the coins handed back and the
    /// machine as it was, where they are worth less than the price or the
    /// change cannot be given.
    pub fn try_get_product(self) -> (r: Result<
        (VendingMachine<WaitingForUserChoice>, Product, Option<Money>),
        Error,
    >)
        requires
            self.ready(),
        ensures
            ({
                let ins = self.inserted();
                let price = self.chosen().price as nat;
                let sale = sale_till(self.till(), ins, price);
                &&& total(ins) < price ==> match r {
                    Err(Error::NotEnoughMoney(m, back)) => m.wf() && m.stock() == self.stock()
                        && m.till() == self.till() && back.0@ == ins,
                    _ => false,
                }
                &&& total(ins) >= price && sale is None ==> match r {
                    Err(Error::CantGiveRest(m, back)) => m.wf() && m.stock() == self.stock()
                        && m.till() == self.till() && back.0@ == ins,
                    _ => false,
                }
                &&& total(ins) >= price && sale is Some ==> match r {
                    Ok((m, p, change)) => {
                        &&& m.wf()
                        &&& m.stock() == stock_take(self.stock(), self.chosen())
                        &&& m.till() == sale.unwrap()
                        &&& p == self.chosen()
                        &&& total(ins) == price ==> change is None
                        &&& total(ins) > price ==> change is Some && change.unwrap().0@ == greedy(
                            (total(ins) - price) as nat,
                        )
                    },
                    _ => false,
                }
            }),
    {
        let paid = self.state.inserted.sum();
        let price = self.state.product.price;
        proof {
            lemma_till_nonneg(self.coins@);
            lemma_deposit_value(self.till(), self.inserted());
        }
        if paid < price {
            let VendingMachine { products, coins, state } = self;
            return Err(
                Error::NotEnoughMoney(
                    VendingMachine { products, coins, state: WaitingForUserChoice },
                    state.inserted,
                ),
            );
        }
        let rest = paid - price;
        let (new_coins, change) = if rest == 0 {
            let mut counts = copy_counts(&self.coins);
            deposit_coins(&mut counts, &self.state.inserted.0);
            (counts, None)
        } else {
            match self.calc_rest(rest) {
                Some((counts, money)) => {
                    proof {
                        lemma_withdraw_value(
                            deposit(self.till(), self.inserted()),
                            greedy(rest as nat),
                        );
                    }
                    (counts, Some(money))
                },
                None => {
                    let VendingMachine { products, coins, state } = self;
                    return Err(
                        Error::CantGiveRest(
                            VendingMachine { products, coins, state: WaitingForUserChoice },
                            state.inserted,
                        ),
                    );
                },
            }
        };
        let VendingMachine { mut products, coins, state } = self;
        take_one(&mut products, state.product);
        let m = VendingMachine { products, coins: new_coins, state: WaitingForUserChoice };
        proof {
            lemma_till_nonneg(m.coins@);
            lemma_greedy_total(rest as nat);
        }
        Ok((m, state.product, change))
    }
}

} // verus!
