//! Per-symbol lot and tick rules, and the normaliser that truncates raw
//! quantities and prices onto the exchange's grid.

use vstd::prelude::*;
use vstd::string::StringSliceAdditionalSpecFns;
use vstd::arithmetic::div_mod::{lemma_fundamental_div_mod, lemma_mod_multiples_basic};
use crate::fixed::{SCALE, DECIMALS, pow10, amount_of, parse_amount};

verus! {

/// A power-of-ten multiplier `10^n` with `n <= 8`, as derived from a step size.
pub open spec fn valid_multiplier(m: u64) -> bool {
    0 < m <= SCALE && SCALE as int % m as int == 0
}

/// `floor(x * m) / m` on amounts of `SCALE` units: `x` cut down to the grid of `1/m`.
pub open spec fn truncated(x: int, m: int) -> int {
    let g = SCALE as int / m;
    x / g * g
}

/// The least number of decimal places, from `n` on, that writes `units` exactly.
pub open spec fn places_from(units: nat, n: nat) -> nat
    decreases DECIMALS - n,
{
    if n >= DECIMALS || units % pow10((DECIMALS - n) as nat) == 0 {
        n
    } else {
        places_from(units, n + 1)
    }
}

/// The multiplier `10^n` of a step of `units`, `n` its count of decimal places.
pub open spec fn step_multiplier(units: nat) -> nat {
    pow10(places_from(units, 0))
}

/// What `move_decimal` returns for the text `b` of a step size.
pub open spec fn multiplier_of(b: Seq<u8>) -> Option<u64> {
    match amount_of(b) {
        Some(u) => if u > 0 {
            Some(step_multiplier(u as nat) as u64)
        } else {
            None
        },
        None => None,
    }
}

/// The exchange rules of one symbol. Amounts are in units of `SCALE`.
pub struct QuantityInfo {
    pub symbol: String,
    pub min_qty: u64,
    pub max_qty: u64,
    /// Quantity step size.
    pub step_qty: u64,
    /// Price tick size.
    pub step_price: u64,
    /// `10^n` for the quantity step's `n` decimal places.
    pub move_qty: u64,
    /// `10^n` for the tick's `n` decimal places.
    pub move_price: u64,
}

impl QuantityInfo {
    pub open spec fn wf(&self) -> bool {
        valid_multiplier(self.move_qty) && valid_multiplier(self.move_price)
    }

    /// The multipliers are powers of ten that the normaliser can use.
    pub fn is_valid(&self) -> (r: bool)
        ensures
            r == self.wf(),
    {
        self.move_qty > 0 && self.move_qty <= SCALE && SCALE % self.move_qty == 0 && self.move_price > 0
            && self.move_price <= SCALE && SCALE % self.move_price == 0
    }

    /// `qty` truncated to this symbol's lot grid.
    pub fn normalize_quantity(&self, qty: u64) -> (r: u64)
        requires
            self.wf(),
        ensures
            r == truncated(qty as int, self.move_qty as int),
            r <= qty,
    {
        truncate_to(qty, self.move_qty)
    }

    /// `price` truncated to this symbol's tick grid.
    pub fn normalize_price(&self, price: u64) -> (r: u64)
        requires
            self.wf(),
        ensures
            r == truncated(price as int, self.move_price as int),
            r <= price,
    {
        truncate_to(price, self.move_price)
    }

    /// The rules of `symbol` from the text of its lot and price filters.
    /// `None` where a value is not a decimal numeral or a step is zero.
    pub fn from_filters(symbol: &str, min_qty: &str, max_qty: &str, step_size: &str, tick_size: &str)
        -> (r: Option<QuantityInfo>)
        ensures
            r matches Some(q) ==> {
                &&& q.symbol@ == symbol@
                &&& Some(q.min_qty) == amount_of(min_qty.spec_bytes())
                &&& Some(q.max_qty) == amount_of(max_qty.spec_bytes())
                &&& Some(q.step_qty) == amount_of(step_size.spec_bytes())
                &&& Some(q.step_price) == amount_of(tick_size.spec_bytes())
                &&& Some(q.move_qty) == multiplier_of(step_size.spec_bytes())
                &&& Some(q.move_price) == multiplier_of(tick_size.spec_bytes())
                &&& q.wf()
            },
            r is None <==> (amount_of(min_qty.spec_bytes()) is None || amount_of(
                max_qty.spec_bytes(),
            ) is None || multiplier_of(step_size.spec_bytes()) is None || multiplier_of(
                tick_size.spec_bytes(),
            ) is None),
    {
        let min = parse_amount(min_qty);
        let max = parse_amount(max_qty);
        let step_q = parse_amount(step_size);
        let step_p = parse_amount(tick_size);
        let move_q = move_decimal(step_size);
        let move_p = move_decimal(tick_size);
        match (min, max, step_q, step_p, move_q, move_p) {
            (Some(a), Some(b), Some(c), Some(d), Some(e), Some(f)) => Some(
                QuantityInfo {
                    symbol: symbol.to_string(),
                    min_qty: a,
                    max_qty: b,
                    step_qty: c,
                    step_price: d,
                    move_qty: e,
                    move_price: f,
                },
            ),
            _ => None,
        }
    }
}

impl Default for QuantityInfo {
    fn default() -> (r: QuantityInfo)
        ensures
            r.symbol@ == Seq::<char>::empty(),
            r.min_qty == 0 && r.max_qty == 0,
            r.step_qty == 0 && r.step_price == 0,
            r.move_qty == 0 && r.move_price == 0,
    {
        QuantityInfo {
            symbol: String::new(),
            min_qty: 0,
            max_qty: 0,
            step_qty: 0,
            step_price: 0,
            move_qty: 0,
            move_price: 0,
        }
    }
}

pub(crate) fn truncate_to(x: u64, m: u64) -> (r: u64)
    requires
        valid_multiplier(m),
    ensures
        r == truncated(x as int, m as int),
        r <= x,
{
    let g = SCALE / m;
    proof {
        assert(g > 0) by (nonlinear_arith)
            requires
                g == SCALE as int / m as int,
                0 < m <= SCALE,
        ;
        lemma_fundamental_div_mod(x as int, g as int);
        assert((x / g) * g <= x) by (nonlinear_arith)
            requires
                g > 0,
                x == g * (x / g) + x % g,
                x % g >= 0,
        ;
    }
    x / g * g
}

/// The multiplier `10^n` of a step size written in text, `n` being the
/// count of its decimal places ("0.00100000" gives 1000, "1.00000000" gives 1).
/// `None` where the text is not a decimal numeral or the step is zero.
pub fn move_decimal(step: &str) -> (r: Option<u64>)
    ensures
        r == multiplier_of(step.spec_bytes()),
        r matches Some(m) ==> valid_multiplier(m),
{
    let units = match parse_amount(step) {
        Some(u) => u,
        None => return None,
    };
    if units == 0 {
        return None;
    }
    let mut n: u64 = 0;
    let mut m: u64 = 1;
    let mut g: u64 = SCALE;
    proof {
        lemma_pow10_values();
    }
    while n < DECIMALS && units % g != 0
        invariant
            n <= DECIMALS,
            m as nat == pow10(n as nat),
            g as nat == pow10((DECIMALS - n) as nat),
            m * g == SCALE,
            places_from(units as nat, 0) == places_from(units as nat, n as nat),
        decreases DECIMALS - n,
    {
        proof {
            lemma_pow10_values();
            assert(pow10((DECIMALS - n) as nat) == 10 * pow10((DECIMALS - n - 1) as nat));
        }
        n = n + 1;
        m = m * 10;
        g = g / 10;
        assert(m * g == SCALE) by (nonlinear_arith)
            requires
                m == (m / 10) * 10,
                (m / 10) * (g * 10) == SCALE,
        ;
    }
    proof {
        assert(g > 0) by (nonlinear_arith)
            requires
                m * g == SCALE,
        ;
        assert(SCALE as int % m as int == 0) by (nonlinear_arith)
            requires
                m * g == SCALE,
                m > 0,
                g > 0,
        ;
        assert(m <= SCALE) by (nonlinear_arith)
            requires
                m * g == SCALE,
                g > 0,
        ;
    }
    Some(m)
}

proof fn lemma_pow10_values()
    ensures
        pow10(0) == 1,
        forall|k: nat| k > 0 ==> #[trigger] pow10(k) == 10 * pow10((k - 1) as nat),
        pow10(DECIMALS as nat) == SCALE,
{
    reveal_with_fuel(pow10, 9);
    assert forall|k: nat| k > 0 implies #[trigger] pow10(k) == 10 * pow10((k - 1) as nat) by {}
}

/// The step is exactly the grid of its multiplier: a power of ten.
pub open spec fn step_on_grid(step: u64, m: u64) -> bool {
    step * m == SCALE
}

/// For every symbol whose step size is the grid of its multiplier (a power
/// of ten), a normalised quantity is at most the raw one and a whole number
/// of steps.
pub proof fn lemma_normalize_on_step(info: QuantityInfo, qty: u64)
    requires
        info.wf(),
        step_on_grid(info.step_qty, info.move_qty),
    ensures
        0 <= truncated(qty as int, info.move_qty as int) <= qty,
        truncated(qty as int, info.move_qty as int) % (info.step_qty as int) == 0,
{
    let m = info.move_qty;
    let step = info.step_qty;
    let g = SCALE as int / m as int;
    assert(step > 0) by (nonlinear_arith)
        requires
            step * m == SCALE,
    ;
    assert(g == step) by (nonlinear_arith)
        requires
            step * m == SCALE,
            m > 0,
            g == SCALE as int / m as int,
    ;
    lemma_fundamental_div_mod(qty as int, g);
    lemma_mod_multiples_basic(qty as int / g, g);
    assert(qty as int / g >= 0) by (nonlinear_arith)
        requires
            qty >= 0,
            g > 0,
    ;
    assert(qty as int / g * g >= 0) by (nonlinear_arith)
        requires
            qty as int / g >= 0,
            g > 0,
    ;
}

/// A symbol that has no loaded rules.
pub struct UnknownSymbol {
    pub symbol: String,
}

/// The rules of every symbol that a ring names, one entry per symbol.
pub struct QuantityTable {
    pub infos: Vec<QuantityInfo>,
}

impl QuantityTable {
    pub open spec fn wf(&self) -> bool {
        &&& forall|i: int| 0 <= i < self.infos.len() ==> (#[trigger] self.infos[i]).wf()
        &&& forall|i: int, j: int|
            0 <= i < self.infos.len() && 0 <= j < self.infos.len() && i != j
                ==> (#[trigger] self.infos[i]).symbol@ != (#[trigger] self.infos[j]).symbol@
    }

    pub open spec fn has(&self, sym: Seq<char>) -> bool {
        exists|i: int| 0 <= i < self.infos.len() && (#[trigger] self.infos[i]).symbol@ == sym
    }

    /// The rules of `sym`, where `has(sym)`.
    pub open spec fn info(&self, sym: Seq<char>) -> QuantityInfo {
        self.infos[choose|i: int| 0 <= i < self.infos.len() && (#[trigger] self.infos[i]).symbol@ == sym]
    }

    pub proof fn lemma_info_at(&self, i: int)
        requires
            self.wf(),
            0 <= i < self.infos.len(),
        ensures
            self.has(self.infos[i].symbol@),
            self.info(self.infos[i].symbol@) == self.infos[i],
            self.info(self.infos[i].symbol@).wf(),
    {
        let sym = self.infos[i].symbol@;
        assert(self.has(sym));
        let j = choose|j: int| 0 <= j < self.infos.len() && (#[trigger] self.infos[j]).symbol@ == sym;
        if i != j {
            assert(self.infos[i].symbol@ != self.infos[j].symbol@);
        }
    }

    pub fn new() -> (r: QuantityTable)
        ensures
            r.infos@.len() == 0,
            r.wf(),
    {
        QuantityTable { infos: Vec::new() }
    }

    /// The position of `symbol`'s rules.
    pub fn find(&self, symbol: &String) -> (r: Option<usize>)
        ensures
            match r {
                Some(i) => i < self.infos.len() && self.infos[i as int].symbol@ == symbol@,
                None => !self.has(symbol@),
            },
    {
        let mut i: usize = 0;
        while i < self.infos.len()
            invariant
                i <= self.infos.len(),
                forall|j: int| 0 <= j < i ==> (#[trigger] self.infos[j]).symbol@ != symbol@,
            decreases self.infos.len() - i,
        {
            if self.infos[i].symbol == *symbol {
                return Some(i);
            }
            i = i + 1;
        }
        None
    }

    /// Records `info`, in place of the rules its symbol had before.
    pub fn insert(&mut self, info: QuantityInfo)
        requires
            old(self).wf(),
            info.wf(),
        ensures
            final(self).wf(),
            final(self).has(info.symbol@),
            final(self).info(info.symbol@) == info,
            forall|s: Seq<char>| s != info.symbol@ ==> (#[trigger] final(self).has(s)) == old(self).has(s),
            forall|s: Seq<char>|
                s != info.symbol@ && old(self).has(s) ==> (#[trigger] final(self).info(s)) == old(self).info(s),
    {
        let ghost sym = info.symbol@;
        let ghost pre = *self;
        let ghost mut pos: int = self.infos.len() as int;
        match self.find(&info.symbol) {
            Some(i) => {
                self.infos.set(i, info);
                proof {
                    pos = i as int;
                }
            },
            None => {
                self.infos.push(info);
            },
        }
        proof {
            self.lemma_info_at(pos);
            assert forall|s: Seq<char>| s != sym implies (#[trigger] self.has(s)) == pre.has(s) by {
                self.lemma_other_symbol(pre, sym, s);
            }
            assert forall|s: Seq<char>| s != sym && pre.has(s) implies (#[trigger] self.info(s)) == pre.info(s) by {
                self.lemma_other_symbol(pre, sym, s);
            }
        }
    }

    proof fn lemma_other_symbol(&self, pre: QuantityTable, sym: Seq<char>, s: Seq<char>)
        requires
            self.wf(),
            pre.wf(),
            s != sym,
            pre.infos.len() <= self.infos.len() <= pre.infos.len() + 1,
            forall|j: int| 0 <= j < self.infos.len() && self.infos[j].symbol@ != sym
                ==> j < pre.infos.len() && #[trigger] self.infos[j] == pre.infos[j],
            forall|j: int| 0 <= j < pre.infos.len() && pre.infos[j].symbol@ != sym
                ==> #[trigger] self.infos[j] == pre.infos[j],
        ensures
            self.has(s) == pre.has(s),
            pre.has(s) ==> self.info(s) == pre.info(s),
    {
        if pre.has(s) {
            let j = choose|j: int| 0 <= j < pre.infos.len() && (#[trigger] pre.infos[j]).symbol@ == s;
            pre.lemma_info_at(j);
            assert(self.infos[j] == pre.infos[j]);
            self.lemma_info_at(j);
        }
        if self.has(s) {
            let j = choose|j: int| 0 <= j < self.infos.len() && (#[trigger] self.infos[j]).symbol@ == s;
            assert(self.infos[j] == pre.infos[j]);
        }
    }
}

/// `qty` cut down to the lot grid of `symbol`; an error where the symbol
/// has no rules.
pub fn correct_lots_qty(symbol: &String, qty: u64, quantity_info: &QuantityTable) -> (r: Result<u64, UnknownSymbol>)
    requires
        quantity_info.wf(),
    ensures
        match r {
            Ok(q) => quantity_info.has(symbol@) && q == truncated(
                qty as int,
                quantity_info.info(symbol@).move_qty as int,
            ) && q <= qty,
            Err(e) => !quantity_info.has(symbol@) && e.symbol@ == symbol@,
        },
{
    match quantity_info.find(symbol) {
        Some(i) => {
            proof {
                quantity_info.lemma_info_at(i as int);
            }
            Ok(quantity_info.infos[i].normalize_quantity(qty))
        },
        None => Err(UnknownSymbol { symbol: symbol.clone() }),
    }
}

/// `price` cut down to the tick grid of `symbol`; an error where the symbol
/// has no rules.
pub fn correct_price_filter(symbol: &String, quantity_info: &QuantityTable, price: u64) -> (r: Result<u64, UnknownSymbol>)
    requires
        quantity_info.wf(),
    ensures
        match r {
            Ok(p) => quantity_info.has(symbol@) && p == truncated(
                price as int,
                quantity_info.info(symbol@).move_price as int,
            ) && p <= price,
            Err(e) => !quantity_info.has(symbol@) && e.symbol@ == symbol@,
        },
{
    match quantity_info.find(symbol) {
        Some(i) => {
            proof {
                quantity_info.lemma_info_at(i as int);
            }
            Ok(quantity_info.infos[i].normalize_price(price))
        },
        None => Err(UnknownSymbol { symbol: symbol.clone() }),
    }
}

} // verus!
