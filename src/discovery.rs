//! Discovery of rings from the exchange's symbol list: every asset quoted
//! both in the stablecoin and in the bridge closes a ring.

use vstd::prelude::*;
use vstd::string::{StrSliceExecFns, StringExecFns};
use crate::ring::Ring;
use crate::snapshot::{listed, is_listed};

verus! {

pub open spec fn ends_with(s: Seq<char>, suffix: Seq<char>) -> bool {
    suffix.len() <= s.len() && s.subrange(s.len() - suffix.len(), s.len() as int) == suffix
}

/// `s` without `suffix`.
pub open spec fn stem(s: Seq<char>, suffix: Seq<char>) -> Seq<char> {
    s.subrange(0, s.len() - suffix.len())
}

/// The four names of a ring: asset, leg 0, leg 1, leg 2.
pub open spec fn ring_names(r: Ring) -> (Seq<char>, Seq<char>, Seq<char>, Seq<char>) {
    (r.symbol@, r.leg0@, r.leg1@, r.leg2@)
}

/// The ring that the stablecoin pair `key` closes, if the exchange lists
/// its bridge pair and neither pair is ignored.
pub open spec fn ring_at(
    key: Seq<char>,
    all: Seq<String>,
    stable: Seq<char>,
    bridge: Seq<char>,
    ignored: Seq<String>,
) -> Option<(Seq<char>, Seq<char>, Seq<char>, Seq<char>)> {
    let name = stem(key, stable);
    let pair = name + bridge;
    if !listed(ignored, key) && ends_with(key, stable) && listed(all, pair) && !listed(ignored, pair)
        && !ends_with(pair, stable) {
        Some((name, key, pair, bridge + stable))
    } else {
        None
    }
}

/// The rings that `keys` close, in order.
pub open spec fn discovered(
    keys: Seq<String>,
    all: Seq<String>,
    stable: Seq<char>,
    bridge: Seq<char>,
    ignored: Seq<String>,
) -> Seq<(Seq<char>, Seq<char>, Seq<char>, Seq<char>)>
    decreases keys.len(),
{
    if keys.len() == 0 {
        Seq::empty()
    } else {
        let rest = discovered(keys.drop_last(), all, stable, bridge, ignored);
        match ring_at(keys.last()@, all, stable, bridge, ignored) {
            Some(r) => rest.push(r),
            None => rest,
        }
    }
}

fn has_suffix(s: &str, suffix: &str) -> (r: bool)
    ensures
        r == ends_with(s@, suffix@),
{
    let n = s.unicode_len();
    let m = suffix.unicode_len();
    if m > n {
        return false;
    }
    let mut i: usize = 0;
    while i < m
        invariant
            n == s@.len(),
            m == suffix@.len(),
            m <= n,
            i <= m,
            forall|k: int| 0 <= k < i ==> s@[n - m + k] == suffix@[k],
        decreases m - i,
    {
        if s.get_char(n - m + i) != suffix.get_char(i) {
            assert(s@.subrange(n - m, n as int)[i as int] == s@[n - m + i]);
            return false;
        }
        i = i + 1;
    }
    assert(s@.subrange(n - m, n as int) =~= suffix@);
    true
}

/// Finds the rings of a symbol list: for each symbol quoted in `stablecoin`
/// (`XBUSD`) whose asset is also quoted in `bridge` (`XBNB`), the ring of
/// `XBUSD`, `XBNB` and the bridge's own stablecoin pair (`BNBBUSD`).
/// Symbols in `ignored` take no part.
pub fn symbol_discovery(symbols: &Vec<String>, stablecoin: &String, bridge: &String, ignored: &Vec<String>) -> (r: Vec<
    Ring,
>)
    ensures
        r@.len() == discovered(symbols@, symbols@, stablecoin@, bridge@, ignored@).len(),
        forall|i: int|
            0 <= i < r@.len() ==> ring_names(#[trigger] r@[i]) == discovered(
                symbols@,
                symbols@,
                stablecoin@,
                bridge@,
                ignored@,
            )[i],
{
    let mut rings: Vec<Ring> = Vec::new();
    let mut k: usize = 0;
    let closing = bridge.clone().concat(stablecoin.as_str());
    while k < symbols.len()
        invariant
            k <= symbols.len(),
            closing@ == bridge@ + stablecoin@,
            rings@.len() == discovered(symbols@.take(k as int), symbols@, stablecoin@, bridge@, ignored@).len(),
            forall|i: int|
                0 <= i < rings@.len() ==> ring_names(#[trigger] rings@[i]) == discovered(
                    symbols@.take(k as int),
                    symbols@,
                    stablecoin@,
                    bridge@,
                    ignored@,
                )[i],
        decreases symbols.len() - k,
    {
        let key = &symbols[k];
        assert(symbols@.take(k as int + 1).drop_last() =~= symbols@.take(k as int));
        assert(symbols@.take(k as int + 1).last() == symbols@[k as int]);
        if !is_listed(ignored, key) && has_suffix(key.as_str(), stablecoin.as_str()) {
            let n = key.as_str().unicode_len();
            let m = stablecoin.as_str().unicode_len();
            let name = key.as_str().substring_char(0, n - m).to_owned();
            let pair = name.clone().concat(bridge.as_str());
            if is_listed(symbols, &pair) && !is_listed(ignored, &pair) && !has_suffix(
                pair.as_str(),
                stablecoin.as_str(),
            ) {
                rings.push(Ring { symbol: name, leg0: key.clone(), leg1: pair, leg2: closing.clone() });
            }
        }
        k = k + 1;
    }
    assert(symbols@.take(k as int) =~= symbols@);
    rings
}

} // verus!
