//! Trading symbols: a base asset and a quote asset joined by a dash, as in
//! `eth-btc`.

use vstd::prelude::*;
use vstd::string::StrSliceExecFns;

verus! {

/// Whether the first dash of `symbol` is at `i`.
pub open spec fn is_first_dash(symbol: Seq<char>, i: int) -> bool {
    &&& 0 <= i < symbol.len()
    &&& symbol[i] == '-'
    &&& forall|j: int| 0 <= j < i ==> symbol[j] != '-'
}

/// Whether `symbol` holds a dash.
pub open spec fn has_dash(symbol: Seq<char>) -> bool {
    exists|i: int| is_first_dash(symbol, i)
}

/// The place of the first dash of `symbol`.
pub open spec fn dash_index(symbol: Seq<char>) -> int {
    choose|i: int| is_first_dash(symbol, i)
}

/// What stands before the first dash.
pub open spec fn base_of(symbol: Seq<char>) -> Seq<char> {
    symbol.take(dash_index(symbol))
}

/// What stands behind the first dash.
pub open spec fn quote_of(symbol: Seq<char>) -> Seq<char> {
    symbol.skip(dash_index(symbol) + 1)
}

/// There is one first dash at most.
pub proof fn lemma_first_dash_is_unique(symbol: Seq<char>, i: int, j: int)
    requires
        is_first_dash(symbol, i),
        is_first_dash(symbol, j),
    ensures
        i == j,
{
}

/// The base asset and the quote asset of `symbol`, or nothing if it holds no
/// dash.
pub fn split_symbol(symbol: &str) -> (r: Option<(&str, &str)>)
    ensures
        r is Some == has_dash(symbol@),
        r matches Some((base, quote)) ==> base@ == base_of(symbol@) && quote@ == quote_of(symbol@),
{
    let n = symbol.unicode_len();
    let mut i: usize = 0;
    while i < n
        invariant
            i <= n == symbol@.len(),
            forall|j: int| 0 <= j < i ==> symbol@[j] != '-',
        decreases n - i,
    {
        if symbol.get_char(i) == '-' {
            proof {
                assert(is_first_dash(symbol@, i as int));
                lemma_first_dash_is_unique(symbol@, i as int, dash_index(symbol@));
            }
            return Some((symbol.substring_char(0, i), symbol.substring_char(i + 1, n)));
        }
        i = i + 1;
    }
    None
}

/// The parts of a trading symbol.
pub trait SymbolExt {
    /// The characters of the symbol.
    open spec fn symbol(&self) -> Seq<char> {
        arbitrary()
    }

    /// The base asset and the quote asset.
    fn assets(&self) -> (r: (&str, &str))
        requires
            has_dash(self.symbol()),
        ensures
            r.0@ == base_of(self.symbol()),
            r.1@ == quote_of(self.symbol()),
    ;

    fn base_asset(&self) -> (r: &str)
        requires
            has_dash(self.symbol()),
        ensures
            r@ == base_of(self.symbol()),
    ;

    fn quote_asset(&self) -> (r: &str)
        requires
            has_dash(self.symbol()),
        ensures
            r@ == quote_of(self.symbol()),
    ;
}

impl SymbolExt for str {
    open spec fn symbol(&self) -> Seq<char> {
        self@
    }

    fn assets(&self) -> (r: (&str, &str)) {
        match split_symbol(self) {
            Some(assets) => assets,
            None => ("", ""),
        }
    }

    fn base_asset(&self) -> (r: &str) {
        self.assets().0
    }

    fn quote_asset(&self) -> (r: &str) {
        self.assets().1
    }
}

} // verus!
