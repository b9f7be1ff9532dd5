//! A cryptocurrency price viewer: the query it makes, how it picks the price
//! out of the answer, and the text it shows.

use crate::text::views;
use vstd::prelude::*;

verus! {

/// Which coin to price, and in which currency.
pub struct PriceQuery {
    pub coin_id: String,
    pub currency: String,
}

/// One coin of a price answer, with the currencies it is quoted in, in the
/// order the answer lists them; the prices themselves stay with the caller,
/// in the same order.
pub struct CoinQuotes {
    pub coin: String,
    pub currencies: Vec<String>,
}

/// Why no price could be picked.
pub enum PriceError {
    /// The answer has no entry for the coin.
    CoinMissing(String),
    /// The coin's entry has no price in the currency.
    CurrencyMissing(String),
}

/// The address of the price service's answer for `coin` in `currency`.
pub open spec fn request_url_text(coin: Seq<char>, currency: Seq<char>) -> Seq<char> {
    "https://api.coingecko.com/api/v3/simple/price?ids="@ + coin + "&vs_currencies="@ + currency
}

/// The first position of `name` in `names`, if it occurs.
pub open spec fn first_position(names: Seq<Seq<char>>, name: Seq<char>) -> Option<int> {
    if exists|i: int| 0 <= i < names.len() && names[i] == name {
        Some(choose|i: int| 0 <= i < names.len() && names[i] == name && forall|k: int| 0 <= k < i ==> names[k] != name)
    } else {
        None
    }
}

/// The coin names of an answer.
pub open spec fn coin_names(quotes: Seq<CoinQuotes>) -> Seq<Seq<char>> {
    quotes.map_values(|q: CoinQuotes| q.coin@)
}

/// The outcome of picking a price out of an answer.
pub enum Selection {
    /// The coin's first entry and the currency's first quote in it.
    Found(int, int),
    /// The answer has no entry for the coin.
    NoCoin,
    /// The coin's first entry has no quote in the currency.
    NoCurrency,
}

/// The outcome of picking `coin`'s price in `currency` from `quotes`.
pub open spec fn selection(quotes: Seq<CoinQuotes>, coin: Seq<char>, currency: Seq<char>) -> Selection {
    match first_position(coin_names(quotes), coin) {
        None => Selection::NoCoin,
        Some(i) => match first_position(views(quotes[i].currencies@), currency) {
            None => Selection::NoCurrency,
            Some(j) => Selection::Found(i, j),
        },
    }
}

/// The message of a price error.
pub open spec fn error_text(e: PriceError) -> Seq<char> {
    match e {
        PriceError::CoinMissing(c) => "Coin '"@ + c@ + "' not found in response "@,
        PriceError::CurrencyMissing(c) => "Currency '"@ + c@ + "' not found for coin "@,
    }
}

/// The line shown for the query: the price once known, a waiting notice
/// before.
pub open spec fn status_line(coin: Seq<char>, currency: Seq<char>, price: Option<Seq<char>>) -> Seq<
    char,
> {
    match price {
        Some(p) => "Price of "@ + coin + ": "@ + p + " "@ + currency,
        None => "fetching price for "@ + coin + "..."@,
    }
}

/// Whether some entry of `quotes` is for `coin`.
pub open spec fn has_coin(quotes: Seq<CoinQuotes>, coin: Seq<char>) -> bool {
    exists|i: int| 0 <= i < quotes.len() && #[trigger] quotes[i].coin@ == coin
}

/// Whether `i` is the position of the first entry of `quotes` for `coin`.
pub open spec fn is_first_entry(quotes: Seq<CoinQuotes>, coin: Seq<char>, i: int) -> bool {
    &&& 0 <= i < quotes.len()
    &&& quotes[i].coin@ == coin
    &&& forall|k: int| 0 <= k < i ==> #[trigger] quotes[k].coin@ != coin
}

/// Whether the entry `q` quotes `currency`.
pub open spec fn quotes_currency(q: CoinQuotes, currency: Seq<char>) -> bool {
    exists|j: int| 0 <= j < q.currencies@.len() && #[trigger] q.currencies@[j]@ == currency
}

proof fn lemma_first_match(names: Seq<Seq<char>>, name: Seq<char>)
    requires
        exists|i: int| 0 <= i < names.len() && names[i] == name,
    ensures
        exists|c: int|
            0 <= c < names.len() && names[c] == name && forall|k: int|
                0 <= k < c ==> names[k] != name,
    decreases names.len(),
{
    if names[0] == name {
        assert(0 <= 0 < names.len() && names[0] == name && forall|k: int| 0 <= k < 0 ==> names[k]
            != name);
    } else {
        let i = choose|i: int| 0 <= i < names.len() && names[i] == name;
        let t = names.drop_first();
        assert(t[i - 1] == name);
        lemma_first_match(t, name);
        let c = choose|c: int|
            0 <= c < t.len() && t[c] == name && forall|k: int| 0 <= k < c ==> t[k] != name;
        assert forall|k: int| 0 <= k < c + 1 implies names[k] != name by {
            if k > 0 {
                assert(names[k] == t[k - 1]);
            }
        }
        assert(names[c + 1] == t[c]);
    }
}

/// `first_position` gives the first position of a name that occurs, and
/// nothing for one that does not.
pub proof fn lemma_first_position(names: Seq<Seq<char>>, name: Seq<char>)
    ensures
        (exists|i: int| 0 <= i < names.len() && names[i] == name) ==> (first_position(names, name)
            matches Some(c) && 0 <= c < names.len() && names[c] == name && forall|k: int|
            0 <= k < c ==> names[k] != name),
        !(exists|i: int| 0 <= i < names.len() && names[i] == name) ==> first_position(names, name)
            is None,
{
    if exists|i: int| 0 <= i < names.len() && names[i] == name {
        lemma_first_match(names, name);
    }
}

/// Picking a price finds it whenever the answer has it: when the answer has
/// an entry for the coin and its first such entry quotes the currency, the
/// outcome is that entry and a quote in the currency; the currency is
/// reported missing only when that entry does not quote it, and the coin
/// only when no entry is for it.
pub proof fn lemma_selection_finds_price(
    quotes: Seq<CoinQuotes>,
    coin: Seq<char>,
    currency: Seq<char>,
)
    ensures
        selection(quotes, coin, currency) is NoCoin <==> !has_coin(quotes, coin),
        selection(quotes, coin, currency) matches Selection::Found(i, j) ==> {
            &&& is_first_entry(quotes, coin, i)
            &&& 0 <= j < quotes[i].currencies@.len()
            &&& quotes[i].currencies@[j]@ == currency
        },
        forall|i: int|
            is_first_entry(quotes, coin, i) ==> (quotes_currency(quotes[i], currency) <==> selection(
                quotes,
                coin,
                currency,
            ) is Found),
        selection(quotes, coin, currency) is NoCurrency ==> exists|i: int|
            is_first_entry(quotes, coin, i) && !quotes_currency(quotes[i], currency),
{
    let names = coin_names(quotes);
    assert(has_coin(quotes, coin) <==> exists|i: int| 0 <= i < names.len() && names[i] == coin) by {
        if has_coin(quotes, coin) {
            let i = choose|i: int| 0 <= i < quotes.len() && #[trigger] quotes[i].coin@ == coin;
            assert(names[i] == coin);
        }
    }
    lemma_first_position(names, coin);
    if has_coin(quotes, coin) {
        let c = first_position(names, coin)->0;
        assert(is_first_entry(quotes, coin, c)) by {
            assert forall|k: int| 0 <= k < c implies #[trigger] quotes[k].coin@ != coin by {
                assert(names[k] == quotes[k].coin@);
            }
        }
        let cur = views(quotes[c].currencies@);
        lemma_first_position(cur, currency);
        assert(quotes_currency(quotes[c], currency) <==> exists|j: int|
            0 <= j < cur.len() && cur[j] == currency) by {
            if quotes_currency(quotes[c], currency) {
                let j = choose|j: int|
                    0 <= j < quotes[c].currencies@.len() && #[trigger] quotes[c].currencies@[j]@
                        == currency;
                assert(cur[j] == currency);
            }
        }
        assert forall|i: int| is_first_entry(quotes, coin, i) implies i == c by {
            if i < c {
                assert(names[i] == coin);
            } else if c < i {
                assert(quotes[c].coin@ == coin);
            }
        }
    }
}

/// The first position of `name` among `names`, if any.
pub fn position_of(names: &Vec<String>, name: &String) -> (r: Option<usize>)
    ensures
        r matches Some(i) ==> first_position(views(names@), name@) == Some(i as int),
        r is None ==> first_position(views(names@), name@) is None,
{
    let ghost ns = views(names@);
    let n = names.len();
    let mut i: usize = 0;
    while i < n
        invariant
            n == names@.len(),
            ns == views(names@),
            i <= n,
            forall|k: int| 0 <= k < i ==> ns[k] != name@,
        decreases n - i,
    {
        if names[i] == *name {
            assert(ns[i as int] == name@);
            let ghost c = choose|c: int|
                0 <= c < ns.len() && ns[c] == name@ && forall|k: int| 0 <= k < c ==> ns[k] != name@;
            assert(0 <= i < ns.len() && ns[i as int] == name@ && forall|k: int| 0 <= k < i ==> ns[k] != name@);
            assert(c == i) by {
                if c < i {
                    assert(ns[c] != name@);
                } else if c > i {
                    assert(ns[i as int] != name@);
                }
            }
            return Some(i);
        }
        i = i + 1;
    }
    None
}

impl PriceQuery {
    /// The default query: bitcoin in Indian rupees.
    pub fn new() -> (q: PriceQuery)
        ensures
            q.coin_id@ == "bitcoin"@,
            q.currency@ == "inr"@,
    {
        PriceQuery { coin_id: String::from_str("bitcoin"), currency: String::from_str("inr") }
    }

    /// The address to fetch the price from.
    pub fn request_url(&self) -> (url: String)
        ensures
            url@ == request_url_text(self.coin_id@, self.currency@),
    {
        let mut url = String::from_str("https://api.coingecko.com/api/v3/simple/price?ids=");
        url.append(self.coin_id.as_str());
        url.append("&vs_currencies=");
        url.append(self.currency.as_str());
        url
    }

    /// Picks the price out of an answer: the position of the coin's entry
    /// and of the currency's quote within it, or which of the two is missing.
    pub fn select_price(&self, quotes: &Vec<CoinQuotes>) -> (r: Result<(usize, usize), PriceError>)
        ensures
            match (r, selection(quotes@, self.coin_id@, self.currency@)) {
                (Ok((i, j)), Selection::Found(si, sj)) => i == si && j == sj,
                (Err(PriceError::CoinMissing(c)), Selection::NoCoin) => c@ == self.coin_id@,
                (Err(PriceError::CurrencyMissing(c)), Selection::NoCurrency) => c@
                    == self.currency@,
                _ => false,
            },
            r matches Ok((i, j)) ==> i < quotes@.len() && quotes@[i as int].coin@ == self.coin_id@
                && j < quotes@[i as int].currencies@.len()
                && quotes@[i as int].currencies@[j as int]@ == self.currency@,
            (r matches Err(PriceError::CoinMissing(_))) <==> !has_coin(quotes@, self.coin_id@),
            forall|i: int|
                is_first_entry(quotes@, self.coin_id@, i) ==> (quotes_currency(
                    quotes@[i],
                    self.currency@,
                ) <==> r is Ok),
    {
        proof {
            lemma_selection_finds_price(quotes@, self.coin_id@, self.currency@);
        }
        let ghost names = coin_names(quotes@);
        let n = quotes.len();
        let mut i: usize = 0;
        while i < n
            invariant
                n == quotes@.len(),
                names == coin_names(quotes@),
                i <= n,
                forall|k: int| 0 <= k < i ==> names[k] != self.coin_id@,
            decreases n - i,
        {
            if quotes[i].coin == self.coin_id {
                let ghost c = choose|c: int|
                    0 <= c < names.len() && names[c] == self.coin_id@ && forall|k: int|
                        0 <= k < c ==> names[k] != self.coin_id@;
                assert(0 <= i < names.len() && names[i as int] == self.coin_id@ && forall|k: int|
                    0 <= k < i ==> names[k] != self.coin_id@);
                assert(c == i) by {
                    if c < i {
                        assert(names[c] != self.coin_id@);
                    } else if c > i {
                        assert(names[i as int] != self.coin_id@);
                    }
                }
                proof {
                    lemma_selection_finds_price(quotes@, self.coin_id@, self.currency@);
                }
                return match position_of(&quotes[i].currencies, &self.currency) {
                    Some(j) => Ok((i, j)),
                    None => Err(PriceError::CurrencyMissing(self.currency.clone())),
                };
            }
            i = i + 1;
        }
        Err(PriceError::CoinMissing(self.coin_id.clone()))
    }

    /// The line to show, given the price as text once it is known.
    pub fn status_text(&self, price: Option<&str>) -> (s: String)
        ensures
            s@ == status_line(
                self.coin_id@,
                self.currency@,
                match price {
                    Some(p) => Some(p@),
                    None => None,
                },
            ),
    {
        match price {
            Some(p) => {
                let mut s = String::from_str("Price of ");
                s.append(self.coin_id.as_str());
                s.append(": ");
                s.append(p);
                s.append(" ");
                s.append(self.currency.as_str());
                s
            },
            None => {
                let mut s = String::from_str("fetching price for ");
                s.append(self.coin_id.as_str());
                s.append("...");
                s
            },
        }
    }
}

impl PriceError {
    /// The message of the error.
    pub fn message(&self) -> (s: String)
        ensures
            s@ == error_text(*self),
    {
        match self {
            PriceError::CoinMissing(c) => {
                let mut s = String::from_str("Coin '");
                s.append(c.as_str());
                s.append("' not found in response ");
                s
            },
            PriceError::CurrencyMissing(c) => {
                let mut s = String::from_str("Currency '");
                s.append(c.as_str());
                s.append("' not found for coin ");
                s
            },
        }
    }
}

} // verus!
