//! Currencies: the closed set of symbols, the currency records, and the
//! registry that guesses a currency from free text such as "euro", "$" or
//! "turkish lira".
//!
//! Lookup keys are matched after case folding through the standard library;
//! the registry itself is an ordered list searched front to back, which is
//! what the contracts state.

use vstd::prelude::*;

use vstd::string::StringExecFns;

verus! {

/// A currency symbol. A closed set, compared by identity.
#[derive(Clone, Copy, Debug, PartialEq, Eq, Structural, Hash)]
pub enum Symbol {
    EUR,
    USD,
    GBP,
    TL,
    ETH,
    BTC,
}

impl Symbol {
    /// The symbol's code, as it is written.
    pub open spec fn code_spec(self) -> Seq<char> {
        match self {
            Symbol::EUR => "EUR"@,
            Symbol::USD => "USD"@,
            Symbol::GBP => "GBP"@,
            Symbol::TL => "TL"@,
            Symbol::ETH => "ETH"@,
            Symbol::BTC => "BTC"@,
        }
    }

    /// The symbol's code.
    pub fn code(&self) -> (r: String)
        ensures
            r@ == self.code_spec(),
    {
        match self {
            Symbol::EUR => String::from_str("EUR"),
            Symbol::USD => String::from_str("USD"),
            Symbol::GBP => String::from_str("GBP"),
            Symbol::TL => String::from_str("TL"),
            Symbol::ETH => String::from_str("ETH"),
            Symbol::BTC => String::from_str("BTC"),
        }
    }
}

/// Whether a currency is state money or a cryptocurrency.
#[derive(Clone, Copy, Debug, PartialEq, Eq, Structural, Hash)]
pub enum CurrencyType {
    Fiat,
    Crypto,
}

/// One currency: its symbol, sign, name and kind.
#[derive(Clone, Debug)]
pub struct Currency {
    /// The currency's symbol.
    pub symbol: Symbol,
    sign: String,
    name: String,
    currency_type: CurrencyType,
}

impl Currency {
    /// The currency's symbol.
    pub closed spec fn symbol_spec(self) -> Symbol {
        self.symbol
    }

    /// The currency's symbol.
    pub fn symbol(&self) -> (r: Symbol)
        ensures
            r == self.symbol_spec(),
    {
        self.symbol
    }

    /// The currency sign, such as "$".
    pub closed spec fn sign_spec(self) -> Seq<char> {
        self.sign@
    }

    /// The human-readable name.
    pub closed spec fn name_spec(self) -> Seq<char> {
        self.name@
    }

    /// The currency's kind.
    pub closed spec fn type_spec(self) -> CurrencyType {
        self.currency_type
    }

    /// The currency sign.
    pub fn sign(&self) -> (r: &String)
        ensures
            r@ == self.sign_spec(),
    {
        &self.sign
    }

    /// The human-readable name.
    pub fn name(&self) -> (r: &String)
        ensures
            r@ == self.name_spec(),
    {
        &self.name
    }

    /// The currency's kind.
    pub fn currency_type(&self) -> (r: CurrencyType)
        ensures
            r == self.type_spec(),
    {
        self.currency_type
    }
}

/// An ordered base/quote pair of symbols.
#[derive(Debug, PartialEq, Eq, Structural)]
pub struct SymbolPair {
    /// The currency converted from.
    pub base: Symbol,
    /// The currency converted to.
    pub quote: Symbol,
}

/// Why a text could not be read as a currency.
#[derive(Clone, Debug)]
pub struct ParseCurrencyError(String);

impl ParseCurrencyError {
    /// The rejection message.
    pub closed spec fn message_spec(self) -> Seq<char> {
        self.0@
    }

    /// The rejection message.
    pub fn message(&self) -> (r: &String)
        ensures
            r@ == self.message_spec(),
    {
        &self.0
    }
}

/// The registry's guess keys with the symbol each stands for, in lookup
/// order.
pub open spec fn builtin_pairs() -> Seq<(Seq<char>, Symbol)> {
    seq![
        ("usd"@, Symbol::USD),
        ("usdollar"@, Symbol::USD),
        ("$"@, Symbol::USD),
        ("eur"@, Symbol::EUR),
        ("euro"@, Symbol::EUR),
        ("€"@, Symbol::EUR),
        ("gbp"@, Symbol::EUR),
        ("pound"@, Symbol::GBP),
        ("pounds"@, Symbol::GBP),
        ("£"@, Symbol::GBP),
        ("tl"@, Symbol::TL),
        ("₺"@, Symbol::TL),
        ("turkish lira"@, Symbol::TL),
        ("eth"@, Symbol::ETH),
        ("eths"@, Symbol::ETH),
        ("ether"@, Symbol::ETH),
        ("ethers"@, Symbol::ETH),
        ("Ξ"@, Symbol::ETH),
        ("ethereum"@, Symbol::ETH),
    ]
}

/// The registry's currency records are exactly the built-in ones: for each
/// symbol it serves, the sign, name and kind are fixed.
pub open spec fn builtin_currency_ok(c: Currency) -> bool {
    match c.symbol_spec() {
        Symbol::USD => c.sign_spec() == "$"@ && c.name_spec() == "US Dollar"@ && c.type_spec()
            == CurrencyType::Fiat,
        Symbol::EUR => c.sign_spec() == "€"@ && c.name_spec() == "Euro"@ && c.type_spec()
            == CurrencyType::Fiat,
        Symbol::GBP => c.sign_spec() == "£"@ && c.name_spec() == "British Pounds"@ && c.type_spec()
            == CurrencyType::Fiat,
        Symbol::TL => c.sign_spec() == "₺"@ && c.name_spec() == "Turkish Lira"@ && c.type_spec()
            == CurrencyType::Fiat,
        Symbol::ETH => c.sign_spec() == "Ξ"@ && c.name_spec() == "Ether"@ && c.type_spec()
            == CurrencyType::Crypto,
        Symbol::BTC => false,
    }
}

/// First-match lookup of a key among the symbol pairs.
pub open spec fn lookup_in(pairs: Seq<(Seq<char>, Symbol)>, key: Seq<char>) -> Option<Symbol>
    decreases pairs.len(),
{
    if pairs.len() == 0 {
        None
    } else if pairs.first().0 == key {
        Some(pairs.first().1)
    } else {
        lookup_in(pairs.drop_first(), key)
    }
}

/// What the built-in registry answers for a case-folded key.
pub open spec fn lookup_symbol(key: Seq<char>) -> Option<Symbol> {
    lookup_in(builtin_pairs(), key)
}

/// First-match lookup of a key among the registry's entries.
pub open spec fn lookup_entries(entries: Seq<(Seq<char>, Currency)>, key: Seq<char>) -> Option<
    Currency,
>
    decreases entries.len(),
{
    if entries.len() == 0 {
        None
    } else if entries.first().0 == key {
        Some(entries.first().1)
    } else {
        lookup_entries(entries.drop_first(), key)
    }
}

/// An unmatched prefix of the entries can be skipped without changing the
/// lookup.
proof fn lemma_lookup_entries_skip(entries: Seq<(Seq<char>, Currency)>, key: Seq<char>, i: int)
    requires
        0 <= i <= entries.len(),
        forall|j: int| 0 <= j < i ==> (#[trigger] entries[j]).0 != key,
    ensures
        lookup_entries(entries, key) == lookup_entries(entries.skip(i), key),
    decreases i,
{
    if i > 0 {
        assert(entries.first().0 != key);
        lemma_lookup_entries_skip(entries.drop_first(), key, i - 1);
        assert(entries.drop_first().skip(i - 1) =~= entries.skip(i));
    } else {
        assert(entries.skip(0) =~= entries);
    }
}

/// Entries and pairs that agree key-for-key and symbol-for-symbol give
/// corresponding lookups.
proof fn lemma_lookup_corresponds(
    entries: Seq<(Seq<char>, Currency)>,
    pairs: Seq<(Seq<char>, Symbol)>,
    key: Seq<char>,
)
    requires
        entries.len() == pairs.len(),
        forall|k: int|
            0 <= k < entries.len() ==> (#[trigger] entries[k]).0 == pairs[k].0
                && entries[k].1.symbol_spec() == pairs[k].1,
    ensures
        match lookup_entries(entries, key) {
            Some(c) => lookup_in(pairs, key) == Some(c.symbol_spec()),
            None => lookup_in(pairs, key) is None,
        },
    decreases entries.len(),
{
    if entries.len() > 0 {
        assert(entries[0].0 == pairs[0].0);
        if entries.first().0 != key {
            assert(forall|k: int|
                0 <= k < entries.drop_first().len() ==> (#[trigger] entries.drop_first()[k]).0
                    == pairs.drop_first()[k].0 && entries.drop_first()[k].1.symbol_spec()
                    == pairs.drop_first()[k].1);
            lemma_lookup_corresponds(entries.drop_first(), pairs.drop_first(), key);
        }
    }
}

/// The currency registry: the known currencies, and the guess keys each of
/// which names one of them.
pub struct Currencies {
    currencies: Vec<Currency>,
    guesses: Vec<(String, Currency)>,
}

impl Currencies {
    /// The guess entries, keys as character sequences.
    pub closed spec fn guesses_view(self) -> Seq<(Seq<char>, Currency)> {
        self.guesses@.map_values(|p: (String, Currency)| (p.0@, p.1))
    }

    /// The known currencies.
    pub closed spec fn currencies_view(self) -> Seq<Currency> {
        self.currencies@
    }

    /// The known currencies.
    pub fn currencies(&self) -> (r: &Vec<Currency>)
        ensures
            r@ == self.currencies_view(),
    {
        &self.currencies
    }

    /// Look a key up among the guesses, front to back.
    pub fn guess(&self, guess: &str) -> (r: Option<&Currency>)
        ensures
            match r {
                Some(c) => lookup_entries(self.guesses_view(), guess@) == Some(*c),
                None => lookup_entries(self.guesses_view(), guess@) is None,
            },
    {
        let key = guess.to_owned();
        let mut i: usize = 0;
        while i < self.guesses.len()
            invariant
                key@ == guess@,
                0 <= i <= self.guesses@.len(),
                forall|j: int| 0 <= j < i ==> (#[trigger] self.guesses_view()[j]).0 != guess@,
            decreases self.guesses@.len() - i,
        {
            if self.guesses[i].0 == key {
                proof {
                    lemma_lookup_entries_skip(self.guesses_view(), guess@, i as int);
                    assert(self.guesses_view().skip(i as int).first()
                        == self.guesses_view()[i as int]);
                }
                return Some(&self.guesses[i].1);
            }
            i = i + 1;
        }
        proof {
            lemma_lookup_entries_skip(self.guesses_view(), guess@, i as int);
            assert(self.guesses_view().skip(i as int).len() == 0);
        }
        None
    }
}


/// The lookup's answer is one of the entries.
proof fn lemma_lookup_is_entry(entries: Seq<(Seq<char>, Currency)>, key: Seq<char>)
    ensures
        lookup_entries(entries, key) matches Some(c) ==> exists|k: int|
            0 <= k < entries.len() && (#[trigger] entries[k]).1 == c,
    decreases entries.len(),
{
    if entries.len() > 0 && entries.first().0 != key {
        lemma_lookup_is_entry(entries.drop_first(), key);
        match lookup_entries(entries, key) {
            Some(c) => {
                let k = choose|k: int|
                    0 <= k < entries.drop_first().len() && (#[trigger] entries.drop_first()[k]).1
                        == c;
                assert(entries[k + 1].1 == c);
            },
            None => {},
        }
    }
}

fn usd_currency() -> (c: Currency)
    ensures
        c.symbol_spec() == Symbol::USD,
        builtin_currency_ok(c),
{
    Currency {
        symbol: Symbol::USD,
        sign: String::from_str("$"),
        name: String::from_str("US Dollar"),
        currency_type: CurrencyType::Fiat,
    }
}

fn eur_currency() -> (c: Currency)
    ensures
        c.symbol_spec() == Symbol::EUR,
        builtin_currency_ok(c),
{
    Currency {
        symbol: Symbol::EUR,
        sign: String::from_str("€"),
        name: String::from_str("Euro"),
        currency_type: CurrencyType::Fiat,
    }
}

fn gbp_currency() -> (c: Currency)
    ensures
        c.symbol_spec() == Symbol::GBP,
        builtin_currency_ok(c),
{
    Currency {
        symbol: Symbol::GBP,
        sign: String::from_str("£"),
        name: String::from_str("British Pounds"),
        currency_type: CurrencyType::Fiat,
    }
}

fn tl_currency() -> (c: Currency)
    ensures
        c.symbol_spec() == Symbol::TL,
        builtin_currency_ok(c),
{
    Currency {
        symbol: Symbol::TL,
        sign: String::from_str("₺"),
        name: String::from_str("Turkish Lira"),
        currency_type: CurrencyType::Fiat,
    }
}

fn eth_currency() -> (c: Currency)
    ensures
        c.symbol_spec() == Symbol::ETH,
        builtin_currency_ok(c),
{
    Currency {
        symbol: Symbol::ETH,
        sign: String::from_str("Ξ"),
        name: String::from_str("Ether"),
        currency_type: CurrencyType::Crypto,
    }
}

/// The built-in currency for a served symbol.
fn currency_for(sym: Symbol) -> (c: Currency)
    requires
        sym != Symbol::BTC,
    ensures
        c.symbol_spec() == sym,
        builtin_currency_ok(c),
{
    match sym {
        Symbol::USD => usd_currency(),
        Symbol::EUR => eur_currency(),
        Symbol::GBP => gbp_currency(),
        Symbol::TL => tl_currency(),
        Symbol::ETH => eth_currency(),
        Symbol::BTC => vstd::pervasive::unreached(),
    }
}

impl Currencies {
    /// The built-in registry: five currencies, and the guess keys of
    /// `builtin_pairs`, in that order.
    pub fn builtin() -> (r: Currencies)
        ensures
            r.guesses_view().len() == builtin_pairs().len(),
            forall|k: int|
                0 <= k < builtin_pairs().len() ==> (#[trigger] r.guesses_view()[k]).0
                    == builtin_pairs()[k].0 && r.guesses_view()[k].1.symbol_spec()
                    == builtin_pairs()[k].1 && builtin_currency_ok(r.guesses_view()[k].1),
            r.currencies_view().len() == 5,
            forall|k: int|
                0 <= k < 5 ==> builtin_currency_ok(#[trigger] r.currencies_view()[k]),
            r.currencies_view()[0].symbol_spec() == Symbol::USD,
            r.currencies_view()[1].symbol_spec() == Symbol::EUR,
            r.currencies_view()[2].symbol_spec() == Symbol::GBP,
            r.currencies_view()[3].symbol_spec() == Symbol::TL,
            r.currencies_view()[4].symbol_spec() == Symbol::ETH,
    {
        let mut guesses: Vec<(String, Currency)> = Vec::new();
        guesses.push((String::from_str("usd"), usd_currency()));
        guesses.push((String::from_str("usdollar"), usd_currency()));
        guesses.push((String::from_str("$"), usd_currency()));
        guesses.push((String::from_str("eur"), eur_currency()));
        guesses.push((String::from_str("euro"), eur_currency()));
        guesses.push((String::from_str("€"), eur_currency()));
        guesses.push((String::from_str("gbp"), eur_currency()));
        guesses.push((String::from_str("pound"), gbp_currency()));
        guesses.push((String::from_str("pounds"), gbp_currency()));
        guesses.push((String::from_str("£"), gbp_currency()));
        guesses.push((String::from_str("tl"), tl_currency()));
        guesses.push((String::from_str("₺"), tl_currency()));
        guesses.push((String::from_str("turkish lira"), tl_currency()));
        guesses.push((String::from_str("eth"), eth_currency()));
        guesses.push((String::from_str("eths"), eth_currency()));
        guesses.push((String::from_str("ether"), eth_currency()));
        guesses.push((String::from_str("ethers"), eth_currency()));
        guesses.push((String::from_str("Ξ"), eth_currency()));
        guesses.push((String::from_str("ethereum"), eth_currency()));
        let mut currencies: Vec<Currency> = Vec::new();
        currencies.push(usd_currency());
        currencies.push(eur_currency());
        currencies.push(gbp_currency());
        currencies.push(tl_currency());
        currencies.push(eth_currency());
        Currencies { currencies, guesses }
    }
}

/// What the standard library's case folding returns on the given text; the
/// result depends on the characters alone.
pub uninterp spec fn lower_of(s: Seq<char>) -> Seq<char>;

/// Relies on str::to_lowercase: the case-folded text; empty text stays
/// empty.
#[verifier::external_body]
fn lowercase(s: &str) -> (r: String)
    ensures
        r@ == lower_of(s@),
        s@.len() == 0 ==> r@.len() == 0,
{
    s.to_lowercase()
}

impl Currency {
    /// Read a currency from free text: the text is case-folded and looked up
    /// among the built-in registry's guess keys. Accepted exactly when the
    /// folded text is a known key; the result is the built-in currency that
    /// key names.
    pub fn from_str(s: &str) -> (r: Result<Currency, ParseCurrencyError>)
        ensures
            r is Ok <==> lookup_symbol(lower_of(s@)) is Some,
            r matches Ok(c) ==> Some(c.symbol_spec()) == lookup_symbol(lower_of(s@))
                && builtin_currency_ok(c),
    {
        let reg = Currencies::builtin();
        let key = lowercase(s);
        proof {
            lemma_lookup_corresponds(reg.guesses_view(), builtin_pairs(), lower_of(s@));
            lemma_lookup_is_entry(reg.guesses_view(), lower_of(s@));
        }
        let sym = match reg.guess(key.as_str()) {
            Some(c) => c.symbol(),
            None => {
                return Err(
                    ParseCurrencyError(
                        String::from_str("Could not parse ").concat(s).concat(
                            " into a currency",
                        ),
                    ),
                );
            },
        };
        Ok(currency_for(sym))
    }
}

} // verus!
