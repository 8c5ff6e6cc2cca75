//! The rate providers' identities and configuration: every provider carries
//! a display name and the address of its rate endpoint; some carry an access
//! key. The network call and the wire format live in the surrounding
//! application; the engine needs only the identity and an outcome per
//! provider.

use vstd::prelude::*;

use vstd::string::StringExecFns;

verus! {

/// What every provider carries: its display name and the address of its
/// rate endpoint.
pub struct BaseProvider {
    /// The provider's display name.
    pub name: String,
    /// The address of the provider's rate endpoint.
    pub base_url: String,
}

/// The exchangeratesapi.io source. No access key is needed.
pub struct ExchangeRatesApiProvider(pub BaseProvider);

impl ExchangeRatesApiProvider {
    /// The provider with its fixed name and endpoint.
    pub fn new() -> (r: ExchangeRatesApiProvider)
        ensures
            r.0.name@ == "exchangeratesapi.io"@,
            r.0.base_url@ == "https://api.exchangeratesapi.io/latest"@,
    {
        ExchangeRatesApiProvider(
            BaseProvider {
                name: String::from_str("exchangeratesapi.io"),
                base_url: String::from_str("https://api.exchangeratesapi.io/latest"),
            },
        )
    }

    /// The provider's display name.
    pub fn get_name(&self) -> (r: String)
        ensures
            r@ == self.0.name@,
    {
        self.0.name.clone()
    }
}

/// The fixer.io source; its requests carry an access key.
pub struct FixerProvider {
    provider: BaseProvider,
    access_key: String,
}

impl FixerProvider {
    /// The base configuration.
    pub closed spec fn provider_spec(self) -> BaseProvider {
        self.provider
    }

    /// The access key the provider was built with.
    pub closed spec fn access_key_spec(self) -> Seq<char> {
        self.access_key@
    }

    /// The provider with its fixed name and endpoint, holding the given
    /// access key.
    pub fn new(access_key: String) -> (r: FixerProvider)
        ensures
            r.provider_spec().name@ == "fixer.io"@,
            r.provider_spec().base_url@ == "http://data.fixer.io/api/latest"@,
            r.access_key_spec() == access_key@,
    {
        FixerProvider {
            provider: BaseProvider {
                name: String::from_str("fixer.io"),
                base_url: String::from_str("http://data.fixer.io/api/latest"),
            },
            access_key,
        }
    }

    /// The provider's display name.
    pub fn get_name(&self) -> (r: String)
        ensures
            r@ == self.provider_spec().name@,
    {
        self.provider.name.clone()
    }

    /// The address of the rate endpoint.
    pub fn base_url(&self) -> (r: &String)
        ensures
            r@ == self.provider_spec().base_url@,
    {
        &self.provider.base_url
    }

    /// The access key.
    pub fn access_key(&self) -> (r: &String)
        ensures
            r@ == self.access_key_spec(),
    {
        &self.access_key
    }
}

/// The coinmarketcap.com source; its requests carry an access key.
pub struct CoinMarketCapProvider {
    provider: BaseProvider,
    access_key: String,
}

impl CoinMarketCapProvider {
    /// The base configuration.
    pub closed spec fn provider_spec(self) -> BaseProvider {
        self.provider
    }

    /// The access key the provider was built with.
    pub closed spec fn access_key_spec(self) -> Seq<char> {
        self.access_key@
    }

    /// The provider with its fixed name and endpoint, holding the given
    /// access key.
    pub fn new(access_key: String) -> (r: CoinMarketCapProvider)
        ensures
            r.provider_spec().name@ == "coinmarketcap.com"@,
            r.provider_spec().base_url@
                == "https://pro-api.coinmarketcap.com/v1/tools/price-conversion"@,
            r.access_key_spec() == access_key@,
    {
        CoinMarketCapProvider {
            provider: BaseProvider {
                name: String::from_str("coinmarketcap.com"),
                base_url: String::from_str(
                    "https://pro-api.coinmarketcap.com/v1/tools/price-conversion",
                ),
            },
            access_key,
        }
    }

    /// The provider's display name.
    pub fn get_name(&self) -> (r: String)
        ensures
            r@ == self.provider_spec().name@,
    {
        self.provider.name.clone()
    }

    /// The address of the rate endpoint.
    pub fn base_url(&self) -> (r: &String)
        ensures
            r@ == self.provider_spec().base_url@,
    {
        &self.provider.base_url
    }

    /// The access key.
    pub fn access_key(&self) -> (r: &String)
        ensures
            r@ == self.access_key_spec(),
    {
        &self.access_key
    }
}

} // verus!
