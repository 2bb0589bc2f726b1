//! The locale model: closed enumerations for countries, currencies and
//! travel destinations, with parsing, canonical names and the
//! country-to-currency mapping.

use vstd::prelude::*;
use crate::errors::ExpendError;
use crate::strings::str_eq;

verus! {

/// A country the tool supports.
#[derive(Clone, Copy, PartialEq, Eq, Structural, Debug)]
pub enum Country {
    Germany,
}

/// A currency a supported country uses.
#[derive(Clone, Copy, PartialEq, Eq, Structural, Debug)]
pub enum Currency {
    EUR,
}

/// A travel destination the per-diem tables know.
#[derive(Clone, Copy, PartialEq, Eq, Structural, Debug)]
pub enum Destination {
    IndiaOther,
}

/// The one currency each country maps to.
pub open spec fn currency_of(c: Country) -> Currency {
    match c {
        Country::Germany => Currency::EUR,
    }
}

/// The canonical display name of a country.
pub open spec fn country_name(c: Country) -> Seq<char> {
    match c {
        Country::Germany => "Germany"@,
    }
}

/// The canonical display name of a currency.
pub open spec fn currency_name(c: Currency) -> Seq<char> {
    match c {
        Currency::EUR => "EUR"@,
    }
}

/// The symbol of a currency.
pub open spec fn currency_symbol(c: Currency) -> Seq<char> {
    match c {
        Currency::EUR => "€"@,
    }
}

/// The canonical display name of a destination.
pub open spec fn destination_name(d: Destination) -> Seq<char> {
    match d {
        Destination::IndiaOther => "India-Other"@,
    }
}

impl Currency {
    /// The symbol of this currency.
    pub fn symbol(&self) -> (r: &'static str)
        ensures
            r@ == currency_symbol(*self),
    {
        match self {
            Currency::EUR => "€",
        }
    }

    /// The canonical display name of this currency.
    pub fn name(&self) -> (r: &'static str)
        ensures
            r@ == currency_name(*self),
    {
        match self {
            Currency::EUR => "EUR",
        }
    }
}

impl Country {
    /// The currency used in this country.
    pub fn currency(&self) -> (r: Currency)
        ensures
            r == currency_of(*self),
    {
        match self {
            Country::Germany => Currency::EUR,
        }
    }

    /// The canonical display name of this country.
    pub fn name(&self) -> (r: &'static str)
        ensures
            r@ == country_name(*self),
    {
        match self {
            Country::Germany => "Germany",
        }
    }

    /// Parses a country identifier; only the canonical name and its
    /// all-lower-case spelling are accepted.
    pub fn from_str(s: &str) -> (r: Result<Country, ExpendError>)
        ensures
            r matches Ok(c) ==> c == Country::Germany,
            r is Ok <==> (s@ == "germany"@ || s@ == "Germany"@),
            r matches Err(e) ==> e matches ExpendError::LocaleParse { input } && input@ == s@,
    {
        if str_eq(s, "germany") || str_eq(s, "Germany") {
            Ok(Country::Germany)
        } else {
            Err(ExpendError::LocaleParse { input: s.to_owned() })
        }
    }
}

impl Default for Country {
    /// The country assumed when a user context does not name one.
    fn default() -> (r: Self)
        ensures
            r == Country::Germany,
    {
        Country::Germany
    }
}

impl Destination {
    /// The canonical display name of this destination.
    pub fn name(&self) -> (r: &'static str)
        ensures
            r@ == destination_name(*self),
    {
        match self {
            Destination::IndiaOther => "India-Other",
        }
    }

    /// Parses a destination identifier; only the canonical name and its
    /// all-lower-case spelling are accepted.
    pub fn from_str(s: &str) -> (r: Result<Destination, ExpendError>)
        ensures
            r matches Ok(d) ==> d == Destination::IndiaOther,
            r is Ok <==> (s@ == "india-other"@ || s@ == "India-Other"@),
            r matches Err(e) ==> e matches ExpendError::LocaleParse { input } && input@ == s@,
    {
        if str_eq(s, "india-other") || str_eq(s, "India-Other") {
            Ok(Destination::IndiaOther)
        } else {
            Err(ExpendError::LocaleParse { input: s.to_owned() })
        }
    }
}

/// Every country's currency carries a fixed, non-empty symbol; Germany's
/// is the one-character euro sign.
pub proof fn lemma_country_currency_symbol_nonempty(c: Country)
    ensures
        currency_symbol(currency_of(c)).len() > 0,
        currency_of(Country::Germany) == Currency::EUR,
        currency_symbol(Currency::EUR) == "€"@,
{
    reveal_strlit("€");
}

} // verus!
