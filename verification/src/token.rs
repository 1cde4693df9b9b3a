//! Token identity. A token is identified by its mint address, here held as
//! a plain integer key; equality of tokens is equality of mints.

use vstd::prelude::*;

verus! {

/// An SPL token: mint address (as an integer key), display data and
/// decimal precision.
#[derive(Debug)]
pub struct Token {
    pub mint: u64,
    pub symbol: String,
    pub name: String,
    pub decimals: u8,
    pub logo_uri: Option<String>,
    pub coingecko_id: Option<String>,
}

impl Token {
    /// A token with no logo and no listing id.
    pub fn new(mint: u64, symbol: String, name: String, decimals: u8) -> (r: Token)
        ensures
            r.mint == mint,
            r.symbol == symbol,
            r.name == name,
            r.decimals == decimals,
            r.logo_uri is None,
            r.coingecko_id is None,
    {
        Token { mint, symbol, name, decimals, logo_uri: None, coingecko_id: None }
    }

    /// The same token with a logo attached.
    pub fn with_logo(self, logo_uri: String) -> (r: Token)
        ensures
            r == (Token { logo_uri: Some(logo_uri), ..self }),
    {
        Token { logo_uri: Some(logo_uri), ..self }
    }

    /// The same token with a listing id attached.
    pub fn with_coingecko_id(self, coingecko_id: String) -> (r: Token)
        ensures
            r == (Token { coingecko_id: Some(coingecko_id), ..self }),
    {
        Token { coingecko_id: Some(coingecko_id), ..self }
    }
}

impl Clone for Token {
    fn clone(&self) -> (r: Token)
        ensures
            r == *self,
    {
        Token {
            mint: self.mint,
            symbol: self.symbol.clone(),
            name: self.name.clone(),
            decimals: self.decimals,
            logo_uri: clone_opt_string(&self.logo_uri),
            coingecko_id: clone_opt_string(&self.coingecko_id),
        }
    }
}

/// Clone of an optional string, kept equal to its source.
pub fn clone_opt_string(s: &Option<String>) -> (r: Option<String>)
    ensures
        r == *s,
{
    match s {
        Some(x) => Some(x.clone()),
        None => None,
    }
}

/// Where a token price came from.
#[derive(Debug)]
pub enum PriceSource {
    Coingecko,
    Jupiter,
    Pyth,
    Custom(String),
}

impl Clone for PriceSource {
    fn clone(&self) -> (r: PriceSource)
        ensures
            r == *self,
    {
        match self {
            PriceSource::Coingecko => PriceSource::Coingecko,
            PriceSource::Jupiter => PriceSource::Jupiter,
            PriceSource::Pyth => PriceSource::Pyth,
            PriceSource::Custom(s) => PriceSource::Custom(s.clone()),
        }
    }
}

} // verus!
