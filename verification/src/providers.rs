//! What a chain data provider hands over, before it is normalized, and the
//! rule on the address a provider may be reached at.

use vstd::prelude::*;

verus! {

/// `url::ParseError`, the error of `url::Url::parse`.
#[verifier::external_type_specification]
#[verifier::external_body]
pub struct ExParseError(url::ParseError);

/// Why no provider can be reached at an address.
#[derive(Debug, Clone)]
pub enum ProviderError {
    /// The address is no URL, or its scheme is neither `http` nor `https`.
    InvalidUri,
    /// The provider could not be set up; the text says why.
    Other(String),
}

/// What a provider answers when asked for a block by its number.
#[derive(Debug, Clone)]
pub enum FetchOutcome {
    /// The block, with its transactions.
    Found(ProviderBlock),
    /// There is no block of that number.
    NotFound,
    /// The call failed; the text says how.
    TransportError(String),
}

/// The scheme of `uri`, as `url::Url::parse` followed by `Url::scheme`
/// yields it, or `None` where `uri` does not parse as a URL.
pub uninterp spec fn url_scheme(uri: Seq<char>) -> Option<Seq<char>>;

/// Whether a provider can be reached over `scheme`.
pub open spec fn supported_scheme(scheme: Seq<char>) -> bool {
    scheme == "http"@ || scheme == "https"@
}

/// Whether `uri` is a URL over a supported scheme.
pub open spec fn valid_provider_uri(uri: Seq<char>) -> bool {
    url_scheme(uri) matches Some(scheme) && supported_scheme(scheme)
}

/// Parses `uri` with `url::Url::parse` and hands out the scheme that
/// `Url::scheme` reports, or the parser's error. The contract names the
/// scheme: it depends on the text of `uri` alone.
#[verifier::external_body]
fn parse_scheme(uri: &str) -> (r: Result<String, url::ParseError>)
    ensures
        match r {
            Ok(scheme) => url_scheme(uri@) == Some(scheme@),
            Err(_) => url_scheme(uri@) is None,
        },
{
    match url::Url::parse(uri) {
        Ok(parsed) => Ok(parsed.scheme().to_string()),
        Err(e) => Err(e),
    }
}

/// Whether a provider can be reached over `scheme`.
pub fn scheme_is_supported(scheme: &String) -> (b: bool)
    ensures
        b == supported_scheme(scheme@),
{
    let http = String::from_str("http");
    let https = String::from_str("https");
    *scheme == http || *scheme == https
}

/// Accepts the scheme of a parsed address where it is supported, and
/// refuses an address that did not parse or has another scheme.
pub fn accept_scheme(parsed: Result<String, url::ParseError>) -> (r: Result<(), ProviderError>)
    ensures
        r is Ok <==> (parsed matches Ok(scheme) && supported_scheme(scheme@)),
        r matches Err(e) ==> e is InvalidUri,
{
    match parsed {
        Ok(scheme) => {
            if scheme_is_supported(&scheme) {
                Ok(())
            } else {
                Err(ProviderError::InvalidUri)
            }
        },
        Err(_) => Err(ProviderError::InvalidUri),
    }
}

/// Accepts `uri` exactly where it is a URL whose scheme is `http` or
/// `https`.
pub fn check_provider_uri(uri: &str) -> (r: Result<(), ProviderError>)
    ensures
        r is Ok <==> valid_provider_uri(uri@),
        r matches Err(e) ==> e is InvalidUri,
{
    accept_scheme(parse_scheme(uri))
}

/// A block as the provider delivers it. Fields that the transport models as
/// nullable are options; hashes and addresses are raw bytes of their fixed
/// width; wei-scale numbers are four 64-bit limbs, least significant first.
#[derive(Debug, Clone)]
pub struct ProviderBlock {
    pub number: Option<u64>,
    pub hash: Option<[u8; 32]>,
    pub parent_hash: [u8; 32],
    pub nonce: Option<[u8; 8]>,
    pub uncles_hash: [u8; 32],
    pub logs_bloom: Option<[u8; 256]>,
    pub transactions_root: [u8; 32],
    pub state_root: [u8; 32],
    pub receipts_root: [u8; 32],
    pub author: Option<[u8; 20]>,
    pub difficulty: [u64; 4],
    pub total_difficulty: Option<[u64; 4]>,
    pub size: Option<u64>,
    pub extra_data: Vec<u8>,
    pub gas_limit: u64,
    pub gas_used: u64,
    pub timestamp: u64,
    pub base_fee_per_gas: Option<u64>,
    pub withdrawals_root: Option<[u8; 32]>,
    pub blob_gas_used: Option<u64>,
    pub excess_blob_gas: Option<u64>,
    pub transactions: Vec<ProviderTransaction>,
}

/// A transaction as the provider delivers it. The two blob fields are not
/// part of the provider's typed model: the fee is the text found under its
/// key, if any, and each entry of the hash list is the text found there, or
/// `None` where the entry was not text.
#[derive(Debug, Clone)]
pub struct ProviderTransaction {
    pub hash: [u8; 32],
    pub nonce: u64,
    pub block_hash: Option<[u8; 32]>,
    pub block_number: Option<u64>,
    pub transaction_index: Option<u64>,
    pub from: [u8; 20],
    pub to: Option<[u8; 20]>,
    pub value: [u64; 4],
    pub gas: u64,
    pub gas_price: Option<[u64; 4]>,
    pub input: Vec<u8>,
    pub max_fee_per_gas: Option<u64>,
    pub max_priority_fee_per_gas: Option<u64>,
    pub transaction_type: Option<u64>,
    pub max_fee_per_blob_gas: Option<String>,
    pub blob_versioned_hashes: Vec<Option<String>>,
}

} // verus!
