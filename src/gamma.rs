use vstd::prelude::*;
use vstd::string::StringExecFns;

verus! {

/// Base address of the market discovery service.
pub const GAMMA_BASE: &'static str = "https://gamma-api.polymarket.com";

/// A market record as the discovery service returns it.
#[derive(Debug)]
pub struct Market {
    pub condition_id: String,
    /// The token identifiers, as a JSON array of strings inside a string.
    pub clob_token_ids: String,
    pub end_date: Option<String>,
    pub slug: Option<String>,
}

/// A market record with its two token identifiers taken out: the first is YES,
/// the second NO.
#[derive(Debug)]
pub struct MarketInfo {
    pub condition_id: String,
    pub yes_token: String,
    pub no_token: String,
    pub end_date: Option<String>,
    pub slug: String,
}

/// Why a market record cannot be used.
#[derive(Debug, Clone, PartialEq, Eq)]
pub enum GammaError {
    /// The token list is not a JSON array of strings.
    BadTokenList { slug: String },
    /// The token list holds fewer than two identifiers.
    TooFewTokens { slug: String },
}

/// The strings of a JSON array of strings, or none when the text is not one.
pub uninterp spec fn json_string_list(s: Seq<char>) -> Option<Seq<Seq<char>>>;

pub open spec fn digit_char(d: nat) -> char {
    if d == 0 {
        '0'
    } else if d == 1 {
        '1'
    } else if d == 2 {
        '2'
    } else if d == 3 {
        '3'
    } else if d == 4 {
        '4'
    } else if d == 5 {
        '5'
    } else if d == 6 {
        '6'
    } else if d == 7 {
        '7'
    } else if d == 8 {
        '8'
    } else {
        '9'
    }
}

/// Decimal digits of `n`, most significant first, without sign or padding.
pub open spec fn decimal_text(n: nat) -> Seq<char>
    decreases n,
{
    if n < 10 {
        seq![digit_char(n)]
    } else {
        decimal_text(n / 10).push(digit_char(n % 10))
    }
}

pub open spec fn spec_floor_15m(ts: u64) -> u64 {
    (ts - ts % 900) as u64
}

pub open spec fn spec_floor_5m(ts: u64) -> u64 {
    (ts - ts % 300) as u64
}

#[verifier::external_type_specification]
#[verifier::external_body]
pub struct ExJsonError(serde_json::Error);

/// Relies on `serde_json::from_str` at type `Vec<String>`: it succeeds exactly on a
/// JSON array of strings, and the result depends on the text alone.
#[verifier::external_body]
fn parse_string_list(s: &str) -> (r: Result<Vec<String>, serde_json::Error>)
    ensures
        r matches Ok(v) ==> json_string_list(s@) == Some(v@.map_values(|x: String| x@)),
        r is Err ==> json_string_list(s@) is None,
{
    serde_json::from_str::<Vec<String>>(s)
}

/// Relies on `u64`'s `Display`, through `to_string`: the decimal digits.
#[verifier::external_body]
fn u64_text(n: u64) -> (r: String)
    ensures
        r@ == decimal_text(n as nat),
{
    n.to_string()
}

/// Relies on `SystemTime::now`: whole seconds since the Unix epoch, or 0 for a
/// clock set before it.
#[verifier::external_body]
fn now() -> (r: u64) {
    std::time::SystemTime::now().duration_since(std::time::UNIX_EPOCH).map(|d| d.as_secs()).unwrap_or(0)
}

/// Start of the fifteen-minute epoch that holds `ts`.
pub fn floor_15m(ts: u64) -> (r: u64)
    ensures
        r == spec_floor_15m(ts),
        r <= ts,
        r % 900 == 0,
        ts - r < 900,
{
    ts - (ts % 900)
}

/// Start of the five-minute epoch that holds `ts`.
pub fn floor_5m(ts: u64) -> (r: u64)
    ensures
        r == spec_floor_5m(ts),
        r <= ts,
        r % 300 == 0,
        ts - r < 300,
{
    ts - (ts % 300)
}

/// Slug of the fifteen-minute market that starts at `epoch`.
pub fn slug_15m(epoch: u64) -> (r: String)
    ensures
        r@ == "btc-updown-15m-"@ + decimal_text(epoch as nat),
{
    let prefix = "btc-updown-15m-".to_owned();
    let digits = u64_text(epoch);
    prefix.concat(digits.as_str())
}

/// Slug of the five-minute market that starts at `epoch`.
pub fn slug_5m(epoch: u64) -> (r: String)
    ensures
        r@ == "btc-updown-5m-"@ + decimal_text(epoch as nat),
{
    let prefix = "btc-updown-5m-".to_owned();
    let digits = u64_text(epoch);
    prefix.concat(digits.as_str())
}

/// Slug of the fifteen-minute market running now.
pub fn current_15m_slug() -> (r: String)
    ensures
        exists|t: u64| r@ == "btc-updown-15m-"@ + decimal_text(spec_floor_15m(t) as nat),
{
    let t = now();
    slug_15m(floor_15m(t))
}

/// Slug of the five-minute market running now.
pub fn current_5m_slug() -> (r: String)
    ensures
        exists|t: u64| r@ == "btc-updown-5m-"@ + decimal_text(spec_floor_5m(t) as nat),
{
    let t = now();
    slug_5m(floor_5m(t))
}

/// Address of the record of the market with this slug.
pub fn market_url(slug: &str) -> (r: String)
    ensures
        r@ == GAMMA_BASE@ + "/markets/slug/"@ + slug@,
{
    let base = GAMMA_BASE.to_owned();
    base.concat("/markets/slug/").concat(slug)
}

/// The market record with its token identifiers: an error when there are fewer
/// than two, else YES is the first and NO the second.
pub fn market_info_from_tokens(market: Market, token_ids: Vec<String>, slug: &str) -> (r: Result<
    MarketInfo,
    GammaError,
>)
    ensures
        token_ids@.len() < 2 ==> (r matches Err(GammaError::TooFewTokens { slug: s }) && s@
            == slug@),
        token_ids@.len() >= 2 ==> (r matches Ok(info) && info.condition_id == market.condition_id
            && info.yes_token == token_ids@[0] && info.no_token == token_ids@[1] && info.end_date
            == market.end_date && info.slug@ == slug@),
{
    if token_ids.len() < 2 {
        return Err(GammaError::TooFewTokens { slug: slug.to_owned() });
    }
    let yes_token = token_ids[0].clone();
    let no_token = token_ids[1].clone();
    Ok(
        MarketInfo {
            condition_id: market.condition_id,
            yes_token,
            no_token,
            end_date: market.end_date,
            slug: slug.to_owned(),
        },
    )
}

/// The market record with its token list read: an error when the list is not a
/// JSON array of strings or holds fewer than two, else YES is the first and NO
/// the second.
pub fn market_info(market: Market, slug: &str) -> (r: Result<MarketInfo, GammaError>)
    ensures
        match json_string_list(market.clob_token_ids@) {
            None => (r matches Err(GammaError::BadTokenList { slug: s }) && s@ == slug@),
            Some(ids) => if ids.len() < 2 {
                (r matches Err(GammaError::TooFewTokens { slug: s }) && s@ == slug@)
            } else {
                (r matches Ok(info) && info.condition_id == market.condition_id
                    && info.yes_token@ == ids[0] && info.no_token@ == ids[1] && info.end_date
                    == market.end_date && info.slug@ == slug@)
            },
        },
{
    match parse_string_list(market.clob_token_ids.as_str()) {
        Ok(ids) => market_info_from_tokens(market, ids, slug),
        Err(_) => Err(GammaError::BadTokenList { slug: slug.to_owned() }),
    }
}

} // verus!
