//! Perpetual-futures records and the request plumbing around them:
//! endpoint paths, the public contracts URL, response classification, and
//! the annualized funding rate derived from a contract's string-typed
//! decimal fields.

use vstd::prelude::*;

use crate::decstr::{
    decimal_is_negative, decimal_mantissa, decimal_scale, lemma_pow10_18, lemma_pow10_le,
    lemma_pow10_pos, parse_decimal, pow10, pow10_u64, valid_decimal, Decimal,
};
use crate::errors::GateError;
use crate::LIVE_URL;
use vstd::arithmetic::mul::{lemma_mul_strictly_positive, lemma_mul_upper_bound};
use vstd::string::StringExecFns;
use vstd::utf8::encode_utf8;

verus! {

/// Static description of one futures contract, as the exchange reports
/// it. Numeric-looking fields are kept as the exact decimal text the
/// exchange sent.
#[derive(Debug, Clone)]
pub struct FuturesContractInfo {
    pub name: String,
    pub mark_price: String,
    pub funding_rate_indicative: String,
    pub funding_offset: u64,
    pub in_delisting: bool,
    pub funding_interval: u64,
    pub funding_impact_value: String,
    pub funding_rate: String,
    pub quanto_multiplier: String,
}

/// Snapshot of a futures account in one settle currency.
#[derive(Debug, Clone)]
pub struct FuturesAccount {
    pub currency: String,
    pub total: String,
    pub unrealised_pnl: String,
    pub cross_margin_balance: String,
}

/// Snapshot of one open position.
#[derive(Debug, Clone)]
pub struct FuturesPosition {
    pub contract: String,
    pub size: i64,
    pub value: String,
    pub margin: String,
    pub entry_price: String,
    pub liq_price: String,
    pub mark_price: String,
}

/// Seconds in the 365-day year the annualization extrapolates to.
pub const SECONDS_PER_YEAR: u64 = 31536000;

/// An exact annualized rate: `numerator / denominator`, negated when
/// `negative` holds. Kept as a rational so no precision is lost; callers
/// convert to floating point only at the point of use.
#[derive(Debug, Clone)]
pub struct AnnualizedRate {
    pub negative: bool,
    pub numerator: u128,
    pub denominator: u128,
}

impl FuturesContractInfo {
    /// Extrapolate the per-interval funding rate to a yearly figure:
    /// intervals per year times the rate, that is
    /// `funding_rate * SECONDS_PER_YEAR / funding_interval`, kept exact as
    /// a rational. Fails with `NumericParseFailure` exactly when
    /// `funding_rate` is not a plain decimal numeral.
    pub fn annualized_funding_rate(&self) -> (r: Result<AnnualizedRate, GateError>)
        requires
            self.funding_interval > 0,
        ensures
            r is Ok <==> valid_decimal(encode_utf8(self.funding_rate@)),
            r matches Ok(a) ==> {
                &&& a.negative == decimal_is_negative(encode_utf8(self.funding_rate@))
                &&& a.numerator == decimal_mantissa(encode_utf8(self.funding_rate@))
                    * SECONDS_PER_YEAR
                &&& a.denominator == pow10(decimal_scale(encode_utf8(self.funding_rate@)) as nat)
                    * self.funding_interval
                &&& a.denominator > 0
            },
            r matches Err(e) ==> e is NumericParseFailure,
    {
        let d: Decimal = match parse_decimal(self.funding_rate.as_str()) {
            Ok(d) => d,
            Err(e) => {
                return Err(e);
            },
        };
        let scale_pow = pow10_u64(d.scale);
        proof {
            lemma_pow10_18();
            lemma_pow10_le(d.scale as nat, 18);
            lemma_pow10_pos(d.scale as nat);
            lemma_mul_strictly_positive(scale_pow as int, self.funding_interval as int);
            lemma_mul_upper_bound(
                d.mantissa as int,
                1000000000000000000int,
                SECONDS_PER_YEAR as int,
                SECONDS_PER_YEAR as int,
            );
            lemma_mul_upper_bound(
                scale_pow as int,
                1000000000000000000int,
                self.funding_interval as int,
                u64::MAX as int,
            );
        }
        let numerator = (d.mantissa as u128) * (SECONDS_PER_YEAR as u128);
        let denominator = (scale_pow as u128) * (self.funding_interval as u128);
        Ok(AnnualizedRate { negative: d.negative, numerator, denominator })
    }
}

pub uninterp spec fn lower_of(s: Seq<char>) -> Seq<char>;

/// Relies on str::to_lowercase: the lowercase mapping is a function of
/// the characters alone.
#[verifier::external_body]
fn to_lowercase(s: &str) -> (r: String)
    ensures
        r@ == lower_of(s@),
{
    s.to_lowercase()
}

/// The public (unauthenticated) URL listing all contracts settled in the
/// given coin.
pub fn futures_contracts_url(settle_coin: &str) -> (r: String)
    ensures
        r@ == LIVE_URL@ + "/futures/"@ + lower_of(settle_coin@) + "/contracts"@,
{
    let mut url = String::new();
    url.append(LIVE_URL);
    url.append("/futures/");
    let lower = to_lowercase(settle_coin);
    url.append(lower.as_str());
    url.append("/contracts");
    proof {
        assert(url@ =~= LIVE_URL@ + "/futures/"@ + lower_of(settle_coin@) + "/contracts"@);
    }
    url
}

/// The endpoint path of the account snapshot for one settle coin.
pub fn futures_account_endpoint(settle_coin: &str) -> (r: String)
    ensures
        r@ == "/futures/"@ + lower_of(settle_coin@) + "/accounts"@,
{
    let mut path = String::new();
    path.append("/futures/");
    let lower = to_lowercase(settle_coin);
    path.append(lower.as_str());
    path.append("/accounts");
    proof {
        assert(path@ =~= "/futures/"@ + lower_of(settle_coin@) + "/accounts"@);
    }
    path
}

/// The endpoint path of the position list for one settle coin.
pub fn futures_positions_endpoint(settle_coin: &str) -> (r: String)
    ensures
        r@ == "/futures/"@ + lower_of(settle_coin@) + "/positions"@,
{
    let mut path = String::new();
    path.append("/futures/");
    let lower = to_lowercase(settle_coin);
    path.append(lower.as_str());
    path.append("/positions");
    proof {
        assert(path@ =~= "/futures/"@ + lower_of(settle_coin@) + "/positions"@);
    }
    path
}

/// Classify an HTTP response: a 2xx status hands the raw body on to the
/// decode layer, anything else is a request failure carrying the status
/// and the body unchanged. The decode layer is never reached on failure.
pub fn classify_response(status: u16, body: String) -> (r: Result<String, GateError>)
    ensures
        r is Ok <==> 200 <= status < 300,
        r matches Ok(b) ==> b == body,
        r matches Err(e) ==> (e matches GateError::RequestFailure { status: s, body: b } && s
            == status && b == body),
{
    if 200 <= status && status < 300 {
        Ok(body)
    } else {
        Err(GateError::RequestFailure { status, body })
    }
}

/// Wrap a decoder's complaint together with the raw text it rejected, so
/// the caller can diagnose the mismatch without re-running the request.
pub fn decode_failure(error: String, raw_body: String) -> (r: GateError)
    ensures
        (r matches GateError::DecodeFailure { error: e, raw_body: b } && e == error && b
            == raw_body),
{
    GateError::DecodeFailure { error, raw_body }
}

} // verus!
