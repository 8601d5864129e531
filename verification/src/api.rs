//! The fund data service: request URLs for each query and the checks that
//! its replies pass before their payload is used.
//!
//! A query runs in two steps. `Client::get_…` (or `search_…`) validates its
//! arguments and returns the URL to fetch; the caller fetches it, decodes the
//! reply into the matching envelope of `crate::models`, and hands the
//! envelope to `Client::check_api_response` or `Client::check_bigdata`,
//! which give the payload or the service's error.
use vstd::prelude::*;
use vstd::string::StringSliceAdditionalSpecFns;
use crate::models::{ApiResponse, BigDataApiResponse, FundRankParams};
use crate::num::{decimal, decimal_chars, signed_decimal, signed_decimal_chars};
use crate::text::{chars_of, push_all, string_of};

verus! {

broadcast use {vstd::string::group_string_axioms, vstd::slice::group_slice_axioms};

/// Why a query was refused or failed.
#[derive(Debug, Clone)]
pub enum ApiError {
    /// A required argument (named here) was empty.
    EmptyField(String),
    /// The service answered with a non-zero error code.
    ApiCode(i32),
    /// A big-data endpoint answered with a non-zero result code.
    BigDataCode(i32),
    /// The endpoint is known to be out of service.
    Unavailable(String),
}

/// The text of an error message: what the service client reports.
pub open spec fn error_text(e: ApiError) -> Seq<char> {
    match e {
        ApiError::EmptyField(f) => f@ + " cannot be empty"@,
        ApiError::ApiCode(c) => "API error code: "@ + signed_decimal(c as int),
        ApiError::BigDataCode(c) => "BigData API error code: "@ + signed_decimal(c as int),
        ApiError::Unavailable(m) => m@,
    }
}

impl ApiError {
    /// The error message.
    pub fn message(&self) -> (m: String)
        ensures
            m@ == error_text(*self),
    {
        match self {
            ApiError::EmptyField(f) => {
                let mut v = chars_of(f.as_str());
                push_all(&mut v, &chars_of(" cannot be empty"));
                string_of(&v)
            },
            ApiError::ApiCode(c) => {
                let mut v = chars_of("API error code: ");
                push_all(&mut v, &signed_decimal_chars(*c as i64));
                string_of(&v)
            },
            ApiError::BigDataCode(c) => {
                let mut v = chars_of("BigData API error code: ");
                push_all(&mut v, &signed_decimal_chars(*c as i64));
                string_of(&v)
            },
            ApiError::Unavailable(m) => m.clone(),
        }
    }
}

/// The endpoint that every query goes to.
pub open spec fn base_url() -> Seq<char> {
    "https://tiantian-fund-api.vercel.app/api/action"@
}

/// `&key=value` for each parameter, in order.
pub open spec fn query_text(params: Seq<(Seq<char>, Seq<char>)>) -> Seq<char>
    decreases params.len(),
{
    if params.len() == 0 {
        seq![]
    } else {
        query_text(params.drop_last()) + "&"@ + params.last().0 + "="@ + params.last().1
    }
}

/// The URL of an action with its parameters.
pub open spec fn action_url(action: Seq<char>, params: Seq<(Seq<char>, Seq<char>)>) -> Seq<char> {
    base_url() + "?action_name="@ + action + query_text(params)
}

pub open spec fn params_view(p: Seq<(&str, &str)>) -> Seq<(Seq<char>, Seq<char>)> {
    p.map_values(|x: (&str, &str)| (x.0@, x.1@))
}

pub open spec fn owned_params_view(p: Seq<(&str, String)>) -> Seq<(Seq<char>, Seq<char>)> {
    p.map_values(|x: (&str, String)| (x.0@, x.1@))
}

/// The outcome of a query step that validates `checked` (named `field`) and
/// otherwise plans a request for `url`.
pub open spec fn planned(
    r: Result<String, ApiError>,
    checked: Seq<char>,
    field: Seq<char>,
    url: Seq<char>,
) -> bool {
    if checked.len() == 0 {
        r matches Err(ApiError::EmptyField(f)) && f@ == field
    } else {
        r matches Ok(u) && u@ == url
    }
}

/// The outcome of a query step that plans a request for `url`.
pub open spec fn planned_url(r: Result<String, ApiError>, url: Seq<char>) -> bool {
    r matches Ok(u) && u@ == url
}

// ── Percent-encoding of search keywords ────────────────────────────────────

/// A byte that percent-encoding leaves as it is: ASCII letters and digits,
/// `-`, `.`, `_` and `~`.
pub open spec fn unreserved(b: u8) -> bool {
    (48 <= b <= 57) || (65 <= b <= 90) || (97 <= b <= 122) || b == 45 || b == 46 || b == 95
        || b == 126
}

/// The upper-case hex digit for `n` (0 ≤ n < 16).
pub open spec fn hex_upper(n: int) -> char {
    if n < 10 {
        ('0' as int + n) as char
    } else {
        ('A' as int + n - 10) as char
    }
}

/// Percent-encoding of a byte string: unreserved bytes stay, every other
/// byte becomes `%` and two upper-case hex digits.
pub open spec fn percent_encode(bytes: Seq<u8>) -> Seq<char>
    decreases bytes.len(),
{
    if bytes.len() == 0 {
        seq![]
    } else {
        let b = bytes.last();
        percent_encode(bytes.drop_last()) + if unreserved(b) {
            seq![b as char]
        } else {
            seq!['%', hex_upper(b as int / 16), hex_upper(b as int % 16)]
        }
    }
}

/// Percent-encodes the UTF-8 bytes of `s` (`urlencoding::encode`), which
/// keeps ASCII letters, digits and `-._~` and writes every other byte as
/// `%XX` in upper-case hex.
#[verifier::external_body]
fn url_encode(s: &str) -> (r: String)
    ensures
        r@ == percent_encode(s.spec_bytes()),
{
    urlencoding::encode(s).into_owned()
}

/// A percent-encoded text has no character that could end a query
/// parameter (`&`), start a value (`=`) or a fragment (`#`): a keyword cannot
/// smuggle extra parameters into a request.
pub proof fn lemma_encoded_is_one_parameter(bytes: Seq<u8>)
    ensures
        forall|i: int|
            0 <= i < percent_encode(bytes).len() ==> {
                let c = #[trigger] percent_encode(bytes)[i];
                c != '&' && c != '=' && c != '#' && c != ' '
            },
    decreases bytes.len(),
{
    if bytes.len() > 0 {
        lemma_encoded_is_one_parameter(bytes.drop_last());
        let b = bytes.last();
        let prev = percent_encode(bytes.drop_last());
        let tail = if unreserved(b) {
            seq![b as char]
        } else {
            seq!['%', hex_upper(b as int / 16), hex_upper(b as int % 16)]
        };
        assert(percent_encode(bytes) == prev + tail);
        assert forall|i: int| 0 <= i < percent_encode(bytes).len() implies {
            let c = #[trigger] percent_encode(bytes)[i];
            c != '&' && c != '=' && c != '#' && c != ' '
        } by {
            if i >= prev.len() {
                let k = i - prev.len();
                assert(percent_encode(bytes)[i] == tail[k]);
                if !unreserved(b) {
                    assert(0 <= b as int / 16 < 16 && 0 <= b as int % 16 < 16);
                }
            } else {
                assert(percent_encode(bytes)[i] == prev[i]);
            }
        }
    }
}

// ── Building URLs ──────────────────────────────────────────────────────────

fn append(v: &mut Vec<char>, s: &str)
    ensures
        final(v)@ == old(v)@ + s@,
{
    let c = chars_of(s);
    push_all(v, &c);
}

/// The unit-struct client of the fund data service.
#[derive(Debug, Clone, Copy)]
pub struct Client;

impl Default for Client {
    fn default() -> (c: Client) {
        Client
    }
}

impl Client {
    pub fn new() -> (c: Client) {
        Client
    }

    /// `Err(EmptyField(field_name))` when `value` is empty.
    pub fn validate_non_empty(value: &str, field_name: &str) -> (r: Result<(), ApiError>)
        ensures
            value@.len() == 0 ==> (r matches Err(ApiError::EmptyField(f)) && f@ == field_name@),
            value@.len() != 0 ==> r is Ok,
    {
        if value.is_empty() {
            return Err(ApiError::EmptyField(field_name.to_owned()));
        }
        Ok(())
    }

    /// The payload of a standard reply whose error code is 0, or the code.
    pub fn check_api_response<T>(response: ApiResponse<T>) -> (r: Result<T, ApiError>)
        ensures
            response.err_code == 0 ==> r == Ok::<T, ApiError>(response.datas),
            response.err_code != 0 ==> r == Err::<T, ApiError>(
                ApiError::ApiCode(response.err_code),
            ),
    {
        if response.err_code != 0 {
            return Err(ApiError::ApiCode(response.err_code));
        }
        Ok(response.datas)
    }

    /// The payload of a big-data reply whose result code is 0, or the code.
    pub fn check_bigdata<T>(response: BigDataApiResponse<T>) -> (r: Result<T, ApiError>)
        ensures
            response.result_code == 0 ==> r == Ok::<T, ApiError>(response.datas),
            response.result_code != 0 ==> r == Err::<T, ApiError>(
                ApiError::BigDataCode(response.result_code),
            ),
    {
        if response.result_code != 0 {
            return Err(ApiError::BigDataCode(response.result_code));
        }
        Ok(response.datas)
    }

    /// `BASE?action_name=action` followed by `&key=value` per parameter.
    pub fn build_url(action: &str, params: &[(&str, &str)]) -> (url: String)
        ensures
            url@ == action_url(action@, params_view(params@)),
    {
        let mut v = chars_of("https://tiantian-fund-api.vercel.app/api/action?action_name=");
        proof {
            reveal_strlit("https://tiantian-fund-api.vercel.app/api/action?action_name=");
            reveal_strlit("https://tiantian-fund-api.vercel.app/api/action");
            reveal_strlit("?action_name=");
            assert("https://tiantian-fund-api.vercel.app/api/action?action_name="@ =~= base_url()
                + "?action_name="@);
        }
        append(&mut v, action);
        let ghost head = v@;
        let mut i: usize = 0;
        assert(params_view(params@).take(0) =~= Seq::<(Seq<char>, Seq<char>)>::empty());
        while i < params.len()
            invariant
                i <= params@.len(),
                head == base_url() + "?action_name="@ + action@,
                v@ == head + query_text(params_view(params@).take(i as int)),
            decreases params@.len() - i,
        {
            let (key, value) = params[i];
            let ghost before = v@;
            append(&mut v, "&");
            append(&mut v, key);
            append(&mut v, "=");
            append(&mut v, value);
            proof {
                let pv = params_view(params@);
                assert(pv.take(i + 1).drop_last() =~= pv.take(i as int));
                assert(pv.take(i + 1).last() == (key@, value@));
                assert(v@ =~= head + query_text(pv.take(i + 1)));
            }
            i = i + 1;
        }
        assert(params_view(params@).take(params@.len() as int) =~= params_view(params@));
        string_of(&v)
    }

    /// Adds `(key, value)` to `params` when `value` is present.
    pub fn push_param<'a>(params: &mut Vec<(&'a str, String)>, key: &'a str, value: &Option<String>)
        ensures
            owned_params_view(final(params)@) == owned_params_view(old(params)@) + opt_param(
                key@,
                *value,
            ),
    {
        let ghost before = params@;
        if let Some(v) = value {
            params.push((key, v.clone()));
            assert(owned_params_view(params@) =~= owned_params_view(before) + seq![(key@, v@)]);
        } else {
            assert(owned_params_view(params@) =~= owned_params_view(before) + seq![]);
        }
    }
}


impl Client {
    /// The fund brief (`fundMNStopWatch`), with the tracked index of index funds.
    pub fn get_fund_brief(&self, code: &str) -> (r: Result<String, ApiError>)
        ensures
            planned(r, code@, "fund code"@, action_url("fundMNStopWatch"@, seq![("FCODE"@, code@)])),
    {
        let params: [(&str, &str); 1] = [("FCODE", code)];
        assert(params_view(params@) =~= seq![("FCODE"@, code@)]);
        Self::validate_non_empty(code, "fund code")?;
        Ok(Self::build_url("fundMNStopWatch", &params))
    }

    /// Fund details (`fundMNDetailInformation`).
    pub fn get_fund_estimate(&self, code: &str) -> (r: Result<String, ApiError>)
        ensures
            planned(r, code@, "fund code"@, action_url("fundMNDetailInformation"@, seq![("FCODE"@, code@)])),
    {
        let params: [(&str, &str); 1] = [("FCODE", code)];
        assert(params_view(params@) =~= seq![("FCODE"@, code@)]);
        Self::validate_non_empty(code, "fund code")?;
        Ok(Self::build_url("fundMNDetailInformation", &params))
    }

    /// A fund's rank history over `range` (`fundRankDiagram`).
    pub fn get_rank_history(&self, code: &str, range: &str) -> (r: Result<String, ApiError>)
        ensures
            planned(r, code@, "fund code"@, action_url("fundRankDiagram"@, seq![("FCODE"@, code@), ("RANGE"@, range@)])),
    {
        let params: [(&str, &str); 2] = [("FCODE", code), ("RANGE", range)];
        assert(params_view(params@) =~= seq![("FCODE"@, code@), ("RANGE"@, range@)]);
        Self::validate_non_empty(code, "fund code")?;
        Ok(Self::build_url("fundRankDiagram", &params))
    }

    /// A fund's managers (`fundMNMangerList`).
    pub fn get_fund_managers(&self, code: &str) -> (r: Result<String, ApiError>)
        ensures
            planned(r, code@, "fund code"@, action_url("fundMNMangerList"@, seq![("FCODE"@, code@)])),
    {
        let params: [(&str, &str); 1] = [("FCODE", code)];
        assert(params_view(params@) =~= seq![("FCODE"@, code@)]);
        Self::validate_non_empty(code, "fund code")?;
        Ok(Self::build_url("fundMNMangerList", &params))
    }

    /// A manager's risk evaluation (`fundMSNMangerPerEval`).
    pub fn get_manager_performance(&self, manager_id: &str) -> (r: Result<String, ApiError>)
        ensures
            planned(r, manager_id@, "manager ID"@, action_url("fundMSNMangerPerEval"@, seq![("mGRID"@, manager_id@)])),
    {
        let params: [(&str, &str); 1] = [("mGRID", manager_id)];
        assert(params_view(params@) =~= seq![("mGRID"@, manager_id@)]);
        Self::validate_non_empty(manager_id, "manager ID")?;
        Ok(Self::build_url("fundMSNMangerPerEval", &params))
    }

    /// A fund's NAV trend over `range` with `point_count` points (`fundVPageDiagram`), for risk metrics.
    pub fn get_nav_trend(&self, code: &str, range: &str, point_count: i32) -> (r: Result<String, ApiError>)
        ensures
            planned(r, code@, "fund code"@, action_url("fundVPageDiagram"@, seq![("FCODE"@, code@), ("RANGE"@, range@), ("POINTCOUNT"@, signed_decimal(point_count as int))])),
    {
        let pc = string_of(&signed_decimal_chars(point_count as i64));
        let params: [(&str, &str); 3] = [("FCODE", code), ("RANGE", range), ("POINTCOUNT", pc.as_str())];
        assert(params_view(params@) =~= seq![("FCODE"@, code@), ("RANGE"@, range@), ("POINTCOUNT"@, signed_decimal(point_count as int))]);
        Self::validate_non_empty(code, "fund code")?;
        Ok(Self::build_url("fundVPageDiagram", &params))
    }

    /// A fund's accumulated return against the index `index_code` over `range` (`fundVPageAcc`).
    pub fn get_accumulated_return(&self, code: &str, range: &str, index_code: &str) -> (r: Result<String, ApiError>)
        ensures
            planned(r, code@, "fund code"@, action_url("fundVPageAcc"@, seq![("FCODE"@, code@), ("RANGE"@, range@), ("INDEXCODE"@, index_code@)])),
    {
        let params: [(&str, &str); 3] = [("FCODE", code), ("RANGE", range), ("INDEXCODE", index_code)];
        assert(params_view(params@) =~= seq![("FCODE"@, code@), ("RANGE"@, range@), ("INDEXCODE"@, index_code@)]);
        Self::validate_non_empty(code, "fund code")?;
        Ok(Self::build_url("fundVPageAcc", &params))
    }

    /// The ten latest agency ratings of a fund (`fundGradeDetail`).
    pub fn get_fund_rating(&self, code: &str) -> (r: Result<String, ApiError>)
        ensures
            planned(r, code@, "fund code"@, action_url("fundGradeDetail"@, seq![("FCODE"@, code@), ("pageIndex"@, "1"@), ("pageSize"@, "10"@)])),
    {
        let params: [(&str, &str); 3] = [("FCODE", code), ("pageIndex", "1"), ("pageSize", "10")];
        assert(params_view(params@) =~= seq![("FCODE"@, code@), ("pageIndex"@, "1"@), ("pageSize"@, "10"@)]);
        Self::validate_non_empty(code, "fund code")?;
        Ok(Self::build_url("fundGradeDetail", &params))
    }

    /// A fund's calendar-year returns (period increases over range `n`).
    pub fn get_yearly_returns(&self, code: &str) -> (r: Result<String, ApiError>)
        ensures
            planned(r, code@, "fund code"@, action_url("fundMNPeriodIncrease"@, seq![("FCODE"@, code@), ("RANGE"@, "n"@)])),
    {
        self.get_period_increase_with_range(code, "n")
    }

    /// A fund's monthly returns (period increases over range `y`).
    pub fn get_monthly_returns(&self, code: &str) -> (r: Result<String, ApiError>)
        ensures
            planned(r, code@, "fund code"@, action_url("fundMNPeriodIncrease"@, seq![("FCODE"@, code@), ("RANGE"@, "y"@)])),
    {
        self.get_period_increase_with_range(code, "y")
    }

    /// A fund's period increases over `range` (`fundMNPeriodIncrease`).
    fn get_period_increase_with_range(&self, code: &str, range: &str) -> (r: Result<String, ApiError>)
        ensures
            planned(r, code@, "fund code"@, action_url("fundMNPeriodIncrease"@, seq![("FCODE"@, code@), ("RANGE"@, range@)])),
    {
        let params: [(&str, &str); 2] = [("FCODE", code), ("RANGE", range)];
        assert(params_view(params@) =~= seq![("FCODE"@, code@), ("RANGE"@, range@)]);
        Self::validate_non_empty(code, "fund code")?;
        Ok(Self::build_url("fundMNPeriodIncrease", &params))
    }

    /// A manager's profile (`fundMSNMangerInfo`).
    pub fn get_manager_info(&self, manager_id: &str) -> (r: Result<String, ApiError>)
        ensures
            planned(r, manager_id@, "manager ID"@, action_url("fundMSNMangerInfo"@, seq![("FCODE"@, manager_id@)])),
    {
        let params: [(&str, &str); 1] = [("FCODE", manager_id)];
        assert(params_view(params@) =~= seq![("FCODE"@, manager_id@)]);
        Self::validate_non_empty(manager_id, "manager ID")?;
        Ok(Self::build_url("fundMSNMangerInfo", &params))
    }

    /// A manager's accumulated return over `range` (`fundMSNMangerAcc`).
    pub fn get_manager_acc(&self, manager_id: &str, range: &str) -> (r: Result<String, ApiError>)
        ensures
            planned(r, manager_id@, "manager ID"@, action_url("fundMSNMangerAcc"@, seq![("mGRID"@, manager_id@), ("rANGE"@, range@)])),
    {
        let params: [(&str, &str); 2] = [("mGRID", manager_id), ("rANGE", range)];
        assert(params_view(params@) =~= seq![("mGRID"@, manager_id@), ("rANGE"@, range@)]);
        Self::validate_non_empty(manager_id, "manager ID")?;
        Ok(Self::build_url("fundMSNMangerAcc", &params))
    }

    /// A manager's returns and ranks (`fundMSNMangerPerRank`).
    pub fn get_manager_rank(&self, manager_id: &str) -> (r: Result<String, ApiError>)
        ensures
            planned(r, manager_id@, "manager ID"@, action_url("fundMSNMangerPerRank"@, seq![("mGRID"@, manager_id@)])),
    {
        let params: [(&str, &str); 1] = [("mGRID", manager_id)];
        assert(params_view(params@) =~= seq![("mGRID"@, manager_id@)]);
        Self::validate_non_empty(manager_id, "manager ID")?;
        Ok(Self::build_url("fundMSNMangerPerRank", &params))
    }

    /// A manager's stock positions (`fundMSNMangerPosMark`).
    pub fn get_manager_holding_style(&self, manager_id: &str) -> (r: Result<String, ApiError>)
        ensures
            planned(r, manager_id@, "manager ID"@, action_url("fundMSNMangerPosMark"@, seq![("mGRID"@, manager_id@)])),
    {
        let params: [(&str, &str); 1] = [("mGRID", manager_id)];
        assert(params_view(params@) =~= seq![("mGRID"@, manager_id@)]);
        Self::validate_non_empty(manager_id, "manager ID")?;
        Ok(Self::build_url("fundMSNMangerPosMark", &params))
    }

    /// A manager's holding characteristics (`fundMSNMangerPosChar`).
    pub fn get_manager_holding_char(&self, manager_id: &str) -> (r: Result<String, ApiError>)
        ensures
            planned(r, manager_id@, "manager ID"@, action_url("fundMSNMangerPosChar"@, seq![("mGRID"@, manager_id@)])),
    {
        let params: [(&str, &str); 1] = [("mGRID", manager_id)];
        assert(params_view(params@) =~= seq![("mGRID"@, manager_id@)]);
        Self::validate_non_empty(manager_id, "manager ID")?;
        Ok(Self::build_url("fundMSNMangerPosChar", &params))
    }

    /// The funds a manager has managed (`fundMSNMangerProContr`).
    pub fn get_manager_history_funds(&self, manager_id: &str) -> (r: Result<String, ApiError>)
        ensures
            planned(r, manager_id@, "manager ID"@, action_url("fundMSNMangerProContr"@, seq![("mGRID"@, manager_id@)])),
    {
        let params: [(&str, &str); 1] = [("mGRID", manager_id)];
        assert(params_view(params@) =~= seq![("mGRID"@, manager_id@)]);
        Self::validate_non_empty(manager_id, "manager ID")?;
        Ok(Self::build_url("fundMSNMangerProContr", &params))
    }

    /// A fund's intraday valuation (`fundVarietieValuationDetail`); the payload's `Expansion` holds it.
    pub fn get_fund_estimation(&self, code: &str) -> (r: Result<String, ApiError>)
        ensures
            planned(r, code@, "fund code"@, action_url("fundVarietieValuationDetail"@, seq![("FCODE"@, code@)])),
    {
        let params: [(&str, &str); 1] = [("FCODE", code)];
        assert(params_view(params@) =~= seq![("FCODE"@, code@)]);
        Self::validate_non_empty(code, "fund code")?;
        Ok(Self::build_url("fundVarietieValuationDetail", &params))
    }

    /// A section `action` of a company's pages (`companyApi2`).
    pub fn get_company_info(&self, company_id: &str, action: &str) -> (r: Result<String, ApiError>)
        ensures
            planned(r, company_id@, "company ID"@, action_url("companyApi2"@, seq![("cc"@, company_id@), ("action"@, action@)])),
    {
        let params: [(&str, &str); 2] = [("cc", company_id), ("action", action)];
        assert(params_view(params@) =~= seq![("cc"@, company_id@), ("action"@, action@)]);
        Self::validate_non_empty(company_id, "company ID")?;
        Ok(Self::build_url("companyApi2", &params))
    }

    /// A company's archive (`companyApi2`, `companyarchives`).
    pub fn get_company_archive(&self, company_id: &str) -> (r: Result<String, ApiError>)
        ensures
            planned(r, company_id@, "company ID"@, action_url("companyApi2"@, seq![("cc"@, company_id@), ("action"@, "companyarchives"@)])),
    {
        let params: [(&str, &str); 2] = [("cc", company_id), ("action", "companyarchives")];
        assert(params_view(params@) =~= seq![("cc"@, company_id@), ("action"@, "companyarchives"@)]);
        Self::validate_non_empty(company_id, "company ID")?;
        Ok(Self::build_url("companyApi2", &params))
    }

    /// A fund's latest `days` daily net values (`fundMNHisNetList`).
    pub fn get_net_value_history(&self, code: &str, days: i32) -> (r: Result<String, ApiError>)
        ensures
            planned_url(r, action_url("fundMNHisNetList"@, seq![("FCODE"@, code@), ("pageIndex"@, "1"@), ("pagesize"@, signed_decimal(days as int))])),
    {
        let pc = string_of(&signed_decimal_chars(days as i64));
        let params: [(&str, &str); 3] = [("FCODE", code), ("pageIndex", "1"), ("pagesize", pc.as_str())];
        assert(params_view(params@) =~= seq![("FCODE"@, code@), ("pageIndex"@, "1"@), ("pagesize"@, signed_decimal(days as int))]);
        Ok(Self::build_url("fundMNHisNetList", &params))
    }

    /// A fund's period increases (`fundMNPeriodIncrease`).
    pub fn get_period_increase(&self, code: &str) -> (r: Result<String, ApiError>)
        ensures
            planned_url(r, action_url("fundMNPeriodIncrease"@, seq![("FCODE"@, code@)])),
    {
        let params: [(&str, &str); 1] = [("FCODE", code)];
        assert(params_view(params@) =~= seq![("FCODE"@, code@)]);
        Ok(Self::build_url("fundMNPeriodIncrease", &params))
    }

    /// The fund theme list (`fundMNSubjectList`).
    pub fn get_theme_list(&self) -> (r: Result<String, ApiError>)
        ensures
            planned_url(r, action_url("fundMNSubjectList"@, seq![])),
    {
        let params: [(&str, &str); 0] = [];
        assert(params_view(params@) =~= seq![]);
        Ok(Self::build_url("fundMNSubjectList", &params))
    }

    /// A big-data selection list of `category` (`bigDataList`); its reply is a big-data envelope.
    pub fn get_big_data_list(&self, category: i32) -> (r: Result<String, ApiError>)
        ensures
            planned_url(r, action_url("bigDataList"@, seq![("ClCategory"@, signed_decimal(category as int))])),
    {
        let pc = string_of(&signed_decimal_chars(category as i64));
        let params: [(&str, &str); 1] = [("ClCategory", pc.as_str())];
        assert(params_view(params@) =~= seq![("ClCategory"@, signed_decimal(category as int))]);
        Ok(Self::build_url("bigDataList", &params))
    }

    /// The funds of big-data category `cltype` (`bigDataDetail`); its reply is a big-data envelope.
    pub fn get_big_data_detail(&self, cltype: &str) -> (r: Result<String, ApiError>)
        ensures
            planned_url(r, action_url("bigDataDetail"@, seq![("cltype"@, cltype@)])),
    {
        let params: [(&str, &str); 1] = [("cltype", cltype)];
        assert(params_view(params@) =~= seq![("cltype"@, cltype@)]);
        Ok(Self::build_url("bigDataDetail", &params))
    }

    /// The fund company list (`fundCompanyBaseList`).
    pub fn get_fund_companies(&self) -> (r: Result<String, ApiError>)
        ensures
            planned_url(r, action_url("fundCompanyBaseList"@, seq![])),
    {
        let params: [(&str, &str); 0] = [];
        assert(params_view(params@) =~= seq![]);
        Ok(Self::build_url("fundCompanyBaseList", &params))
    }

    /// New funds of `fund_type` sorted by `sort_column`, page `page` of `size` (`fundMNNetNewList`).
    pub fn get_fund_new_list(&self, fund_type: &str, sort_column: &str, page: usize, size: usize) -> (r: Result<String, ApiError>)
        ensures
            planned_url(r, action_url("fundMNNetNewList"@, seq![("fundtype"@, fund_type@), ("SortColumn"@, sort_column@), ("Sort"@, "desc"@), ("pageIndex"@, decimal(page as nat)), ("pagesize"@, decimal(size as nat))])),
    {
        let pg = string_of(&decimal_chars(page as u64));
        let sz = string_of(&decimal_chars(size as u64));
        let params: [(&str, &str); 5] = [("fundtype", fund_type), ("SortColumn", sort_column), ("Sort", "desc"), ("pageIndex", pg.as_str()), ("pagesize", sz.as_str())];
        assert(params_view(params@) =~= seq![("fundtype"@, fund_type@), ("SortColumn"@, sort_column@), ("Sort"@, "desc"@), ("pageIndex"@, decimal(page as nat)), ("pagesize"@, decimal(size as nat))]);
        Ok(Self::build_url("fundMNNetNewList", &params))
    }
}


impl Client {
    fn search_url(keyword: &str, mode: &str) -> (r: Result<String, ApiError>)
        ensures
            planned(
                r,
                keyword@,
                "keyword"@,
                action_url(
                    "fundSearch"@,
                    seq![("m"@, mode@), ("key"@, percent_encode(keyword.spec_bytes()))],
                ),
            ),
    {
        Self::validate_non_empty(keyword, "keyword")?;
        let encoded = url_encode(keyword);
        let params: [(&str, &str); 2] = [("m", mode), ("key", encoded.as_str())];
        assert(params_view(params@) =~= seq![
            ("m"@, mode@),
            ("key"@, percent_encode(keyword.spec_bytes())),
        ]);
        Ok(Self::build_url("fundSearch", &params))
    }

    /// Funds matching `keyword` (`fundSearch`, mode 1); the keyword is
    /// percent-encoded.
    pub fn search_fund(&self, keyword: &str) -> (r: Result<String, ApiError>)
        ensures
            planned(
                r,
                keyword@,
                "keyword"@,
                action_url(
                    "fundSearch"@,
                    seq![("m"@, "1"@), ("key"@, percent_encode(keyword.spec_bytes()))],
                ),
            ),
    {
        Self::search_url(keyword, "1")
    }

    /// Managers matching `keyword` (`fundSearch`, mode 7).
    pub fn search_manager(&self, keyword: &str) -> (r: Result<String, ApiError>)
        ensures
            planned(
                r,
                keyword@,
                "keyword"@,
                action_url(
                    "fundSearch"@,
                    seq![("m"@, "7"@), ("key"@, percent_encode(keyword.spec_bytes()))],
                ),
            ),
    {
        Self::search_url(keyword, "7")
    }

    /// Companies matching `keyword` (`fundSearch`, mode 8).
    pub fn search_company_by_name(&self, keyword: &str) -> (r: Result<String, ApiError>)
        ensures
            planned(
                r,
                keyword@,
                "keyword"@,
                action_url(
                    "fundSearch"@,
                    seq![("m"@, "8"@), ("key"@, percent_encode(keyword.spec_bytes()))],
                ),
            ),
    {
        Self::search_url(keyword, "8")
    }

    /// Page `page` of `size` funds whose names match `keyword`
    /// (`fundSearchInfoByName`); the reply is a `totalCount`/`data` object.
    pub fn search_by_name(&self, keyword: &str, page: usize, size: usize) -> (r: Result<
        String,
        ApiError,
    >)
        ensures
            planned(
                r,
                keyword@,
                "keyword"@,
                action_url(
                    "fundSearchInfoByName"@,
                    seq![
                        ("key"@, percent_encode(keyword.spec_bytes())),
                        ("orderType"@, "1"@),
                        ("pageindex"@, decimal(page as nat)),
                        ("pagesize"@, decimal(size as nat)),
                    ],
                ),
            ),
    {
        Self::validate_non_empty(keyword, "keyword")?;
        let encoded = url_encode(keyword);
        let pg = string_of(&decimal_chars(page as u64));
        let sz = string_of(&decimal_chars(size as u64));
        let params: [(&str, &str); 4] = [
            ("key", encoded.as_str()),
            ("orderType", "1"),
            ("pageindex", pg.as_str()),
            ("pagesize", sz.as_str()),
        ];
        assert(params_view(params@) =~= seq![
            ("key"@, percent_encode(keyword.spec_bytes())),
            ("orderType"@, "1"@),
            ("pageindex"@, decimal(page as nat)),
            ("pagesize"@, decimal(size as nat)),
        ]);
        Ok(Self::build_url("fundSearchInfoByName", &params))
    }

    fn borrow_params<'a>(owned: &'a Vec<(&'a str, String)>) -> (b: Vec<(&'a str, &'a str)>)
        ensures
            params_view(b@) == owned_params_view(owned@),
    {
        let mut b: Vec<(&'a str, &'a str)> = Vec::new();
        let mut i: usize = 0;
        while i < owned.len()
            invariant
                i <= owned@.len(),
                params_view(b@) =~= owned_params_view(owned@).take(i as int),
            decreases owned@.len() - i,
        {
            let k: &'a str = owned[i].0;
            let v: &'a str = owned[i].1.as_str();
            let ghost before = b@;
            b.push((k, v));
            assert(params_view(b@) =~= params_view(before).push((owned@[i as int].0@, owned@[i as int].1@)));
            assert(owned_params_view(owned@).take(i + 1) =~= owned_params_view(owned@).take(i as int).push((owned@[i as int].0@, owned@[i as int].1@)));
            i = i + 1;
        }
        assert(owned_params_view(owned@).take(owned@.len() as int) =~= owned_params_view(
            owned@,
        ));
        b
    }

    /// The common head of the ranking parameters: type, sort column, sort
    /// order, page index and page size.
    fn rank_head(params: &FundRankParams) -> (v: Vec<(&'static str, String)>)
        ensures
            owned_params_view(v@) == rank_head_spec(*params),
    {
        let mut v: Vec<(&'static str, String)> = Vec::new();
        v.push(("FundType", params.fund_type.clone()));
        v.push(("SortColumn", params.sort_column.clone()));
        v.push(("Sort", params.sort.clone()));
        v.push(("pageIndex", string_of(&decimal_chars(params.page_index as u64))));
        v.push(("pageSize", string_of(&decimal_chars(params.page_size as u64))));
        assert(owned_params_view(v@) =~= rank_head_spec(*params));
        v
    }

    /// The fund ranking (`fundMNRank`): the five head parameters, then
    /// `CLTYPE`, `BUY`, `DISCOUNT`, `RISKLEVEL` and `ESTABDATE` for each
    /// filter that is set, in that order.
    pub fn get_fund_rank(&self, params: &FundRankParams) -> (r: Result<String, ApiError>)
        ensures
            planned_url(
                r,
                action_url(
                    "fundMNRank"@,
                    rank_head_spec(*params) + opt_param("CLTYPE"@, params.cltype) + opt_param(
                        "BUY"@,
                        params.buy,
                    ) + opt_param("DISCOUNT"@, params.discount) + opt_param(
                        "RISKLEVEL"@,
                        params.risk_level,
                    ) + opt_param("ESTABDATE"@, params.estab_date),
                ),
            ),
    {
        let mut query_params = Self::rank_head(params);
        Self::push_param(&mut query_params, "CLTYPE", &params.cltype);
        Self::push_param(&mut query_params, "BUY", &params.buy);
        Self::push_param(&mut query_params, "DISCOUNT", &params.discount);
        Self::push_param(&mut query_params, "RISKLEVEL", &params.risk_level);
        Self::push_param(&mut query_params, "ESTABDATE", &params.estab_date);
        let str_params = Self::borrow_params(&query_params);
        Ok(Self::build_url("fundMNRank", str_params.as_slice()))
    }

    /// The Hong Kong fund ranking (`fundMNHKRank`): the five head
    /// parameters, then `CLTYPE` when set.
    pub fn get_hk_fund_rank(&self, params: &FundRankParams) -> (r: Result<String, ApiError>)
        ensures
            planned_url(
                r,
                action_url(
                    "fundMNHKRank"@,
                    rank_head_spec(*params) + opt_param("CLTYPE"@, params.cltype),
                ),
            ),
    {
        let mut query_params = Self::rank_head(params);
        Self::push_param(&mut query_params, "CLTYPE", &params.cltype);
        let str_params = Self::borrow_params(&query_params);
        Ok(Self::build_url("fundMNHKRank", str_params.as_slice()))
    }

    /// Funds of `fund_type`, optionally by initial `letter`, sorted by
    /// `sort_column` descending, page `page` of `size` (`fundNetList`).
    pub fn get_fund_net_list(
        &self,
        fund_type: &str,
        letter: Option<&str>,
        sort_column: &str,
        page: usize,
        size: usize,
    ) -> (r: Result<String, ApiError>)
        ensures
            planned_url(
                r,
                action_url(
                    "fundNetList"@,
                    seq![
                        ("fundtype"@, fund_type@),
                        ("SortColumn"@, sort_column@),
                        ("Sort"@, "desc"@),
                        ("pageIndex"@, decimal(page as nat)),
                        ("pagesize"@, decimal(size as nat)),
                    ] + match letter {
                        Some(l) => seq![("Letter"@, l@)],
                        None => seq![],
                    },
                ),
            ),
    {
        let page_str = string_of(&decimal_chars(page as u64));
        let size_str = string_of(&decimal_chars(size as u64));
        let mut params: Vec<(&str, &str)> = Vec::new();
        params.push(("fundtype", fund_type));
        params.push(("SortColumn", sort_column));
        params.push(("Sort", "desc"));
        params.push(("pageIndex", page_str.as_str()));
        params.push(("pagesize", size_str.as_str()));
        if let Some(l) = letter {
            params.push(("Letter", l));
        }
        assert(params_view(params@) =~= seq![
            ("fundtype"@, fund_type@),
            ("SortColumn"@, sort_column@),
            ("Sort"@, "desc"@),
            ("pageIndex"@, decimal(page as nat)),
            ("pagesize"@, decimal(size as nat)),
        ] + match letter {
            Some(l) => seq![("Letter"@, l@)],
            None => seq![],
        });
        Ok(Self::build_url("fundNetList", params.as_slice()))
    }

    /// The theme hot list (`fundThemeList`) is out of service: always an
    /// `Unavailable` error.
    pub fn get_theme_hot_list(&self, _rank_item: &str, _category: &str) -> (r: Result<
        String,
        ApiError,
    >)
        ensures
            r matches Err(ApiError::Unavailable(m)) && m@ == theme_list_down(),
    {
        Err(ApiError::Unavailable(String::from_str("fundThemeList 接口当前不可用（超时或返回 HTML）")))
    }

    /// The theme focus list (`fundThemeFocusList`) is out of service: always
    /// an `Unavailable` error.
    pub fn get_theme_focus_list(&self, _code: Option<&str>) -> (r: Result<String, ApiError>)
        ensures
            r matches Err(ApiError::Unavailable(m)) && m@ == theme_focus_down(),
    {
        Err(
            ApiError::Unavailable(
                String::from_str("fundThemeFocusList 接口当前不可用（超时或返回 HTML）"),
            ),
        )
    }
}

pub open spec fn theme_list_down() -> Seq<char> {
    "fundThemeList 接口当前不可用（超时或返回 HTML）"@
}

pub open spec fn theme_focus_down() -> Seq<char> {
    "fundThemeFocusList 接口当前不可用（超时或返回 HTML）"@
}

/// The five head parameters of a ranking query.
pub open spec fn rank_head_spec(p: FundRankParams) -> Seq<(Seq<char>, Seq<char>)> {
    seq![
        ("FundType"@, p.fund_type@),
        ("SortColumn"@, p.sort_column@),
        ("Sort"@, p.sort@),
        ("pageIndex"@, decimal(p.page_index as nat)),
        ("pageSize"@, decimal(p.page_size as nat)),
    ]
}

/// The readable title of a period code of `fundMNPeriodIncrease`
/// (`Z` → "Last Week", …, `LN` → "Since Inception"); any other title stays.
pub open spec fn period_title_spec(code: Seq<char>) -> Seq<char> {
    if code == "Z"@ {
        "Last Week"@
    } else if code == "Y"@ {
        "Last Month"@
    } else if code == "3Y"@ {
        "Last 3 Months"@
    } else if code == "6Y"@ {
        "Last 6 Months"@
    } else if code == "1N"@ {
        "Last Year"@
    } else if code == "2N"@ {
        "Last 2 Years"@
    } else if code == "3N"@ {
        "Last 3 Years"@
    } else if code == "5N"@ {
        "Last 5 Years"@
    } else if code == "JN"@ {
        "Year to Date"@
    } else if code == "LN"@ {
        "Since Inception"@
    } else {
        code
    }
}

fn same_text(s: &str, lit: &str) -> (b: bool)
    ensures
        b == (s@ == lit@),
{
    crate::text::same_chars(&chars_of(s), &chars_of(lit))
}

/// The readable title of a period code.
pub fn period_title(code: &str) -> (t: String)
    ensures
        t@ == period_title_spec(code@),
{
    if same_text(code, "Z") {
        String::from_str("Last Week")
    } else if same_text(code, "Y") {
        String::from_str("Last Month")
    } else if same_text(code, "3Y") {
        String::from_str("Last 3 Months")
    } else if same_text(code, "6Y") {
        String::from_str("Last 6 Months")
    } else if same_text(code, "1N") {
        String::from_str("Last Year")
    } else if same_text(code, "2N") {
        String::from_str("Last 2 Years")
    } else if same_text(code, "3N") {
        String::from_str("Last 3 Years")
    } else if same_text(code, "5N") {
        String::from_str("Last 5 Years")
    } else if same_text(code, "JN") {
        String::from_str("Year to Date")
    } else if same_text(code, "LN") {
        String::from_str("Since Inception")
    } else {
        code.to_owned()
    }
}

/// The parameter `(key, value)` when `value` is present, else none.
pub open spec fn opt_param(key: Seq<char>, value: Option<String>) -> Seq<(Seq<char>, Seq<char>)> {
    match value {
        Some(v) => seq![(key, v@)],
        None => seq![],
    }
}


proof fn lemma_query_text_append(a: Seq<(Seq<char>, Seq<char>)>, b: Seq<(Seq<char>, Seq<char>)>)
    ensures
        query_text(a + b) == query_text(a) + query_text(b),
    decreases b.len(),
{
    if b.len() == 0 {
        assert(a + b =~= a);
    } else {
        assert((a + b).drop_last() =~= a + b.drop_last());
        assert((a + b).last() == b.last());
        lemma_query_text_append(a, b.drop_last());
    }
}

proof fn lemma_middle_cancel(pre: Seq<char>, x: Seq<char>, y: Seq<char>, post: Seq<char>)
    requires
        pre + x + post == pre + y + post,
    ensures
        x == y,
{
    let l = pre + x + post;
    let r = pre + y + post;
    assert(l.len() == r.len());
    assert(x =~= l.subrange(pre.len() as int, (pre.len() + x.len()) as int));
    assert(y =~= r.subrange(pre.len() as int, (pre.len() + y.len()) as int));
}

/// The head of a ranking query carries the caller's fund type, sort
/// column, sort order, page index and page size, in that order.
pub proof fn lemma_rank_head_text(p: FundRankParams)
    ensures
        query_text(rank_head_spec(p)) == "&"@ + "FundType"@ + "="@ + p.fund_type@ + "&"@
            + "SortColumn"@ + "="@ + p.sort_column@ + "&"@ + "Sort"@ + "="@ + p.sort@ + "&"@
            + "pageIndex"@ + "="@ + decimal(p.page_index as nat) + "&"@ + "pageSize"@ + "="@
            + decimal(p.page_size as nat),
{
    let h = rank_head_spec(p);
    reveal_with_fuel(query_text, 6);
    assert(h.drop_last().drop_last().drop_last().drop_last().drop_last() =~= Seq::<
        (Seq<char>, Seq<char>),
    >::empty());
    assert(query_text(h) =~= "&"@ + "FundType"@ + "="@ + p.fund_type@ + "&"@ + "SortColumn"@
        + "="@ + p.sort_column@ + "&"@ + "Sort"@ + "="@ + p.sort@ + "&"@ + "pageIndex"@ + "="@
        + decimal(p.page_index as nat) + "&"@ + "pageSize"@ + "="@ + decimal(p.page_size as nat));
}

/// The filter parameters of a ranking query.
pub open spec fn rank_filters(p: FundRankParams) -> Seq<(Seq<char>, Seq<char>)> {
    opt_param("CLTYPE"@, p.cltype) + opt_param("BUY"@, p.buy) + opt_param("DISCOUNT"@, p.discount)
        + opt_param("RISKLEVEL"@, p.risk_level) + opt_param("ESTABDATE"@, p.estab_date)
}

/// Two ranking queries that ask for different sort orders, and agree on
/// everything else, are sent to different URLs: the caller's sort order
/// reaches the request, for the fund ranking and the Hong Kong ranking.
pub proof fn lemma_rank_url_follows_sort(p1: FundRankParams, p2: FundRankParams)
    requires
        p1.fund_type@ == p2.fund_type@,
        p1.sort_column@ == p2.sort_column@,
        p1.page_index == p2.page_index,
        p1.page_size == p2.page_size,
        p1.cltype == p2.cltype,
        p1.buy == p2.buy,
        p1.discount == p2.discount,
        p1.risk_level == p2.risk_level,
        p1.estab_date == p2.estab_date,
        p1.sort@ != p2.sort@,
    ensures
        action_url(
            "fundMNRank"@,
            rank_head_spec(p1) + opt_param("CLTYPE"@, p1.cltype) + opt_param("BUY"@, p1.buy)
                + opt_param("DISCOUNT"@, p1.discount) + opt_param("RISKLEVEL"@, p1.risk_level)
                + opt_param("ESTABDATE"@, p1.estab_date),
        ) != action_url(
            "fundMNRank"@,
            rank_head_spec(p2) + opt_param("CLTYPE"@, p2.cltype) + opt_param("BUY"@, p2.buy)
                + opt_param("DISCOUNT"@, p2.discount) + opt_param("RISKLEVEL"@, p2.risk_level)
                + opt_param("ESTABDATE"@, p2.estab_date),
        ),
        action_url("fundMNHKRank"@, rank_head_spec(p1) + opt_param("CLTYPE"@, p1.cltype))
            != action_url("fundMNHKRank"@, rank_head_spec(p2) + opt_param("CLTYPE"@, p2.cltype)),
{
    let f1 = rank_filters(p1);
    assert(f1 == rank_filters(p2));
    lemma_rank_head_decides(p1, p2, "fundMNRank"@, f1);
    assert(rank_head_spec(p1) + opt_param("CLTYPE"@, p1.cltype) + opt_param("BUY"@, p1.buy)
        + opt_param("DISCOUNT"@, p1.discount) + opt_param("RISKLEVEL"@, p1.risk_level) + opt_param(
        "ESTABDATE"@,
        p1.estab_date,
    ) =~= rank_head_spec(p1) + f1);
    assert(rank_head_spec(p2) + opt_param("CLTYPE"@, p2.cltype) + opt_param("BUY"@, p2.buy)
        + opt_param("DISCOUNT"@, p2.discount) + opt_param("RISKLEVEL"@, p2.risk_level) + opt_param(
        "ESTABDATE"@,
        p2.estab_date,
    ) =~= rank_head_spec(p2) + f1);
    lemma_rank_head_decides(p1, p2, "fundMNHKRank"@, opt_param("CLTYPE"@, p1.cltype));
}

spec fn rank_pre(p: FundRankParams) -> Seq<char> {
    "&"@ + "FundType"@ + "="@ + p.fund_type@ + "&"@ + "SortColumn"@ + "="@ + p.sort_column@ + "&"@
        + "Sort"@ + "="@
}

spec fn rank_mid(p: FundRankParams) -> Seq<char> {
    "&"@ + "pageIndex"@ + "="@ + decimal(p.page_index as nat) + "&"@ + "pageSize"@ + "="@
        + decimal(p.page_size as nat)
}

proof fn lemma_rank_url_split(p: FundRankParams, action: Seq<char>, tail: Seq<(Seq<char>, Seq<char>)>)
    ensures
        action_url(action, rank_head_spec(p) + tail) == (base_url() + "?action_name="@ + action
            + rank_pre(p)) + p.sort@ + (rank_mid(p) + query_text(tail)),
{
    lemma_rank_head_text(p);
    lemma_query_text_append(rank_head_spec(p), tail);
    assert(query_text(rank_head_spec(p)) =~= rank_pre(p) + p.sort@ + rank_mid(p));
    assert(action_url(action, rank_head_spec(p) + tail) =~= (base_url() + "?action_name="@ + action
        + rank_pre(p)) + p.sort@ + (rank_mid(p) + query_text(tail)));
}

proof fn lemma_rank_head_decides(
    p1: FundRankParams,
    p2: FundRankParams,
    action: Seq<char>,
    tail: Seq<(Seq<char>, Seq<char>)>,
)
    requires
        p1.fund_type@ == p2.fund_type@,
        p1.sort_column@ == p2.sort_column@,
        p1.page_index == p2.page_index,
        p1.page_size == p2.page_size,
        p1.sort@ != p2.sort@,
    ensures
        action_url(action, rank_head_spec(p1) + tail) != action_url(
            action,
            rank_head_spec(p2) + tail,
        ),
{
    lemma_rank_url_split(p1, action, tail);
    lemma_rank_url_split(p2, action, tail);
    assert(rank_pre(p1) == rank_pre(p2));
    assert(rank_mid(p1) == rank_mid(p2));
    let head = base_url() + "?action_name="@ + action + rank_pre(p1);
    let rest = rank_mid(p1) + query_text(tail);
    if action_url(action, rank_head_spec(p1) + tail) == action_url(action, rank_head_spec(p2) + tail) {
        lemma_middle_cancel(head, p1.sort@, p2.sort@, rest);
    }
}

} // verus!
