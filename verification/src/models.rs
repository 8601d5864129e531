//! The records that the fund data service returns, with every figure kept as
//! the text the service sent.
use vstd::prelude::*;

verus! {

/// The standard reply envelope: a payload and an error code (0 is success).
#[derive(Debug, Clone)]
pub struct ApiResponse<T> {
    pub datas: T,
    pub err_code: i32,
}

/// The reply envelope of the big-data endpoints (`resultCode`, 0 is success).
#[derive(Debug, Clone)]
pub struct BigDataApiResponse<T> {
    pub datas: T,
    pub result_code: i32,
}


/// A fund found by a keyword search.
#[derive(Debug, Clone)]
pub struct FundSearchResult {
    pub code: String,
    pub name: String,
    pub fund_type: String,
}

/// Fund details: names, type, company, manager, scale and fees, as text.
#[derive(Debug, Clone)]
pub struct FundDetail {
    pub code: String,
    pub name: String,
    pub full_name: String,
    pub fund_type: String,
    pub estab_date: String,
    pub company: String,
    pub manager: String,
    pub custodian: String,
    pub scale: String,
    pub risk_level: String,
    pub mgr_fee: String,
    pub trust_fee: String,
    pub sales_fee: String,
    /// Performance benchmark text (active funds).
    pub bench: String,
    /// Tracked index code (index and ETF funds).
    pub index_code: String,
}

/// One point of a fund's rank history: its rank among `total` funds.
#[derive(Debug, Clone)]
pub struct RankHistoryPoint {
    pub date: String,
    pub rank: String,
    pub total: String,
}

/// One row of the fund ranking; growth figures are percentage texts.
#[derive(Debug, Clone)]
pub struct FundRank {
    pub code: String,
    pub name: String,
    pub net_value: String,
    pub acc_value: String,
    pub daily_change: String,
    pub week_growth: String,
    pub month_growth: String,
    pub three_month_growth: String,
    pub six_month_growth: String,
    pub ytd_growth: String,
    pub year_growth: String,
    pub three_year_growth: String,
    /// Fund size in yuan.
    pub scale: String,
    pub fund_type_code: String,
}

/// One entry of a big-data fund selection list.
#[derive(Debug, Clone)]
pub struct BigDataItem {
    pub title: String,
    pub fund_code: String,
    pub fund_name: String,
    pub return_rate: String,
    pub period: String,
}

/// One fund of a big-data selection category.
#[derive(Debug, Clone)]
pub struct BigDataDetailItem {
    pub code: String,
    pub name: String,
    pub return_rate: String,
    pub net_value: String,
    pub acc_value: String,
}

/// A manager of a fund.
#[derive(Debug, Clone)]
pub struct FundManager {
    pub manager_id: String,
    pub manager_name: String,
    pub days: String,
    pub start_date: String,
    pub return_since_start: String,
    pub is_in_office: String,
}

/// A manager's risk figures over one and three years, as text.
#[derive(Debug, Clone)]
pub struct ManagerPerformance {
    pub max_drawdown_1y: String,
    pub max_drawdown_3y: String,
    pub sharpe_1y: String,
    pub sharpe_3y: String,
    pub volatility_1y: String,
    pub volatility_3y: String,
    pub win_rate_1y: String,
    pub win_rate_3y: String,
}

/// Agency ratings of a fund on a date.
#[derive(Debug, Clone)]
pub struct FundRating {
    pub date: String,
    pub zs_rating: String,
    pub sz_rating: String,
    pub ja_rating: String,
}

/// A manager's profile.
#[derive(Debug, Clone)]
pub struct ManagerInfo {
    pub manager_id: String,
    pub manager_name: String,
    pub resume: String,
    pub total_days: String,
    pub net_nav: String,
    pub fund_count: String,
    pub representative: String,
    pub annual_return: String,
    pub company: String,
    pub max_earn: String,
    pub max_drawdown: String,
    pub score: String,
}

/// One point of a manager's accumulated return against averages.
#[derive(Debug, Clone)]
pub struct ManagerAccPoint {
    pub date: String,
    pub manager_return: String,
    pub avg_return: String,
    pub index_return: String,
}

/// A manager's returns and ranks over several periods.
#[derive(Debug, Clone)]
pub struct ManagerRankData {
    pub week: String,
    pub month: String,
    pub quarter: String,
    pub half_year: String,
    pub year: String,
    pub two_year: String,
    pub three_year: String,
    pub five_year: String,
    pub week_rank: String,
    pub month_rank: String,
    pub quarter_rank: String,
    pub year_rank: String,
}

/// A manager's stock positions at a reporting date.
#[derive(Debug, Clone)]
pub struct ManagerHoldingStyle {
    pub positions: Vec<StockPosition>,
    pub pos_date: String,
}

/// One stock position of a manager.
#[derive(Debug, Clone)]
pub struct StockPosition {
    pub code: String,
    pub name: String,
    pub ratio: String,
    pub industry: String,
    pub change: String,
}

/// Characteristics of a manager's holdings: stock position and concentration.
#[derive(Debug, Clone)]
pub struct ManagerHoldingChar {
    pub stock_position: String,
    pub top10_concentration: String,
    pub top1_industry: String,
    pub monthly_excess_win: String,
    pub industry_concentration: String,
    pub stock_position_avg: String,
    pub top10_concentration_avg: String,
}

/// A fund a manager has managed, with the return over the tenure.
#[derive(Debug, Clone)]
pub struct ManagerHistoryFund {
    pub code: String,
    pub name: String,
    pub start_date: String,
    pub end_date: String,
    pub days: String,
    pub return_rate: String,
    pub rank: String,
    pub total: String,
}

/// Intraday valuation and purchase status of a fund.
#[derive(Debug, Clone)]
pub struct FundEstimation {
    pub nav: String,
    pub change_pct: String,
    pub time: String,
    pub original_fee: String,
    pub discount_fee: String,
    pub can_buy: String,
    pub buy_status: String,
}

/// A fund company (`COMPANYCODE`/`SNAME` in the company list).
#[derive(Debug, Clone)]
pub struct FundCompany {
    pub id: String,
    pub name: String,
    pub abbr: String,
    pub fund_count: String,
    pub manager_count: String,
    pub estab_date: String,
}

/// One fund of a fund list.
#[derive(Debug, Clone)]
pub struct FundListItem {
    pub code: String,
    pub name: String,
    pub fund_type: String,
    pub net_value: String,
    pub acc_value: String,
    pub daily_change: String,
}

/// A page of a by-name search and the total number of hits.
#[derive(Debug, Clone)]
pub struct SearchByNameResult {
    pub total: usize,
    pub items: Vec<FundListItem>,
}

/// A fund theme (index) and whether it is a concept or an industry.
#[derive(Debug, Clone)]
pub struct FundTheme {
    pub code: String,
    pub name: String,
    pub theme_type: String,
}

/// Fund brief, with the tracked index for index funds.
#[derive(Debug, Clone)]
pub struct FundBrief {
    pub code: String,
    pub name: String,
    pub fund_type: String,
    pub estab_date: String,
    /// Fund type code, telling active, index and ETF funds apart.
    pub b_fund_type: String,
    /// Tracked index code, only for index funds.
    pub index_code: String,
    /// Tracked index name.
    pub index_name: String,
}

/// A manager found by a keyword search.
#[derive(Debug, Clone)]
pub struct ManagerSearchResult {
    pub manager_id: String,
    pub manager_name: String,
    pub company: String,
}

/// A company found by a keyword search, with its funds.
#[derive(Debug, Clone)]
pub struct CompanySearchResult {
    pub company_id: String,
    pub company_name: String,
    /// The company's funds, in brief.
    pub funds: Vec<CompanyFundBrief>,
}

/// Code and name of one of a company's funds.
#[derive(Debug, Clone)]
pub struct CompanyFundBrief {
    pub code: String,
    pub name: String,
}

/// A fund company's archive: legal name, founding date, capital, assets.
#[derive(Debug, Clone)]
pub struct CompanyArchive {
    /// Legal name.
    pub full_name: String,
    /// Founding date.
    pub estab_date: String,
    /// Registered capital.
    pub reg_capital: String,
    /// Legal representative.
    pub legal_rep: String,
    /// General manager.
    pub manager: String,
    /// Assets under management, in yuan.
    pub aum: String,
    /// Number of funds.
    pub fund_count: String,
}

/// A raw search hit: code, name and the type (`FTYPE`) of its type block,
/// empty when the hit carries no such block.
#[derive(Debug, Clone)]
pub struct FundSearchItem {
    code: String,
    name: String,
    fund_type: String,
}

impl FundSearchItem {
    /// A search hit; `fund_type` is the type block's `FTYPE`, when the hit
    /// carries the block.
    pub fn new(code: String, name: String, fund_type: Option<String>) -> (item: FundSearchItem)
        ensures
            item.code() == code@,
            item.name() == name@,
            item.fund_type() == (match fund_type {
                Some(t) => t@,
                None => Seq::<char>::empty(),
            }),
    {
        let fund_type = match fund_type {
            Some(t) => t,
            None => String::new(),
        };
        FundSearchItem { code, name, fund_type }
    }

    pub closed spec fn code(&self) -> Seq<char> {
        self.code@
    }

    pub closed spec fn name(&self) -> Seq<char> {
        self.name@
    }

    pub closed spec fn fund_type(&self) -> Seq<char> {
        self.fund_type@
    }
}

impl From<FundSearchItem> for FundSearchResult {
    /// The search result of a raw hit: its code, name and type.
    fn from(item: FundSearchItem) -> (r: FundSearchResult)
        ensures
            r.code@ == item.code(),
            r.name@ == item.name(),
            r.fund_type@ == item.fund_type(),
    {
        FundSearchResult { code: item.code, name: item.name, fund_type: item.fund_type }
    }
}

impl vstd::std_specs::convert::FromSpecImpl<FundSearchItem> for FundSearchResult {
    open spec fn obeys_from_spec() -> bool {
        true
    }

    closed spec fn from_spec(item: FundSearchItem) -> FundSearchResult {
        FundSearchResult { code: item.code, name: item.name, fund_type: item.fund_type }
    }
}

/// Query options of the fund ranking.
#[derive(Debug, Clone)]
pub struct FundRankParams {
    pub fund_type: String,
    pub sort_column: String,
    pub sort: String,
    pub page_index: usize,
    pub page_size: usize,
    pub cltype: Option<String>,
    pub buy: Option<String>,
    pub discount: Option<String>,
    pub risk_level: Option<String>,
    pub estab_date: Option<String>,
}

impl Default for FundRankParams {
    /// All funds by unit NAV, descending, first page of 20, no filters.
    fn default() -> (p: FundRankParams)
        ensures
            p.fund_type@ == "all"@,
            p.sort_column@ == "DWJZ"@,
            p.sort@ == "desc"@,
            p.page_index == 1,
            p.page_size == 20,
            p.cltype is None,
            p.buy is None,
            p.discount is None,
            p.risk_level is None,
            p.estab_date is None,
    {
        FundRankParams {
            fund_type: String::from_str("all"),
            sort_column: String::from_str("DWJZ"),
            sort: String::from_str("desc"),
            page_index: 1,
            page_size: 20,
            cltype: None,
            buy: None,
            discount: None,
            risk_level: None,
            estab_date: None,
        }
    }
}

} // verus!
