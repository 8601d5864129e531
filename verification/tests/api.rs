use fund_core::api::{period_title, ApiError, Client};
use fund_core::models::{ApiResponse, BigDataApiResponse, FundRankParams};

const BASE: &str = "https://tiantian-fund-api.vercel.app/api/action?action_name=";

#[test]
fn fund_queries_name_the_fund() {
    let c = Client::new();
    assert_eq!(
        c.get_fund_estimate("000001").unwrap(),
        format!("{BASE}fundMNDetailInformation&FCODE=000001")
    );
    assert_eq!(
        c.get_rank_history("000001", "3n").unwrap(),
        format!("{BASE}fundRankDiagram&FCODE=000001&RANGE=3n")
    );
    assert_eq!(
        c.get_nav_trend("000001", "3n", 500).unwrap(),
        format!("{BASE}fundVPageDiagram&FCODE=000001&RANGE=3n&POINTCOUNT=500")
    );
    assert_eq!(
        c.get_accumulated_return("000001", "ln", "000300").unwrap(),
        format!("{BASE}fundVPageAcc&FCODE=000001&RANGE=ln&INDEXCODE=000300")
    );
    assert_eq!(
        c.get_yearly_returns("000001").unwrap(),
        format!("{BASE}fundMNPeriodIncrease&FCODE=000001&RANGE=n")
    );
    assert_eq!(
        c.get_monthly_returns("000001").unwrap(),
        format!("{BASE}fundMNPeriodIncrease&FCODE=000001&RANGE=y")
    );
    assert_eq!(
        c.get_fund_rating("000001").unwrap(),
        format!("{BASE}fundGradeDetail&FCODE=000001&pageIndex=1&pageSize=10")
    );
}

#[test]
fn empty_arguments_are_refused() {
    let c = Client::new();
    match c.get_fund_estimate("") {
        Err(ApiError::EmptyField(f)) => assert_eq!(f, "fund code"),
        other => panic!("unexpected {:?}", other),
    }
    let e = c.get_manager_info("").unwrap_err();
    assert_eq!(e.message(), "manager ID cannot be empty");
    let e = c.search_fund("").unwrap_err();
    assert_eq!(e.message(), "keyword cannot be empty");
    let e = c.get_company_archive("").unwrap_err();
    assert_eq!(e.message(), "company ID cannot be empty");
}

#[test]
fn keywords_are_percent_encoded() {
    let c = Client::new();
    assert_eq!(
        c.search_fund("天弘").unwrap(),
        format!("{BASE}fundSearch&m=1&key=%E5%A4%A9%E5%BC%98")
    );
    assert_eq!(
        c.search_manager("a b&c=d").unwrap(),
        format!("{BASE}fundSearch&m=7&key=a%20b%26c%3Dd")
    );
    assert_eq!(
        c.search_by_name("易", 2, 30).unwrap(),
        format!("{BASE}fundSearchInfoByName&key=%E6%98%93&orderType=1&pageindex=2&pagesize=30")
    );
}

#[test]
fn ranking_parameters() {
    let c = Client::new();
    let p = FundRankParams::default();
    assert_eq!(
        c.get_fund_rank(&p).unwrap(),
        format!("{BASE}fundMNRank&FundType=all&SortColumn=DWJZ&Sort=desc&pageIndex=1&pageSize=20")
    );
    let mut q = FundRankParams::default();
    q.cltype = Some("1".to_string());
    q.risk_level = Some("2".to_string());
    assert_eq!(
        c.get_fund_rank(&q).unwrap(),
        format!("{BASE}fundMNRank&FundType=all&SortColumn=DWJZ&Sort=desc&pageIndex=1&pageSize=20&CLTYPE=1&RISKLEVEL=2")
    );
    assert_eq!(
        c.get_hk_fund_rank(&q).unwrap(),
        format!("{BASE}fundMNHKRank&FundType=all&SortColumn=DWJZ&Sort=desc&pageIndex=1&pageSize=20&CLTYPE=1")
    );
}

#[test]
fn list_queries() {
    let c = Client::new();
    assert_eq!(c.get_theme_list().unwrap(), format!("{BASE}fundMNSubjectList"));
    assert_eq!(c.get_big_data_list(-2).unwrap(), format!("{BASE}bigDataList&ClCategory=-2"));
    assert_eq!(
        c.get_fund_net_list("25", Some("A"), "DWJZ", 1, 50).unwrap(),
        format!("{BASE}fundNetList&fundtype=25&SortColumn=DWJZ&Sort=desc&pageIndex=1&pagesize=50&Letter=A")
    );
    assert_eq!(
        c.get_fund_new_list("0", "SYL_1N", 3, 10).unwrap(),
        format!("{BASE}fundMNNetNewList&fundtype=0&SortColumn=SYL_1N&Sort=desc&pageIndex=3&pagesize=10")
    );
}

#[test]
fn unavailable_theme_endpoints() {
    let c = Client::new();
    assert_eq!(
        c.get_theme_hot_list("x", "y").unwrap_err().message(),
        "fundThemeList 接口当前不可用（超时或返回 HTML）"
    );
    assert_eq!(
        c.get_theme_focus_list(None).unwrap_err().message(),
        "fundThemeFocusList 接口当前不可用（超时或返回 HTML）"
    );
}

#[test]
fn reply_codes() {
    let ok: ApiResponse<u32> = ApiResponse { err_code: 0, datas: 7 };
    assert_eq!(Client::check_api_response(ok).unwrap(), 7);
    let bad: ApiResponse<u32> = ApiResponse { err_code: 5, datas: 7 };
    assert_eq!(Client::check_api_response(bad).unwrap_err().message(), "API error code: 5");
    let bd: BigDataApiResponse<u32> = BigDataApiResponse { result_code: -1, datas: 1 };
    assert_eq!(Client::check_bigdata(bd).unwrap_err().message(), "BigData API error code: -1");
    let bd: BigDataApiResponse<u32> = BigDataApiResponse { result_code: 0, datas: 1 };
    assert_eq!(Client::check_bigdata(bd).unwrap(), 1);
}

#[test]
fn period_titles() {
    assert_eq!(period_title("Z"), "Last Week");
    assert_eq!(period_title("1N"), "Last Year");
    assert_eq!(period_title("LN"), "Since Inception");
    assert_eq!(period_title("Q"), "Q");
}

#[test]
fn url_builder() {
    assert_eq!(Client::build_url("x", &[]), format!("{BASE}x"));
    assert_eq!(Client::build_url("x", &[("a", "1"), ("b", "")]), format!("{BASE}x&a=1&b="));
}
