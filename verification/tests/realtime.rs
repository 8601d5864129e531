use fund_core::realtime::{estimate_url, jsonpgz_payload, EstimateError};

#[test]
fn empty_wrapper_is_error() {
    // An unknown code gets an empty wrapper back.
    assert!(jsonpgz_payload("jsonpgz();").is_err());
    assert!(jsonpgz_payload("jsonpgz()").is_err());
}

#[test]
fn non_jsonp_body_is_error() {
    assert!(jsonpgz_payload("<html>404</html>").is_err());
}

#[test]
fn payload_of_valid_reply() {
    let body = r#"jsonpgz({"fundcode":"161725","name":"招商中证白酒指数(LOF)A","jzrq":"2026-05-29","dwjz":"0.5866","gsz":"0.5803","gszzl":"-1.07","gztime":"2026-06-01 13:53"});"#;
    let json = jsonpgz_payload(body).unwrap();
    assert_eq!(
        json,
        r#"{"fundcode":"161725","name":"招商中证白酒指数(LOF)A","jzrq":"2026-05-29","dwjz":"0.5866","gsz":"0.5803","gszzl":"-1.07","gztime":"2026-06-01 13:53"}"#
    );
}

#[test]
fn payload_without_semicolon_and_with_blanks() {
    assert_eq!(jsonpgz_payload("  jsonpgz( {\"a\":1} )\n").unwrap(), "{\"a\":1}");
    assert_eq!(jsonpgz_payload("other({\"b\":2})").unwrap(), "{\"b\":2}");
}

#[test]
fn payload_errors_are_no_data() {
    assert_eq!(jsonpgz_payload(")(").unwrap_err(), EstimateError::NoData);
    assert_eq!(jsonpgz_payload("jsonpgz(   );").unwrap_err(), EstimateError::NoData);
    assert_eq!(jsonpgz_payload("").unwrap_err(), EstimateError::NoData);
    assert_eq!(
        EstimateError::NoData.message(),
        "无实时估值数据（代码无效 / 货币基金 / 暂未开盘）"
    );
}

#[test]
fn estimate_url_for_code() {
    assert_eq!(estimate_url("161725").unwrap(), "https://fundgz.1234567.com.cn/js/161725.js");
    assert_eq!(estimate_url("").unwrap_err(), EstimateError::EmptyCode);
    assert_eq!(estimate_url("  \t").unwrap_err(), EstimateError::EmptyCode);
    assert_eq!(EstimateError::EmptyCode.message(), "fund code must not be empty");
}
