use fund_core::layout::{format_rank, has_stock_exposure, pad_to_width, parse_code_list, rpad};

#[test]
fn padding_counts_wide_characters_twice() {
    assert_eq!(rpad("abc", 5), "abc  ");
    assert_eq!(rpad("白酒", 6), "白酒  ");
    assert_eq!(rpad("长名字基金", 4), "长名字基金");
    assert_eq!(rpad("", 2), "  ");
    assert_eq!(pad_to_width("x", 1, 3), "x  ");
}

#[test]
fn rank_fractions() {
    assert_eq!(format_rank(12, 300), "12/300");
    assert_eq!(format_rank(0, 300), "-");
    assert_eq!(format_rank(5, 0), "-");
    assert_eq!(format_rank(-1, 10), "-");
}

#[test]
fn stock_exposure_by_type() {
    assert!(has_stock_exposure("债券型-混合二级"));
    assert!(has_stock_exposure("股票型"));
    assert!(!has_stock_exposure("债券型-纯债"));
    assert!(!has_stock_exposure("货币型"));
    assert!(!has_stock_exposure("债券型-中短债"));
    assert!(!has_stock_exposure("债券型-中长债"));
}

#[test]
fn code_lists() {
    assert_eq!(
        parse_code_list(" 000171, 161725,,").unwrap(),
        vec!["000171".to_string(), "161725".to_string()]
    );
    assert_eq!(parse_code_list("420002").unwrap(), vec!["420002".to_string()]);
    assert!(parse_code_list(" , ,").is_none());
    assert!(parse_code_list("").is_none());
}
