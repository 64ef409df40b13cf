use fritz_log_parser::driver::{
    confirm_session, elapsed_ms, make_url, parse_ping_targets, upserted_rows, BadTarget,
};
use fritz_log_parser::text::parse_u64;
use fritz_log_parser::SessionId;

#[test]
fn url_is_scheme_domain_and_path() {
    assert_eq!(
        make_url("fritz.box", "/cgi-bin/firmwarecfg"),
        "https://fritz.box/cgi-bin/firmwarecfg"
    );
    assert_eq!(make_url("192.168.178.1", ""), "https://192.168.178.1");
    assert_eq!(make_url("", "/data.lua"), "https:///data.lua");
}

#[test]
fn durations_and_counts_are_capped() {
    assert_eq!(elapsed_ms(0), 0);
    assert_eq!(elapsed_ms(1_234), 1_234);
    assert_eq!(elapsed_ms(i64::MAX as u128), i64::MAX);
    assert_eq!(elapsed_ms(i64::MAX as u128 + 1), i64::MAX);
    assert_eq!(elapsed_ms(u128::MAX), i64::MAX);
    assert_eq!(upserted_rows(0), 0);
    assert_eq!(upserted_rows(17), 17);
    assert_eq!(
        upserted_rows(usize::MAX),
        i64::try_from(usize::MAX).unwrap_or(i64::MAX)
    );
}

#[test]
fn a_session_stands_if_the_device_confirms_it() {
    let asked = SessionId { id: [1, 2, 3, 4, 5, 6, 7, 8] };
    let other = SessionId { id: [1, 2, 3, 4, 5, 6, 7, 9] };
    let none = SessionId { id: [0; 8] };
    assert_eq!(confirm_session(&asked, &asked), Some(asked));
    assert_eq!(confirm_session(&asked, &other), None);
    assert_eq!(confirm_session(&asked, &none), None);
    assert_eq!(confirm_session(&none, &none), None);
    assert!(asked.same(&asked));
    assert!(!asked.same(&other));
}

#[test]
fn ping_targets_are_addresses_with_commas_between() {
    assert_eq!(
        parse_ping_targets("1.1.1.1,8.8.8.8,192.168.178.1"),
        Ok(vec![[1, 1, 1, 1], [8, 8, 8, 8], [192, 168, 178, 1]])
    );
    assert_eq!(parse_ping_targets("9.9.9.9"), Ok(vec![[9, 9, 9, 9]]));
    assert_eq!(parse_ping_targets(""), Err(BadTarget { index: 0 }));
    assert_eq!(
        parse_ping_targets("1.1.1.1, 8.8.8.8"),
        Err(BadTarget { index: 1 })
    );
    assert_eq!(
        parse_ping_targets("1.1.1.1,8.8.8.8,"),
        Err(BadTarget { index: 2 })
    );
    assert_eq!(
        parse_ping_targets("1.1.1,8.8.8,x"),
        Err(BadTarget { index: 0 })
    );
}

#[test]
fn delays_are_unsigned_integers() {
    assert_eq!(parse_u64("0"), Some(0));
    assert_eq!(parse_u64("+5000"), Some(5000));
    assert_eq!(parse_u64("18446744073709551615"), Some(u64::MAX));
    assert_eq!(parse_u64("18446744073709551616"), None);
    assert_eq!(parse_u64("-1"), None);
    assert_eq!(parse_u64(""), None);
    for s in ["", "0", "+", "-0", "007", "12x", "18446744073709551615", "18446744073709551616"] {
        assert_eq!(parse_u64(s), s.parse::<u64>().ok(), "{}", s);
    }
}
