use proxy_checker::candidate::{
    collect_candidates, common_proxy_ports, expand_with_ports, get_url_scheme,
    get_url_without_port, get_url_without_scheme, is_url_has_port, is_url_has_scheme,
    plan_candidate, split_lines,
};
use proxy_checker::scheme::Scheme;

#[test]
fn port_detected_on_numeric_suffix() {
    assert!(is_url_has_port(&"1.2.3.4:1080".to_string()));
}

#[test]
fn port_rejected_on_non_numeric_suffix() {
    assert!(!is_url_has_port(&"1.2.3.4:abc".to_string()));
}

#[test]
fn port_rejected_without_colon() {
    assert!(!is_url_has_port(&"1.2.3.4".to_string()));
}

#[test]
fn trailing_colon_is_not_a_port() {
    // The segment after the last colon is empty; a port needs digits.
    assert!(!is_url_has_port(&"1.2.3.4:".to_string()));
}

#[test]
fn port_checked_after_last_colon_only() {
    assert!(is_url_has_port(&"http://1.2.3.4:1080".to_string()));
    assert!(!is_url_has_port(&"http://1.2.3.4".to_string()));
}

#[test]
fn scheme_stripped_from_front() {
    assert_eq!(
        get_url_without_scheme(&"http://1.2.3.4:8080".to_string()),
        "1.2.3.4:8080".to_string()
    );
}

#[test]
fn without_scheme_keeps_bare_address() {
    assert_eq!(get_url_without_scheme(&"1.2.3.4:8080".to_string()), "1.2.3.4:8080".to_string());
}

#[test]
fn without_scheme_takes_text_after_last_separator() {
    assert_eq!(get_url_without_scheme(&"://x".to_string()), "x".to_string());
    assert_eq!(get_url_without_scheme(&"a://b://c".to_string()), "c".to_string());
}

#[test]
fn scheme_recognized_only_with_separator() {
    assert!(is_url_has_scheme(&"http://1.2.3.4".to_string()));
    assert!(is_url_has_scheme(&"https://1.2.3.4".to_string()));
    assert!(is_url_has_scheme(&"socks4://1.2.3.4".to_string()));
    assert!(is_url_has_scheme(&"socks5://1.2.3.4".to_string()));
    assert!(!is_url_has_scheme(&"ftp://1.2.3.4".to_string()));
    // A supported name without the separator is no scheme.
    assert!(!is_url_has_scheme(&"httpx".to_string()));
    assert!(!is_url_has_scheme(&"httpXYZ:80".to_string()));
    assert!(!is_url_has_scheme(&"http".to_string()));
    assert!(!is_url_has_scheme(&"1.2.3.4".to_string()));
}

#[test]
fn scheme_parsed_from_separator() {
    assert_eq!(get_url_scheme(&"http://h".to_string()), Some(Scheme::Http));
    assert_eq!(get_url_scheme(&"https://h".to_string()), Some(Scheme::Https));
    assert_eq!(get_url_scheme(&"socks4://h".to_string()), Some(Scheme::Socks4));
    assert_eq!(get_url_scheme(&"socks5://h:1080".to_string()), Some(Scheme::Socks5));
    assert_eq!(get_url_scheme(&"ftp://h".to_string()), None);
    assert_eq!(get_url_scheme(&"http".to_string()), None);
    assert_eq!(get_url_scheme(&"1.2.3.4:1080".to_string()), None);
}

#[test]
fn host_taken_before_first_colon() {
    assert_eq!(get_url_without_port(&"1.2.3.4:1080".to_string()), "1.2.3.4".to_string());
}

#[test]
fn host_empty_when_no_port() {
    assert_eq!(get_url_without_port(&"1.2.3.4".to_string()), "".to_string());
    assert_eq!(get_url_without_port(&"1.2.3.4:abc".to_string()), "".to_string());
    assert_eq!(get_url_without_port(&"1.2.3.4:".to_string()), "".to_string());
}

#[test]
fn scheme_values_are_lowercase_names() {
    assert_eq!(Scheme::Http.value(), "http");
    assert_eq!(Scheme::Https.value(), "https");
    assert_eq!(Scheme::Socks4.value(), "socks4");
    assert_eq!(Scheme::Socks5.value(), "socks5");
}

#[test]
fn scheme_iteration_order_is_fixed() {
    let schemes = Scheme::iter();
    assert_eq!(schemes.len(), 4);
    assert_eq!(schemes[0], Scheme::Http);
    assert_eq!(schemes[1], Scheme::Https);
    assert_eq!(schemes[2], Scheme::Socks4);
    assert_eq!(schemes[3], Scheme::Socks5);
}

#[test]
fn candidate_with_scheme_yields_one_uri() {
    let plan = plan_candidate(&"socks5://1.2.3.4:1080".to_string());
    assert_eq!(plan, vec!["socks5://1.2.3.4:1080".to_string()]);
}

#[test]
fn schemeless_candidate_yields_four_uris() {
    let plan = plan_candidate(&"1.2.3.4:1080".to_string());
    assert_eq!(
        plan,
        vec![
            "http://1.2.3.4:1080".to_string(),
            "https://1.2.3.4:1080".to_string(),
            "socks4://1.2.3.4:1080".to_string(),
            "socks5://1.2.3.4:1080".to_string(),
        ]
    );
}

#[test]
fn unrecognized_scheme_is_stripped_and_fanned_out() {
    let plan = plan_candidate(&"ftp://1.2.3.4:1080".to_string());
    assert_eq!(plan.len(), 4);
    assert_eq!(plan[0], "http://1.2.3.4:1080".to_string());
}

#[test]
fn eleven_common_ports_in_order() {
    let ports = common_proxy_ports();
    assert_eq!(
        ports,
        vec![
            "1080", "8080", "9050", "9051", "8118", "8123", "8388", "8580", "8997", "8998", "8999"
        ]
    );
}

#[test]
fn portless_line_expands_over_common_ports() {
    let expanded = expand_with_ports(&"1.2.3.4".to_string());
    assert_eq!(expanded.len(), 11);
    let ports = common_proxy_ports();
    for (k, candidate) in expanded.iter().enumerate() {
        assert_eq!(*candidate, format!("1.2.3.4:{}", ports[k]));
    }
}

#[test]
fn trailing_colon_gets_no_duplicate_colon() {
    let expanded = expand_with_ports(&"1.2.3.4:".to_string());
    assert_eq!(expanded[0], "1.2.3.4:1080".to_string());
}

#[test]
fn port_inference_gives_44_units_for_bare_host() {
    let candidates = collect_candidates(&vec!["1.2.3.4".to_string()]);
    assert_eq!(candidates.len(), 11);
    let ports = common_proxy_ports();
    for (k, candidate) in candidates.iter().enumerate() {
        assert_eq!(*candidate, format!("1.2.3.4:{}", ports[k]));
    }
    let mut units = 0;
    for candidate in &candidates {
        units += plan_candidate(candidate).len();
    }
    assert_eq!(units, 44);
}

#[test]
fn line_with_port_is_taken_as_is() {
    let candidates = collect_candidates(&vec!["1.2.3.4:1080".to_string()]);
    assert_eq!(candidates, vec!["1.2.3.4:1080".to_string()]);
}

#[test]
fn blank_line_terminates_collection() {
    let candidates = collect_candidates(&vec![
        "1.2.3.4:1080".to_string(),
        "".to_string(),
        "5.6.7.8:1080".to_string(),
    ]);
    assert_eq!(candidates, vec!["1.2.3.4:1080".to_string()]);
}

#[test]
fn whitespace_only_line_terminates_collection() {
    let candidates = collect_candidates(&vec![
        "1.2.3.4:1080".to_string(),
        " ".to_string(),
        "5.6.7.8:1080".to_string(),
    ]);
    assert_eq!(candidates, vec!["1.2.3.4:1080".to_string()]);
    let none = collect_candidates(&vec!["\t  ".to_string(), "5.6.7.8:1080".to_string()]);
    assert_eq!(none, Vec::<String>::new());
}

#[test]
fn trailing_colon_line_expands_over_common_ports() {
    // A trailing colon names no port, so the line is expanded, the port
    // appended directly after the colon.
    let candidates = collect_candidates(&vec!["1.2.3.4:".to_string()]);
    assert_eq!(candidates.len(), 11);
    assert_eq!(candidates[0], "1.2.3.4:1080".to_string());
    assert_eq!(candidates[10], "1.2.3.4:8999".to_string());
}

#[test]
fn lone_newline_terminates_collection() {
    let candidates = collect_candidates(&vec![
        "1.2.3.4:1080".to_string(),
        "\n".to_string(),
        "5.6.7.8:1080".to_string(),
    ]);
    assert_eq!(candidates, vec!["1.2.3.4:1080".to_string()]);
}

#[test]
fn split_lines_keeps_empty_segments() {
    let lines = split_lines(&"a\nb\n".to_string());
    assert_eq!(lines, vec!["a".to_string(), "b".to_string(), "".to_string()]);
}

#[test]
fn split_lines_of_empty_contents_is_one_empty_line() {
    assert_eq!(split_lines(&"".to_string()), vec!["".to_string()]);
}

#[test]
fn split_lines_without_newline_is_whole_string() {
    let lines = split_lines(&"1.2.3.4:1080".to_string());
    assert_eq!(lines, vec!["1.2.3.4:1080".to_string()]);
}
