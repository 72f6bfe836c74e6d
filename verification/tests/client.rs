use searxng_mcp::config::parse_bool_flag;
use searxng_mcp::config::parse_u64_value;
use searxng_mcp::config::SearxngFileConfig;
use searxng_mcp::requests::BrowseRequest;
use searxng_mcp::requests::SearchRequest;
use searxng_mcp::searxng::build_search_query;
use searxng_mcp::searxng::config_url;
use searxng_mcp::searxng::filter_engine_names;
use searxng_mcp::searxng::join_comma;
use searxng_mcp::searxng::u32_to_string;
use searxng_mcp::searxng::EngineFilter;
use searxng_mcp::searxng::SafeSearch;
use searxng_mcp::searxng::SearchParams;
use searxng_mcp::searxng::SearxngConfig;
use searxng_mcp::tools::parse_enabled_tools;
use searxng_mcp::tools::split_csv;
use searxng_mcp::tools::truncate_for_log;
use searxng_mcp::tools::ToolName;

#[test]
fn safe_search_levels() {
    assert_eq!(SafeSearch::from_env("0"), SafeSearch::Off);
    assert_eq!(SafeSearch::from_env(" 2 "), SafeSearch::Strict);
    assert_eq!(SafeSearch::from_env("1"), SafeSearch::Moderate);
    assert_eq!(SafeSearch::from_env("junk"), SafeSearch::Moderate);
    assert_eq!(SafeSearch::from_u8(0), SafeSearch::Off);
    assert_eq!(SafeSearch::from_u8(2), SafeSearch::Strict);
    assert_eq!(SafeSearch::from_u8(7), SafeSearch::Moderate);
    assert_eq!(SafeSearch::Off.level(), 0);
    assert_eq!(SafeSearch::Moderate.level(), 1);
    assert_eq!(SafeSearch::Strict.level(), 2);
}

#[test]
fn searxng_config_merge() {
    let cfg = SearxngConfig::from_sources(None);
    assert_eq!(cfg.base_url, "http://localhost:8080");
    assert_eq!(cfg.language, "en");
    assert_eq!(cfg.num_results, 5);
    assert_eq!(cfg.timeout_secs, 20);
    assert_eq!(cfg.safe_search, SafeSearch::Off);

    let file = SearxngFileConfig {
        base_url: Some("https://sx.example".to_string()),
        default_categories: Some(vec!["news".to_string()]),
        default_engines: Some(vec!["ddg".to_string(), "brave".to_string()]),
        language: Some("de".to_string()),
        safe_search: Some(2),
        user_agent: Some("agent".to_string()),
        num_results: Some(9),
        timeout_secs: Some(3),
    };
    let cfg = SearxngConfig::from_sources(Some(file));
    assert_eq!(cfg.base_url, "https://sx.example");
    assert_eq!(cfg.default_categories, vec!["news".to_string()]);
    assert_eq!(cfg.language, "de");
    assert_eq!(cfg.safe_search, SafeSearch::Strict);
    assert_eq!(cfg.user_agent, "agent");
    assert_eq!(cfg.num_results, 9);
    assert_eq!(cfg.timeout_secs, 3);
}

#[test]
fn query_building_defaults() {
    let mut cfg = SearxngConfig::from_sources(None);
    cfg.default_engines = vec!["ddg".to_string(), "brave".to_string()];
    let params = SearchParams {
        query: "rust verification".to_string(),
        ..Default::default()
    };
    let pairs = build_search_query(&params, &cfg);
    let expected: Vec<(String, String)> = vec![
        ("q".to_string(), "rust verification".to_string()),
        ("format".to_string(), "json".to_string()),
        ("language".to_string(), "en".to_string()),
        ("safesearch".to_string(), "0".to_string()),
        ("engines".to_string(), "ddg,brave".to_string()),
    ];
    assert_eq!(pairs, expected);
}

#[test]
fn query_building_overrides() {
    let cfg = SearxngConfig::from_sources(None);
    let params = SearchParams {
        query: "q".to_string(),
        categories: Some("news".to_string()),
        engines: Some("ddg".to_string()),
        language: Some("fr".to_string()),
        pageno: Some(12),
        time_range: Some("week".to_string()),
        safe_search: Some(SafeSearch::Strict),
        num_results: None,
    };
    let pairs = build_search_query(&params, &cfg);
    let expected: Vec<(String, String)> = vec![
        ("q".to_string(), "q".to_string()),
        ("format".to_string(), "json".to_string()),
        ("language".to_string(), "fr".to_string()),
        ("safesearch".to_string(), "2".to_string()),
        ("categories".to_string(), "news".to_string()),
        ("engines".to_string(), "ddg".to_string()),
        ("pageno".to_string(), "12".to_string()),
        ("time_range".to_string(), "week".to_string()),
    ];
    assert_eq!(pairs, expected);
}

#[test]
fn decimal_rendering() {
    assert_eq!(u32_to_string(0), "0");
    assert_eq!(u32_to_string(7), "7");
    assert_eq!(u32_to_string(10), "10");
    assert_eq!(u32_to_string(409), "409");
    assert_eq!(u32_to_string(4294967295), "4294967295");
}

#[test]
fn comma_joining() {
    assert_eq!(join_comma(&vec![]), "");
    assert_eq!(join_comma(&vec!["a".to_string()]), "a");
    assert_eq!(
        join_comma(&vec!["a".to_string(), "b".to_string(), "c".to_string()]),
        "a,b,c"
    );
}

#[test]
fn config_endpoint_url() {
    assert_eq!(config_url("http://localhost:8080"), "http://localhost:8080/config");
    assert_eq!(config_url("http://localhost:8080/"), "http://localhost:8080/config");
    assert_eq!(config_url("http://x//"), "http://x/config");
}

#[test]
fn engine_filtering() {
    let entries = vec![
        ("ddg".to_string(), true),
        ("brave".to_string(), false),
        ("mojeek".to_string(), true),
    ];
    assert_eq!(
        filter_engine_names(&entries, EngineFilter::Enabled),
        vec!["ddg".to_string(), "mojeek".to_string()]
    );
    assert_eq!(
        filter_engine_names(&entries, EngineFilter::Disabled),
        vec!["brave".to_string()]
    );
    assert_eq!(
        filter_engine_names(&entries, EngineFilter::All),
        vec!["ddg".to_string(), "brave".to_string(), "mojeek".to_string()]
    );
}

#[test]
fn csv_splitting() {
    assert_eq!(
        split_csv(" a, B ,,c "),
        vec!["a".to_string(), "B".to_string(), "c".to_string()]
    );
    assert_eq!(split_csv(""), Vec::<String>::new());
    // The browse allowlist variant folds case; the client variant keeps it.
    assert_eq!(
        searxng_mcp::config::parse_csv(" A,b "),
        vec!["a".to_string(), "b".to_string()]
    );
    assert_eq!(
        searxng_mcp::searxng::parse_csv(" A,b "),
        vec!["A".to_string(), "b".to_string()]
    );
}

#[test]
fn tool_names() {
    assert_eq!(ToolName::Search.as_str(), "search");
    assert_eq!(ToolName::Browse.as_str(), "browse");
    assert_eq!(ToolName::parse("search"), Some(ToolName::Search));
    assert_eq!(ToolName::parse(" BROWSE "), Some(ToolName::Browse));
    assert_eq!(ToolName::parse("engines"), Some(ToolName::Engines));
    assert_eq!(ToolName::parse("health"), Some(ToolName::Health));
    assert_eq!(ToolName::parse("ping"), Some(ToolName::Ping));
    assert_eq!(ToolName::parse("nope"), None);
}

#[test]
fn tool_selection() {
    let ts = parse_enabled_tools("search, browse").unwrap();
    assert!(ts.contains(ToolName::Search));
    assert!(ts.contains(ToolName::Browse));
    assert!(!ts.contains(ToolName::Engines));
    assert!(!ts.contains(ToolName::Health));
    assert!(!ts.contains(ToolName::Ping));

    // Duplicates collapse.
    let ts = parse_enabled_tools("ping,ping,PING").unwrap();
    assert!(ts.contains(ToolName::Ping));

    // Unknown entries are reported in order.
    let err = parse_enabled_tools("search,foo,browse,bar").unwrap_err();
    assert_eq!(err, vec!["foo".to_string(), "bar".to_string()]);
}

#[test]
fn override_value_parsing() {
    assert!(parse_bool_flag("1"));
    assert!(parse_bool_flag(" TRUE "));
    assert!(parse_bool_flag("yes"));
    assert!(parse_bool_flag("On"));
    assert!(!parse_bool_flag("0"));
    assert!(!parse_bool_flag("false"));
    assert!(!parse_bool_flag(""));

    assert_eq!(parse_u64_value("0"), Some(0));
    assert_eq!(parse_u64_value("+42"), Some(42));
    assert_eq!(parse_u64_value("18446744073709551615"), Some(u64::MAX));
    assert_eq!(parse_u64_value("18446744073709551616"), None);
    assert_eq!(parse_u64_value(""), None);
    assert_eq!(parse_u64_value("+"), None);
    assert_eq!(parse_u64_value("12a"), None);
    assert_eq!(parse_u64_value("-1"), None);
}

#[test]
fn log_truncation() {
    assert_eq!(truncate_for_log("  hello  ", 10), "hello");
    assert_eq!(truncate_for_log("hello world", 5), "hello...");
    assert_eq!(truncate_for_log("", 5), "");
}

#[test]
fn request_payloads() {
    let r = BrowseRequest { url: "http://example.com".to_string() };
    assert_eq!(r.url, "http://example.com");
    let s = SearchRequest {
        query: "q".to_string(),
        categories: None,
        engines: None,
        language: None,
        pageno: None,
        time_range: None,
        safe_search: Some(SafeSearch::Off),
        num_results: Some(3),
    };
    assert_eq!(s.query, "q");
    assert_eq!(s.num_results, Some(3));
}
