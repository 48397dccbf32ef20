use reet::config::{Config, Variable};
use reet::dns::RecordType;
use reet::ip::IpAddress;

const LOCALHOST: IpAddress = IpAddress::V4([127, 0, 0, 1]);
const LOCALHOST6: IpAddress = IpAddress::V6([0, 0, 0, 0, 0, 0, 0, 1]);

fn var(name: &str, value: &str) -> Variable {
    Variable::new(name, value, None)
}

fn setup() -> Config {
    let vars = vec![
        var("PATH", "/usr/bin"),
        var("REETTEST_ZONE_ID", "cloudflare_zone_id"),
        var("REETTEST_CLOUDFLARE_API_KEY", "cloudflare_api_key"),
        var("REETTEST_FREQUENCY", "10"),
        var("REETTEST_FOO_NAME", "example.com"),
        var("REETTEST_FOO_TYPE", "A"),
        Variable::new("REETTEST_FOO_IP", "127.0.0.1", Some(LOCALHOST)),
        var("REETTEST_FOO_TTL", "120"),
        var("OTHER_FOO_NAME", "example.net"),
        var("REETTEST_BAR_NAME", "example.org"),
        var("REETTEST_BAR_TYPE", "AAAA"),
        var("REETTEST_BAR_PROXIED", "true"),
        Variable::new("REETTEST_FIZZ_IP", "::1", Some(LOCALHOST6)),
    ];
    Config::new("REETTEST", vars)
}

fn pairs(entries: &[(&str, &str)]) -> Vec<(String, String)> {
    entries.iter().map(|(n, v)| (n.to_string(), v.to_string())).collect()
}

#[test]
fn test_vars() {
    let config = setup();

    assert_eq!(
        config
            .vars()
            .into_iter()
            .filter(|(name, _)| !name.starts_with("REETTEST"))
            .collect::<Vec<(String, String)>>(),
        vec![]
    )
}

#[test]
fn test_config() {
    let config = setup();

    assert_eq!(config.zone_id().unwrap(), "cloudflare_zone_id");
    assert_eq!(config.cloudflare_api_key().unwrap(), "cloudflare_api_key");
    assert_eq!(config.frequency().unwrap(), 10);

    assert_eq!(
        config.names(),
        vec![
            ("REETTEST_FOO_NAME", "example.com"),
            ("REETTEST_BAR_NAME", "example.org")
        ]
        .iter()
        .map(|(n, v)| (n.to_string(), v.to_string()))
        .collect::<Vec<(String, String)>>()
    );
    assert_eq!(config.get_ip("REETTEST_FOO_NAME").unwrap(), LOCALHOST);
    assert_eq!(config.get_ttl("REETTEST_FOO_NAME").unwrap(), 120);
    assert_eq!(config.get_proxied("REETTEST_FOO_NAME"), None);

    assert_eq!(config.get_ip("REETTEST_BAR_NAME"), None);
    assert_eq!(config.get_ttl("REETTEST_BAR_NAME"), None);
    assert_eq!(config.get_proxied("REETTEST_BAR_NAME").unwrap(), true);

    assert_eq!(config.get_ip("REETTEST_FIZZ_IP").unwrap(), LOCALHOST6);
}

#[test]
fn vars_keeps_the_prefixed_variables_in_order() {
    let config = Config::new(
        "REET",
        vec![var("HOME", "/root"), var("REET_B", "2"), var("XREET_C", "3"), var("REET_A", "1")],
    );
    assert_eq!(config.vars(), pairs(&[("REET_B", "2"), ("REET_A", "1")]));
}

#[test]
fn get_vars_by_needs_prefix_and_suffix() {
    let config = setup();
    assert_eq!(
        config.get_vars_by("_NAME"),
        pairs(&[("REETTEST_FOO_NAME", "example.com"), ("REETTEST_BAR_NAME", "example.org")])
    );
    assert_eq!(config.get_vars_by("_PATH"), pairs(&[]));
    assert_eq!(config.get_vars_by("PATH"), pairs(&[]));
}

#[test]
fn get_var_by_gives_the_first_value() {
    let config = Config::new(
        "REET",
        vec![var("REET_ZONE_ID", "first"), var("REET_OTHER_ZONE_ID", "second")],
    );
    assert_eq!(config.get_var_by("_ZONE_ID"), Some("first".to_string()));
    assert_eq!(config.zone_id(), Some("first".to_string()));
    assert_eq!(config.get_var_by("_MISSING"), None);
}

#[test]
fn missing_settings_are_absent() {
    let config = Config::new("REET", vec![]);
    assert_eq!(config.zone_id(), None);
    assert_eq!(config.cloudflare_api_key(), None);
    assert_eq!(config.cloudflare_email(), None);
    assert_eq!(config.frequency(), None);
    assert_eq!(config.names(), pairs(&[]));
    assert_eq!(config.vars(), pairs(&[]));
}

#[test]
fn frequency_must_be_a_number() {
    let config = Config::new("REET", vec![var("REET_FREQUENCY", "soon")]);
    assert_eq!(config.frequency(), None);
    let config = Config::new("REET", vec![var("REET_FREQUENCY", "300")]);
    assert_eq!(config.frequency(), Some(300));
    let config = Config::new("REET", vec![var("REET_FREQUENCY", "18446744073709551616")]);
    assert_eq!(config.frequency(), None);
}

#[test]
fn email_is_read_by_its_suffix() {
    let config = Config::new("REET", vec![var("REET_CLOUDFLARE_EMAIL", "me@example.com")]);
    assert_eq!(config.cloudflare_email(), Some("me@example.com".to_string()));
}

#[test]
fn typed_lists_read_each_value() {
    let config = Config::new(
        "REET",
        vec![
            var("REET_A_TTL", "60"),
            var("REET_B_TTL", "never"),
            var("REET_A_PROXIED", "false"),
            var("REET_B_PROXIED", "yes"),
            var("REET_A_TYPE", "CNAME"),
            var("REET_B_TYPE", "cname"),
            Variable::new("REET_A_IP", "10.0.0.1", Some(IpAddress::V4([10, 0, 0, 1]))),
            var("REET_B_IP", "nowhere"),
        ],
    );
    assert_eq!(
        config.ttl(),
        vec![("REET_A_TTL".to_string(), Some(60)), ("REET_B_TTL".to_string(), None)]
    );
    assert_eq!(
        config.proxied(),
        vec![("REET_A_PROXIED".to_string(), Some(false)), ("REET_B_PROXIED".to_string(), None)]
    );
    assert_eq!(
        config.types(),
        vec![
            ("REET_A_TYPE".to_string(), Some(RecordType::CNAME)),
            ("REET_B_TYPE".to_string(), None)
        ]
    );
    assert_eq!(
        config.ip(),
        vec![
            ("REET_A_IP".to_string(), Some(IpAddress::V4([10, 0, 0, 1]))),
            ("REET_B_IP".to_string(), None)
        ]
    );
}

#[test]
fn find_tells_absent_from_malformed() {
    let config = Config::new(
        "REET",
        vec![
            var("REET_A_NAME", "a.example.com"),
            var("REET_A_TTL", "sixty"),
            var("REET_B_NAME", "b.example.com"),
            var("REET_B_TTL", "60"),
            var("REET_C_NAME", "c.example.com"),
        ],
    );
    assert_eq!(config.find_ttl("REET_A_NAME"), Some(None));
    assert_eq!(config.find_ttl("REET_B_NAME"), Some(Some(60)));
    assert_eq!(config.find_ttl("REET_C_NAME"), None);
    assert_eq!(config.get_ttl("REET_A_NAME"), None);
    assert_eq!(config.get_ttl("REET_B_NAME"), Some(60));
    assert_eq!(config.get_ttl("REET_C_NAME"), None);
    assert_eq!(config.find_type("REET_A_NAME"), None);
    assert_eq!(config.find_ip("REET_A_NAME"), None);
    assert_eq!(config.find_proxied("REET_A_NAME"), None);
}

#[test]
fn the_first_variable_of_a_group_wins() {
    let config = Config::new(
        "REET",
        vec![
            var("REET_FOO_NAME", "foo.example.com"),
            var("REET_FOO_TTL", "1"),
            var("REET_FOO_TTL", "2"),
            var("REET_FOO_TYPE", "A"),
            var("REET_FOO_TYPE", "AAAA"),
        ],
    );
    assert_eq!(config.get_ttl("REET_FOO_NAME"), Some(1));
    assert_eq!(config.get_type("REET_FOO_NAME"), Some(RecordType::A));
}

#[test]
fn another_group_never_lends_its_time_to_live() {
    let config = Config::new(
        "REET",
        vec![
            var("REET_FOOBAR_TTL", "300"),
            var("REET_FOO_NAME", "a.example.com"),
            var("REET_FOO_TTL", "120"),
        ],
    );
    assert_eq!(config.get_ttl("REET_FOO_NAME"), Some(120));
    assert_eq!(config.find_ttl("REET_FOO_NAME"), Some(Some(120)));
    assert_eq!(config.get_ttl("REET_FOOBAR_NAME"), Some(300));
}

#[test]
fn a_malformed_value_is_not_covered_by_another_group() {
    let config = Config::new(
        "REET",
        vec![
            var("REET_FOOBAR_TTL", "300"),
            Variable::new("REET_FOOBAR_IP", "192.0.2.1", Some(IpAddress::V4([192, 0, 2, 1]))),
            var("REET_FOO_NAME", "a.example.com"),
            var("REET_FOO_TTL", "abc"),
            var("REET_FOO_IP", "not-an-ip"),
        ],
    );
    assert_eq!(config.find_ttl("REET_FOO_NAME"), Some(None));
    assert_eq!(config.get_ttl("REET_FOO_NAME"), None);
    assert_eq!(config.find_ip("REET_FOO_NAME"), Some(None));
    assert_eq!(config.get_ip("REET_FOO_NAME"), None);
}

#[test]
fn an_absent_value_is_not_taken_from_another_group() {
    let config = Config::new(
        "REET",
        vec![
            var("REET_FOOBAR_PROXIED", "true"),
            var("REET_FOOBAR_TYPE", "A"),
            Variable::new("REET_FOOBAR_IP", "192.0.2.1", Some(IpAddress::V4([192, 0, 2, 1]))),
            var("XREET_FOO_TTL", "5"),
            var("REET_X_REET_FOO_TTL", "6"),
            var("REET_FOO_NAME", "a.example.com"),
        ],
    );
    assert_eq!(config.get_proxied("REET_FOO_NAME"), None);
    assert_eq!(config.find_proxied("REET_FOO_NAME"), None);
    assert_eq!(config.get_ip("REET_FOO_NAME"), None);
    assert_eq!(config.find_ip("REET_FOO_NAME"), None);
    assert_eq!(config.get_type("REET_FOO_NAME"), None);
    assert_eq!(config.get_ttl("REET_FOO_NAME"), None);
    assert_eq!(config.get_proxied("REET_FOOBAR_NAME"), Some(true));
}

#[test]
fn the_name_marker_is_taken_off_once() {
    let config = Config::new(
        "REET",
        vec![
            var("REET_A_NAME_NAME", "a.example.com"),
            var("REET_A_TTL", "1"),
            var("REET_A_NAME_TTL", "2"),
        ],
    );
    assert_eq!(config.get_ttl("REET_A_NAME_NAME"), Some(2));
    assert_eq!(config.get_ttl("REET_A_NAME"), Some(1));
}

#[test]
fn a_variable_is_found_by_its_own_name() {
    let config = Config::new(
        "REET",
        vec![var("REET_FOO_TTL", "7"), var("REET_BAR_TTL", "8"), var("REET_BAR_PROXIED", "false")],
    );
    assert_eq!(config.get_ttl("REET_BAR_TTL"), Some(8));
    assert_eq!(config.get_ttl("REET_FOO_TTL"), Some(7));
    assert_eq!(config.get_proxied("REET_BAR_PROXIED"), Some(false));
    assert_eq!(config.get_proxied("REET_BAR_TTL"), None);
}

#[test]
fn poll_interval_defaults_to_five_minutes() {
    assert_eq!(Config::new("REET", vec![]).poll_interval(), 300);
    assert_eq!(Config::new("REET", vec![var("REET_FREQUENCY", "x")]).poll_interval(), 300);
    assert_eq!(Config::new("REET", vec![var("REET_FREQUENCY", "10")]).poll_interval(), 10);
    assert_eq!(Config::new("REET", vec![var("REET_FREQUENCY", "0")]).poll_interval(), 0);
}
