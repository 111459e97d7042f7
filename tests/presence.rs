use mc_server_discord_presence::{
    decimal_string, format_presence, join_with_commas, sort_by_keys, outcome_from_status, sort_names, Action,
    Config, DomainOrIp, FailureKind, IpAddr, Monitor, Phase, RichPresenceHandler, SampleOutcome,
    StatusTag, Target,
};

fn domain(s: &str) -> DomainOrIp {
    DomainOrIp::Domain(s.to_string())
}

fn names(v: &[&str]) -> Vec<String> {
    v.iter().map(|s| s.to_string()).collect()
}

fn online(players_online: u32, players_max: u32, sample: &[&str]) -> SampleOutcome {
    SampleOutcome::Online { players_online, players_max, sample_names: names(sample) }
}

fn failure(reason: &str) -> SampleOutcome {
    SampleOutcome::Failure { kind: FailureKind::Connect, reason: reason.to_string() }
}

#[test]
fn display_address_without_port() {
    let t = Target::new(domain("play.example.com"), None);
    assert_eq!(t.display_address(), "play.example.com");
}

#[test]
fn display_address_with_port() {
    let t = Target::new(domain("play.example.com"), Some(25566));
    assert_eq!(t.display_address(), "play.example.com:25566");
    assert_eq!(t.port(), Some(25566));
}

#[test]
fn display_address_of_ipv4() {
    let t = Target::new(DomainOrIp::Ip(IpAddr::V4([192, 168, 0, 10])), Some(25565));
    assert_eq!(t.display_address(), "192.168.0.10:25565");
}

#[test]
fn ipv6_text_compresses_first_longest_zero_run() {
    let ip = IpAddr::V6([0x2001, 0xdb8, 0, 0, 1, 0, 0, 1]);
    assert_eq!(ip.to_text(), "2001:db8::1:0:0:1");
    let ip = IpAddr::V6([0x2001, 0xdb8, 0, 0, 0, 0, 0xabcd, 0xff]);
    assert_eq!(ip.to_text(), "2001:db8::abcd:ff");
}

#[test]
fn ipv6_text_special_forms() {
    assert_eq!(IpAddr::V6([0; 8]).to_text(), "::");
    assert_eq!(IpAddr::V6([0, 0, 0, 0, 0, 0, 0, 1]).to_text(), "::1");
    assert_eq!(IpAddr::V6([0, 0, 0, 0, 0, 0xffff, 0xc000, 0x0280]).to_text(), "::ffff:192.0.2.128");
    assert_eq!(IpAddr::V6([1, 0, 2, 0, 3, 0, 4, 0]).to_text(), "1:0:2:0:3:0:4:0");
}

#[test]
fn host_string_conversion() {
    assert_eq!(String::from(domain("mc.example.org")), "mc.example.org");
    assert_eq!(String::from(DomainOrIp::Ip(IpAddr::V4([10, 0, 0, 1]))), "10.0.0.1");
}

#[test]
fn decimal_has_no_separators() {
    assert_eq!(decimal_string(0), "0");
    assert_eq!(decimal_string(7), "7");
    assert_eq!(decimal_string(1234567), "1234567");
    assert_eq!(decimal_string(u64::MAX), "18446744073709551615");
}

#[test]
fn join_without_spaces() {
    assert_eq!(join_with_commas(&names(&[])), "");
    assert_eq!(join_with_commas(&names(&["a"])), "a");
    assert_eq!(join_with_commas(&names(&["a", "b", "c"])), "a,b,c");
}

#[test]
fn names_sorted_case_insensitively() {
    assert_eq!(sort_names(&names(&["bob", "Alice", "carl"])), names(&["Alice", "bob", "carl"]));
}

#[test]
fn names_sorted_by_lower_case_form_not_by_code_point() {
    assert_eq!(sort_names(&names(&["Zed", "amy"])), names(&["amy", "Zed"]));
    assert_eq!(sort_names(&names(&["\u{c9}mile", "eve", "Zoe"])), names(&["eve", "Zoe", "\u{c9}mile"]));
}

#[test]
fn display_address_of_ipv6_with_port() {
    let t = Target::new(DomainOrIp::Ip(IpAddr::V6([0xfe80, 0, 0, 0, 0, 0, 0, 0x1])), Some(1));
    assert_eq!(t.display_address(), "fe80::1:1");
}

#[test]
fn sort_keeps_order_of_equal_keys() {
    assert_eq!(sort_names(&names(&["b", "Bob", "bob", "BOB", "a"])), names(&["a", "b", "Bob", "bob", "BOB"]));
}

#[test]
fn online_scenario_sorts_names() {
    let t = Target::new(domain("play.example.com"), None);
    let u = format_presence(t.display_address(), &online(3, 20, &["Zed", "amy"]));
    assert_eq!(u.status, StatusTag::Online);
    assert_eq!(u.text, "3/20; play.example.com: amy,Zed");
}

#[test]
fn failure_scenario_shows_offline() {
    let t = Target::new(domain("play.example.com"), None);
    let u = format_presence(t.display_address(), &failure("connection refused"));
    assert_eq!(u.status, StatusTag::Unavailable);
    assert_eq!(u.text, "offline; IP: play.example.com");
    assert!(!u.text.contains("connection refused"));
}

#[test]
fn nobody_online_scenario_has_no_suffix() {
    let t = Target::new(domain("play.example.com"), Some(25566));
    let u = format_presence(t.display_address(), &online(0, 10, &[]));
    assert_eq!(u.status, StatusTag::Online);
    assert_eq!(u.text, "0/10; play.example.com:25566");
}

#[test]
fn nobody_online_ignores_sampled_names() {
    let u = format_presence("host", &online(0, 5, &["ghost"]));
    assert_eq!(u.text, "0/5; host");
}

#[test]
fn players_online_without_sample_leaves_empty_suffix() {
    let u = format_presence("host", &outcome_from_status(2, 8, None));
    assert_eq!(u.text, "2/8; host: ");
}

#[test]
fn outcome_from_status_keeps_sample() {
    let o = outcome_from_status(1, 4, Some(names(&["steve"])));
    let u = format_presence("h:1", &o);
    assert_eq!(u.text, "1/4; h:1: steve");
}

#[test]
fn large_counts_are_raw_digits() {
    let u = format_presence("h", &online(1234, 100000, &["x"]));
    assert_eq!(u.text, "1234/100000; h: x");
}

#[test]
fn failure_reason_never_shown() {
    for kind in [FailureKind::Connect, FailureKind::Protocol, FailureKind::MalformedResponse] {
        let o = SampleOutcome::Failure { kind, reason: "secret detail".to_string() };
        let u = format_presence("srv", &o);
        assert_eq!(u.text, "offline; IP: srv");
        assert!(!u.text.contains("secret detail"));
    }
}

#[test]
fn formatting_twice_gives_identical_updates() {
    let o = online(2, 9, &["b", "A"]);
    let a = format_presence("x", &o);
    let b = format_presence("x", &o);
    assert_eq!(a.status, b.status);
    assert_eq!(a.text, b.text);
}

#[test]
fn loop_publishes_every_tick_and_keeps_running() {
    let t = Target::new(domain("play.example.com"), None);
    let mut m = Monitor::new(t, 5);
    let outcomes = vec![failure("timeout"), online(1, 2, &["amy"]), failure("dns")];
    let mut published = Vec::new();
    for o in outcomes.iter() {
        assert_eq!(m.next_action(), Action::Sample);
        published.push(m.on_sampled(o));
        assert_eq!(m.next_action(), Action::Wait(5));
        m.on_wait_elapsed();
    }
    assert_eq!(published.len(), 3);
    let tags: Vec<StatusTag> = published.iter().map(|u| u.status).collect();
    assert_eq!(tags, vec![StatusTag::Unavailable, StatusTag::Online, StatusTag::Unavailable]);
    assert_eq!(published[1].text, "1/2; play.example.com: amy");
    assert_eq!(m.phase(), Phase::Sampling);
    assert_eq!(m.next_action(), Action::Sample);
}

#[test]
fn loop_stops_when_asked() {
    let mut m = Monitor::new(Target::new(domain("h"), None), 1);
    m.stop();
    assert_eq!(m.next_action(), Action::Stop);
}

#[test]
fn config_default_values() {
    let c = Config::default();
    assert_eq!(c.DISCORD_BOT_TOKEN, "");
    assert!(matches!(c.MINECRAFT_SERVER_DOMAIN_OR_IP, DomainOrIp::Domain(ref d) if d.is_empty()));
    assert_eq!(c.MINECRAFT_SERVER_PORT, Some(25565));
    assert_eq!(c.REFRESH_INTERVAL, 5);
}

#[test]
fn handler_monitor_follows_config() {
    let mut c = Config::default();
    c.MINECRAFT_SERVER_DOMAIN_OR_IP = domain("mc.example.net");
    c.REFRESH_INTERVAL = 30;
    let mut h = RichPresenceHandler::new(c);
    let m = h.start_monitor().unwrap();
    assert_eq!(m.target().display_address(), "mc.example.net:25565");
    assert_eq!(m.interval_secs(), 30);
    assert_eq!(m.next_action(), Action::Sample);
}

#[test]
fn handler_starts_loop_once() {
    let mut h = RichPresenceHandler::new(Config::default());
    assert!(h.start_monitor().is_some());
    assert!(h.start_monitor().is_none());
    assert!(h.start_monitor().is_none());
}

#[test]
fn string_from_ipv4_host() {
    assert_eq!(String::from(DomainOrIp::Ip(IpAddr::V4([192, 168, 0, 1]))), "192.168.0.1");
}

#[test]
fn sort_by_given_keys_is_stable() {
    let keys = names(&["b", "a", "b", "A"]);
    assert_eq!(sort_by_keys(&names(&["x", "y", "z", "w"]), &keys), names(&["w", "y", "x", "z"]));
}

#[test]
fn sort_does_not_depend_on_input_order() {
    let a = sort_names(&names(&["carl", "Alice", "bob"]));
    let b = sort_names(&names(&["bob", "carl", "Alice"]));
    assert_eq!(a, b);
    let u = format_presence("h", &online(3, 3, &["carl", "Alice", "bob"]));
    let v = format_presence("h", &online(3, 3, &["bob", "carl", "Alice"]));
    assert_eq!(u.text, v.text);
}
