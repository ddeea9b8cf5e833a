use crust::cli::{get_config_and_handle_args, parse_mode, ArgsFault, ArgsOutcome, Diagnostic};
use crust::config::{Ipv4Address, Mode, Network};

fn args(v: &[&str]) -> Vec<String> {
    v.iter().map(|s| s.to_string()).collect()
}

fn run(v: &[&str], toml: Option<Network>) -> ArgsOutcome {
    get_config_and_handle_args(&args(v), &toml, "/tmp/crust/t".to_string())
}

fn messages(o: &ArgsOutcome) -> Vec<String> {
    o.diagnostics.iter().map(|d| d.message()).collect()
}

#[test]
fn parse_mode_known_words() {
    assert_eq!(parse_mode("pack"), Mode::Pack);
    assert_eq!(parse_mode("unpack"), Mode::Unpack);
    assert_eq!(parse_mode("listen"), Mode::Listen);
    assert_eq!(parse_mode("connect"), Mode::Connect);
}

#[test]
fn parse_mode_unknown_words() {
    assert_eq!(parse_mode("Pack"), Mode::Help);
    assert_eq!(parse_mode(""), Mode::Help);
    assert_eq!(parse_mode("packs"), Mode::Help);
}

#[test]
fn no_arguments_shows_help() {
    let o = run(&["crust"], None);
    assert_eq!(o.config.mode, Mode::Help);
    assert!(o.config.network.is_none());
    assert!(o.config.file_path.is_none());
    assert_eq!(o.config.tmp_path, "/tmp/crust/t");
    assert!(o.diagnostics.is_empty());
    assert!(o.fault.is_none());
}

#[test]
fn mode_word_alone() {
    let o = run(&["crust", "pack"], None);
    assert_eq!(o.config.mode, Mode::Pack);
    assert!(o.diagnostics.is_empty());
    let o = run(&["crust", "listen"], None);
    assert_eq!(o.config.mode, Mode::Help);
    assert_eq!(
        messages(&o),
        vec!["Error: Missing IP-address".to_string(), "Error: Missing port".to_string()]
    );
}

#[test]
fn unpack_alone_lacks_file_path() {
    let o = run(&["crust", "unpack"], None);
    assert_eq!(o.config.mode, Mode::Help);
    assert_eq!(messages(&o), vec!["Error: Missing file path".to_string()]);
}

#[test]
fn unknown_mode_word() {
    let o = run(&["crust", "backup"], None);
    assert_eq!(o.config.mode, Mode::Help);
    assert_eq!(messages(&o), vec!["Error: Unknown mode 'backup'".to_string()]);
}

#[test]
fn unpack_with_file_path() {
    let o = run(&["crust", "unpack", "archive.tar.zst"], None);
    assert_eq!(o.config.mode, Mode::Unpack);
    assert_eq!(o.config.file_path.as_deref(), Some("archive.tar.zst"));
    assert!(o.diagnostics.is_empty());
    assert!(o.fault.is_none());
}

#[test]
fn listen_with_address_and_port() {
    let o = run(&["crust", "listen", "-a", "127.0.0.1", "-p", "5000"], None);
    assert_eq!(o.config.mode, Mode::Listen);
    let n = o.config.network.unwrap();
    assert_eq!(n.ip_addr, Some(Ipv4Address(127, 0, 0, 1)));
    assert_eq!(n.port, Some(5000));
    assert!(o.diagnostics.is_empty());
}

#[test]
fn long_options_and_plus_sign() {
    let o = run(&["crust", "connect", "--address", "10.0.0.2", "--port", "+80"], None);
    assert_eq!(o.config.mode, Mode::Connect);
    let n = o.config.network.unwrap();
    assert_eq!(n.ip_addr, Some(Ipv4Address(10, 0, 0, 2)));
    assert_eq!(n.port, Some(80));
}

#[test]
fn command_line_overrides_config_file() {
    let toml = Some(Network { ip_addr: Some(Ipv4Address(1, 2, 3, 4)), port: Some(1) });
    let o = run(&["crust", "listen", "-p", "9"], toml);
    assert_eq!(o.config.mode, Mode::Listen);
    let n = o.config.network.unwrap();
    assert_eq!(n.ip_addr, Some(Ipv4Address(1, 2, 3, 4)));
    assert_eq!(n.port, Some(9));
}

#[test]
fn missing_address_and_port() {
    let o = run(&["crust", "connect", "x"], None);
    assert_eq!(o.config.mode, Mode::Help);
    assert_eq!(o.config.file_path.as_deref(), Some("x"));
    assert_eq!(
        messages(&o),
        vec!["Error: Missing IP-address".to_string(), "Error: Missing port".to_string()]
    );
    let n = o.config.network.unwrap();
    assert!(n.ip_addr.is_none() && n.port.is_none());
}

#[test]
fn missing_port_only() {
    let toml = Some(Network { ip_addr: Some(Ipv4Address(1, 2, 3, 4)), port: None });
    let o = run(&["crust", "listen", "y"], toml);
    assert_eq!(o.config.mode, Mode::Help);
    assert_eq!(messages(&o), vec!["Error: Missing port".to_string()]);
}

#[test]
fn unknown_argument_turns_to_help() {
    let o = run(&["crust", "pack", "--verbose", "file"], None);
    assert_eq!(o.config.mode, Mode::Help);
    assert_eq!(o.config.file_path.as_deref(), Some("file"));
    assert_eq!(messages(&o), vec!["Error: Unknown argument '--verbose'".to_string()]);
}

#[test]
fn unknown_mode_then_unknown_argument() {
    let o = run(&["crust", "what", "a", "b"], None);
    assert_eq!(o.config.mode, Mode::Help);
    assert_eq!(
        messages(&o),
        vec!["Error: Unknown mode 'what'".to_string(), "Error: Unknown argument 'a'".to_string()]
    );
}

#[test]
fn option_without_value_is_a_fault() {
    let o = run(&["crust", "listen", "-p"], None);
    assert!(matches!(o.fault, Some(ArgsFault::MissingValue(ref f)) if f == "-p"));
    let o = run(&["crust", "listen", "--address"], None);
    assert!(matches!(o.fault, Some(ArgsFault::MissingValue(ref f)) if f == "--address"));
}

#[test]
fn invalid_port_is_a_fault() {
    let o = run(&["crust", "listen", "-p", "65x"], None);
    assert!(matches!(o.fault, Some(ArgsFault::InvalidPort(ref v)) if v == "65x"));
    let o = run(&["crust", "listen", "-p", "4294967296"], None);
    assert!(matches!(o.fault, Some(ArgsFault::InvalidPort(_))));
}

#[test]
fn invalid_address_is_a_fault() {
    let o = run(&["crust", "listen", "bad", "-a", "localhost:1", "-p", "1"], None);
    assert!(matches!(o.fault, Some(ArgsFault::InvalidAddress(ref v)) if v == "localhost:1"));
    assert_eq!(messages(&o), vec!["Error: Unknown argument 'bad'".to_string()]);
}

#[test]
fn port_above_sixteen_bits_is_read() {
    let o = run(&["crust", "listen", "-p", "70000", "-a", "0.0.0.0"], None);
    assert!(o.fault.is_none());
    assert_eq!(o.config.network.unwrap().port, Some(70000));
}

#[test]
fn law_unknown_mode_gives_help() {
    for v in [&["crust", "zip"][..], &["crust", "zip", "-p", "1"][..], &["crust", "zip", "listen", "f"][..]] {
        let o = run(v, None);
        assert_eq!(o.config.mode, Mode::Help);
        assert!(matches!(o.diagnostics[0], Diagnostic::UnknownMode(ref m) if m == "zip"));
    }
}

#[test]
fn law_network_modes_have_endpoint() {
    let cases: Vec<(Vec<&str>, Option<Network>)> = vec![
        (vec!["crust", "listen", "-p", "1"], None),
        (vec!["crust", "listen", "-p", "1"], Some(Network { ip_addr: Some(Ipv4Address(9, 9, 9, 9)), port: None })),
        (vec!["crust", "connect", "f"], Some(Network { ip_addr: None, port: Some(3) })),
    ];
    for (v, toml) in cases {
        let o = run(&v, toml);
        if o.fault.is_none() && (o.config.mode == Mode::Listen || o.config.mode == Mode::Connect) {
            let n = o.config.network.unwrap();
            assert!(n.ip_addr.is_some() && n.port.is_some());
        }
    }
}

#[test]
fn usage_example_listen_localhost() {
    let o = run(&["crust", "listen", "-a", "localhost", "-p", "5000"], None);
    assert!(o.fault.is_none());
    assert_eq!(o.config.mode, Mode::Listen);
    let n = o.config.network.unwrap();
    assert_eq!(n.ip_addr, Some(Ipv4Address(127, 0, 0, 1)));
    assert_eq!(n.port, Some(5000));
}

#[test]
fn usage_example_connect_alone_takes_config() {
    let toml = Some(Network { ip_addr: Some(Ipv4Address(127, 0, 0, 1)), port: Some(5000) });
    let o = run(&["crust", "connect"], toml);
    assert_eq!(o.config.mode, Mode::Connect);
    let n = o.config.network.unwrap();
    assert_eq!(n.ip_addr, Some(Ipv4Address(127, 0, 0, 1)));
    assert_eq!(n.port, Some(5000));
    assert!(o.diagnostics.is_empty());
}

#[test]
fn help_option_prints_usage() {
    for v in [&["crust", "pack", "--help"][..], &["crust", "pack", "-h", "file"][..], &["crust", "--help"][..], &["crust", "-h", "x", "y"][..]] {
        let o = run(v, None);
        assert_eq!(o.config.mode, Mode::Help, "{:?}", v);
        assert!(o.fault.is_none());
    }
    assert!(run(&["crust", "--help"], None).diagnostics.is_empty());
    assert!(run(&["crust", "pack", "--help"], None).diagnostics.is_empty());
}

#[test]
fn law_fault_iff_bad_option() {
    assert!(run(&["crust", "listen", "-a"], None).fault.is_some());
    assert!(run(&["crust", "listen", "-a", "1.2.3"], None).fault.is_some());
    assert!(run(&["crust", "listen", "-p", "x"], None).fault.is_some());
    assert!(run(&["crust", "listen", "-a", "1.2.3.4", "-p", "7", "f"], None).fault.is_none());
    assert!(run(&["crust", "listen", "bad", "-h"], None).fault.is_none());
}
