use openvpn_cmd::command::{OpenVpnCommand, OutputPolicy};
use openvpn_cmd::format::write_argument;
use openvpn_cmd::numeric::u16_to_decimal;
use openvpn_cmd::remote::{resolve_str, RemoteAddr, ResolveError};

#[test]
fn no_arguments() {
    let testee_args = OpenVpnCommand::new("").get_arguments();
    assert_eq!(0, testee_args.len());
}

#[test]
fn passes_one_remote() {
    let remote = RemoteAddr::new("example.com", 3333);

    let mut command = OpenVpnCommand::new("");
    command.remotes(remote).unwrap();
    let testee_args = command.get_arguments();

    assert!(testee_args.contains(&String::from("example.com")));
    assert!(testee_args.contains(&String::from("3333")));
}

#[test]
fn passes_two_remotes() {
    let remotes = vec![RemoteAddr::new("127.0.0.1", 998), RemoteAddr::new("fe80::1", 1337)];

    let mut command = OpenVpnCommand::new("");
    command.remotes(&remotes[..]).unwrap();
    let testee_args = command.get_arguments();

    assert!(testee_args.contains(&String::from("127.0.0.1")));
    assert!(testee_args.contains(&String::from("998")));
    assert!(testee_args.contains(&String::from("fe80::1")));
    assert!(testee_args.contains(&String::from("1337")));
}

#[test]
fn accepts_str() {
    let mut command = OpenVpnCommand::new("");
    assert!(command.remotes("10.0.0.1:1377").is_ok());
}

#[test]
fn accepts_slice_of_str() {
    let remotes = ["10.0.0.1:1337", "127.0.0.1:99"];

    let mut command = OpenVpnCommand::new("");
    command.remotes(&remotes[..]).unwrap();
    let testee_args = command.get_arguments();

    assert!(testee_args.contains(&String::from("10.0.0.1")));
    assert!(testee_args.contains(&String::from("1337")));
    assert!(testee_args.contains(&String::from("127.0.0.1")));
    assert!(testee_args.contains(&String::from("99")));
}

#[test]
fn resolves_str_to_endpoint() {
    let endpoint = resolve_str("10.0.0.1:1377").unwrap();
    assert_eq!("10.0.0.1", endpoint.address());
    assert_eq!(1377, endpoint.port());
}

#[test]
fn slice_of_str_keeps_order() {
    let remotes = ["10.0.0.1:1337", "127.0.0.1:99"];

    let mut command = OpenVpnCommand::new("");
    command.remotes(&remotes[..]).unwrap();

    let expected = vec![
        String::from("--remote"),
        String::from("10.0.0.1"),
        String::from("1337"),
        String::from("--remote"),
        String::from("127.0.0.1"),
        String::from("99"),
    ];
    assert_eq!(expected, command.get_arguments());
}

#[test]
fn remote_slice_keeps_order() {
    let remotes = vec![RemoteAddr::new("127.0.0.1", 998), RemoteAddr::new("fe80::1", 1337)];

    let mut command = OpenVpnCommand::new("");
    command.remotes(&remotes[..]).unwrap();

    let expected = vec![
        String::from("--remote"),
        String::from("127.0.0.1"),
        String::from("998"),
        String::from("--remote"),
        String::from("fe80::1"),
        String::from("1337"),
    ];
    assert_eq!(expected, command.get_arguments());
}

#[test]
fn binary_does_not_affect_arguments() {
    let testee_args = OpenVpnCommand::new("/usr/sbin/openvpn").get_arguments();
    assert_eq!(0, testee_args.len());
}

#[test]
fn config_tokens() {
    let mut command = OpenVpnCommand::new("openvpn");
    command.config("/etc/openvpn/client.conf");
    let expected = vec![String::from("--config"), String::from("/etc/openvpn/client.conf")];
    assert_eq!(expected, command.get_arguments());
}

#[test]
fn plugin_tokens_keep_order() {
    let mut command = OpenVpnCommand::new("openvpn");
    command.plugin("/p.so", vec![String::from("first"), String::from("second")]);
    let expected = vec![
        String::from("--plugin"),
        String::from("/p.so"),
        String::from("first"),
        String::from("second"),
    ];
    assert_eq!(expected, command.get_arguments());
}

#[test]
fn full_invocation_in_fixed_order() {
    let mut command = OpenVpnCommand::new("openvpn");
    command.config("conf");
    command.remotes("host:7").unwrap();
    command.plugin("plug", vec![String::from("x")]);
    let expected = vec![
        String::from("--config"),
        String::from("conf"),
        String::from("--remote"),
        String::from("host"),
        String::from("7"),
        String::from("--plugin"),
        String::from("plug"),
        String::from("x"),
    ];
    assert_eq!(expected, command.get_arguments());
}

#[test]
fn remotes_replace_previous_remotes() {
    let mut command = OpenVpnCommand::new("");
    command.remotes("a:1").unwrap();
    command.remotes("b:2").unwrap();
    let expected =
        vec![String::from("--remote"), String::from("b"), String::from("2")];
    assert_eq!(expected, command.get_arguments());
}

#[test]
fn failed_resolution_keeps_remotes() {
    let mut command = OpenVpnCommand::new("");
    command.remotes("a:1").unwrap();
    let before = command.get_arguments();
    assert!(command.remotes("no-port-here").is_err());
    assert_eq!(before, command.get_arguments());
}

#[test]
fn resolve_reports_missing_separator() {
    assert!(matches!(resolve_str("10.0.0.1"), Err(ResolveError::MissingSeparator)));
}

#[test]
fn resolve_reports_empty_address() {
    assert!(matches!(resolve_str(":80"), Err(ResolveError::EmptyAddress)));
}

#[test]
fn resolve_reports_empty_port() {
    assert!(matches!(resolve_str("host:"), Err(ResolveError::InvalidPort)));
}

#[test]
fn resolve_reports_non_digit_port() {
    assert!(matches!(resolve_str("host:12a"), Err(ResolveError::InvalidPort)));
}

#[test]
fn resolve_reports_port_out_of_range() {
    assert!(matches!(resolve_str("host:65536"), Err(ResolveError::PortOutOfRange)));
    assert!(matches!(resolve_str("host:184467440737095516150"), Err(ResolveError::PortOutOfRange)));
}

#[test]
fn resolve_accepts_port_bounds() {
    assert_eq!(0, resolve_str("h:0").unwrap().port());
    assert_eq!(65535, resolve_str("h:65535").unwrap().port());
}

#[test]
fn resolve_splits_at_last_colon() {
    let endpoint = resolve_str("fe80::1:99").unwrap();
    assert_eq!("fe80::1", endpoint.address());
    assert_eq!(99, endpoint.port());
}

#[test]
fn renders_ports_in_decimal() {
    assert_eq!("0", u16_to_decimal(0));
    assert_eq!("7", u16_to_decimal(7));
    assert_eq!("1377", u16_to_decimal(1377));
    assert_eq!("65535", u16_to_decimal(65535));
}

#[test]
fn port_survives_render_and_resolve() {
    for port in [0u16, 7, 80, 1337, 65535] {
        let spec = format!("host:{}", u16_to_decimal(port));
        assert_eq!(port, resolve_str(&spec).unwrap().port());
    }
}

#[test]
fn duplicate_keeps_endpoint() {
    let endpoint = RemoteAddr::new("example.com", 3333);
    let copy = endpoint.duplicate();
    assert_eq!("example.com", copy.address());
    assert_eq!(3333, copy.port());
}

#[test]
fn write_argument_quotes_whitespace() {
    let mut out = String::new();
    write_argument(&mut out, "a b");
    assert_eq!(" \"a b\"", out);
}

#[test]
fn write_argument_leaves_plain_text_unquoted() {
    let mut out = String::new();
    write_argument(&mut out, "abc");
    assert_eq!(" abc", out);
}

#[test]
fn display_quotes_argument_with_space() {
    let mut command = OpenVpnCommand::new("/bin/openvpn");
    command.plugin("/p.so", vec![String::from("a b"), String::from("c")]);
    assert_eq!("/bin/openvpn --plugin /p.so \"a b\" c", command.display());
}

#[test]
fn display_shows_full_invocation() {
    let mut command = OpenVpnCommand::new("openvpn");
    command.config("conf");
    command.remotes("host:7").unwrap();
    assert_eq!("openvpn --config conf --remote host 7", command.display());
}

#[test]
fn get_arguments_is_idempotent() {
    let mut command = OpenVpnCommand::new("openvpn");
    command.config("conf");
    command.remotes("host:7").unwrap();
    assert_eq!(command.get_arguments(), command.get_arguments());
}

#[test]
fn output_policy_follows_capture_flag() {
    let mut command = OpenVpnCommand::new("openvpn");
    assert!(matches!(command.get_output_pipe_policy(), OutputPolicy::Piped));
    command.pipe_output(false);
    assert!(matches!(command.get_output_pipe_policy(), OutputPolicy::Null));
    command.pipe_output(true);
    assert!(matches!(command.get_output_pipe_policy(), OutputPolicy::Piped));
}

#[test]
fn binary_is_kept() {
    let command = OpenVpnCommand::new("/usr/sbin/openvpn");
    assert_eq!("/usr/sbin/openvpn", command.binary());
}
