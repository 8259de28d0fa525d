use rsnc::{Cli, ConfigError, Environment, Token, FlagSet, CliOption, set_dotenv};

fn args_of(words: &[&str]) -> Vec<String> {
    words.iter().map(|w| w.to_string()).collect()
}

fn entries_of(pairs: &[(&str, &str)]) -> Vec<(String, String)> {
    pairs.iter().map(|(k, v)| (k.to_string(), v.to_string())).collect()
}

fn malformed(text: &str) -> ConfigError {
    ConfigError::MalformedArguments(text.to_string())
}

#[test]
fn test_cli_default() {
    let args = Cli::try_parse_from(&args_of(&[""]), &Environment::new());
    let args = args.unwrap();
    assert_eq!(false, args.tcp);
    assert_eq!(false, args.udp);
    assert_eq!(None, args.port);
    assert_eq!(None, args.ipaddr);
}

#[test]
fn test_cli() {
    let args = Cli::try_parse_from(
        &args_of(&["", "-u", "-l", "54321", "127.0.0.1"]),
        &Environment::new(),
    );
    let args = args.unwrap();
    assert_eq!(false, args.tcp);
    assert_eq!(true, args.udp);
    assert_eq!(54321, args.port.unwrap());
    assert_eq!("127.0.0.1".to_string(), args.ipaddr.unwrap());
}

#[test]
fn test_dotenv() {
    let mut env = Environment::new();
    let file = entries_of(&[
        ("RSNC_TCP", "true"),
        ("RSNC_LISTEN", "true"),
        ("RSNC_PORT", "54321"),
        ("RSNC_IPADDR", "127.0.0.1"),
    ]);
    set_dotenv(&mut env, None, Some(file));
    let args = Cli::try_parse_from(&args_of(&[""]), &env);
    let args = args.unwrap();
    assert_eq!(true, args.tcp);
    assert_eq!(false, args.udp);
    assert_eq!(true, args.listen);
    assert_eq!(54321, args.port.unwrap());
    assert_eq!("127.0.0.1".to_string(), args.ipaddr.unwrap());
}

#[test]
fn round_trip_is_exact() {
    let cli = Cli::try_parse_from(
        &args_of(&["", "-u", "-l", "54321", "127.0.0.1"]),
        &Environment::new(),
    )
    .unwrap();
    assert_eq!(
        cli,
        Cli {
            tcp: false,
            udp: true,
            listen: true,
            keep_accept: false,
            port: Some(54321),
            ipaddr: Some("127.0.0.1".to_string()),
        }
    );
    assert_eq!(cli.ipaddr.unwrap().as_bytes(), b"127.0.0.1");
}

#[test]
fn empty_argument_list_gives_defaults() {
    let cli = Cli::try_parse_from(&args_of(&[]), &Environment::new()).unwrap();
    assert_eq!(cli, Cli::default());
    assert_eq!(
        Cli::default(),
        Cli { tcp: false, udp: false, listen: false, keep_accept: false, port: None, ipaddr: None }
    );
}

#[test]
fn program_name_is_not_read() {
    let cli = Cli::try_parse_from(&args_of(&["--bogus"]), &Environment::new()).unwrap();
    assert_eq!(cli, Cli::default());
}

#[test]
fn long_forms_switch_flags_on() {
    let cli = Cli::try_parse_from(
        &args_of(&["rsnc", "--tcp", "--udp", "--listen", "--keep-accept"]),
        &Environment::new(),
    )
    .unwrap();
    assert!(cli.tcp && cli.udp && cli.listen && cli.keep_accept);
    assert_eq!(cli.port, None);
    let cli = Cli::try_parse_from(&args_of(&["rsnc", "--listen"]), &Environment::new()).unwrap();
    assert!(!cli.tcp && !cli.udp && cli.listen && !cli.keep_accept);
}

#[test]
fn short_forms_may_share_a_dash() {
    let cli = Cli::try_parse_from(&args_of(&["rsnc", "-ulk", "9000"]), &Environment::new()).unwrap();
    assert!(!cli.tcp && cli.udp && cli.listen && cli.keep_accept);
    assert_eq!(cli.port, Some(9000));
    assert_eq!(cli.ipaddr, None);
}

#[test]
fn both_protocol_flags_are_accepted() {
    let cli = Cli::try_parse_from(&args_of(&["rsnc", "-t", "-u"]), &Environment::new()).unwrap();
    assert!(cli.tcp && cli.udp);
}

#[test]
fn a_flag_may_be_named_again() {
    let cli = Cli::try_parse_from(&args_of(&["rsnc", "-t", "--tcp", "-tt"]), &Environment::new())
        .unwrap();
    assert!(cli.tcp);
    assert!(!cli.udp);
}

#[test]
fn flags_and_values_may_mix() {
    let cli = Cli::try_parse_from(&args_of(&["rsnc", "80", "-l", "host", "-k"]), &Environment::new())
        .unwrap();
    assert_eq!(cli.port, Some(80));
    assert_eq!(cli.ipaddr, Some("host".to_string()));
    assert!(cli.listen && cli.keep_accept);
}

#[test]
fn unrecognized_flag_is_malformed() {
    let env = Environment::new();
    assert_eq!(Cli::try_parse_from(&args_of(&["rsnc", "-x"]), &env), Err(malformed("-x")));
    assert_eq!(Cli::try_parse_from(&args_of(&["rsnc", "--bogus"]), &env), Err(malformed("--bogus")));
    assert_eq!(Cli::try_parse_from(&args_of(&["rsnc", "-tx", "80"]), &env), Err(malformed("-tx")));
    assert_eq!(
        Cli::try_parse_from(&args_of(&["rsnc", "--tcp=true"]), &env),
        Err(malformed("--tcp=true"))
    );
    assert_eq!(Cli::try_parse_from(&args_of(&["rsnc", "--t"]), &env), Err(malformed("--t")));
    assert_eq!(Cli::try_parse_from(&args_of(&["rsnc", "-1"]), &env), Err(malformed("-1")));
    assert_eq!(Cli::try_parse_from(&args_of(&["rsnc", "-é"]), &env), Err(malformed("-é")));
}

#[test]
fn first_offender_is_reported() {
    let env = Environment::new();
    assert_eq!(
        Cli::try_parse_from(&args_of(&["rsnc", "-t", "--no", "-z", "70000"]), &env),
        Err(malformed("--no"))
    );
}

#[test]
fn port_out_of_range_is_malformed() {
    let env = Environment::new();
    assert_eq!(Cli::try_parse_from(&args_of(&["rsnc", "65536"]), &env), Err(malformed("65536")));
    assert_eq!(Cli::try_parse_from(&args_of(&["rsnc", "70000"]), &env), Err(malformed("70000")));
    assert_eq!(
        Cli::try_parse_from(&args_of(&["rsnc", "99999999999999999999999"]), &env),
        Err(malformed("99999999999999999999999"))
    );
    assert_eq!(
        Cli::try_parse_from(&args_of(&["rsnc", "--", "-1"]), &env),
        Err(malformed("-1"))
    );
}

#[test]
fn port_that_is_no_number_is_malformed() {
    let env = Environment::new();
    assert_eq!(Cli::try_parse_from(&args_of(&["rsnc", "http"]), &env), Err(malformed("http")));
    assert_eq!(Cli::try_parse_from(&args_of(&["rsnc", ""]), &env), Err(malformed("")));
    assert_eq!(Cli::try_parse_from(&args_of(&["rsnc", "-"]), &env), Err(malformed("-")));
    assert_eq!(Cli::try_parse_from(&args_of(&["rsnc", "80a"]), &env), Err(malformed("80a")));
    assert_eq!(Cli::try_parse_from(&args_of(&["rsnc", " 80"]), &env), Err(malformed(" 80")));
    assert_eq!(Cli::try_parse_from(&args_of(&["rsnc", "8０"]), &env), Err(malformed("8０")));
}

#[test]
fn port_bounds_are_accepted() {
    let env = Environment::new();
    assert_eq!(Cli::try_parse_from(&args_of(&["rsnc", "0"]), &env).unwrap().port, Some(0));
    assert_eq!(Cli::try_parse_from(&args_of(&["rsnc", "65535"]), &env).unwrap().port, Some(65535));
    assert_eq!(Cli::try_parse_from(&args_of(&["rsnc", "+443"]), &env).unwrap().port, Some(443));
    assert_eq!(Cli::try_parse_from(&args_of(&["rsnc", "00080"]), &env).unwrap().port, Some(80));
}

#[test]
fn third_value_is_malformed() {
    let env = Environment::new();
    assert_eq!(
        Cli::try_parse_from(&args_of(&["rsnc", "80", "host", "extra"]), &env),
        Err(malformed("extra"))
    );
}

#[test]
fn separator_ends_the_options() {
    let env = Environment::new();
    let cli = Cli::try_parse_from(&args_of(&["rsnc", "-u", "--", "80", "-t"]), &env).unwrap();
    assert!(cli.udp);
    assert!(!cli.tcp);
    assert_eq!(cli.port, Some(80));
    assert_eq!(cli.ipaddr, Some("-t".to_string()));
    let cli = Cli::try_parse_from(&args_of(&["rsnc", "--", "80", "--"]), &env).unwrap();
    assert_eq!(cli.ipaddr, Some("--".to_string()));
}

#[test]
fn lone_dash_and_empty_text_are_values() {
    let env = Environment::new();
    let cli = Cli::try_parse_from(&args_of(&["rsnc", "80", "-"]), &env).unwrap();
    assert_eq!(cli.ipaddr, Some("-".to_string()));
    let cli = Cli::try_parse_from(&args_of(&["rsnc", "80", ""]), &env).unwrap();
    assert_eq!(cli.ipaddr, Some("".to_string()));
}

#[test]
fn environment_fills_what_the_command_line_leaves_out() {
    let mut env = Environment::new();
    env.set("RSNC_UDP".to_string(), "true".to_string());
    env.set("RSNC_KEEP_ACCEPT".to_string(), "true".to_string());
    env.set("RSNC_TCP".to_string(), "false".to_string());
    env.set("RSNC_PORT".to_string(), "7".to_string());
    env.set("RSNC_IPADDR".to_string(), "::1".to_string());
    let cli = Cli::try_parse_from(&args_of(&["rsnc"]), &env).unwrap();
    assert_eq!(
        cli,
        Cli {
            tcp: false,
            udp: true,
            listen: false,
            keep_accept: true,
            port: Some(7),
            ipaddr: Some("::1".to_string()),
        }
    );
}

#[test]
fn command_line_overrides_environment_for_every_option() {
    let mut env = Environment::new();
    env.set("RSNC_TCP".to_string(), "false".to_string());
    env.set("RSNC_UDP".to_string(), "false".to_string());
    env.set("RSNC_LISTEN".to_string(), "false".to_string());
    env.set("RSNC_KEEP_ACCEPT".to_string(), "false".to_string());
    env.set("RSNC_PORT".to_string(), "1".to_string());
    env.set("RSNC_IPADDR".to_string(), "from-env".to_string());
    let cli = Cli::try_parse_from(&args_of(&["rsnc", "-tulk", "2", "from-cli"]), &env).unwrap();
    assert_eq!(
        cli,
        Cli {
            tcp: true,
            udp: true,
            listen: true,
            keep_accept: true,
            port: Some(2),
            ipaddr: Some("from-cli".to_string()),
        }
    );
}

#[test]
fn unreadable_variable_is_ignored_when_the_command_line_gives_the_option() {
    let mut env = Environment::new();
    env.set("RSNC_TCP".to_string(), "maybe".to_string());
    env.set("RSNC_PORT".to_string(), "99999".to_string());
    let cli = Cli::try_parse_from(&args_of(&["rsnc", "-t", "80"]), &env).unwrap();
    assert!(cli.tcp);
    assert_eq!(cli.port, Some(80));
}

#[test]
fn unreadable_variable_is_malformed() {
    let mut env = Environment::new();
    env.set("RSNC_LISTEN".to_string(), "1".to_string());
    assert_eq!(Cli::try_parse_from(&args_of(&["rsnc"]), &env), Err(malformed("RSNC_LISTEN")));
    let mut env = Environment::new();
    env.set("RSNC_PORT".to_string(), "65536".to_string());
    assert_eq!(Cli::try_parse_from(&args_of(&["rsnc"]), &env), Err(malformed("RSNC_PORT")));
    let mut env = Environment::new();
    env.set("RSNC_PORT".to_string(), "abc".to_string());
    env.set("RSNC_UDP".to_string(), "".to_string());
    assert_eq!(Cli::try_parse_from(&args_of(&["rsnc"]), &env), Err(malformed("RSNC_UDP")));
    assert_eq!(Cli::try_parse_from(&args_of(&["rsnc", "-u"]), &env), Err(malformed("RSNC_PORT")));
}

#[test]
fn command_line_offender_comes_before_the_environment() {
    let mut env = Environment::new();
    env.set("RSNC_TCP".to_string(), "maybe".to_string());
    assert_eq!(Cli::try_parse_from(&args_of(&["rsnc", "-q"]), &env), Err(malformed("-q")));
}

#[test]
fn from_command_line_ignores_the_environment() {
    let cli = Cli::from_command_line(&args_of(&["rsnc", "-l", "8080"])).unwrap();
    assert_eq!(
        cli,
        Cli { tcp: false, udp: false, listen: true, keep_accept: false, port: Some(8080), ipaddr: None }
    );
    let mut env = Environment::new();
    env.set("RSNC_IPADDR".to_string(), "10.0.0.1".to_string());
    let cli = cli.with_environment(&env).unwrap();
    assert_eq!(cli.ipaddr, Some("10.0.0.1".to_string()));
    assert_eq!(cli.port, Some(8080));
    assert!(cli.listen);
}

#[test]
fn tokens_are_classified() {
    assert_eq!(Token::of("--"), Token::Separator);
    assert_eq!(Token::of("80"), Token::Value);
    assert_eq!(Token::of(""), Token::Value);
    assert_eq!(Token::of("-"), Token::Value);
    assert_eq!(Token::of("host-name"), Token::Value);
    assert_eq!(
        Token::of("--udp"),
        Token::Flags(FlagSet { tcp: false, udp: true, listen: false, keep_accept: false })
    );
    assert_eq!(
        Token::of("--keep-accept"),
        Token::Flags(FlagSet { tcp: false, udp: false, listen: false, keep_accept: true })
    );
    assert_eq!(
        Token::of("-lt"),
        Token::Flags(FlagSet { tcp: true, udp: false, listen: true, keep_accept: false })
    );
    assert_eq!(Token::of("-tcp"), Token::Unrecognized);
    assert_eq!(Token::of("---"), Token::Unrecognized);
    assert_eq!(Token::of("--TCP"), Token::Unrecognized);
    assert_eq!(Token::of("-T"), Token::Unrecognized);
}

#[test]
fn schema_names_are_fixed() {
    let all = [
        (CliOption::Tcp, Some('t'), Some("tcp"), "RSNC_TCP"),
        (CliOption::Udp, Some('u'), Some("udp"), "RSNC_UDP"),
        (CliOption::Listen, Some('l'), Some("listen"), "RSNC_LISTEN"),
        (CliOption::KeepAccept, Some('k'), Some("keep-accept"), "RSNC_KEEP_ACCEPT"),
        (CliOption::Port, None, None, "RSNC_PORT"),
        (CliOption::Address, None, None, "RSNC_IPADDR"),
    ];
    for (option, short, long, var) in all {
        assert_eq!(option.short_name(), short);
        assert_eq!(option.long_name(), long);
        assert_eq!(option.env_name(), var);
    }
    assert_eq!(FlagSet::empty(), FlagSet { tcp: false, udp: false, listen: false, keep_accept: false });
    assert_eq!(
        FlagSet::single(CliOption::Listen),
        FlagSet { tcp: false, udp: false, listen: true, keep_accept: false }
    );
    assert_eq!(FlagSet::single(CliOption::Port), FlagSet::empty());
}

#[test]
fn error_message_lists_the_offender() {
    assert_eq!(malformed("--bogus").message(), "malformed argument: --bogus");
    assert_eq!(
        ConfigError::MissingTarget.message(),
        "missing target: a port is required, and an address unless listening"
    );
}

#[test]
fn exit_status_is_never_zero() {
    assert_eq!(malformed("-x").exit_status(), 2);
    assert_eq!(ConfigError::MissingTarget.exit_status(), 1);
}
