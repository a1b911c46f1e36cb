use rusty_proxy::config::{
    get_arg_value, get_number, get_port, get_status, parse_decimal, Config,
    DEFAULT_HANDLING_TIMEOUT, DEFAULT_MAX_CONNECTIONS, DEFAULT_PEEK_TIMEOUT, DEFAULT_PORT,
};

fn args(list: &[&str]) -> Vec<String> {
    list.iter().map(|s| s.to_string()).collect()
}

#[test]
fn option_value_follows_its_name() {
    let a = args(&["proxy", "--port", "8080", "--status", "OK"]);
    assert_eq!(get_arg_value(&a, "--port", "80"), "8080");
    assert_eq!(get_arg_value(&a, "--status", "x"), "OK");
    assert_eq!(get_arg_value(&a, "--missing", "fallback"), "fallback");
}

#[test]
fn the_program_name_is_no_option() {
    let a = args(&["--port", "8080"]);
    assert_eq!(get_arg_value(&a, "--port", "80"), "80");
    let b = args(&["--status", "--status", "yes"]);
    assert_eq!(get_arg_value(&b, "--status", "no"), "yes");
}

#[test]
fn an_option_at_the_end_has_no_value() {
    let a = args(&["proxy", "--port"]);
    assert_eq!(get_arg_value(&a, "--port", "80"), "80");
    let b = args(&["proxy", "--port", "1", "--port"]);
    assert_eq!(get_arg_value(&b, "--port", "80"), "1");
}

#[test]
fn the_first_occurrence_counts() {
    let a = args(&["proxy", "--port", "1", "--port", "2"]);
    assert_eq!(get_arg_value(&a, "--port", "80"), "1");
}

#[test]
fn a_value_may_look_like_an_option() {
    let a = args(&["proxy", "--status", "--port", "9"]);
    assert_eq!(get_arg_value(&a, "--status", "x"), "--port");
    assert_eq!(get_arg_value(&a, "--port", "80"), "9");
}

#[test]
fn no_arguments_give_the_defaults() {
    assert_eq!(get_arg_value(&args(&[]), "--port", "80"), "80");
    assert_eq!(get_port(&args(&[])), 80);
    assert_eq!(get_port(&args(&["proxy"])), 80);
    assert_eq!(get_status(&args(&["proxy"])), "@RustyManager");
}

#[test]
fn port_is_read_as_a_number() {
    assert_eq!(get_port(&args(&["proxy", "--port", "8080"])), 8080);
    assert_eq!(get_port(&args(&["proxy", "--port", "0"])), 0);
    assert_eq!(get_port(&args(&["proxy", "--port", "65535"])), 65535);
    assert_eq!(get_port(&args(&["proxy", "--port", "+443"])), 443);
    assert_eq!(get_port(&args(&["proxy", "--port", "00022"])), 22);
}

#[test]
fn a_port_that_is_no_port_gives_the_default() {
    for bad in ["65536", "99999999999999999999", "-1", "", "+", "12a", " 80", "80 ", "0x50", "٣"] {
        assert_eq!(get_port(&args(&["proxy", "--port", bad])), 80, "{:?}", bad);
    }
}

#[test]
fn status_is_taken_verbatim() {
    assert_eq!(get_status(&args(&["proxy", "--status", "Hello World"])), "Hello World");
    assert_eq!(get_status(&args(&["proxy", "--status", ""])), "");
}

#[test]
fn decimal_numbers() {
    assert_eq!(parse_decimal(b"0", 10), Some(0));
    assert_eq!(parse_decimal(b"10", 10), Some(10));
    assert_eq!(parse_decimal(b"11", 10), None);
    assert_eq!(parse_decimal(b"+7", 10), Some(7));
    assert_eq!(parse_decimal(b"++7", 10), None);
    assert_eq!(parse_decimal(b"-7", 10), None);
    assert_eq!(parse_decimal(b"", 10), None);
    assert_eq!(parse_decimal(b"18446744073709551615", u64::MAX), Some(u64::MAX));
    assert_eq!(parse_decimal(b"18446744073709551616", u64::MAX), None);
    assert_eq!(parse_decimal(b"000000000000000000000000000005", 5), Some(5));
    assert_eq!(parse_decimal(b"1", 0), None);
    assert_eq!(parse_decimal(b"0", 0), Some(0));
}

#[test]
fn numbers_fall_back_to_their_default() {
    let a = args(&["proxy", "--max-conn", "many", "--peek-timeout", "3"]);
    assert_eq!(get_number(&a, "--max-conn", 1000, 5000), 1000);
    assert_eq!(get_number(&a, "--peek-timeout", 1, 60), 3);
    assert_eq!(get_number(&a, "--client-timeout", 30, 60), 30);
    let b = args(&["proxy", "--peek-timeout", "61"]);
    assert_eq!(get_number(&b, "--peek-timeout", 1, 60), 1);
}

#[test]
fn default_configuration() {
    let c = Config::new();
    assert_eq!(c.listen_port, 80);
    assert_eq!(c.listen_port, DEFAULT_PORT);
    assert_eq!(c.disguise_status, "@RustyManager");
    assert_eq!(c.ssh_backend, "127.0.0.1:22");
    assert_eq!(c.http_backend, "127.0.0.1:8080");
    assert_eq!(c.openvpn_backend, "127.0.0.1:1194");
    assert_eq!(c.websocket_backend, "127.0.0.1:8080");
    assert_eq!(c.peek_timeout, 1);
    assert_eq!(c.peek_timeout, DEFAULT_PEEK_TIMEOUT);
    assert_eq!(c.handling_timeout, 30);
    assert_eq!(c.handling_timeout, DEFAULT_HANDLING_TIMEOUT);
    assert_eq!(c.max_connections, 1000);
    assert_eq!(c.max_connections, DEFAULT_MAX_CONNECTIONS);
    assert_eq!(Config::from_args(&args(&["proxy"])), c);
}

#[test]
fn configuration_from_arguments() {
    let a = args(&[
        "proxy",
        "--port",
        "2222",
        "--status",
        "Switching",
        "--ssh-target",
        "10.0.0.1:22",
        "--openvpn-target",
        "10.0.0.2:1194",
        "--http-target",
        "10.0.0.3:80",
        "--ws-target",
        "10.0.0.4:9000",
        "--peek-timeout",
        "2",
        "--client-timeout",
        "45",
        "--max-conn",
        "7",
    ]);
    let c = Config::from_args(&a);
    assert_eq!(c.listen_port, 2222);
    assert_eq!(c.disguise_status, "Switching");
    assert_eq!(c.ssh_backend, "10.0.0.1:22");
    assert_eq!(c.openvpn_backend, "10.0.0.2:1194");
    assert_eq!(c.http_backend, "10.0.0.3:80");
    assert_eq!(c.websocket_backend, "10.0.0.4:9000");
    assert_eq!(c.peek_timeout, 2);
    assert_eq!(c.handling_timeout, 45);
    assert_eq!(c.max_connections, 7);
}

#[test]
fn websocket_backend_follows_the_http_backend() {
    let c = Config::from_args(&args(&["proxy", "--http-target", "10.0.0.3:80"]));
    assert_eq!(c.websocket_backend, "10.0.0.3:80");
}

#[test]
fn a_connection_limit_beyond_its_range_gives_the_default() {
    let c = Config::from_args(&args(&["proxy", "--max-conn", "4294967296"]));
    assert_eq!(c.max_connections, 1000);
    let d = Config::from_args(&args(&["proxy", "--max-conn", "4294967295"]));
    assert_eq!(d.max_connections, u32::MAX);
}
