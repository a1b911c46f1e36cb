//! The settings of a proxy and how they are read from its arguments.
//!
//! An option is followed by its value: `--port 8080`. The first occurrence
//! that has a value counts. A number that does not parse, or that is too
//! large for its setting, gives the default of that setting.

use crate::ascii::is_digit;
use vstd::prelude::*;
use vstd::slice::slice_subrange;
use vstd::string::*;
use vstd::utf8::encode_utf8;

verus! {

/// The port to listen on unless told otherwise.
pub const DEFAULT_PORT: u16 = 80;

/// The seconds to wait for the first bytes of a client.
pub const DEFAULT_PEEK_TIMEOUT: u64 = 1;

/// The seconds that a connection may take in all.
pub const DEFAULT_HANDLING_TIMEOUT: u64 = 30;

/// The number of connections that are served at a time.
pub const DEFAULT_MAX_CONNECTIONS: u32 = 1000;

/// What a proxy is started with. It is built once and never changed.
#[derive(Clone, Debug, PartialEq, Eq)]
pub struct Config {
    /// The port to listen on.
    pub listen_port: u16,
    /// The status text of the disguise lines.
    pub disguise_status: String,
    /// Where SSH connections go, as `host:port`.
    pub ssh_backend: String,
    /// Where plain HTTP requests go.
    pub http_backend: String,
    /// Where OpenVPN connections go, and what was not recognised.
    pub openvpn_backend: String,
    /// Where WebSocket upgrades go.
    pub websocket_backend: String,
    /// How many seconds to wait for the first bytes of a client.
    pub peek_timeout: u64,
    /// How many seconds a connection may take in all.
    pub handling_timeout: u64,
    /// How many connections are served at a time.
    pub max_connections: u32,
}

/// The texts of a list of arguments.
pub open spec fn texts(args: Seq<String>) -> Seq<Seq<char>> {
    Seq::new(args.len(), |i: int| args[i]@)
}

/// The value of the option `name`: the argument after the first one at or
/// after `from` that is `name` and has an argument after it; `default` where
/// there is none.
pub open spec fn arg_value(
    args: Seq<Seq<char>>,
    name: Seq<char>,
    default: Seq<char>,
    from: int,
) -> Seq<char>
    decreases args.len() - from,
{
    if from < 0 || from >= args.len() {
        default
    } else if args[from] == name && from + 1 < args.len() {
        args[from + 1]
    } else {
        arg_value(args, name, default, from + 1)
    }
}

/// Whether every byte is a decimal digit.
pub open spec fn all_digits(d: Seq<u8>) -> bool {
    forall|i: int| 0 <= i < d.len() ==> is_digit(#[trigger] d[i])
}

/// The number that a string of decimal digits stands for.
pub open spec fn digits_value(d: Seq<u8>) -> nat
    decreases d.len(),
{
    if d.len() == 0 {
        0
    } else {
        digits_value(d.drop_last()) * 10 + (d.last() - 0x30) as nat
    }
}

/// `text` without a plus sign at its front.
pub open spec fn unsigned(text: Seq<u8>) -> Seq<u8> {
    if text.len() > 0 && text[0] == 0x2b {
        text.subrange(1, text.len() as int)
    } else {
        text
    }
}

/// The number that `text` stands for: an optional plus sign and at least one
/// decimal digit, nothing else, and a value of at most `max`.
pub open spec fn decimal(text: Seq<u8>, max: nat) -> Option<nat> {
    let d = unsigned(text);
    if d.len() > 0 && all_digits(d) && digits_value(d) <= max {
        Some(digits_value(d))
    } else {
        None
    }
}

/// The number that the option `name` gives, or `default`.
pub open spec fn number_of(args: Seq<Seq<char>>, name: Seq<char>, default: nat, max: nat) -> nat {
    match decimal(encode_utf8(arg_value(args, name, Seq::empty(), 1)), max) {
        Some(v) => v,
        None => default,
    }
}

/// The port that the arguments ask for.
pub open spec fn port_of(args: Seq<Seq<char>>) -> nat {
    number_of(args, "--port"@, DEFAULT_PORT as nat, 0xffff)
}

/// The status text that the arguments ask for.
pub open spec fn status_of(args: Seq<Seq<char>>) -> Seq<char> {
    arg_value(args, "--status"@, "@RustyManager"@, 1)
}

/// A longer string of digits stands for no smaller a number.
pub proof fn lemma_digits_value_grows(d: Seq<u8>, i: int)
    requires
        0 <= i <= d.len(),
    ensures
        digits_value(d.subrange(0, i)) <= digits_value(d),
    decreases d.len(),
{
    if i < d.len() {
        assert(d.drop_last().subrange(0, i) =~= d.subrange(0, i));
        lemma_digits_value_grows(d.drop_last(), i);
    } else {
        assert(d.subrange(0, i) =~= d);
    }
}

/// Looks up the value of the option `arg_name` among the arguments of a
/// program, the first of which is the program's own name.
pub fn get_arg_value(args: &Vec<String>, arg_name: &str, default_value: &str) -> (r: String)
    ensures
        r@ == arg_value(texts(args@), arg_name@, default_value@, 1),
{
    let name = String::from_str(arg_name);
    let n = args.len();
    let mut i: usize = 1;
    while i < n
        invariant
            1 <= i,
            n == args@.len(),
            name@ == arg_name@,
            arg_value(texts(args@), arg_name@, default_value@, 1) == arg_value(
                texts(args@),
                arg_name@,
                default_value@,
                i as int,
            ),
        decreases n - i,
    {
        if args[i] == name && i + 1 < n {
            return args[i + 1].clone();
        }
        i += 1;
    }
    String::from_str(default_value)
}

/// Reads a decimal number of at most `max`.
pub fn parse_decimal(text: &[u8], max: u64) -> (r: Option<u64>)
    ensures
        r is Some == decimal(text@, max as nat) is Some,
        r matches Some(v) ==> decimal(text@, max as nat) == Some(v as nat),
{
    let d = if text.len() > 0 && text[0] == 0x2b {
        slice_subrange(text, 1, text.len())
    } else {
        text
    };
    if d.len() == 0 {
        return None;
    }
    let mut acc: u64 = 0;
    let mut i: usize = 0;
    assert(d@.subrange(0, 0) =~= Seq::<u8>::empty());
    while i < d.len()
        invariant
            i <= d.len(),
            d@ == unsigned(text@),
            d@.len() > 0,
            acc <= max,
            acc == digits_value(d@.subrange(0, i as int)),
            all_digits(d@.subrange(0, i as int)),
        decreases d.len() - i,
    {
        let b = d[i];
        if b < 0x30 || b > 0x39 {
            assert(!is_digit(d@[i as int]));
            return None;
        }
        let v: u64 = (b - 0x30) as u64;
        proof {
            let next = d@.subrange(0, i + 1);
            assert(next.drop_last() =~= d@.subrange(0, i as int));
            assert(next.last() == b);
            assert(digits_value(next) == acc * 10 + v);
            assert(all_digits(next)) by {
                assert forall|k: int| 0 <= k < next.len() implies is_digit(#[trigger] next[k]) by {
                    if k < i {
                        assert(d@.subrange(0, i as int)[k] == next[k]);
                    }
                }
            }
            lemma_digits_value_grows(d@, i + 1);
        }
        if v > max || acc > (max - v) / 10 {
            return None;
        }
        acc = acc * 10 + v;
        i += 1;
    }
    assert(d@.subrange(0, d@.len() as int) =~= d@);
    Some(acc)
}

/// The number that the option `name` gives, or `default` where it is
/// missing, malformed or above `max`.
pub fn get_number(args: &Vec<String>, name: &str, default: u64, max: u64) -> (r: u64)
    ensures
        r == number_of(texts(args@), name@, default as nat, max as nat),
{
    let value = get_arg_value(args, name, "");
    proof {
        reveal_strlit("");
        assert(""@ =~= Seq::<char>::empty());
    }
    match parse_decimal(value.as_str().as_bytes(), max) {
        Some(v) => v,
        None => default,
    }
}

/// The port to listen on: the value of `--port`, or 80.
pub fn get_port(args: &Vec<String>) -> (r: u16)
    ensures
        r == port_of(texts(args@)),
{
    get_number(args, "--port", DEFAULT_PORT as u64, 0xffff) as u16
}

/// The status text of the disguise: the value of `--status`, or
/// `@RustyManager`.
pub fn get_status(args: &Vec<String>) -> (r: String)
    ensures
        r@ == status_of(texts(args@)),
{
    get_arg_value(args, "--status", "@RustyManager")
}

impl Config {
    /// The settings of a proxy that is started without arguments.
    pub fn new() -> (c: Config)
        ensures
            c.listen_port == DEFAULT_PORT,
            c.disguise_status@ == "@RustyManager"@,
            c.ssh_backend@ == "127.0.0.1:22"@,
            c.http_backend@ == "127.0.0.1:8080"@,
            c.openvpn_backend@ == "127.0.0.1:1194"@,
            c.websocket_backend@ == "127.0.0.1:8080"@,
            c.peek_timeout == DEFAULT_PEEK_TIMEOUT,
            c.handling_timeout == DEFAULT_HANDLING_TIMEOUT,
            c.max_connections == DEFAULT_MAX_CONNECTIONS,
    {
        Config {
            listen_port: DEFAULT_PORT,
            disguise_status: String::from_str("@RustyManager"),
            ssh_backend: String::from_str("127.0.0.1:22"),
            http_backend: String::from_str("127.0.0.1:8080"),
            openvpn_backend: String::from_str("127.0.0.1:1194"),
            websocket_backend: String::from_str("127.0.0.1:8080"),
            peek_timeout: DEFAULT_PEEK_TIMEOUT,
            handling_timeout: DEFAULT_HANDLING_TIMEOUT,
            max_connections: DEFAULT_MAX_CONNECTIONS,
        }
    }

    /// The settings that the arguments of a program ask for. A WebSocket
    /// upgrade goes where HTTP goes unless `--ws-target` says otherwise.
    pub fn from_args(args: &Vec<String>) -> (c: Config)
        ensures
            c.listen_port == port_of(texts(args@)),
            c.disguise_status@ == status_of(texts(args@)),
            c.ssh_backend@ == arg_value(texts(args@), "--ssh-target"@, "127.0.0.1:22"@, 1),
            c.http_backend@ == arg_value(texts(args@), "--http-target"@, "127.0.0.1:8080"@, 1),
            c.openvpn_backend@ == arg_value(
                texts(args@),
                "--openvpn-target"@,
                "127.0.0.1:1194"@,
                1,
            ),
            c.websocket_backend@ == arg_value(texts(args@), "--ws-target"@, c.http_backend@, 1),
            c.peek_timeout == number_of(
                texts(args@),
                "--peek-timeout"@,
                DEFAULT_PEEK_TIMEOUT as nat,
                u64::MAX as nat,
            ),
            c.handling_timeout == number_of(
                texts(args@),
                "--client-timeout"@,
                DEFAULT_HANDLING_TIMEOUT as nat,
                u64::MAX as nat,
            ),
            c.max_connections == number_of(
                texts(args@),
                "--max-conn"@,
                DEFAULT_MAX_CONNECTIONS as nat,
                u32::MAX as nat,
            ),
    {
        let http_backend = get_arg_value(args, "--http-target", "127.0.0.1:8080");
        let websocket_backend = get_arg_value(args, "--ws-target", http_backend.as_str());
        Config {
            listen_port: get_port(args),
            disguise_status: get_status(args),
            ssh_backend: get_arg_value(args, "--ssh-target", "127.0.0.1:22"),
            http_backend,
            openvpn_backend: get_arg_value(args, "--openvpn-target", "127.0.0.1:1194"),
            websocket_backend,
            peek_timeout: get_number(args, "--peek-timeout", DEFAULT_PEEK_TIMEOUT, u64::MAX),
            handling_timeout: get_number(
                args,
                "--client-timeout",
                DEFAULT_HANDLING_TIMEOUT,
                u64::MAX,
            ),
            max_connections: get_number(
                args,
                "--max-conn",
                DEFAULT_MAX_CONNECTIONS as u64,
                u32::MAX as u64,
            ) as u32,
        }
    }
}

} // verus!
