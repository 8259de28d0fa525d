//! The option schema: the recognised options with their command-line forms,
//! their environment variables and their defaults.
//!
//! | option      | short | long          | variable           | value        |
//! |-------------|-------|---------------|--------------------|--------------|
//! | tcp         | `-t`  | `--tcp`       | `RSNC_TCP`         | flag         |
//! | udp         | `-u`  | `--udp`       | `RSNC_UDP`         | flag         |
//! | listen      | `-l`  | `--listen`    | `RSNC_LISTEN`      | flag         |
//! | keep-accept | `-k`  | `--keep-accept` | `RSNC_KEEP_ACCEPT` | flag       |
//! | port        | first value  | | `RSNC_PORT`        | 16-bit number |
//! | address     | second value | | `RSNC_IPADDR`      | text         |
//!
//! A flag that is absent everywhere is off; a value that is absent everywhere
//! is none.

use vstd::prelude::*;

use crate::port::is_port;
use crate::text::{chars_of, same_text};

verus! {

/// An option of the schema.
#[derive(Debug, Clone, Copy, PartialEq, Eq, Structural)]
pub enum CliOption {
    /// Run over TCP.
    Tcp,
    /// Run over UDP.
    Udp,
    /// Listen instead of connecting.
    Listen,
    /// As a server, go on accepting after a client has left.
    KeepAccept,
    /// The port to connect to or to listen on.
    Port,
    /// The address to connect to.
    Address,
}

impl CliOption {
    /// The option is a flag: it takes no value and is on when it is named.
    pub open spec fn is_flag(self) -> bool {
        self != CliOption::Port && self != CliOption::Address
    }

    /// The character that names a flag in its short form.
    pub open spec fn short(self) -> Option<char> {
        match self {
            CliOption::Tcp => Some('t'),
            CliOption::Udp => Some('u'),
            CliOption::Listen => Some('l'),
            CliOption::KeepAccept => Some('k'),
            CliOption::Port => None,
            CliOption::Address => None,
        }
    }

    /// The word that names a flag in its long form, without the two dashes.
    pub open spec fn long(self) -> Option<Seq<char>> {
        match self {
            CliOption::Tcp => Some("tcp"@),
            CliOption::Udp => Some("udp"@),
            CliOption::Listen => Some("listen"@),
            CliOption::KeepAccept => Some("keep-accept"@),
            CliOption::Port => None,
            CliOption::Address => None,
        }
    }

    /// The name of the environment variable that stands in for the option when
    /// the command line does not give it.
    pub open spec fn env_var(self) -> Seq<char> {
        match self {
            CliOption::Tcp => "RSNC_TCP"@,
            CliOption::Udp => "RSNC_UDP"@,
            CliOption::Listen => "RSNC_LISTEN"@,
            CliOption::KeepAccept => "RSNC_KEEP_ACCEPT"@,
            CliOption::Port => "RSNC_PORT"@,
            CliOption::Address => "RSNC_IPADDR"@,
        }
    }

    /// Whether `text` is a value that the environment variable of the option
    /// may hold: `true` or `false` for a flag, a port number for the port, any
    /// text for the address.
    pub open spec fn accepts(self, text: Seq<char>) -> bool {
        match self {
            CliOption::Port => is_port(text),
            CliOption::Address => true,
            _ => text == "true"@ || text == "false"@,
        }
    }

    /// The name of the environment variable of the option.
    pub fn env_name(self) -> (name: &'static str)
        ensures
            name@ == self.env_var(),
    {
        match self {
            CliOption::Tcp => "RSNC_TCP",
            CliOption::Udp => "RSNC_UDP",
            CliOption::Listen => "RSNC_LISTEN",
            CliOption::KeepAccept => "RSNC_KEEP_ACCEPT",
            CliOption::Port => "RSNC_PORT",
            CliOption::Address => "RSNC_IPADDR",
        }
    }

    /// The short form of a flag.
    pub fn short_name(self) -> (c: Option<char>)
        ensures
            c == self.short(),
    {
        match self {
            CliOption::Tcp => Some('t'),
            CliOption::Udp => Some('u'),
            CliOption::Listen => Some('l'),
            CliOption::KeepAccept => Some('k'),
            CliOption::Port => None,
            CliOption::Address => None,
        }
    }

    /// The long form of a flag, without the two dashes.
    pub fn long_name(self) -> (name: Option<&'static str>)
        ensures
            match name {
                Some(word) => self.long() == Some(word@),
                None => self.long() is None,
            },
    {
        match self {
            CliOption::Tcp => Some("tcp"),
            CliOption::Udp => Some("udp"),
            CliOption::Listen => Some("listen"),
            CliOption::KeepAccept => Some("keep-accept"),
            CliOption::Port => None,
            CliOption::Address => None,
        }
    }
}

/// No two options share an environment variable.
pub proof fn env_vars_are_distinct(a: CliOption, b: CliOption)
    requires
        a != b,
    ensures
        a.env_var() != b.env_var(),
{
    reveal_strlit("RSNC_TCP");
    reveal_strlit("RSNC_UDP");
    reveal_strlit("RSNC_LISTEN");
    reveal_strlit("RSNC_KEEP_ACCEPT");
    reveal_strlit("RSNC_PORT");
    reveal_strlit("RSNC_IPADDR");
    let x = a.env_var();
    let y = b.env_var();
    if x.len() == y.len() {
        assert(x[5] != y[5]);
    }
}

/// The flags that one argument names.
#[derive(Debug, Clone, Copy, PartialEq, Eq, Structural)]
pub struct FlagSet {
    pub tcp: bool,
    pub udp: bool,
    pub listen: bool,
    pub keep_accept: bool,
}

impl FlagSet {
    /// Whether the flag `option` is in the set.
    pub open spec fn has(self, option: CliOption) -> bool {
        match option {
            CliOption::Tcp => self.tcp,
            CliOption::Udp => self.udp,
            CliOption::Listen => self.listen,
            CliOption::KeepAccept => self.keep_accept,
            _ => false,
        }
    }
}

/// What one argument of the command line is, read as an option.
#[derive(Debug, Clone, Copy, PartialEq, Eq, Structural)]
pub enum Token {
    /// `--`: every argument after it is a value.
    Separator,
    /// A value: an argument that does not start with a dash, or a lone dash.
    Value,
    /// One flag in its long form, or one or more flags in their short forms
    /// behind a single dash.
    Flags(FlagSet),
    /// Anything else that starts with a dash.
    Unrecognized,
}

/// `c` is the short form of a flag.
pub open spec fn is_short_flag(c: char) -> bool {
    c == 't' || c == 'u' || c == 'l' || c == 'k'
}

/// `arg` starts with a dash and goes on.
pub open spec fn looks_like_option(arg: Seq<char>) -> bool {
    arg.len() >= 2 && arg[0] == '-'
}

/// `arg` is a single dash followed by short forms of flags only.
pub open spec fn is_cluster(arg: Seq<char>) -> bool {
    looks_like_option(arg) && forall|i: int| 1 <= i < arg.len() ==> is_short_flag(#[trigger] arg[i])
}

/// The flag that `arg` names in its long form.
pub open spec fn long_flag(arg: Seq<char>) -> Option<CliOption> {
    if arg == "--tcp"@ {
        Some(CliOption::Tcp)
    } else if arg == "--udp"@ {
        Some(CliOption::Udp)
    } else if arg == "--listen"@ {
        Some(CliOption::Listen)
    } else if arg == "--keep-accept"@ {
        Some(CliOption::KeepAccept)
    } else {
        None
    }
}

/// `arg`, read as an option, names the flag `option`: in its long form, or in
/// its short form among the letters behind a single dash.
pub open spec fn names(arg: Seq<char>, option: CliOption) -> bool {
    option.is_flag() && (long_flag(arg) == Some(option) || (is_cluster(arg) && arg.contains(
        option.short().unwrap(),
    )))
}

/// What `arg` is, read as an option.
pub open spec fn classify(arg: Seq<char>) -> Token {
    if arg == "--"@ {
        Token::Separator
    } else if !looks_like_option(arg) {
        Token::Value
    } else if long_flag(arg) is Some || is_cluster(arg) {
        Token::Flags(
            FlagSet {
                tcp: names(arg, CliOption::Tcp),
                udp: names(arg, CliOption::Udp),
                listen: names(arg, CliOption::Listen),
                keep_accept: names(arg, CliOption::KeepAccept),
            },
        )
    } else {
        Token::Unrecognized
    }
}

impl FlagSet {
    /// The set that holds no flag.
    pub fn empty() -> (set: FlagSet)
        ensures
            set == (FlagSet { tcp: false, udp: false, listen: false, keep_accept: false }),
    {
        FlagSet { tcp: false, udp: false, listen: false, keep_accept: false }
    }

    /// The set that holds the flag `option` alone; the empty set for an option
    /// that is no flag.
    pub fn single(option: CliOption) -> (set: FlagSet)
        ensures
            set == (FlagSet {
                tcp: option == CliOption::Tcp,
                udp: option == CliOption::Udp,
                listen: option == CliOption::Listen,
                keep_accept: option == CliOption::KeepAccept,
            }),
    {
        FlagSet {
            tcp: matches!(option, CliOption::Tcp),
            udp: matches!(option, CliOption::Udp),
            listen: matches!(option, CliOption::Listen),
            keep_accept: matches!(option, CliOption::KeepAccept),
        }
    }
}

/// The flag that `arg` names in its long form.
pub fn read_long_flag(arg: &str) -> (option: Option<CliOption>)
    ensures
        option == long_flag(arg@),
{
    if same_text(arg, "--tcp") {
        Some(CliOption::Tcp)
    } else if same_text(arg, "--udp") {
        Some(CliOption::Udp)
    } else if same_text(arg, "--listen") {
        Some(CliOption::Listen)
    } else if same_text(arg, "--keep-accept") {
        Some(CliOption::KeepAccept)
    } else {
        None
    }
}

/// A long form is no run of short forms, and names one flag.
proof fn lemma_long_flag_names_one(arg: Seq<char>)
    requires
        long_flag(arg) is Some,
    ensures
        looks_like_option(arg),
        !is_cluster(arg),
        arg != "--"@,
{
    reveal_strlit("--");
    reveal_strlit("--tcp");
    reveal_strlit("--udp");
    reveal_strlit("--listen");
    reveal_strlit("--keep-accept");
    assert(arg[1] == '-');
}

impl Token {
    /// Reads one argument as an option.
    ///
    /// `--` is the separator.  An argument that does not start with a dash, and
    /// a lone dash, is a value.  `--tcp`, `--udp`, `--listen` and
    /// `--keep-accept` name one flag each; a single dash followed by any of the
    /// letters `t`, `u`, `l`, `k` names each flag whose letter occurs.  Every
    /// other argument is unrecognised.
    pub fn of(arg: &str) -> (token: Token)
        ensures
            token == classify(arg@),
    {
        if same_text(arg, "--") {
            return Token::Separator;
        }
        let chars = chars_of(arg);
        if chars.len() < 2 || chars[0] != '-' {
            return Token::Value;
        }
        match read_long_flag(arg) {
            Some(option) => {
                let set = FlagSet::single(option);
                proof {
                    lemma_long_flag_names_one(arg@);
                }
                return Token::Flags(set);
            },
            None => {},
        }
        let mut set = FlagSet::empty();
        let mut i: usize = 1;
        while i < chars.len()
            invariant
                1 <= i <= chars.len(),
                chars@ == arg@,
                looks_like_option(arg@),
                arg@ != "--"@,
                long_flag(arg@) is None,
                forall|j: int| 1 <= j < i ==> is_short_flag(#[trigger] chars@[j]),
                set.tcp == chars@.take(i as int).contains('t'),
                set.udp == chars@.take(i as int).contains('u'),
                set.listen == chars@.take(i as int).contains('l'),
                set.keep_accept == chars@.take(i as int).contains('k'),
            decreases chars.len() - i,
        {
            let c = chars[i];
            proof {
                let before = chars@.take(i as int);
                let after = chars@.take(i + 1);
                assert(after == before.push(c));
                assert forall|x: char| after.contains(x) == (before.contains(x) || x == c) by {
                    if before.contains(x) {
                        let j = choose|j: int| 0 <= j < before.len() && before[j] == x;
                        assert(after[j] == x);
                    }
                    if x == c {
                        assert(after[i as int] == x);
                    }
                }
            }
            if c == 't' {
                set.tcp = true;
            } else if c == 'u' {
                set.udp = true;
            } else if c == 'l' {
                set.listen = true;
            } else if c == 'k' {
                set.keep_accept = true;
            } else {
                assert(!is_short_flag(arg@[i as int]));
                return Token::Unrecognized;
            }
            i += 1;
        }
        assert(chars@.take(i as int) == arg@);
        Token::Flags(set)
    }
}

/// An argument that names a flag is read as flags, and the flag is among them.
pub proof fn lemma_names_is_flag_token(arg: Seq<char>, option: CliOption)
    requires
        names(arg, option),
    ensures
        classify(arg) matches Token::Flags(set) && set.has(option),
{
    if long_flag(arg) is Some {
        lemma_long_flag_names_one(arg);
    } else {
        reveal_strlit("--");
        assert(is_short_flag(arg[1]));
    }
}

/// The long form that `arg` holds is the word of the schema behind two dashes.
pub proof fn long_flag_is_dashed_word(arg: Seq<char>, option: CliOption)
    ensures
        long_flag(arg) == Some(option) <==> option.long() is Some && arg == "--"@
            + option.long().unwrap(),
{
    reveal_strlit("--");
    reveal_strlit("tcp");
    reveal_strlit("udp");
    reveal_strlit("listen");
    reveal_strlit("keep-accept");
    reveal_strlit("--tcp");
    reveal_strlit("--udp");
    reveal_strlit("--listen");
    reveal_strlit("--keep-accept");
    let dashes = "--"@;
    assert("--tcp"@ =~= dashes + "tcp"@);
    assert("--udp"@ =~= dashes + "udp"@);
    assert("--listen"@ =~= dashes + "listen"@);
    assert("--keep-accept"@ =~= dashes + "keep-accept"@);
    if option.long() is Some && arg == dashes + option.long().unwrap() {
        let word = option.long().unwrap();
        assert(arg.len() == 2 + word.len());
        assert(arg[2] == word[0]);
    }
}

} // verus!
