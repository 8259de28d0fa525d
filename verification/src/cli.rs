//! The parsed options, and how the command line and the environment give them.
//!
//! For every option the value comes from the command line if the command line
//! gives one, else from the environment variable of the option if it is set,
//! else from the built-in default.

use vstd::prelude::*;

use crate::environment::Environment;
use crate::error::{result_view, ConfigError, ConfigErrorView};
use crate::port::{is_port, parse_port, port_of};
use crate::schema::{classify, env_vars_are_distinct, names, CliOption, FlagSet, Token};
use crate::text::same_text;

verus! {

/// The options as parsed, before any mode is derived from them.
#[derive(Debug, Clone, PartialEq, Eq)]
pub struct Cli {
    /// TCP was asked for.
    pub tcp: bool,
    /// UDP was asked for.
    pub udp: bool,
    /// The tool listens instead of connecting.
    pub listen: bool,
    /// A server goes on accepting after a client has left.
    pub keep_accept: bool,
    /// The port to connect to or to listen on.
    pub port: Option<u16>,
    /// The address to connect to.
    pub ipaddr: Option<String>,
}

/// Mathematical model of [`Cli`].
pub struct CliView {
    pub tcp: bool,
    pub udp: bool,
    pub listen: bool,
    pub keep_accept: bool,
    pub port: Option<u16>,
    pub ipaddr: Option<Seq<char>>,
}

impl View for Cli {
    type V = CliView;

    open spec fn view(&self) -> CliView {
        CliView {
            tcp: self.tcp,
            udp: self.udp,
            listen: self.listen,
            keep_accept: self.keep_accept,
            port: self.port,
            ipaddr: match self.ipaddr {
                Some(text) => Some(text@),
                None => None,
            },
        }
    }
}

impl CliView {
    /// The built-in defaults: every flag off, no port, no address.
    pub open spec fn defaults() -> CliView {
        CliView {
            tcp: false,
            udp: false,
            listen: false,
            keep_accept: false,
            port: None,
            ipaddr: None,
        }
    }

    /// Whether these options hold a value for `option`: a flag that is on, a
    /// port or an address that is there.
    pub open spec fn supplies(self, option: CliOption) -> bool {
        match option {
            CliOption::Tcp => self.tcp,
            CliOption::Udp => self.udp,
            CliOption::Listen => self.listen,
            CliOption::KeepAccept => self.keep_accept,
            CliOption::Port => self.port is Some,
            CliOption::Address => self.ipaddr is Some,
        }
    }

    /// These options with the flags of `set` switched on.
    pub open spec fn with_flags(self, set: FlagSet) -> CliView {
        CliView {
            tcp: self.tcp || set.tcp,
            udp: self.udp || set.udp,
            listen: self.listen || set.listen,
            keep_accept: self.keep_accept || set.keep_accept,
            ..self
        }
    }
}

/// How far the command line has been read.
pub struct Reading {
    /// What the arguments read so far give.
    pub given: CliView,
    /// The separator `--` has been read: what follows is a value.
    pub escaped: bool,
}

/// The reading after one more argument, or the argument itself where it is
/// malformed.
///
/// Before the separator an argument is read as an option; after it, as a
/// value.  Flags are switched on; a flag may be named again.  The first value
/// is the port and must write a port number, the second is the address, and
/// there is no place for a third.
pub open spec fn read_argument(reading: Reading, arg: Seq<char>) -> Result<Reading, Seq<char>> {
    let token = if reading.escaped {
        Token::Value
    } else {
        classify(arg)
    };
    match token {
        Token::Separator => Ok(Reading { escaped: true, ..reading }),
        Token::Flags(set) => Ok(Reading { given: reading.given.with_flags(set), ..reading }),
        Token::Value => if reading.given.port is None {
            if is_port(arg) {
                Ok(Reading { given: CliView { port: port_of(arg), ..reading.given }, ..reading })
            } else {
                Err(arg)
            }
        } else if reading.given.ipaddr is None {
            Ok(Reading { given: CliView { ipaddr: Some(arg), ..reading.given }, ..reading })
        } else {
            Err(arg)
        },
        Token::Unrecognized => Err(arg),
    }
}

/// The reading after all of `args`, or the first malformed argument.  The
/// first element of `args` is the name of the program and is not read.
pub open spec fn read_arguments(args: Seq<Seq<char>>) -> Result<Reading, Seq<char>>
    decreases args.len(),
{
    if args.len() <= 1 {
        Ok(Reading { given: CliView::defaults(), escaped: false })
    } else {
        match read_arguments(args.drop_last()) {
            Ok(reading) => read_argument(reading, args.last()),
            Err(arg) => Err(arg),
        }
    }
}

/// What the command line alone gives: the flags it names, the port and the
/// address it holds.
pub open spec fn command_line(args: Seq<Seq<char>>) -> Result<CliView, ConfigErrorView> {
    match read_arguments(args) {
        Ok(reading) => Ok(reading.given),
        Err(arg) => Err(ConfigErrorView::MalformedArguments(arg)),
    }
}

/// The environment is asked for `option`: the command line does not give it
/// and its variable is set.
pub open spec fn consulted(
    given: CliView,
    env: Map<Seq<char>, Seq<char>>,
    option: CliOption,
) -> bool {
    !given.supplies(option) && env.contains_key(option.env_var())
}

/// The environment is asked for `option` and holds a value that the option
/// cannot take.
pub open spec fn unreadable(
    given: CliView,
    env: Map<Seq<char>, Seq<char>>,
    option: CliOption,
) -> bool {
    consulted(given, env, option) && !option.accepts(env[option.env_var()])
}

/// The first option, in the order of the schema, whose variable is unreadable.
pub open spec fn env_offender(given: CliView, env: Map<Seq<char>, Seq<char>>) -> Option<
    CliOption,
> {
    if unreadable(given, env, CliOption::Tcp) {
        Some(CliOption::Tcp)
    } else if unreadable(given, env, CliOption::Udp) {
        Some(CliOption::Udp)
    } else if unreadable(given, env, CliOption::Listen) {
        Some(CliOption::Listen)
    } else if unreadable(given, env, CliOption::KeepAccept) {
        Some(CliOption::KeepAccept)
    } else if unreadable(given, env, CliOption::Port) {
        Some(CliOption::Port)
    } else {
        None
    }
}

/// A flag after the environment was asked: on if the command line names it,
/// else on exactly if its variable is set to `true`.
pub open spec fn flag_value(
    given: CliView,
    env: Map<Seq<char>, Seq<char>>,
    option: CliOption,
) -> bool {
    given.supplies(option) || (env.contains_key(option.env_var()) && env[option.env_var()]
        == "true"@)
}

/// The port after the environment was asked.
pub open spec fn port_value(given: CliView, env: Map<Seq<char>, Seq<char>>) -> Option<u16> {
    if given.port is Some {
        given.port
    } else if env.contains_key(CliOption::Port.env_var()) {
        port_of(env[CliOption::Port.env_var()])
    } else {
        None
    }
}

/// The address after the environment was asked.
pub open spec fn address_value(given: CliView, env: Map<Seq<char>, Seq<char>>) -> Option<
    Seq<char>,
> {
    if given.ipaddr is Some {
        given.ipaddr
    } else if env.contains_key(CliOption::Address.env_var()) {
        Some(env[CliOption::Address.env_var()])
    } else {
        None
    }
}

/// The options that the command line gives, completed from the environment:
/// for each option that the command line leaves out, the value of its
/// variable; the name of the first variable that cannot be read is the error.
pub open spec fn with_environment(given: CliView, env: Map<Seq<char>, Seq<char>>) -> Result<
    CliView,
    ConfigErrorView,
> {
    match env_offender(given, env) {
        Some(option) => Err(ConfigErrorView::MalformedArguments(option.env_var())),
        None => Ok(
            CliView {
                tcp: flag_value(given, env, CliOption::Tcp),
                udp: flag_value(given, env, CliOption::Udp),
                listen: flag_value(given, env, CliOption::Listen),
                keep_accept: flag_value(given, env, CliOption::KeepAccept),
                port: port_value(given, env),
                ipaddr: address_value(given, env),
            },
        ),
    }
}

/// The options that the command line `args` and the environment `env` give
/// together.
pub open spec fn parsed(args: Seq<Seq<char>>, env: Map<Seq<char>, Seq<char>>) -> Result<
    CliView,
    ConfigErrorView,
> {
    match command_line(args) {
        Ok(given) => with_environment(given, env),
        Err(error) => Err(error),
    }
}

/// An argument that is malformed stays the error whatever follows it.
pub proof fn lemma_error_stays(args: Seq<Seq<char>>, n: int)
    requires
        0 <= n <= args.len(),
        read_arguments(args.take(n)) is Err,
    ensures
        read_arguments(args) == read_arguments(args.take(n)),
    decreases args.len() - n,
{
    if n == args.len() {
        assert(args.take(n) == args);
    } else {
        assert(args.take(n + 1).drop_last() == args.take(n));
        lemma_error_stays(args, n + 1);
    }
}

/// A command line that is read to its end was read without error up to every
/// argument.
pub proof fn lemma_read_so_far(args: Seq<Seq<char>>, n: int)
    requires
        0 <= n <= args.len(),
        read_arguments(args) is Ok,
    ensures
        read_arguments(args.take(n)) is Ok,
{
    if read_arguments(args.take(n)) is Err {
        lemma_error_stays(args, n);
    }
}

/// Reading one more argument takes nothing back: what was given stays given.
pub proof fn lemma_given_stays_one(reading: Reading, arg: Seq<char>, option: CliOption)
    requires
        reading.given.supplies(option),
        read_argument(reading, arg) is Ok,
    ensures
        read_argument(reading, arg)->Ok_0.given.supplies(option),
        reading.escaped ==> read_argument(reading, arg)->Ok_0.escaped,
{
}

/// What the first `n` arguments give, all of them give.
pub proof fn lemma_given_stays(args: Seq<Seq<char>>, n: int, option: CliOption)
    requires
        0 <= n <= args.len(),
        read_arguments(args) is Ok,
        read_arguments(args.take(n)) matches Ok(reading) && reading.given.supplies(option),
    ensures
        read_arguments(args)->Ok_0.given.supplies(option),
    decreases args.len() - n,
{
    if n == args.len() {
        assert(args.take(n) == args);
    } else {
        lemma_read_so_far(args, n + 1);
        assert(args.take(n + 1).drop_last() == args.take(n));
        if n + 1 > 1 {
            lemma_given_stays_one(read_arguments(args.take(n))->Ok_0, args[n], option);
        }
        lemma_given_stays(args, n + 1, option);
    }
}

/// Until the separator is read, arguments are read as options.
pub proof fn lemma_not_escaped(args: Seq<Seq<char>>, n: int)
    requires
        0 <= n <= args.len(),
        read_arguments(args.take(n)) is Ok,
        forall|j: int| 1 <= j < n ==> args[j] != "--"@,
    ensures
        !read_arguments(args.take(n))->Ok_0.escaped,
    decreases n,
{
    if n > 1 {
        let shorter = args.take(n - 1);
        assert(args.take(n).drop_last() == shorter);
        lemma_not_escaped(args, n - 1);
        assert(args.take(n).last() == args[n - 1]);
    }
}

/// A flag that an argument names before the separator is given: on a command
/// line that is well formed, the flag is on.
pub proof fn named_flag_is_given(args: Seq<Seq<char>>, i: int, option: CliOption)
    requires
        before_separator(args, i),
        names(args[i], option),
        command_line(args) is Ok,
    ensures
        command_line(args)->Ok_0.supplies(option),
{
    lemma_read_so_far(args, i);
    lemma_read_so_far(args, i + 1);
    lemma_not_escaped(args, i);
    assert(args.take(i + 1).drop_last() == args.take(i));
    assert(args.take(i + 1).last() == args[i]);
    crate::schema::lemma_names_is_flag_token(args[i], option);
    lemma_given_stays(args, i + 1, option);
}

/// The argument at `i` is read as an option: it is not the name of the
/// program, and no separator comes before it.
pub open spec fn before_separator(args: Seq<Seq<char>>, i: int) -> bool {
    1 <= i < args.len() && forall|j: int| 1 <= j < i ==> args[j] != "--"@
}

/// As long as arguments are read as options, none of them was the separator.
pub proof fn lemma_no_separator_read(args: Seq<Seq<char>>)
    requires
        read_arguments(args) matches Ok(reading) && !reading.escaped,
    ensures
        forall|j: int| 1 <= j < args.len() ==> args[j] != "--"@,
    decreases args.len(),
{
    if args.len() > 1 {
        let shorter = args.drop_last();
        lemma_no_separator_read(shorter);
        assert forall|j: int| 1 <= j < args.len() implies args[j] != "--"@ by {
            if j < shorter.len() {
                assert(shorter[j] == args[j]);
            }
        }
    }
}

/// A flag that the command line gives is named by an argument that is read as
/// an option.
pub proof fn given_flag_is_named(args: Seq<Seq<char>>, option: CliOption) -> (i: int)
    requires
        option.is_flag(),
        command_line(args) matches Ok(given) && given.supplies(option),
    ensures
        before_separator(args, i),
        names(args[i], option),
    decreases args.len(),
{
    let shorter = args.drop_last();
    assert(shorter == args.take(args.len() - 1));
    lemma_read_so_far(args, args.len() - 1);
    let before = read_arguments(shorter)->Ok_0;
    if before.given.supplies(option) {
        let i = given_flag_is_named(shorter, option);
        assert(shorter[i] == args[i]);
        assert forall|j: int| 1 <= j < i implies args[j] != "--"@ by {
            assert(shorter[j] == args[j]);
        }
        i
    } else {
        lemma_no_separator_read(shorter);
        let i = args.len() - 1;
        assert forall|j: int| 1 <= j < i implies args[j] != "--"@ by {
            assert(shorter[j] == args[j]);
        }
        i
    }
}

/// On a command line that is well formed a flag is on exactly when an
/// argument that is read as an option names it.
pub proof fn flag_is_given_exactly_when_named(args: Seq<Seq<char>>, option: CliOption)
    requires
        option.is_flag(),
        command_line(args) is Ok,
    ensures
        command_line(args)->Ok_0.supplies(option) <==> exists|i: int|
            before_separator(args, i) && names(#[trigger] args[i], option),
{
    if command_line(args)->Ok_0.supplies(option) {
        let i = given_flag_is_named(args, option);
        assert(before_separator(args, i) && names(args[i], option));
    }
    if exists|i: int| before_separator(args, i) && names(#[trigger] args[i], option) {
        let i = choose|i: int| before_separator(args, i) && names(#[trigger] args[i], option);
        named_flag_is_given(args, i, option);
    }
}

/// A flag that no argument names is not given by the command line.
pub proof fn unnamed_flag_is_not_given(args: Seq<Seq<char>>, option: CliOption)
    requires
        option.is_flag(),
        forall|i: int| 1 <= i < args.len() ==> !names(#[trigger] args[i], option),
        command_line(args) is Ok,
    ensures
        !command_line(args)->Ok_0.supplies(option),
{
    flag_is_given_exactly_when_named(args, option);
}

/// What the command line gives, the environment cannot change: for every
/// option that the command line gives, the outcome of parsing is the same
/// whatever value the variable of that option holds, and whether it is set or
/// not; and the parsed options hold the value of the command line.
pub proof fn command_line_overrides_environment(
    args: Seq<Seq<char>>,
    env: Map<Seq<char>, Seq<char>>,
    option: CliOption,
    value: Seq<char>,
)
    requires
        command_line(args) matches Ok(given) && given.supplies(option),
    ensures
        parsed(args, env.insert(option.env_var(), value)) == parsed(args, env),
        parsed(args, env.remove(option.env_var())) == parsed(args, env),
        parsed(args, env) matches Ok(options) ==> {
            &&& options.supplies(option)
            &&& option == CliOption::Port ==> options.port == command_line(args)->Ok_0.port
            &&& option == CliOption::Address ==> options.ipaddr == command_line(args)->Ok_0.ipaddr
        },
{
    let given = command_line(args)->Ok_0;
    let var = option.env_var();
    let set = env.insert(var, value);
    let unset = env.remove(var);
    assert forall|other: CliOption| other != option implies {
        &&& set.contains_key(#[trigger] other.env_var()) == env.contains_key(other.env_var())
        &&& set[other.env_var()] == env[other.env_var()]
        &&& unset.contains_key(other.env_var()) == env.contains_key(other.env_var())
        &&& unset[other.env_var()] == env[other.env_var()]
    } by {
        env_vars_are_distinct(other, option);
    }
    lemma_same_where_asked(given, env, set, option);
    lemma_same_where_asked(given, env, unset, option);
}

/// Two environments that agree on the variable of every option but one give
/// the same options where that one is given by the command line.
proof fn lemma_same_where_asked(
    given: CliView,
    a: Map<Seq<char>, Seq<char>>,
    b: Map<Seq<char>, Seq<char>>,
    option: CliOption,
)
    requires
        given.supplies(option),
        forall|other: CliOption|
            other != option ==> a.contains_key(#[trigger] other.env_var()) == b.contains_key(
                other.env_var(),
            ) && a[other.env_var()] == b[other.env_var()],
    ensures
        with_environment(given, a) == with_environment(given, b),
{
    assert(option == CliOption::Tcp || a.contains_key(CliOption::Tcp.env_var()) == b.contains_key(
        CliOption::Tcp.env_var(),
    ));
    assert(option == CliOption::Udp || a.contains_key(CliOption::Udp.env_var()) == b.contains_key(
        CliOption::Udp.env_var(),
    ));
    assert(option == CliOption::Listen || a.contains_key(CliOption::Listen.env_var())
        == b.contains_key(CliOption::Listen.env_var()));
    assert(option == CliOption::KeepAccept || a.contains_key(CliOption::KeepAccept.env_var())
        == b.contains_key(CliOption::KeepAccept.env_var()));
    assert(option == CliOption::Port || a.contains_key(CliOption::Port.env_var())
        == b.contains_key(CliOption::Port.env_var()));
    assert(option == CliOption::Address || a.contains_key(CliOption::Address.env_var())
        == b.contains_key(CliOption::Address.env_var()));
}

/// Where the port is expected on the command line and the argument writes no
/// port number, parsing fails with `MalformedArguments` on that argument,
/// whatever follows it and whatever the environment holds.
pub proof fn malformed_port_argument_is_rejected(
    args: Seq<Seq<char>>,
    i: int,
    env: Map<Seq<char>, Seq<char>>,
)
    requires
        1 <= i < args.len(),
        read_arguments(args.take(i)) matches Ok(reading) && reading.given.port is None && (
        reading.escaped || classify(args[i]) == Token::Value),
        !is_port(args[i]),
    ensures
        parsed(args, env) == Err::<CliView, ConfigErrorView>(
            ConfigErrorView::MalformedArguments(args[i]),
        ),
{
    assert(args.take(i + 1).drop_last() == args.take(i));
    assert(args.take(i + 1).last() == args[i]);
    lemma_error_stays(args, i + 1);
}

/// The first argument after the name of the program, where it is a value, is
/// the port: if it writes no port number, parsing fails on it.
pub proof fn malformed_first_value_is_rejected(args: Seq<Seq<char>>, env: Map<Seq<char>, Seq<char>>)
    requires
        args.len() >= 2,
        classify(args[1]) == Token::Value,
        !is_port(args[1]),
    ensures
        parsed(args, env) == Err::<CliView, ConfigErrorView>(
            ConfigErrorView::MalformedArguments(args[1]),
        ),
{
    assert(args.take(1).len() == 1);
    malformed_port_argument_is_rejected(args, 1, env);
}

/// Where the command line gives no port and `RSNC_PORT` writes no port number,
/// parsing fails with `MalformedArguments`.
pub proof fn malformed_port_variable_is_rejected(
    args: Seq<Seq<char>>,
    env: Map<Seq<char>, Seq<char>>,
)
    requires
        command_line(args) matches Ok(given) && given.port is None,
        env.contains_key(CliOption::Port.env_var()),
        !is_port(env[CliOption::Port.env_var()]),
    ensures
        parsed(args, env) matches Err(ConfigErrorView::MalformedArguments(_)),
{
}

/// The port of the parsed options is the number that was written, on the
/// command line or in `RSNC_PORT`: it is never cut to fit.
pub proof fn parsed_port_is_exact(given: CliView, env: Map<Seq<char>, Seq<char>>)
    requires
        given.port is None,
        with_environment(given, env) matches Ok(options) && options.port is Some,
    ensures
        env.contains_key(CliOption::Port.env_var()),
        with_environment(given, env)->Ok_0.port->Some_0 as nat == crate::port::decimal_value(
            crate::port::unsigned_part(env[CliOption::Port.env_var()]),
        ),
{
}

impl Default for Cli {
    /// The built-in defaults: every flag off, no port, no address.
    fn default() -> (cli: Cli)
        ensures
            cli@ == CliView::defaults(),
    {
        Cli { tcp: false, udp: false, listen: false, keep_accept: false, port: None, ipaddr: None }
    }
}

/// A flag from the environment: on for `true`, off for `false` and where the
/// variable is not set; any other value is malformed.
fn flag_from_env(given: bool, env: &Environment, option: CliOption) -> (r: Result<
    bool,
    ConfigError,
>)
    requires
        option.is_flag(),
    ensures
        match r {
            Ok(on) => (given || !env@.contains_key(option.env_var()) || option.accepts(
                env@[option.env_var()],
            )) && on == (given || (env@.contains_key(option.env_var()) && env@[option.env_var()]
                == "true"@)),
            Err(error) => !given && env@.contains_key(option.env_var()) && !option.accepts(
                env@[option.env_var()],
            ) && error@ == ConfigErrorView::MalformedArguments(option.env_var()),
        },
{
    if given {
        return Ok(true);
    }
    match env.get(option.env_name()) {
        None => Ok(false),
        Some(text) => {
            if same_text(text.as_str(), "true") {
                Ok(true)
            } else if same_text(text.as_str(), "false") {
                proof {
                    reveal_strlit("true");
                    reveal_strlit("false");
                }
                Ok(false)
            } else {
                Err(ConfigError::MalformedArguments(option.env_name().to_owned()))
            }
        },
    }
}

impl Cli {
    /// Reads the command line alone.
    ///
    /// `args[0]` is the name of the program.  Every other argument is read in
    /// order.  `--` ends the options: what follows is a value even if it starts
    /// with a dash.  Before it, `-t`/`--tcp`, `-u`/`--udp`, `-l`/`--listen` and
    /// `-k`/`--keep-accept` switch a flag on, short forms may share one dash,
    /// and an argument that does not start with a dash is a value.  The first
    /// value is the port, the second the address.
    ///
    /// Fails with `MalformedArguments`, holding the first offending argument,
    /// on a flag that the schema does not know, on a port that is no unsigned
    /// 16-bit number, and on a third value.
    pub fn from_command_line(args: &Vec<String>) -> (r: Result<Cli, ConfigError>)
        ensures
            result_view(r) == command_line(args.deep_view()),
    {
        let ghost all = args.deep_view();
        let mut cli = Cli::default();
        let mut escaped = false;
        if args.len() <= 1 {
            return Ok(cli);
        }
        let mut i: usize = 1;
        assert(all.take(1).len() == 1);
        while i < args.len()
            invariant
                1 <= i <= args.len(),
                all == args.deep_view(),
                read_arguments(all.take(i as int)) == Ok::<Reading, Seq<char>>(
                    Reading { given: cli@, escaped },
                ),
            decreases args.len() - i,
        {
            let arg = &args[i];
            proof {
                assert(all.take(i + 1).drop_last() == all.take(i as int));
                assert(all.take(i + 1).last() == arg@);
            }
            let token = if escaped {
                Token::Value
            } else {
                Token::of(arg.as_str())
            };
            let mut malformed = false;
            match token {
                Token::Separator => {
                    escaped = true;
                },
                Token::Flags(set) => {
                    cli.tcp = cli.tcp || set.tcp;
                    cli.udp = cli.udp || set.udp;
                    cli.listen = cli.listen || set.listen;
                    cli.keep_accept = cli.keep_accept || set.keep_accept;
                },
                Token::Value => {
                    if cli.port.is_none() {
                        match parse_port(arg.as_str()) {
                            Some(port) => {
                                cli.port = Some(port);
                            },
                            None => {
                                malformed = true;
                            },
                        }
                    } else if cli.ipaddr.is_none() {
                        cli.ipaddr = Some(arg.clone());
                    } else {
                        malformed = true;
                    }
                },
                Token::Unrecognized => {
                    malformed = true;
                },
            }
            if malformed {
                proof {
                    lemma_error_stays(all, i + 1);
                }
                return Err(ConfigError::MalformedArguments(arg.clone()));
            }
            i += 1;
        }
        assert(all.take(i as int) == all);
        Ok(cli)
    }

    /// Completes the options that the command line gave from the environment.
    ///
    /// An option that `self` holds keeps its value.  A flag that is off takes
    /// the value of its variable: `true` or `false`.  A missing port takes the
    /// port number that `RSNC_PORT` writes, a missing address the text of
    /// `RSNC_IPADDR`.  A variable that is not set leaves the default.
    ///
    /// Fails with `MalformedArguments`, holding the name of the variable, on
    /// the first variable in the order of the schema that is asked and holds
    /// anything else.
    pub fn with_environment(self, env: &Environment) -> (r: Result<Cli, ConfigError>)
        ensures
            result_view(r) == with_environment(self@, env@),
    {
        let tcp = match flag_from_env(self.tcp, env, CliOption::Tcp) {
            Ok(on) => on,
            Err(error) => {
                return Err(error);
            },
        };
        let udp = match flag_from_env(self.udp, env, CliOption::Udp) {
            Ok(on) => on,
            Err(error) => {
                return Err(error);
            },
        };
        let listen = match flag_from_env(self.listen, env, CliOption::Listen) {
            Ok(on) => on,
            Err(error) => {
                return Err(error);
            },
        };
        let keep_accept = match flag_from_env(self.keep_accept, env, CliOption::KeepAccept) {
            Ok(on) => on,
            Err(error) => {
                return Err(error);
            },
        };
        let port = match self.port {
            Some(port) => Some(port),
            None => match env.get(CliOption::Port.env_name()) {
                None => None,
                Some(text) => match parse_port(text.as_str()) {
                    Some(port) => Some(port),
                    None => {
                        return Err(
                            ConfigError::MalformedArguments(CliOption::Port.env_name().to_owned()),
                        );
                    },
                },
            },
        };
        let ipaddr = match self.ipaddr {
            Some(text) => Some(text),
            None => match env.get(CliOption::Address.env_name()) {
                None => None,
                Some(text) => Some(text.clone()),
            },
        };
        Ok(Cli { tcp, udp, listen, keep_accept, port, ipaddr })
    }

    /// Parses the command line `args` against the option schema, with `env` as
    /// the environment.
    ///
    /// For every option the command line wins over the environment variable,
    /// which wins over the default.  Fails with `MalformedArguments` exactly
    /// when the command line is malformed (see [`Cli::from_command_line`]) or a
    /// variable that is asked cannot be read (see [`Cli::with_environment`]);
    /// the error holds the first offender, the command line before the
    /// environment.
    pub fn try_parse_from(args: &Vec<String>, env: &Environment) -> (r: Result<Cli, ConfigError>)
        ensures
            result_view(r) == parsed(args.deep_view(), env@),
    {
        match Cli::from_command_line(args) {
            Ok(given) => given.with_environment(env),
            Err(error) => Err(error),
        }
    }
}

} // verus!
