//! Command-line parsing for `miniboard-ipd`, and the arguments an installed
//! service is started with.

use vstd::prelude::*;

use crate::host::decimal::{dec_u64, parse_u64, parse_u64_spec, u64_to_string};
use crate::host::ipv4::Ipv4Addr;
use crate::host::qr_display::{qr_render_result, validate_template};
use crate::text::{chars_of, contains_text, push_str, str_contains, str_eq, string_of};

verus! {

/// What to run.
#[derive(Debug, Clone, PartialEq, Eq)]
pub enum Command {
    Run(RunOptions),
    Install(RunOptions),
    Uninstall,
    Status,
    Version,
    Help,
}

/// Options of `run` and `install`.
#[derive(Debug, Clone, PartialEq, Eq)]
pub struct RunOptions {
    pub interface: Option<String>,
    pub dhcp_fail_delay_secs: u64,
    pub debug: bool,
    pub show: DisplayMode,
}

/// How a found IP is shown.
#[derive(Debug, Clone, PartialEq, Eq)]
pub enum DisplayMode {
    Text,
    Qr { template: String },
}

/// A command-line error with its message.
#[derive(Debug, Clone, PartialEq, Eq)]
pub struct CliError(pub String);

impl CliError {
    /// The message.
    pub fn to_string(&self) -> (r: String)
        ensures
            r@ == self.0@,
    {
        crate::text::string_of(self.0.as_str())
    }
}

pub ghost enum ShowView {
    Text,
    Qr(Seq<char>),
}

pub ghost struct OptionsView {
    pub interface: Option<Seq<char>>,
    pub delay: u64,
    pub debug: bool,
    pub show: ShowView,
}

pub ghost enum CommandView {
    Run(OptionsView),
    Install(OptionsView),
    Uninstall,
    Status,
    Version,
    Help,
}

impl View for DisplayMode {
    type V = ShowView;

    open spec fn view(&self) -> ShowView {
        match self {
            DisplayMode::Text => ShowView::Text,
            DisplayMode::Qr { template } => ShowView::Qr(template@),
        }
    }
}

impl View for RunOptions {
    type V = OptionsView;

    open spec fn view(&self) -> OptionsView {
        OptionsView {
            interface: match self.interface {
                Some(s) => Some(s@),
                None => None,
            },
            delay: self.dhcp_fail_delay_secs,
            debug: self.debug,
            show: self.show@,
        }
    }
}

impl View for Command {
    type V = CommandView;

    open spec fn view(&self) -> CommandView {
        match self {
            Command::Run(o) => CommandView::Run(o@),
            Command::Install(o) => CommandView::Install(o@),
            Command::Uninstall => CommandView::Uninstall,
            Command::Status => CommandView::Status,
            Command::Version => CommandView::Version,
            Command::Help => CommandView::Help,
        }
    }
}

pub const DEFAULT_QR_TEMPLATE: &'static str = "http://{ip}/";

pub const DEFAULT_DHCP_FAIL_DELAY_SECS: u64 = 45;

/// The package version the daemon reports.
pub const VERSION: &'static str = "0.1.6";

/// `format!("{:?}", s)`: the quoted, escaped form of a string.
pub uninterp spec fn debug_text(s: Seq<char>) -> Seq<char>;

/// `<str as Debug>::fmt` through `format!`; claimed to give `debug_text` of the text.
#[verifier::external_body]
fn debug_quoted(s: &str) -> (r: String)
    ensures
        r@ == debug_text(s@),
{
    format!("{:?}", s)
}

/// A byte allowed in a Linux interface name passed to the service.
pub open spec fn iface_char_ok(c: char) -> bool {
    ||| ('A' <= c && c <= 'Z')
    ||| ('a' <= c && c <= 'z')
    ||| ('0' <= c && c <= '9')
    ||| c == '_'
    ||| c == '-'
    ||| c == '.'
    ||| c == '@'
}

/// A non-empty name under 16 bytes, not `.` or `..`, made of the allowed
/// ASCII characters (so bytes and characters coincide).
pub open spec fn valid_iface(v: Seq<char>) -> bool {
    &&& v.len() > 0
    &&& v != "."@
    &&& v != ".."@
    &&& v.len() < 16
    &&& forall|i: int| 0 <= i < v.len() ==> iface_char_ok(#[trigger] v[i])
}

pub fn is_valid_linux_interface_name(value: &str) -> (r: bool)
    ensures
        r == valid_iface(value@),
{
    let c = chars_of(value);
    if c.len() == 0 || c.len() >= 16 || str_eq(value, ".") || str_eq(value, "..") {
        return false;
    }
    let mut i: usize = 0;
    while i < c.len()
        invariant
            c@ == value@,
            i <= c@.len(),
            forall|j: int| 0 <= j < i ==> iface_char_ok(#[trigger] c@[j]),
        decreases c@.len() - i,
    {
        let ch = c[i];
        let ok = ('A' <= ch && ch <= 'Z') || ('a' <= ch && ch <= 'z') || ('0' <= ch && ch <= '9') || ch == '_'
            || ch == '-' || ch == '.' || ch == '@';
        if !ok {
            assert(!iface_char_ok(value@[i as int]));
            return false;
        }
        i = i + 1;
    }
    true
}

pub open spec fn invalid_iface_message(v: Seq<char>) -> Seq<char> {
    "invalid interface name "@ + debug_text(v)
        + "; must be a non-empty Linux device name under 16 bytes using only A-Z, a-z, 0-9, '_', '-', '.', or '@'"@
}

/// What `--show <value>` means.
pub open spec fn display_mode_spec(value: Seq<char>) -> Result<ShowView, Seq<char>> {
    if value == "ip"@ {
        Ok(ShowView::Text)
    } else if value == "qr"@ {
        Ok(ShowView::Qr(DEFAULT_QR_TEMPLATE@))
    } else if value.len() >= 3 && value.subrange(0, 3) == "qr:"@ {
        let template = value.subrange(3, value.len() as int);
        if template.len() == 0 {
            Err("--show qr:<template> requires a non-empty template"@)
        } else if !contains_text(template, "{ip}"@) {
            Err("--show qr:<template> must contain {ip}"@)
        } else {
            match qr_render_result(template, Ipv4Addr(255, 255, 255, 255)) {
                Ok(_) => Ok(ShowView::Qr(template)),
                Err(e) => Err("--show "@ + e),
            }
        }
    } else {
        Err("--show must be ip, qr, or qr:<template>"@)
    }
}

fn cli_error(text: &str) -> (r: CliError)
    ensures
        r.0@ == text@,
{
    CliError(string_of(text))
}

/// The characters of `t` from index `from` on, as a string.
fn tail_from(t: &str, from: usize) -> (r: String)
    requires
        from <= t@.len(),
    ensures
        r@ == t@.subrange(from as int, t@.len() as int),
{
    let c = chars_of(t);
    let mut s = String::new();
    let mut i = from;
    while i < c.len()
        invariant
            c@ == t@,
            from <= i <= c@.len(),
            s@ == t@.subrange(from as int, i as int),
        decreases c@.len() - i,
    {
        crate::text::push_char(&mut s, c[i]);
        assert(t@.subrange(from as int, i + 1) =~= t@.subrange(from as int, i as int).push(c@[i as int]));
        i = i + 1;
    }
    s
}

fn parse_display_mode(value: &str) -> (r: Result<DisplayMode, CliError>)
    ensures
        match r {
            Ok(m) => display_mode_spec(value@) == Ok::<ShowView, Seq<char>>(m@),
            Err(e) => display_mode_spec(value@) == Err::<ShowView, Seq<char>>(e.0@),
        },
{
    if str_eq(value, "ip") {
        return Ok(DisplayMode::Text);
    }
    if str_eq(value, "qr") {
        return Ok(DisplayMode::Qr { template: string_of(DEFAULT_QR_TEMPLATE) });
    }
    let c = chars_of(value);
    let is_qr_prefix = c.len() >= 3 && c[0] == 'q' && c[1] == 'r' && c[2] == ':';
    proof {
        reveal_strlit("qr:");
        if value@.len() >= 3 {
            if is_qr_prefix {
                assert(value@.subrange(0, 3) =~= "qr:"@);
            } else {
                assert(value@.subrange(0, 3) != "qr:"@) by {
                    if value@.subrange(0, 3) == "qr:"@ {
                        assert(value@.subrange(0, 3)[0] == 'q');
                        assert(value@.subrange(0, 3)[1] == 'r');
                        assert(value@.subrange(0, 3)[2] == ':');
                    }
                }
            }
        }
    }
    if is_qr_prefix {
        let template = tail_from(value, 3);
        if template.as_str().unicode_len() == 0 {
            return Err(cli_error("--show qr:<template> requires a non-empty template"));
        }
        if !str_contains(template.as_str(), "{ip}") {
            return Err(cli_error("--show qr:<template> must contain {ip}"));
        }
        match validate_template(template.as_str()) {
            Ok(()) => {},
            Err(err) => {
                let mut m = string_of("--show ");
                push_str(&mut m, err.as_str());
                return Err(CliError(m));
            },
        }
        return Ok(DisplayMode::Qr { template });
    }
    Err(cli_error("--show must be ip, qr, or qr:<template>"))
}

pub open spec fn default_options() -> OptionsView {
    OptionsView { interface: None, delay: DEFAULT_DHCP_FAIL_DELAY_SECS, debug: false, show: ShowView::Text }
}

/// Reading the options of `run`/`install` from argument `i` on.
pub open spec fn options_from(args: Seq<Seq<char>>, i: int, acc: OptionsView) -> Result<OptionsView, Seq<char>>
    decreases args.len() - i,
{
    if i < 0 || i >= args.len() {
        Ok(acc)
    } else {
        let arg = args[i];
        if arg == "--interface"@ {
            if i + 1 >= args.len() {
                Err("--interface requires a value"@)
            } else if !valid_iface(args[i + 1]) {
                Err(invalid_iface_message(args[i + 1]))
            } else {
                options_from(args, i + 2, OptionsView { interface: Some(args[i + 1]), ..acc })
            }
        } else if arg == "--dhcp-fail-delay-seconds"@ {
            if i + 1 >= args.len() {
                Err("--dhcp-fail-delay-seconds requires a value"@)
            } else {
                match parse_u64_spec(args[i + 1]) {
                    None => Err("--dhcp-fail-delay-seconds requires an integer"@),
                    Some(secs) => if secs == 0 {
                        Err("--dhcp-fail-delay-seconds must be > 0"@)
                    } else {
                        options_from(args, i + 2, OptionsView { delay: secs, ..acc })
                    },
                }
            }
        } else if arg == "--debug"@ {
            options_from(args, i + 1, OptionsView { debug: true, ..acc })
        } else if arg == "--show"@ {
            if i + 1 >= args.len() {
                Err("--show requires a value"@)
            } else {
                match display_mode_spec(args[i + 1]) {
                    Err(e) => Err(e),
                    Ok(show) => options_from(args, i + 2, OptionsView { show, ..acc }),
                }
            }
        } else {
            Err("unknown option "@ + arg)
        }
    }
}

pub open spec fn arg_views(args: Seq<&str>) -> Seq<Seq<char>> {
    args.map_values(|a: &str| a@)
}

pub open spec fn is_help_spec(rest: Seq<Seq<char>>) -> bool {
    rest.len() == 1 && (rest[0] == "--help"@ || rest[0] == "-h"@)
}

pub open spec fn reject_extra_spec(command: Seq<char>, rest: Seq<Seq<char>>, ok: CommandView) -> Result<CommandView, Seq<char>> {
    if rest.len() > 0 {
        Err(command + " does not accept argument "@ + rest[0])
    } else {
        Ok(ok)
    }
}

/// What a command line means.
pub open spec fn parse_args_spec(args: Seq<Seq<char>>) -> Result<CommandView, Seq<char>> {
    if args.len() == 0 {
        Err("expected command: run, install, uninstall, status, version"@)
    } else {
        let command = args[0];
        let rest = args.subrange(1, args.len() as int);
        if command == "run"@ {
            if is_help_spec(rest) {
                Ok(CommandView::Help)
            } else {
                match options_from(args, 1, default_options()) {
                    Ok(o) => Ok(CommandView::Run(o)),
                    Err(e) => Err(e),
                }
            }
        } else if command == "install"@ {
            if is_help_spec(rest) {
                Ok(CommandView::Help)
            } else {
                match options_from(args, 1, default_options()) {
                    Ok(o) => Ok(CommandView::Install(o)),
                    Err(e) => Err(e),
                }
            }
        } else if command == "uninstall"@ {
            reject_extra_spec(command, rest, CommandView::Uninstall)
        } else if command == "status"@ {
            reject_extra_spec(command, rest, CommandView::Status)
        } else if command == "version"@ || command == "--version"@ {
            reject_extra_spec(command, rest, CommandView::Version)
        } else if command == "help"@ || command == "--help"@ || command == "-h"@ {
            reject_extra_spec(command, rest, CommandView::Help)
        } else {
            Err("unknown command "@ + command)
        }
    }
}

fn parse_run_options(args: &[&str]) -> (r: Result<RunOptions, CliError>)
    requires
        args@.len() >= 1,
    ensures
        match r {
            Ok(o) => options_from(arg_views(args@), 1, default_options()) == Ok::<OptionsView, Seq<char>>(o@),
            Err(e) => options_from(arg_views(args@), 1, default_options()) == Err::<OptionsView, Seq<char>>(e.0@),
        },
{
    let ghost a = arg_views(args@);
    let mut options = RunOptions {
        interface: None,
        dhcp_fail_delay_secs: DEFAULT_DHCP_FAIL_DELAY_SECS,
        debug: false,
        show: DisplayMode::Text,
    };
    let n = args.len();
    let mut i: usize = 1;
    while i < n
        invariant
            n == args@.len(),
            a == arg_views(args@),
            1 <= i <= n,
            options_from(a, 1, default_options()) == options_from(a, i as int, options@),
        decreases n - i,
    {
        let arg = args[i];
        assert(a[i as int] == arg@);
        if str_eq(arg, "--interface") {
            if i + 1 >= n {
                return Err(cli_error("--interface requires a value"));
            }
            let value = args[i + 1];
            assert(a[i + 1] == value@);
            if !is_valid_linux_interface_name(value) {
                let mut m = string_of("invalid interface name ");
                let quoted = debug_quoted(value);
                push_str(&mut m, quoted.as_str());
                push_str(
                    &mut m,
                    "; must be a non-empty Linux device name under 16 bytes using only A-Z, a-z, 0-9, '_', '-', '.', or '@'",
                );
                return Err(CliError(m));
            }
            options.interface = Some(string_of(value));
            i = i + 2;
        } else if str_eq(arg, "--dhcp-fail-delay-seconds") {
            if i + 1 >= n {
                return Err(cli_error("--dhcp-fail-delay-seconds requires a value"));
            }
            let value = args[i + 1];
            assert(a[i + 1] == value@);
            match parse_u64(value) {
                None => {
                    return Err(cli_error("--dhcp-fail-delay-seconds requires an integer"));
                },
                Some(secs) => {
                    if secs == 0 {
                        return Err(cli_error("--dhcp-fail-delay-seconds must be > 0"));
                    }
                    options.dhcp_fail_delay_secs = secs;
                },
            }
            i = i + 2;
        } else if str_eq(arg, "--debug") {
            options.debug = true;
            i = i + 1;
        } else if str_eq(arg, "--show") {
            if i + 1 >= n {
                return Err(cli_error("--show requires a value"));
            }
            let value = args[i + 1];
            assert(a[i + 1] == value@);
            let show = parse_display_mode(value)?;
            options.show = show;
            i = i + 2;
        } else {
            let mut m = string_of("unknown option ");
            push_str(&mut m, arg);
            return Err(CliError(m));
        }
    }
    Ok(options)
}

fn is_help_request(args: &[&str]) -> (r: bool)
    requires
        args@.len() >= 1,
    ensures
        r == is_help_spec(arg_views(args@).subrange(1, args@.len() as int)),
{
    args.len() == 2 && (str_eq(args[1], "--help") || str_eq(args[1], "-h"))
}

fn reject_extra(command: &str, args: &[&str], ok: Command) -> (r: Result<Command, CliError>)
    requires
        args@.len() >= 1,
    ensures
        match r {
            Ok(c) => reject_extra_spec(command@, arg_views(args@).subrange(1, args@.len() as int), ok@)
                == Ok::<CommandView, Seq<char>>(c@),
            Err(e) => reject_extra_spec(command@, arg_views(args@).subrange(1, args@.len() as int), ok@)
                == Err::<CommandView, Seq<char>>(e.0@),
        },
{
    if args.len() > 1 {
        let mut m = string_of(command);
        push_str(&mut m, " does not accept argument ");
        push_str(&mut m, args[1]);
        return Err(CliError(m));
    }
    Ok(ok)
}

/// Parses the arguments after the program name.
pub fn parse_args(args: &[&str]) -> (r: Result<Command, CliError>)
    ensures
        match r {
            Ok(c) => parse_args_spec(arg_views(args@)) == Ok::<CommandView, Seq<char>>(c@),
            Err(e) => parse_args_spec(arg_views(args@)) == Err::<CommandView, Seq<char>>(e.0@),
        },
{
    if args.len() == 0 {
        return Err(cli_error("expected command: run, install, uninstall, status, version"));
    }
    let command = args[0];
    assert(arg_views(args@)[0] == command@);
    if str_eq(command, "run") {
        if is_help_request(args) {
            return Ok(Command::Help);
        }
        let options = parse_run_options(args)?;
        return Ok(Command::Run(options));
    }
    if str_eq(command, "install") {
        if is_help_request(args) {
            return Ok(Command::Help);
        }
        let options = parse_run_options(args)?;
        return Ok(Command::Install(options));
    }
    if str_eq(command, "uninstall") {
        return reject_extra(command, args, Command::Uninstall);
    }
    if str_eq(command, "status") {
        return reject_extra(command, args, Command::Status);
    }
    if str_eq(command, "version") || str_eq(command, "--version") {
        return reject_extra(command, args, Command::Version);
    }
    if str_eq(command, "help") || str_eq(command, "--help") || str_eq(command, "-h") {
        return reject_extra(command, args, Command::Help);
    }
    let mut m = string_of("unknown command ");
    push_str(&mut m, command);
    Err(CliError(m))
}


/// The help screen.
pub const HELP_TEXT: &'static str = "miniboard-ipd - display this Linux host IPv4 address on an MSU2 MINI USB screen

Usage:
  miniboard-ipd run [options]
  miniboard-ipd install [options]
  miniboard-ipd uninstall
  miniboard-ipd status
  miniboard-ipd version
  miniboard-ipd --help

Commands:
  run        Run the daemon in the foreground.
  install    Install service files and enable boot start. Does not start the service.
  uninstall  Stop and remove the installed service and binary.
  status     Show service status.
  version    Show the installed version.

Options for run/install:
  --interface <name>                 Use a specific Linux network interface.
  --dhcp-fail-delay-seconds <secs>   Delay before showing DHCP failure. Default: 45.
  --show ip                          Display the host IP as text. Default.
  --show qr                          Display the host IP as a QR code using http://{ip}/.
  --show qr:<template>               Display a QR code using a template containing {ip}.
  --debug                            Enable debug logging.
";

pub fn help_text() -> (r: &'static str)
    ensures
        r@ == HELP_TEXT@,
{
    HELP_TEXT
}

pub fn version_string() -> (r: String)
    ensures
        r@ == "miniboard-ipd "@ + VERSION@,
{
    let mut s = string_of("miniboard-ipd ");
    push_str(&mut s, VERSION);
    s
}

/// The `--show` arguments that reproduce a display mode.
pub open spec fn show_args(show: ShowView) -> Seq<Seq<char>> {
    match show {
        ShowView::Text => seq![],
        ShowView::Qr(t) => if t == DEFAULT_QR_TEMPLATE@ {
            seq!["--show"@, "qr"@]
        } else {
            seq!["--show"@, "qr:"@ + t]
        },
    }
}

/// The arguments an installed service is started with.
pub open spec fn service_args_spec(o: OptionsView) -> Seq<Seq<char>> {
    (match o.interface {
        Some(name) => seq!["--interface"@, name],
        None => seq![],
    }) + seq!["--dhcp-fail-delay-seconds"@, dec_u64(o.delay as nat)] + (if o.debug {
        seq!["--debug"@]
    } else {
        seq![]
    }) + show_args(o.show)
}

impl RunOptions {
    pub fn service_args(&self) -> (r: Vec<String>)
        ensures
            r@.map_values(|s: String| s@) == service_args_spec(self@),
    {
        let mut out: Vec<String> = Vec::new();
        let ghost mut expect: Seq<Seq<char>> = seq![];
        match &self.interface {
            Some(interface) => {
                out.push(string_of("--interface"));
                out.push(string_of(interface.as_str()));
                proof {
                    expect = seq!["--interface"@, interface@];
                }
            },
            None => {},
        }
        assert(out@.map_values(|s: String| s@) =~= expect);
        out.push(string_of("--dhcp-fail-delay-seconds"));
        out.push(u64_to_string(self.dhcp_fail_delay_secs));
        proof {
            expect = expect + seq!["--dhcp-fail-delay-seconds"@, dec_u64(self.dhcp_fail_delay_secs as nat)];
        }
        assert(out@.map_values(|s: String| s@) =~= expect);
        if self.debug {
            out.push(string_of("--debug"));
            proof {
                expect = expect + seq!["--debug"@];
            }
        }
        assert(out@.map_values(|s: String| s@) =~= expect);
        match &self.show {
            DisplayMode::Text => {},
            DisplayMode::Qr { template } => {
                out.push(string_of("--show"));
                if str_eq(template.as_str(), DEFAULT_QR_TEMPLATE) {
                    out.push(string_of("qr"));
                } else {
                    let mut arg = string_of("qr:");
                    push_str(&mut arg, template.as_str());
                    out.push(arg);
                }
            },
        }
        assert(out@.map_values(|s: String| s@) =~= expect + show_args(self.show@));
        out
    }
}

/// Options that `run` or `install` can come out of parsing with.
pub open spec fn options_parseable(o: OptionsView) -> bool {
    &&& match o.interface {
        Some(name) => valid_iface(name),
        None => true,
    }
    &&& o.delay > 0
    &&& match o.show {
        ShowView::Text => true,
        ShowView::Qr(t) => t == DEFAULT_QR_TEMPLATE@ || display_mode_spec("qr:"@ + t) == Ok::<
            ShowView,
            Seq<char>,
        >(ShowView::Qr(t)),
    }
}

proof fn lemma_option_literals()
    ensures
        "--interface"@.len() == 11,
        "--dhcp-fail-delay-seconds"@.len() == 25,
        "--debug"@.len() == 7,
        "--show"@.len() == 6,
        "ip"@.len() == 2,
        "qr"@ != "ip"@,
        "qr"@.len() == 2,
        "install"@ != "run"@,
{
    reveal_strlit("--interface");
    reveal_strlit("--dhcp-fail-delay-seconds");
    reveal_strlit("--debug");
    reveal_strlit("--show");
    reveal_strlit("ip");
    reveal_strlit("qr");
    reveal_strlit("install");
    reveal_strlit("run");
    assert("qr"@[0] != "ip"@[0]);
    assert("install"@.len() != "run"@.len());
}

/// Reading the `--show` arguments of a display mode gives that mode back.
proof fn lemma_show_args_read(args: Seq<Seq<char>>, i: int, acc: OptionsView, show: ShowView)
    requires
        0 <= i <= args.len(),
        args.subrange(i, args.len() as int) == show_args(show),
        acc.show == ShowView::Text,
        match show {
            ShowView::Text => true,
            ShowView::Qr(t) => t == DEFAULT_QR_TEMPLATE@ || display_mode_spec("qr:"@ + t) == Ok::<
                ShowView,
                Seq<char>,
            >(ShowView::Qr(t)),
        },
    ensures
        options_from(args, i, acc) == Ok::<OptionsView, Seq<char>>(OptionsView { show, ..acc }),
{
    lemma_option_literals();
    let tail = args.subrange(i, args.len() as int);
    match show {
        ShowView::Text => {
            assert(tail.len() == 0);
        },
        ShowView::Qr(t) => {
            assert(tail.len() == 2);
            assert(args[i] == tail[0]);
            assert(args[i + 1] == tail[1]);
            assert(args[i] == "--show"@);
            if t == DEFAULT_QR_TEMPLATE@ {
                assert(args[i + 1] == "qr"@);
                assert(display_mode_spec("qr"@) == Ok::<ShowView, Seq<char>>(
                    ShowView::Qr(DEFAULT_QR_TEMPLATE@),
                ));
            }
            assert(options_from(args, i + 2, OptionsView { show, ..acc }) == Ok::<OptionsView, Seq<char>>(
                OptionsView { show, ..acc },
            ));
        },
    }
}

/// Reading service arguments, from where they start, gives back the options.
proof fn lemma_service_args_read(prefix: Seq<Seq<char>>, o: OptionsView)
    requires
        options_parseable(o),
    ensures
        options_from(prefix + service_args_spec(o), prefix.len() as int, default_options()) == Ok::<
            OptionsView,
            Seq<char>,
        >(o),
{
    lemma_option_literals();
    let iface_part: Seq<Seq<char>> = match o.interface {
        Some(name) => seq!["--interface"@, name],
        None => seq![],
    };
    let delay_part: Seq<Seq<char>> = seq!["--dhcp-fail-delay-seconds"@, dec_u64(o.delay as nat)];
    let debug_part: Seq<Seq<char>> = if o.debug {
        seq!["--debug"@]
    } else {
        seq![]
    };
    let show_part = show_args(o.show);
    let args = prefix + service_args_spec(o);
    assert(args =~= prefix + iface_part + delay_part + debug_part + show_part);
    let p0 = prefix.len() as int;
    let p1 = p0 + iface_part.len();
    let p2 = p1 + 2;
    let p3 = p2 + debug_part.len();
    let acc0 = default_options();
    let acc1 = OptionsView { interface: o.interface, ..acc0 };
    let acc2 = OptionsView { delay: o.delay, ..acc1 };
    let acc3 = OptionsView { debug: o.debug, ..acc2 };
    assert(args.subrange(p3, args.len() as int) =~= show_part);
    lemma_show_args_read(args, p3, acc3, o.show);
    assert(OptionsView { show: o.show, ..acc3 } == o);
    if o.debug {
        assert(args[p2] == "--debug"@);
    }
    assert(options_from(args, p2, acc2) == options_from(args, p3, acc3));
    assert(args[p1] == "--dhcp-fail-delay-seconds"@);
    assert(args[p1 + 1] == dec_u64(o.delay as nat));
    crate::host::decimal::lemma_u64_text_roundtrip(o.delay);
    assert(options_from(args, p1, acc1) == options_from(args, p2, acc2));
    match o.interface {
        Some(name) => {
            assert(args[p0] == "--interface"@);
            assert(args[p0 + 1] == name);
        },
        None => {},
    }
    assert(options_from(args, p0, acc0) == options_from(args, p1, acc1));
}

/// Parsing `install` or `run` followed by the service arguments of parseable
/// options gives back those options: what `install` writes into the service
/// is what the service runs with.
pub proof fn lemma_service_args_roundtrip(o: OptionsView)
    requires
        options_parseable(o),
    ensures
        parse_args_spec(seq!["install"@] + service_args_spec(o)) == Ok::<CommandView, Seq<char>>(
            CommandView::Install(o),
        ),
        parse_args_spec(seq!["run"@] + service_args_spec(o)) == Ok::<CommandView, Seq<char>>(
            CommandView::Run(o),
        ),
{
    lemma_option_literals();
    lemma_service_args_read(seq!["install"@], o);
    lemma_service_args_read(seq!["run"@], o);
    let a = seq!["install"@] + service_args_spec(o);
    let b = seq!["run"@] + service_args_spec(o);
    assert(a[0] == "install"@);
    assert(b[0] == "run"@);
    assert(service_args_spec(o).len() >= 2);
    assert(!is_help_spec(a.subrange(1, a.len() as int)));
    assert(!is_help_spec(b.subrange(1, b.len() as int)));
}


/// `install --interface <name>` accepts every name that Linux takes as a
/// device name: non-empty, at most 15 bytes, not `.` or `..`, made of
/// `A-Z a-z 0-9 _ - . @`; the service is installed for that interface with
/// the other options at their defaults.
pub proof fn lemma_install_accepts_device_names(name: Seq<char>)
    requires
        1 <= name.len() <= 15,
        name != "."@,
        name != ".."@,
        forall|i: int|
            0 <= i < name.len() ==> {
                let c = #[trigger] name[i];
                ||| 'A' <= c <= 'Z'
                ||| 'a' <= c <= 'z'
                ||| '0' <= c <= '9'
                ||| c == '_'
                ||| c == '-'
                ||| c == '.'
                ||| c == '@'
            },
    ensures
        parse_args_spec(seq!["install"@, "--interface"@, name]) == Ok::<CommandView, Seq<char>>(
            CommandView::Install(OptionsView { interface: Some(name), ..default_options() }),
        ),
{
    lemma_option_literals();
    let args = seq!["install"@, "--interface"@, name];
    assert(args[0] == "install"@);
    assert(args[1] == "--interface"@);
    assert(!is_help_spec(args.subrange(1, 3)));
    assert(valid_iface(name));
    assert(options_from(args, 3, OptionsView { interface: Some(name), ..default_options() }) == Ok::<
        OptionsView,
        Seq<char>,
    >(OptionsView { interface: Some(name), ..default_options() }));
}

/// `install --interface <name>` refuses a name of 16 bytes or more, with the
/// invalid-name message.
pub proof fn lemma_install_refuses_long_names(name: Seq<char>)
    requires
        name.len() >= 16,
    ensures
        parse_args_spec(seq!["install"@, "--interface"@, name]) == Err::<CommandView, Seq<char>>(
            invalid_iface_message(name),
        ),
{
    lemma_option_literals();
    let args = seq!["install"@, "--interface"@, name];
    assert(args[0] == "install"@);
    assert(args[1] == "--interface"@);
    assert(!is_help_spec(args.subrange(1, 3)));
}


/// `install --interface <name>` refuses `.`, `..`, the empty name and any name
/// holding a character outside `A-Z a-z 0-9 _ - . @`, with the invalid-name
/// message.
pub proof fn lemma_install_refuses_bad_names(name: Seq<char>)
    requires
        name.len() == 0 || name == "."@ || name == ".."@ || exists|i: int|
            0 <= i < name.len() && {
                let c = #[trigger] name[i];
                !('A' <= c <= 'Z') && !('a' <= c <= 'z') && !('0' <= c <= '9') && c != '_' && c != '-' && c != '.'
                    && c != '@'
            },
    ensures
        parse_args_spec(seq!["install"@, "--interface"@, name]) == Err::<CommandView, Seq<char>>(
            invalid_iface_message(name),
        ),
{
    lemma_option_literals();
    let args = seq!["install"@, "--interface"@, name];
    assert(args[0] == "install"@);
    assert(args[1] == "--interface"@);
    assert(!is_help_spec(args.subrange(1, 3)));
    assert(!valid_iface(name));
}

} // verus!
