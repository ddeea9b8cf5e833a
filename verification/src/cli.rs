//! The command line: the mode word, the `-a`/`--address` and `-p`/`--port`
//! options, a trailing file path, and how the network settings of
//! `config.toml` combine with those given on the command line.
use vstd::prelude::*;
use crate::address::{address_of, parse_address};
use crate::config::{Config, ConfigView, Ipv4Address, Mode, Network};
use crate::decimal::{parse_u32, parse_u32_spec};
use crate::text::{copy_text, opt_text, same_text, texts};

verus! {

/// A complaint about the command line, printed as the arguments are read.
#[derive(Debug)]
pub enum Diagnostic {
    /// The mode word is none of `pack`, `unpack`, `listen`, `connect`.
    UnknownMode(String),
    /// `unpack` was given without an archive to unpack.
    MissingFilePath,
    /// An argument that is neither an option nor the trailing file path.
    UnknownArgument(String),
    /// `listen` or `connect` without an address from either source.
    MissingIpAddress,
    /// `listen` or `connect` without a port from either source.
    MissingPort,
}

/// A `Diagnostic` with its text taken as a character sequence.
pub enum DiagnosticView {
    UnknownMode(Seq<char>),
    MissingFilePath,
    UnknownArgument(Seq<char>),
    MissingIpAddress,
    MissingPort,
}

impl View for Diagnostic {
    type V = DiagnosticView;

    open spec fn view(&self) -> DiagnosticView {
        match self {
            Diagnostic::UnknownMode(m) => DiagnosticView::UnknownMode(m@),
            Diagnostic::MissingFilePath => DiagnosticView::MissingFilePath,
            Diagnostic::UnknownArgument(a) => DiagnosticView::UnknownArgument(a@),
            Diagnostic::MissingIpAddress => DiagnosticView::MissingIpAddress,
            Diagnostic::MissingPort => DiagnosticView::MissingPort,
        }
    }
}

/// The line printed for a diagnostic.
pub open spec fn diagnostic_message(d: DiagnosticView) -> Seq<char> {
    match d {
        DiagnosticView::UnknownMode(m) => "Error: Unknown mode '"@ + m + "'"@,
        DiagnosticView::MissingFilePath => "Error: Missing file path"@,
        DiagnosticView::UnknownArgument(a) => "Error: Unknown argument '"@ + a + "'"@,
        DiagnosticView::MissingIpAddress => "Error: Missing IP-address"@,
        DiagnosticView::MissingPort => "Error: Missing port"@,
    }
}

impl Diagnostic {
    /// The line printed for this diagnostic.
    pub fn message(&self) -> (r: String)
        ensures
            r@ == diagnostic_message(self@),
    {
        match self {
            Diagnostic::UnknownMode(m) => {
                let mut r = copy_text("Error: Unknown mode '");
                r.append(m.as_str());
                r.append("'");
                r
            },
            Diagnostic::MissingFilePath => copy_text("Error: Missing file path"),
            Diagnostic::UnknownArgument(a) => {
                let mut r = copy_text("Error: Unknown argument '");
                r.append(a.as_str());
                r.append("'");
                r
            },
            Diagnostic::MissingIpAddress => copy_text("Error: Missing IP-address"),
            Diagnostic::MissingPort => copy_text("Error: Missing port"),
        }
    }
}

/// An argument that ends the reading of the command line: the run stops
/// there.
#[derive(Debug)]
pub enum ArgsFault {
    /// The option (`-a`, `--address`, `-p` or `--port`) is the last
    /// argument, with no value after it.
    MissingValue(String),
    /// The value after `-a` or `--address` is no IPv4 address.
    InvalidAddress(String),
    /// The value after `-p` or `--port` is no `u32`.
    InvalidPort(String),
}

/// An `ArgsFault` with its text taken as a character sequence.
pub enum ArgsFaultView {
    MissingValue(Seq<char>),
    InvalidAddress(Seq<char>),
    InvalidPort(Seq<char>),
}

impl View for ArgsFault {
    type V = ArgsFaultView;

    open spec fn view(&self) -> ArgsFaultView {
        match self {
            ArgsFault::MissingValue(a) => ArgsFaultView::MissingValue(a@),
            ArgsFault::InvalidAddress(a) => ArgsFaultView::InvalidAddress(a@),
            ArgsFault::InvalidPort(a) => ArgsFaultView::InvalidPort(a@),
        }
    }
}

/// The view of an optional fault.
pub open spec fn opt_fault(f: Option<ArgsFault>) -> Option<ArgsFaultView> {
    match f {
        Some(x) => Some(x@),
        None => None,
    }
}

/// The result of reading the command line: the configuration, the
/// diagnostics in the order they arise, and the fault that stopped the
/// reading, if one did.
#[derive(Debug)]
pub struct ArgsOutcome {
    pub config: Config,
    pub diagnostics: Vec<Diagnostic>,
    pub fault: Option<ArgsFault>,
}

/// An `ArgsOutcome` taken by its views.
pub struct ArgsOutcomeView {
    pub config: ConfigView,
    pub diagnostics: Seq<DiagnosticView>,
    pub fault: Option<ArgsFaultView>,
}

/// The views of a sequence of diagnostics.
pub open spec fn diagnostics_view(v: Seq<Diagnostic>) -> Seq<DiagnosticView> {
    v.map_values(|d: Diagnostic| d@)
}

impl View for ArgsOutcome {
    type V = ArgsOutcomeView;

    open spec fn view(&self) -> ArgsOutcomeView {
        ArgsOutcomeView {
            config: self.config@,
            diagnostics: diagnostics_view(self.diagnostics@),
            fault: opt_fault(self.fault),
        }
    }
}

/// The mode a mode word names; `Mode::Help` for an unknown word.
pub open spec fn mode_of(s: Seq<char>) -> Mode {
    if s == seq!['p', 'a', 'c', 'k'] {
        Mode::Pack
    } else if s == seq!['u', 'n', 'p', 'a', 'c', 'k'] {
        Mode::Unpack
    } else if s == seq!['l', 'i', 's', 't', 'e', 'n'] {
        Mode::Listen
    } else if s == seq!['c', 'o', 'n', 'n', 'e', 'c', 't'] {
        Mode::Connect
    } else {
        Mode::Help
    }
}

/// The mode a mode word names: `pack`, `unpack`, `listen` or `connect`;
/// any other word gives `Mode::Help`.
pub fn parse_mode(mode: &str) -> (m: Mode)
    ensures
        m == mode_of(mode@),
{
    proof {
        reveal_strlit("pack");
        reveal_strlit("unpack");
        reveal_strlit("listen");
        reveal_strlit("connect");
    }
    assert("pack"@ =~= seq!['p', 'a', 'c', 'k']);
    assert("unpack"@ =~= seq!['u', 'n', 'p', 'a', 'c', 'k']);
    assert("listen"@ =~= seq!['l', 'i', 's', 't', 'e', 'n']);
    assert("connect"@ =~= seq!['c', 'o', 'n', 'n', 'e', 'c', 't']);
    if same_text(mode, "pack") {
        Mode::Pack
    } else if same_text(mode, "unpack") {
        Mode::Unpack
    } else if same_text(mode, "listen") {
        Mode::Listen
    } else if same_text(mode, "connect") {
        Mode::Connect
    } else {
        Mode::Help
    }
}

/// Whether `a` is the address option.
pub open spec fn is_address_flag(a: Seq<char>) -> bool {
    a == seq!['-', 'a'] || a == seq!['-', '-', 'a', 'd', 'd', 'r', 'e', 's', 's']
}

/// Whether `a` is the port option.
pub open spec fn is_port_flag(a: Seq<char>) -> bool {
    a == seq!['-', 'p'] || a == seq!['-', '-', 'p', 'o', 'r', 't']
}

/// Whether `a` is the help option.
pub open spec fn is_help_flag(a: Seq<char>) -> bool {
    a == seq!['-', 'h'] || a == seq!['-', '-', 'h', 'e', 'l', 'p']
}

/// What has been read of the options so far.
pub struct Scan {
    pub mode: Mode,
    pub ip_addr: Option<Ipv4Address>,
    pub port: Option<u32>,
    pub file_path: Option<Seq<char>>,
    pub diagnostics: Seq<DiagnosticView>,
    pub fault: Option<ArgsFaultView>,
}

/// Reads the options `args[i..]` into `st`, from left to right. The value
/// after `-a`/`--address` is read as an address (`localhost` or dotted
/// decimal, see `address_of`); the value after `-p`/`--port` as a `u32`.
/// `-h`/`--help` turns the mode to `Mode::Help`. The last argument, if no
/// option takes it, is the file path; any other argument is unknown and
/// turns the mode to `Mode::Help`. A fault ends the reading.
pub open spec fn scan_options(args: Seq<Seq<char>>, i: int, st: Scan) -> Scan
    decreases args.len() - i,
{
    if st.fault is Some || i < 0 || i >= args.len() {
        st
    } else if is_address_flag(args[i]) {
        if i + 1 >= args.len() {
            Scan { fault: Some(ArgsFaultView::MissingValue(args[i])), ..st }
        } else {
            match address_of(args[i + 1]) {
                Some(ip) => scan_options(args, i + 2, Scan { ip_addr: Some(ip), ..st }),
                None => Scan { fault: Some(ArgsFaultView::InvalidAddress(args[i + 1])), ..st },
            }
        }
    } else if is_port_flag(args[i]) {
        if i + 1 >= args.len() {
            Scan { fault: Some(ArgsFaultView::MissingValue(args[i])), ..st }
        } else {
            match parse_u32_spec(args[i + 1]) {
                Some(p) => scan_options(args, i + 2, Scan { port: Some(p), ..st }),
                None => Scan { fault: Some(ArgsFaultView::InvalidPort(args[i + 1])), ..st },
            }
        }
    } else if is_help_flag(args[i]) {
        scan_options(args, i + 1, Scan { mode: Mode::Help, ..st })
    } else if i + 1 == args.len() {
        Scan { file_path: Some(args[i]), ..st }
    } else {
        scan_options(
            args,
            i + 1,
            Scan {
                mode: Mode::Help,
                diagnostics: st.diagnostics.push(DiagnosticView::UnknownArgument(args[i])),
                ..st
            },
        )
    }
}

/// Whether reading the options `args[i..]` meets no fault: every address
/// and port option has a value after it, and the value reads as an address
/// or as a `u32`.
pub open spec fn options_ok(args: Seq<Seq<char>>, i: int) -> bool
    decreases args.len() - i,
{
    if i < 0 || i >= args.len() {
        true
    } else if is_address_flag(args[i]) {
        i + 1 < args.len() && address_of(args[i + 1]) is Some && options_ok(args, i + 2)
    } else if is_port_flag(args[i]) {
        i + 1 < args.len() && parse_u32_spec(args[i + 1]) is Some && options_ok(args, i + 2)
    } else if i + 1 == args.len() {
        true
    } else {
        options_ok(args, i + 1)
    }
}

/// The network settings: each part given on the command line overrides the
/// one from `config.toml`.
pub open spec fn merge_network(
    toml_network: Option<Network>,
    ip_addr: Option<Ipv4Address>,
    port: Option<u32>,
) -> Network {
    match toml_network {
        Some(t) => Network {
            ip_addr: if ip_addr is Some { ip_addr } else { t.ip_addr },
            port: if port is Some { port } else { t.port },
        },
        None => Network { ip_addr, port },
    }
}

/// The diagnostic for an unknown mode word, if `word` is one; the help
/// option in place of the mode word is no unknown word.
pub open spec fn mode_diagnostics(word: Seq<char>) -> Seq<DiagnosticView> {
    if mode_of(word) == Mode::Help && !is_help_flag(word) {
        seq![DiagnosticView::UnknownMode(word)]
    } else {
        Seq::empty()
    }
}

/// The outcome once the options are read. `unpack` given alone lacks its
/// file path and falls back to `Mode::Help`; `listen` and `connect` take
/// their network settings, and fall back to `Mode::Help` where the address
/// or the port is missing.
pub open spec fn finish_spec(
    st: Scan,
    toml_network: Option<Network>,
    tmp_path: Seq<char>,
    word_alone: bool,
) -> ArgsOutcomeView {
    if st.fault is None && st.mode == Mode::Unpack && word_alone {
        ArgsOutcomeView {
            config: ConfigView { mode: Mode::Help, network: None, file_path: st.file_path, tmp_path },
            diagnostics: st.diagnostics.push(DiagnosticView::MissingFilePath),
            fault: None,
        }
    } else if st.fault is None && (st.mode == Mode::Listen || st.mode == Mode::Connect) {
        let net = merge_network(toml_network, st.ip_addr, st.port);
        let d1 = if net.ip_addr is None {
            st.diagnostics.push(DiagnosticView::MissingIpAddress)
        } else {
            st.diagnostics
        };
        let d2 = if net.port is None {
            d1.push(DiagnosticView::MissingPort)
        } else {
            d1
        };
        ArgsOutcomeView {
            config: ConfigView {
                mode: if net.ip_addr is None || net.port is None { Mode::Help } else { st.mode },
                network: Some(net),
                file_path: st.file_path,
                tmp_path,
            },
            diagnostics: d2,
            fault: None,
        }
    } else {
        ArgsOutcomeView {
            config: ConfigView { mode: st.mode, network: None, file_path: st.file_path, tmp_path },
            diagnostics: st.diagnostics,
            fault: st.fault,
        }
    }
}

/// The state before the options are read: the mode the mode word names,
/// and its diagnostic.
pub open spec fn initial_scan(word: Seq<char>) -> Scan {
    Scan {
        mode: mode_of(word),
        ip_addr: None,
        port: None,
        file_path: None,
        diagnostics: mode_diagnostics(word),
        fault: None,
    }
}

/// What reading the command line `args` gives (`args[0]` is the program).
/// No argument beyond the program: `Mode::Help`. Otherwise the mode word,
/// then the options (see `scan_options` and `finish_spec`).
pub open spec fn handle_args_spec(
    args: Seq<Seq<char>>,
    toml_network: Option<Network>,
    tmp_path: Seq<char>,
) -> ArgsOutcomeView {
    if args.len() <= 1 {
        ArgsOutcomeView {
            config: ConfigView { mode: Mode::Help, network: None, file_path: None, tmp_path },
            diagnostics: Seq::empty(),
            fault: None,
        }
    } else {
        finish_spec(
            scan_options(args, 2, initial_scan(args[1])),
            toml_network,
            tmp_path,
            args.len() == 2,
        )
    }
}

proof fn lemma_scan_keeps_help_and_diagnostics(args: Seq<Seq<char>>, i: int, st: Scan)
    ensures
        st.mode == Mode::Help ==> scan_options(args, i, st).mode == Mode::Help,
        scan_options(args, i, st).diagnostics.len() >= st.diagnostics.len(),
        forall|k: int|
            0 <= k < st.diagnostics.len() ==> #[trigger] scan_options(args, i, st).diagnostics[k]
                == st.diagnostics[k],
    decreases args.len() - i,
{
    if !(st.fault is Some || i < 0 || i >= args.len()) {
        if is_address_flag(args[i]) {
            if i + 1 < args.len() {
                if let Some(ip) = address_of(args[i + 1]) {
                    lemma_scan_keeps_help_and_diagnostics(args, i + 2, Scan { ip_addr: Some(ip), ..st });
                }
            }
        } else if is_port_flag(args[i]) {
            if i + 1 < args.len() {
                if let Some(p) = parse_u32_spec(args[i + 1]) {
                    lemma_scan_keeps_help_and_diagnostics(args, i + 2, Scan { port: Some(p), ..st });
                }
            }
        } else if is_help_flag(args[i]) {
            lemma_scan_keeps_help_and_diagnostics(args, i + 1, Scan { mode: Mode::Help, ..st });
        } else if i + 1 != args.len() {
            let next = Scan {
                mode: Mode::Help,
                diagnostics: st.diagnostics.push(DiagnosticView::UnknownArgument(args[i])),
                ..st
            };
            lemma_scan_keeps_help_and_diagnostics(args, i + 1, next);
            assert forall|k: int| 0 <= k < st.diagnostics.len() implies #[trigger] scan_options(
                args,
                i,
                st,
            ).diagnostics[k] == st.diagnostics[k] by {
                assert(next.diagnostics[k] == st.diagnostics[k]);
            }
        }
    }
}

/// An unknown mode word always ends in the usage text: the mode is
/// `Mode::Help`, and the first diagnostic names the word.
pub proof fn lemma_unknown_mode_gives_help(
    args: Seq<Seq<char>>,
    toml_network: Option<Network>,
    tmp_path: Seq<char>,
)
    requires
        args.len() >= 2,
        mode_of(args[1]) == Mode::Help,
        !is_help_flag(args[1]),
    ensures
        handle_args_spec(args, toml_network, tmp_path).config.mode == Mode::Help,
        handle_args_spec(args, toml_network, tmp_path).diagnostics.len() > 0,
        handle_args_spec(args, toml_network, tmp_path).diagnostics[0] == DiagnosticView::UnknownMode(
            args[1],
        ),
{
    let st0 = initial_scan(args[1]);
    lemma_scan_keeps_help_and_diagnostics(args, 2, st0);
    assert(st0.diagnostics[0] == DiagnosticView::UnknownMode(args[1]));
}

proof fn lemma_scan_reaches_help(args: Seq<Seq<char>>, i: int, j: int, st: Scan)
    requires
        0 <= i <= j < args.len(),
        st.fault is None,
        is_help_flag(args[j]),
        forall|k: int| i <= k < args.len() ==> !is_address_flag(#[trigger] args[k]) && !is_port_flag(args[k]),
    ensures
        scan_options(args, i, st).mode == Mode::Help,
        scan_options(args, i, st).fault is None,
    decreases args.len() - i,
{
    assert(!is_address_flag(args[i]) && !is_port_flag(args[i]));
    if is_help_flag(args[i]) {
        let next = Scan { mode: Mode::Help, ..st };
        lemma_scan_keeps_help_and_diagnostics(args, i + 1, next);
        lemma_scan_no_fault(args, i + 1, next);
    } else if i + 1 != args.len() {
        let next = Scan {
            mode: Mode::Help,
            diagnostics: st.diagnostics.push(DiagnosticView::UnknownArgument(args[i])),
            ..st
        };
        lemma_scan_keeps_help_and_diagnostics(args, i + 1, next);
        lemma_scan_no_fault(args, i + 1, next);
    }
}

proof fn lemma_scan_no_fault(args: Seq<Seq<char>>, i: int, st: Scan)
    requires
        st.fault is None,
        forall|k: int| i <= k < args.len() ==> !is_address_flag(#[trigger] args[k]) && !is_port_flag(args[k]),
    ensures
        scan_options(args, i, st).fault is None,
    decreases args.len() - i,
{
    if 0 <= i < args.len() {
        assert(!is_address_flag(args[i]) && !is_port_flag(args[i]));
        if is_help_flag(args[i]) {
            lemma_scan_no_fault(args, i + 1, Scan { mode: Mode::Help, ..st });
        } else if i + 1 != args.len() {
            lemma_scan_no_fault(
                args,
                i + 1,
                Scan {
                    mode: Mode::Help,
                    diagnostics: st.diagnostics.push(DiagnosticView::UnknownArgument(args[i])),
                    ..st
                },
            );
        }
    }
}

/// The help option prints the usage text: where `-h` or `--help` stands in
/// place of the mode word or after it, and no address or port option
/// follows the mode word, the mode is `Mode::Help` and the reading meets no
/// fault.
pub proof fn lemma_help_flag_gives_help(
    args: Seq<Seq<char>>,
    toml_network: Option<Network>,
    tmp_path: Seq<char>,
    j: int,
)
    requires
        1 <= j < args.len(),
        is_help_flag(args[j]),
        forall|k: int| 2 <= k < args.len() ==> !is_address_flag(#[trigger] args[k]) && !is_port_flag(args[k]),
    ensures
        handle_args_spec(args, toml_network, tmp_path).config.mode == Mode::Help,
        handle_args_spec(args, toml_network, tmp_path).fault is None,
{
    let st0 = initial_scan(args[1]);
    if j == 1 {
        assert(mode_of(args[1]) == Mode::Help);
        lemma_scan_keeps_help_and_diagnostics(args, 2, st0);
        lemma_scan_no_fault(args, 2, st0);
    } else {
        lemma_scan_reaches_help(args, 2, j, st0);
    }
}

/// Where reading the command line ends without a fault in `listen` or
/// `connect`, the configuration holds both an address and a port.
pub proof fn lemma_network_modes_have_endpoint(
    args: Seq<Seq<char>>,
    toml_network: Option<Network>,
    tmp_path: Seq<char>,
)
    ensures
        ({
            let o = handle_args_spec(args, toml_network, tmp_path);
            o.fault is None && (o.config.mode == Mode::Listen || o.config.mode == Mode::Connect)
                ==> (o.config.network matches Some(n) && n.ip_addr is Some && n.port is Some)
        }),
{
}

proof fn lemma_scan_fault_iff(args: Seq<Seq<char>>, i: int, st: Scan)
    requires
        st.fault is None,
    ensures
        (scan_options(args, i, st).fault is None) == options_ok(args, i),
    decreases args.len() - i,
{
    if 0 <= i < args.len() {
        if is_address_flag(args[i]) {
            if i + 1 < args.len() {
                if let Some(ip) = address_of(args[i + 1]) {
                    lemma_scan_fault_iff(args, i + 2, Scan { ip_addr: Some(ip), ..st });
                }
            }
        } else if is_port_flag(args[i]) {
            if i + 1 < args.len() {
                if let Some(p) = parse_u32_spec(args[i + 1]) {
                    lemma_scan_fault_iff(args, i + 2, Scan { port: Some(p), ..st });
                }
            }
        } else if is_help_flag(args[i]) {
            lemma_scan_fault_iff(args, i + 1, Scan { mode: Mode::Help, ..st });
            assert(options_ok(args, i) == options_ok(args, i + 1) || i + 1 == args.len());
        } else if i + 1 != args.len() {
            lemma_scan_fault_iff(
                args,
                i + 1,
                Scan {
                    mode: Mode::Help,
                    diagnostics: st.diagnostics.push(DiagnosticView::UnknownArgument(args[i])),
                    ..st
                },
            );
        }
    }
}

/// Reading the command line stops with a fault exactly where an address or
/// port option after the mode word lacks its value, or its value is no
/// address or no `u32`.
pub proof fn lemma_fault_iff_bad_option(
    args: Seq<Seq<char>>,
    toml_network: Option<Network>,
    tmp_path: Seq<char>,
)
    ensures
        (handle_args_spec(args, toml_network, tmp_path).fault is None) == options_ok(args, 2),
{
    if args.len() >= 2 {
        lemma_scan_fault_iff(args, 2, initial_scan(args[1]));
    }
}

/// Each part of the network settings given on the command line wins over
/// the one in `config.toml`; a part not given keeps the one in
/// `config.toml`.
pub proof fn lemma_command_line_overrides_config(
    toml_network: Option<Network>,
    ip_addr: Option<Ipv4Address>,
    port: Option<u32>,
)
    ensures
        ip_addr matches Some(a) ==> merge_network(toml_network, ip_addr, port).ip_addr == Some(a),
        port matches Some(q) ==> merge_network(toml_network, ip_addr, port).port == Some(q),
        ip_addr is None ==> merge_network(toml_network, ip_addr, port).ip_addr == (match toml_network {
            Some(t) => t.ip_addr,
            None => None,
        }),
        port is None ==> merge_network(toml_network, ip_addr, port).port == (match toml_network {
            Some(t) => t.port,
            None => None,
        }),
{
}

proof fn lemma_scan_keeps_address(args: Seq<Seq<char>>, i: int, st: Scan)
    requires
        forall|k: int| i <= k < args.len() ==> !is_address_flag(#[trigger] args[k]),
    ensures
        scan_options(args, i, st).ip_addr == st.ip_addr,
    decreases args.len() - i,
{
    if !(st.fault is Some || i < 0 || i >= args.len()) {
        assert(!is_address_flag(args[i]));
        if is_port_flag(args[i]) {
            if i + 1 < args.len() {
                if let Some(p) = parse_u32_spec(args[i + 1]) {
                    lemma_scan_keeps_address(args, i + 2, Scan { port: Some(p), ..st });
                }
            }
        } else if is_help_flag(args[i]) {
            lemma_scan_keeps_address(args, i + 1, Scan { mode: Mode::Help, ..st });
        } else if i + 1 != args.len() {
            lemma_scan_keeps_address(
                args,
                i + 1,
                Scan {
                    mode: Mode::Help,
                    diagnostics: st.diagnostics.push(DiagnosticView::UnknownArgument(args[i])),
                    ..st
                },
            );
        }
    }
}

/// An address given with `-a`/`--address` right after the mode word, and
/// not given again later, is the address of the run's network settings,
/// whatever `config.toml` holds.
pub proof fn lemma_address_option_overrides_config(
    args: Seq<Seq<char>>,
    toml_network: Option<Network>,
    tmp_path: Seq<char>,
)
    requires
        args.len() >= 4,
        is_address_flag(args[2]),
        address_of(args[3]) is Some,
        forall|k: int| 4 <= k < args.len() ==> !is_address_flag(#[trigger] args[k]),
    ensures
        handle_args_spec(args, toml_network, tmp_path).config.network matches Some(n) ==> n.ip_addr
            == address_of(args[3]),
{
    let st0 = initial_scan(args[1]);
    let st1 = Scan { ip_addr: address_of(args[3]), ..st0 };
    assert(scan_options(args, 2, st0) == scan_options(args, 4, st1));
    lemma_scan_keeps_address(args, 4, st1);
}

/// The state that the reading loop holds, as a `Scan`.
pub open spec fn scan_of(
    mode: Mode,
    ip_addr: Option<Ipv4Address>,
    port: Option<u32>,
    file_path: Option<String>,
    diagnostics: Seq<Diagnostic>,
    fault: Option<ArgsFault>,
) -> Scan {
    Scan {
        mode,
        ip_addr,
        port,
        file_path: opt_text(file_path),
        diagnostics: diagnostics_view(diagnostics),
        fault: opt_fault(fault),
    }
}

/// Whether `a` is the help option.
fn help_flag(a: &str) -> (r: bool)
    ensures
        r == is_help_flag(a@),
{
    proof {
        reveal_strlit("-h");
        reveal_strlit("--help");
    }
    assert("-h"@ =~= seq!['-', 'h']);
    assert("--help"@ =~= seq!['-', '-', 'h', 'e', 'l', 'p']);
    same_text(a, "-h") || same_text(a, "--help")
}

/// Reads the command line into a configuration, as the tool does at start.
/// `args[0]` is the program; `toml_network` holds the network settings of
/// `config.toml`; `tmp_path` is the staging directory of this run.
pub fn get_config_and_handle_args(
    args: &Vec<String>,
    toml_network: &Option<Network>,
    tmp_path: String,
) -> (r: ArgsOutcome)
    requires
        args.len() >= 1,
    ensures
        r@ == handle_args_spec(texts(args@), *toml_network, tmp_path@),
{
    let ghost a = texts(args@);
    let mut diagnostics: Vec<Diagnostic> = Vec::new();
    if args.len() == 1 {
        let r = ArgsOutcome {
            config: Config { mode: Mode::Help, network: None, file_path: None, tmp_path },
            diagnostics,
            fault: None,
        };
        assert(r@.diagnostics =~= Seq::<DiagnosticView>::empty());
        return r;
    }
    let mut mode = parse_mode(args[1].as_str());
    assert(a[1] == args@[1]@);
    if mode == Mode::Help && !help_flag(args[1].as_str()) {
        diagnostics.push(Diagnostic::UnknownMode(copy_text(args[1].as_str())));
    }
    assert(diagnostics_view(diagnostics@) =~= mode_diagnostics(a[1]));
    let mut ip_addr: Option<Ipv4Address> = None;
    let mut port: Option<u32> = None;
    let mut file_path: Option<String> = None;
    let mut fault: Option<ArgsFault> = None;
    let ghost st0 = scan_of(mode, ip_addr, port, file_path, diagnostics@, fault);
    assert(st0 == initial_scan(a[1]));
    let mut i: usize = 2;
    while i < args.len()
        invariant
            a == texts(args@),
            2 <= i <= args.len(),
            fault is Some ==> i == args.len(),
            scan_options(a, 2, st0) == scan_options(
                a,
                i as int,
                scan_of(mode, ip_addr, port, file_path, diagnostics@, fault),
            ),
        decreases args.len() - i,
    {
        assert(a[i as int] == args@[i as int]@);
        let arg = args[i].as_str();
        proof {
            reveal_strlit("-a");
            reveal_strlit("--address");
            reveal_strlit("-p");
            reveal_strlit("--port");
        }
        assert("-a"@ =~= seq!['-', 'a']);
        assert("--address"@ =~= seq!['-', '-', 'a', 'd', 'd', 'r', 'e', 's', 's']);
        assert("-p"@ =~= seq!['-', 'p']);
        assert("--port"@ =~= seq!['-', '-', 'p', 'o', 'r', 't']);
        if same_text(arg, "-a") || same_text(arg, "--address") {
            if i + 1 >= args.len() {
                fault = Some(ArgsFault::MissingValue(copy_text(arg)));
                i = args.len();
            } else {
                assert(a[i + 1] == args@[i + 1]@);
                match parse_address(args[i + 1].as_str()) {
                    Some(ip) => {
                        ip_addr = Some(ip);
                        i = i + 2;
                    },
                    None => {
                        fault = Some(ArgsFault::InvalidAddress(copy_text(args[i + 1].as_str())));
                        i = args.len();
                    },
                }
            }
        } else if same_text(arg, "-p") || same_text(arg, "--port") {
            if i + 1 >= args.len() {
                fault = Some(ArgsFault::MissingValue(copy_text(arg)));
                i = args.len();
            } else {
                assert(a[i + 1] == args@[i + 1]@);
                match parse_u32(args[i + 1].as_str()) {
                    Some(p) => {
                        port = Some(p);
                        i = i + 2;
                    },
                    None => {
                        fault = Some(ArgsFault::InvalidPort(copy_text(args[i + 1].as_str())));
                        i = args.len();
                    },
                }
            }
        } else if help_flag(arg) {
            mode = Mode::Help;
            i = i + 1;
        } else if i + 1 == args.len() {
            file_path = Some(copy_text(arg));
            i = i + 1;
        } else {
            mode = Mode::Help;
            let ghost old_diagnostics = diagnostics@;
            diagnostics.push(Diagnostic::UnknownArgument(copy_text(arg)));
            assert(diagnostics_view(diagnostics@) =~= diagnostics_view(old_diagnostics).push(
                DiagnosticView::UnknownArgument(a[i as int]),
            ));
            i = i + 1;
        }
    }
    let ghost st = scan_of(mode, ip_addr, port, file_path, diagnostics@, fault);
    assert(scan_options(a, 2, st0) == st);
    if fault.is_none() && mode == Mode::Unpack && args.len() == 2 {
        let ghost d0 = diagnostics@;
        diagnostics.push(Diagnostic::MissingFilePath);
        assert(diagnostics_view(diagnostics@) =~= diagnostics_view(d0).push(
            DiagnosticView::MissingFilePath,
        ));
        ArgsOutcome {
            config: Config { mode: Mode::Help, network: None, file_path, tmp_path },
            diagnostics,
            fault,
        }
    } else if fault.is_none() && (mode == Mode::Listen || mode == Mode::Connect) {
        let network = match toml_network {
            Some(t) => Network {
                ip_addr: if ip_addr.is_some() { ip_addr } else { t.ip_addr },
                port: if port.is_some() { port } else { t.port },
            },
            None => Network { ip_addr, port },
        };
        let ghost d0 = diagnostics@;
        if network.ip_addr.is_none() {
            mode = Mode::Help;
            diagnostics.push(Diagnostic::MissingIpAddress);
        }
        let ghost d1 = diagnostics@;
        if network.port.is_none() {
            mode = Mode::Help;
            diagnostics.push(Diagnostic::MissingPort);
        }
        assert(diagnostics_view(d1) =~= (if network.ip_addr is None {
            diagnostics_view(d0).push(DiagnosticView::MissingIpAddress)
        } else {
            diagnostics_view(d0)
        }));
        assert(diagnostics_view(diagnostics@) =~= (if network.port is None {
            diagnostics_view(d1).push(DiagnosticView::MissingPort)
        } else {
            diagnostics_view(d1)
        }));
        ArgsOutcome {
            config: Config { mode, network: Some(network), file_path, tmp_path },
            diagnostics,
            fault,
        }
    } else {
        ArgsOutcome { config: Config { mode, network: None, file_path, tmp_path }, diagnostics, fault }
    }
}

} // verus!
