//! The `croc` builder: global settings shared by sending and receiving.
use vstd::prelude::*;

use super::clipboard_kind::ClipboardKind;
use super::command::{flag, CommandView, CrocCommand, StdioMode};
use super::encryption_curve::{curve_name, EncryptionCurve};
use super::receive::CrocReceive;
use super::relay::{relay_text, IpAddress, IpView, Relay, RelayView};
use super::send::CrocSend;

verus! {

/// A builder that sets up a `croc` instance.
#[derive(Debug)]
pub struct Croc {
    /// The inner `croc` command.
    inner: CrocCommand,
    /// The settings that become arguments when the command is resolved.
    options: CrocOptions,
}

/// The global settings of a [`Croc`] builder.
#[derive(Debug)]
struct CrocOptions {
    /// Use a built-in DNS stub resolver rather than the host operating system
    internal_dns: bool,
    /// Whether to enable debug mode.
    debug: bool,
    /// Automatically agree to all prompts.
    yes: bool,
    /// Whether file compression should be enabled.
    compress: bool,
    /// Force to use only local connections.
    local: bool,
    /// Disables all output.
    quiet: bool,
    /// Whether the code should be copied to the clipboard by `croc`.
    clipboard: ClipboardKind,
    /// The multicast address to use for local discovery.
    multicast: Option<IpAddress>,
    /// The encryption curve to be used when encrypting files.
    curve: EncryptionCurve,
    /// The IP of the sender, if known.
    ip: Option<IpAddress>,
    /// Address of the relay.
    relay: Option<Relay>,
    /// The password of the relay.
    pass: Option<String>,
}

/// The builder's settings as the contracts see them.
#[verifier::ext_equal]
pub struct CrocView {
    pub command: CommandView,
    pub internal_dns: bool,
    pub debug: bool,
    pub yes: bool,
    pub compress: bool,
    pub local: bool,
    pub quiet: bool,
    pub clipboard: ClipboardKind,
    pub multicast: Option<IpView>,
    pub curve: EncryptionCurve,
    pub ip: Option<IpView>,
    pub relay: Option<RelayView>,
    pub pass: Option<Seq<char>>,
}

/// The view of an optional address.
pub open spec fn ip_view(a: Option<IpAddress>) -> Option<IpView> {
    match a {
        Some(a) => Some(a@),
        None => None,
    }
}

impl View for Croc {
    type V = CrocView;

    closed spec fn view(&self) -> CrocView {
        let o = self.options;
        CrocView {
            command: self.inner@,
            internal_dns: o.internal_dns,
            debug: o.debug,
            yes: o.yes,
            compress: o.compress,
            local: o.local,
            quiet: o.quiet,
            clipboard: o.clipboard,
            multicast: ip_view(o.multicast),
            curve: o.curve,
            ip: ip_view(o.ip),
            relay: relay_view(o.relay),
            pass: text_view(o.pass),
        }
    }
}

/// A fresh builder for `program`: it runs without a console window, with
/// stdin and stdout on the null device and stderr piped back (all that `croc`
/// reports comes on stderr), and with `--yes` and compression on.
pub open spec fn fresh_croc(program: Seq<char>) -> CrocView {
    CrocView {
        command: CommandView {
            program,
            args: seq![],
            envs: seq![],
            stdin: StdioMode::Null,
            stdout: StdioMode::Null,
            stderr: StdioMode::Piped,
            hide_window: true,
        },
        internal_dns: false,
        debug: false,
        yes: true,
        compress: true,
        local: false,
        quiet: false,
        clipboard: ClipboardKind::Enabled,
        multicast: None,
        curve: EncryptionCurve::P256,
        ip: None,
        relay: None,
        pass: None,
    }
}

/// `name` followed by the address, when there is one.
pub open spec fn address_arg(name: Seq<char>, a: Option<IpView>) -> Seq<Seq<char>> {
    match a {
        Some(a) => seq![name + a.text()],
        None => seq![],
    }
}

/// `croc` copies the code to the clipboard unless told otherwise.
pub open spec fn clipboard_args(k: ClipboardKind) -> Seq<Seq<char>> {
    match k {
        ClipboardKind::Disabled => seq!["--disable-clipboard"@],
        ClipboardKind::Extended => seq!["--extended-clipboard"@],
        ClipboardKind::Enabled => seq![],
    }
}

/// The curve is passed on unless it is `croc`'s own default, P-256.
pub open spec fn curve_args(c: EncryptionCurve) -> Seq<Seq<char>> {
    match c {
        EncryptionCurve::P256 => seq![],
        _ => seq!["--curve="@ + curve_name(c)],
    }
}

/// The first switches among the global settings, in order.
pub open spec fn resolver_switches(internal_dns: bool, debug: bool, yes: bool) -> Seq<Seq<char>> {
    flag(internal_dns, "--internal-dns"@) + flag(debug, "--debug"@) + flag(yes, "--yes"@)
}

/// The other switches among the global settings, in order: compression is
/// on unless `--no-compress` is given.
pub open spec fn transfer_switches(compress: bool, local: bool, quiet: bool) -> Seq<Seq<char>> {
    flag(!compress, "--no-compress"@) + flag(local, "--local"@) + flag(quiet, "--quiet"@)
}

/// The variable that names an IPv4 relay is `CROC_RELAY`, an IPv6 one `CROC_RELAY6`.
pub open spec fn relay_env(r: Option<RelayView>) -> Seq<(Seq<char>, Seq<char>)> {
    match r {
        Some(r) => seq![(relay_key(r), relay_text(r))],
        None => seq![],
    }
}

/// The relay's password goes in `CROC_PASS`.
pub open spec fn pass_env(p: Option<Seq<char>>) -> Seq<(Seq<char>, Seq<char>)> {
    match p {
        Some(p) => seq![("CROC_PASS"@, p)],
        None => seq![],
    }
}

/// The environment that the global settings add: the relay, then its password.
pub open spec fn croc_envs(c: CrocView) -> Seq<(Seq<char>, Seq<char>)> {
    relay_env(c.relay) + pass_env(c.pass)
}

/// The view of an optional relay.
pub open spec fn relay_view(r: Option<Relay>) -> Option<RelayView> {
    match r {
        Some(r) => Some(r@),
        None => None,
    }
}

/// The text of an optional string.
pub open spec fn text_view(t: Option<String>) -> Option<Seq<char>> {
    match t {
        Some(t) => Some(t@),
        None => None,
    }
}

/// The command with the global settings applied: their arguments added at
/// the end (the switches, the multicast and sender addresses, the clipboard
/// behaviour, then the curve), and their environment (the relay, then its
/// password).
pub open spec fn croc_command(c: CrocView) -> CommandView {
    let args = c.command.args + resolver_switches(c.internal_dns, c.debug, c.yes)
        + transfer_switches(c.compress, c.local, c.quiet);
    CommandView {
        args: args + address_arg("--multicast="@, c.multicast) + address_arg("--ip="@, c.ip)
            + clipboard_args(c.clipboard) + curve_args(c.curve),
        envs: c.command.envs + croc_envs(c),
        ..c.command
    }
}

impl Croc {
    /// Creates a [`Croc`] builder that runs the `croc` found on the path.
    pub fn new() -> (r: Self)
        ensures
            r@ == fresh_croc("croc"@),
    {
        Self::new_with_path(String::from_str("croc"))
    }

    /// Creates a [`Croc`] builder with the provided executable name.
    pub fn new_with_path(name: String) -> (r: Self)
        ensures
            r@ == fresh_croc(name@),
    {
        let inner = CrocCommand::new(name);
        let options = CrocOptions {
            internal_dns: false,
            debug: false,
            yes: true,
            compress: true,
            local: false,
            clipboard: ClipboardKind::Enabled,
            quiet: false,
            multicast: None,
            curve: EncryptionCurve::P256,
            ip: None,
            relay: None,
            pass: None,
        };
        let croc = Self { inner, options };
        croc.no_window().no_stdin().no_stdout().pipe_stderr()
    }

    /// Sets if `croc` should use a built-in DNS stub resolver rather than the host operating system. (Default: `false`)
    pub fn internal_dns(self, value: bool) -> (r: Self)
        ensures
            r@ == (CrocView { internal_dns: value, ..self@ }),
    {
        let mut s = self;
        s.options.internal_dns = value;
        s
    }

    /// Sets the debug mode. (Default: `false`)
    pub fn debug(self, value: bool) -> (r: Self)
        ensures
            r@ == (CrocView { debug: value, ..self@ }),
    {
        let mut s = self;
        s.options.debug = value;
        s
    }

    /// Sets the `--yes` argument in `croc`, automatically agreeing to all prompts. (Default: `true`)
    pub fn yes(self, value: bool) -> (r: Self)
        ensures
            r@ == (CrocView { yes: value, ..self@ }),
    {
        let mut s = self;
        s.options.yes = value;
        s
    }

    /// Sets whether compression should be enabled or not. (Default: `true`)
    pub fn compress(self, value: bool) -> (r: Self)
        ensures
            r@ == (CrocView { compress: value, ..self@ }),
    {
        let mut s = self;
        s.options.compress = value;
        s
    }

    /// Forces `croc` to only use local connections. (Default: `false`)
    pub fn local(self, value: bool) -> (r: Self)
        ensures
            r@ == (CrocView { local: value, ..self@ }),
    {
        let mut s = self;
        s.options.local = value;
        s
    }

    /// Sets whether output should be disabled. (Default: `false`)
    pub fn quiet(self, value: bool) -> (r: Self)
        ensures
            r@ == (CrocView { quiet: value, ..self@ }),
    {
        let mut s = self;
        s.options.quiet = value;
        s
    }

    /// Sets the copy to clipboard behaviour for `croc`. (Default: [`ClipboardKind::Enabled`])
    pub fn clipboard(self, kind: ClipboardKind) -> (r: Self)
        ensures
            r@ == (CrocView { clipboard: kind, ..self@ }),
    {
        let mut s = self;
        s.options.clipboard = kind;
        s
    }

    /// Sets the multicast address for local discovery. (Default: `croc`'s own, `239.255.255.250`)
    pub fn multicast(self, address: IpAddress) -> (r: Self)
        ensures
            r@ == (CrocView { multicast: Some(address@), ..self@ }),
    {
        let mut s = self;
        s.options.multicast = Some(address);
        s
    }

    /// Sets the encryption curve to be used by `croc`. (Default: [`EncryptionCurve::P256`])
    pub fn curve(self, curve: EncryptionCurve) -> (r: Self)
        ensures
            r@ == (CrocView { curve, ..self@ }),
    {
        let mut s = self;
        s.options.curve = curve;
        s
    }

    /// Specifies the IP address of the sender, if known. (Default: `None`)
    pub fn ip(self, ip: IpAddress) -> (r: Self)
        ensures
            r@ == (CrocView { ip: Some(ip@), ..self@ }),
    {
        let mut s = self;
        s.options.ip = Some(ip);
        s
    }

    /// Specifies the address of the relay. (Default: `croc`'s own public relay)
    pub fn relay(self, ip: IpAddress, port: u16) -> (r: Self)
        ensures
            r@ == (CrocView { relay: Some(RelayView { address: ip@, port }), ..self@ }),
    {
        let mut s = self;
        s.options.relay = Some(Relay::new(ip, port));
        s
    }

    /// Specifies the password of the relay. (Default: `croc`'s own, `pass123`)
    pub fn pass(self, pass: String) -> (r: Self)
        ensures
            r@ == (CrocView { pass: Some(pass@), ..self@ }),
    {
        let mut s = self;
        s.options.pass = Some(pass);
        s
    }

    /// Disables croc stdout.
    pub fn no_stdout(self) -> (r: Self)
        ensures
            r@ == (CrocView {
                command: CommandView { stdout: StdioMode::Null, ..self@.command },
                ..self@
            }),
    {
        let mut s = self;
        s.inner.stdout = StdioMode::Null;
        s
    }

    /// Disables croc stdin.
    pub fn no_stdin(self) -> (r: Self)
        ensures
            r@ == (CrocView {
                command: CommandView { stdin: StdioMode::Null, ..self@.command },
                ..self@
            }),
    {
        let mut s = self;
        s.inner.stdin = StdioMode::Null;
        s
    }

    /// Disables croc stderr.
    pub fn no_stderr(self) -> (r: Self)
        ensures
            r@ == (CrocView {
                command: CommandView { stderr: StdioMode::Null, ..self@.command },
                ..self@
            }),
    {
        let mut s = self;
        s.inner.stderr = StdioMode::Null;
        s
    }

    /// Pipes stderr for reading. All metadata croc gives us comes from stderr.
    pub fn pipe_stderr(self) -> (r: Self)
        ensures
            r@ == (CrocView {
                command: CommandView { stderr: StdioMode::Piped, ..self@.command },
                ..self@
            }),
    {
        let mut s = self;
        s.inner.stderr = StdioMode::Piped;
        s
    }

    /// Pipes stdout for reading. Croc can output received files to stdout.
    pub fn pipe_stdout(self) -> (r: Self)
        ensures
            r@ == (CrocView {
                command: CommandView { stdout: StdioMode::Piped, ..self@.command },
                ..self@
            }),
    {
        let mut s = self;
        s.inner.stdout = StdioMode::Piped;
        s
    }

    /// Pipes stdin for writing. Used for sending passphrases or other input.
    pub fn pipe_stdin(self) -> (r: Self)
        ensures
            r@ == (CrocView {
                command: CommandView { stdin: StdioMode::Piped, ..self@.command },
                ..self@
            }),
    {
        let mut s = self;
        s.inner.stdin = StdioMode::Piped;
        s
    }

    /// Disables the console window on Windows.
    /// Highly recommended for GUI applications.
    pub fn no_window(self) -> (r: Self)
        ensures
            r@ == (CrocView {
                command: CommandView { hide_window: true, ..self@.command },
                ..self@
            }),
    {
        let mut s = self;
        s.inner.hide_window = true;
        s
    }

    /// Sets up croc to send files: the global settings go first on the
    /// command line, then the `send` subcommand.
    pub fn send(self) -> (r: CrocSend)
        ensures
            r@ == CrocSend::fresh(
                CommandView {
                    args: croc_command(self@).args.push("send"@),
                    ..croc_command(self@)
                },
            ),
    {
        let mut c = self;
        c.parse_options();
        CrocSend::new(c.inner)
    }

    /// Sets up `croc` to receive files.
    pub fn receive(self) -> (r: CrocReceive)
        ensures
            r@ == CrocReceive::fresh(croc_command(self@)),
    {
        let mut c = self;
        c.parse_options();
        CrocReceive::new(c.inner)
    }

    /// Use the settings in `self` to add their respective arguments to the
    /// `croc` command: the command becomes `croc_command` of the settings,
    /// which themselves stay as they are.
    pub fn parse_options(&mut self)
        ensures
            final(self)@ == (CrocView { command: croc_command(old(self)@), ..old(self)@ }),
    {
        self.options.apply(&mut self.inner);
    }

    /// The command as it stands, without the global settings applied.
    pub fn into_command(self) -> (c: CrocCommand)
        ensures
            c@ == self@.command,
    {
        self.inner
    }
}

impl CrocOptions {
    /// The builder view with these settings on `command`.
    spec fn with_command(self, command: CommandView) -> CrocView {
        CrocView {
            command,
            internal_dns: self.internal_dns,
            debug: self.debug,
            yes: self.yes,
            compress: self.compress,
            local: self.local,
            quiet: self.quiet,
            clipboard: self.clipboard,
            multicast: ip_view(self.multicast),
            curve: self.curve,
            ip: ip_view(self.ip),
            relay: relay_view(self.relay),
            pass: text_view(self.pass),
        }
    }

    /// The first three switches.
    fn apply_resolver_switches(&self, cmd: &mut CrocCommand)
        ensures
            final(cmd)@ == (CommandView {
                args: old(cmd)@.args + resolver_switches(self.internal_dns, self.debug, self.yes),
                ..old(cmd)@
            }),
    {
        let ghost a0 = cmd@.args;
        cmd.arg_if(self.internal_dns, "--internal-dns");
        cmd.arg_if(self.debug, "--debug");
        cmd.arg_if(self.yes, "--yes");
        assert(cmd@.args =~= a0 + resolver_switches(self.internal_dns, self.debug, self.yes));
    }

    /// The last three switches.
    fn apply_transfer_switches(&self, cmd: &mut CrocCommand)
        ensures
            final(cmd)@ == (CommandView {
                args: old(cmd)@.args + transfer_switches(self.compress, self.local, self.quiet),
                ..old(cmd)@
            }),
    {
        let ghost a0 = cmd@.args;
        cmd.arg_if(!self.compress, "--no-compress");
        cmd.arg_if(self.local, "--local");
        cmd.arg_if(self.quiet, "--quiet");
        assert(cmd@.args =~= a0 + transfer_switches(self.compress, self.local, self.quiet));
    }

    /// The multicast and sender addresses.
    fn apply_addresses(&self, cmd: &mut CrocCommand)
        ensures
            final(cmd)@ == (CommandView {
                args: old(cmd)@.args + address_arg("--multicast="@, ip_view(self.multicast))
                    + address_arg("--ip="@, ip_view(self.ip)),
                ..old(cmd)@
            }),
    {
        let ghost a0 = cmd@.args;
        if let Some(address) = &self.multicast {
            cmd.arg(String::from_str("--multicast=").concat(address.text()));
        }
        let ghost a1 = cmd@.args;
        assert(a1 =~= a0 + address_arg("--multicast="@, ip_view(self.multicast)));
        if let Some(address) = &self.ip {
            cmd.arg(String::from_str("--ip=").concat(address.text()));
        }
        assert(cmd@.args =~= a1 + address_arg("--ip="@, ip_view(self.ip)));
    }

    /// The relay and its password go into the environment.
    fn apply_relay(&self, cmd: &mut CrocCommand)
        ensures
            final(cmd)@ == (CommandView {
                envs: old(cmd)@.envs + relay_env(relay_view(self.relay)) + pass_env(
                    text_view(self.pass),
                ),
                ..old(cmd)@
            }),
    {
        let ghost e0 = cmd@.envs;
        if let Some(relay) = &self.relay {
            let key = if relay.address.is_ipv4() {
                String::from_str("CROC_RELAY")
            } else {
                String::from_str("CROC_RELAY6")
            };
            cmd.env(key, relay.to_string());
        }
        let ghost e1 = cmd@.envs;
        assert(e1 =~= e0 + relay_env(relay_view(self.relay)));
        if let Some(pass) = &self.pass {
            cmd.env(String::from_str("CROC_PASS"), pass.clone());
        }
        assert(cmd@.envs =~= e1 + pass_env(text_view(self.pass)));
    }

    /// The clipboard behaviour and the curve.
    fn apply_crypto(&self, cmd: &mut CrocCommand)
        ensures
            final(cmd)@ == (CommandView {
                args: old(cmd)@.args + clipboard_args(self.clipboard) + curve_args(self.curve),
                ..old(cmd)@
            }),
    {
        let ghost a0 = cmd@.args;
        match self.clipboard {
            ClipboardKind::Disabled => {
                cmd.arg(String::from_str("--disable-clipboard"));
            },
            ClipboardKind::Extended => {
                cmd.arg(String::from_str("--extended-clipboard"));
            },
            ClipboardKind::Enabled => {},
        }
        let ghost a1 = cmd@.args;
        assert(a1 =~= a0 + clipboard_args(self.clipboard));
        match self.curve {
            EncryptionCurve::P256 => {},
            curve => {
                cmd.arg(String::from_str("--curve=").concat(curve.as_str()));
            },
        }
        assert(cmd@.args =~= a1 + curve_args(self.curve));
    }

    /// Adds the arguments and environment of these settings to `cmd`.
    fn apply(&self, cmd: &mut CrocCommand)
        ensures
            final(cmd)@ == croc_command(self.with_command(old(cmd)@)),
    {
        let ghost c = self.with_command(cmd@);
        let ghost e0 = cmd@.envs;
        self.apply_resolver_switches(cmd);
        self.apply_transfer_switches(cmd);
        self.apply_addresses(cmd);
        self.apply_relay(cmd);
        assert(cmd@.envs =~= e0 + croc_envs(c));
        self.apply_crypto(cmd);
        assert(cmd@.args == croc_command(c).args);
    }
}

impl Default for Croc {
    fn default() -> (r: Self)
        ensures
            r@ == fresh_croc("croc"@),
    {
        Self::new()
    }
}

// ---------------------------------------------------------------------------
// Laws of the global settings
// ---------------------------------------------------------------------------

/// The arguments that the global settings add, in order.
pub open spec fn global_args(c: CrocView) -> Seq<Seq<char>> {
    resolver_switches(c.internal_dns, c.debug, c.yes) + transfer_switches(
        c.compress,
        c.local,
        c.quiet,
    ) + address_arg("--multicast="@, c.multicast) + address_arg("--ip="@, c.ip) + clipboard_args(
        c.clipboard,
    ) + curve_args(c.curve)
}

/// Whether some variable in `envs` is named `key`.
pub open spec fn sets_key(envs: Seq<(Seq<char>, Seq<char>)>, key: Seq<char>) -> bool {
    exists|i: int| 0 <= i < envs.len() && #[trigger] envs[i].0 == key
}

pub(crate) proof fn lemma_concat_contains<A>(a: Seq<A>, b: Seq<A>)
    ensures
        forall|x: A| #[trigger] (a + b).contains(x) <==> a.contains(x) || b.contains(x),
{
    assert forall|x: A| #[trigger] (a + b).contains(x) <==> a.contains(x) || b.contains(x) by {
        if (a + b).contains(x) {
            let i = choose|i: int| 0 <= i < (a + b).len() && (a + b)[i] == x;
            if i < a.len() {
                assert(a[i] == x);
            } else {
                assert(b[i - a.len()] == x);
            }
        }
        if a.contains(x) {
            let i = choose|i: int| 0 <= i < a.len() && a[i] == x;
            assert((a + b)[i] == x);
        }
        if b.contains(x) {
            let i = choose|i: int| 0 <= i < b.len() && b[i] == x;
            assert((a + b)[a.len() + i] == x);
        }
    }
}

pub(crate) proof fn lemma_single_contains(a: Seq<char>)
    ensures
        forall|x: Seq<char>| #[trigger] seq![a].contains(x) <==> a == x,
{
    assert forall|x: Seq<char>| #[trigger] seq![a].contains(x) <==> a == x by {
        if a == x {
            assert(seq![a][0] == x);
        }
    }
}

/// `p + t` is not `x` when they differ at position `k` of `p`.
pub(crate) proof fn lemma_differs_at(p: Seq<char>, t: Seq<char>, x: Seq<char>, k: int)
    requires
        0 <= k < p.len(),
        k < x.len(),
        p[k] != x[k],
    ensures
        p + t != x,
{
    assert((p + t)[k] == p[k]);
}

/// A literal that does not read `m`, `c` or `ip` after its two dashes is
/// neither an address nor a curve argument.
proof fn lemma_not_address_or_curve(c: CrocView, x: Seq<char>)
    requires
        x.len() >= 4,
        x[2] != 'm',
        x[2] != 'c',
        x[2] != 'i' || x[3] != 'p',
    ensures
        !address_arg("--multicast="@, c.multicast).contains(x),
        !address_arg("--ip="@, c.ip).contains(x),
        !curve_args(c.curve).contains(x),
{
    reveal_strlit("--multicast=");
    reveal_strlit("--ip=");
    reveal_strlit("--curve=");
    if let Some(a) = c.multicast {
        lemma_differs_at("--multicast="@, a.text(), x, 2);
        lemma_single_contains("--multicast="@ + a.text());
    }
    if let Some(a) = c.ip {
        if x[2] != 'i' {
            lemma_differs_at("--ip="@, a.text(), x, 2);
        } else {
            lemma_differs_at("--ip="@, a.text(), x, 3);
        }
        lemma_single_contains("--ip="@ + a.text());
    }
    if c.curve != EncryptionCurve::P256 {
        lemma_differs_at("--curve="@, curve_name(c.curve), x, 2);
        lemma_single_contains("--curve="@ + curve_name(c.curve));
    }
}

/// Which of the fixed switches the global settings add.
proof fn lemma_global_args_hold(c: CrocView)
    ensures
        global_args(c).contains("--internal-dns"@) <==> c.internal_dns,
        global_args(c).contains("--debug"@) <==> c.debug,
        global_args(c).contains("--yes"@) <==> c.yes,
        global_args(c).contains("--no-compress"@) <==> !c.compress,
        global_args(c).contains("--local"@) <==> c.local,
        global_args(c).contains("--quiet"@) <==> c.quiet,
        global_args(c).contains("--disable-clipboard"@) <==> c.clipboard == ClipboardKind::Disabled,
        global_args(c).contains("--extended-clipboard"@) <==> c.clipboard
            == ClipboardKind::Extended,
{
    reveal_strlit("--internal-dns");
    reveal_strlit("--debug");
    reveal_strlit("--yes");
    reveal_strlit("--no-compress");
    reveal_strlit("--local");
    reveal_strlit("--quiet");
    reveal_strlit("--disable-clipboard");
    reveal_strlit("--extended-clipboard");
    assert("--debug"@[2] == 'd');
    assert("--local"@[2] == 'l');
    assert("--quiet"@[2] == 'q');
    let f1 = flag(c.internal_dns, "--internal-dns"@);
    let f2 = flag(c.debug, "--debug"@);
    let f3 = flag(c.yes, "--yes"@);
    let f4 = flag(!c.compress, "--no-compress"@);
    let f5 = flag(c.local, "--local"@);
    let f6 = flag(c.quiet, "--quiet"@);
    let m = address_arg("--multicast="@, c.multicast);
    let i = address_arg("--ip="@, c.ip);
    let cl = clipboard_args(c.clipboard);
    let cu = curve_args(c.curve);
    lemma_concat_contains(f1, f2);
    lemma_concat_contains(f1 + f2, f3);
    lemma_concat_contains(f4, f5);
    lemma_concat_contains(f4 + f5, f6);
    let r = f1 + f2 + f3;
    let t = f4 + f5 + f6;
    lemma_concat_contains(r, t);
    lemma_concat_contains(r + t, m);
    lemma_concat_contains(r + t + m, i);
    lemma_concat_contains(r + t + m + i, cl);
    lemma_concat_contains(r + t + m + i + cl, cu);
    assert(global_args(c) == r + t + m + i + cl + cu);
    lemma_single_contains("--internal-dns"@);
    lemma_single_contains("--debug"@);
    lemma_single_contains("--yes"@);
    lemma_single_contains("--no-compress"@);
    lemma_single_contains("--local"@);
    lemma_single_contains("--quiet"@);
    lemma_single_contains("--disable-clipboard"@);
    lemma_single_contains("--extended-clipboard"@);
    lemma_not_address_or_curve(c, "--internal-dns"@);
    lemma_not_address_or_curve(c, "--debug"@);
    lemma_not_address_or_curve(c, "--yes"@);
    lemma_not_address_or_curve(c, "--no-compress"@);
    lemma_not_address_or_curve(c, "--local"@);
    lemma_not_address_or_curve(c, "--quiet"@);
    lemma_not_address_or_curve(c, "--disable-clipboard"@);
    lemma_not_address_or_curve(c, "--extended-clipboard"@);
}

/// No argument before the curve starts with `--curve=`.
proof fn lemma_no_curve_before(c: CrocView)
    ensures
        forall|x: Seq<char>|
            (resolver_switches(c.internal_dns, c.debug, c.yes) + transfer_switches(
                c.compress,
                c.local,
                c.quiet,
            ) + address_arg("--multicast="@, c.multicast) + address_arg("--ip="@, c.ip)
                + clipboard_args(c.clipboard)).contains(x) ==> !names_curve(x),
{
    reveal_strlit("--curve=");
    reveal_strlit("--internal-dns");
    reveal_strlit("--debug");
    reveal_strlit("--yes");
    reveal_strlit("--no-compress");
    reveal_strlit("--local");
    reveal_strlit("--quiet");
    reveal_strlit("--disable-clipboard");
    reveal_strlit("--extended-clipboard");
    reveal_strlit("--multicast=");
    reveal_strlit("--ip=");
    let f1 = flag(c.internal_dns, "--internal-dns"@);
    let f2 = flag(c.debug, "--debug"@);
    let f3 = flag(c.yes, "--yes"@);
    let f4 = flag(!c.compress, "--no-compress"@);
    let f5 = flag(c.local, "--local"@);
    let f6 = flag(c.quiet, "--quiet"@);
    let m = address_arg("--multicast="@, c.multicast);
    let i = address_arg("--ip="@, c.ip);
    let cl = clipboard_args(c.clipboard);
    lemma_concat_contains(f1, f2);
    lemma_concat_contains(f1 + f2, f3);
    lemma_concat_contains(f4, f5);
    lemma_concat_contains(f4 + f5, f6);
    let r = f1 + f2 + f3;
    let t = f4 + f5 + f6;
    lemma_concat_contains(r, t);
    lemma_concat_contains(r + t, m);
    lemma_concat_contains(r + t + m, i);
    lemma_concat_contains(r + t + m + i, cl);
    lemma_single_contains("--internal-dns"@);
    lemma_single_contains("--debug"@);
    lemma_single_contains("--yes"@);
    lemma_single_contains("--no-compress"@);
    lemma_single_contains("--local"@);
    lemma_single_contains("--quiet"@);
    lemma_single_contains("--disable-clipboard"@);
    lemma_single_contains("--extended-clipboard"@);
    if let Some(a) = c.multicast {
        lemma_single_contains("--multicast="@ + a.text());
        assert(("--multicast="@ + a.text())[2] == 'm');
    }
    if let Some(a) = c.ip {
        lemma_single_contains("--ip="@ + a.text());
        assert(("--ip="@ + a.text())[2] == 'i');
    }
    assert forall|x: Seq<char>|
        (r + t + m + i + cl).contains(x) implies !names_curve(x) by {
        if names_curve(x) {
            assert(x[2] == x.take(8)[2]);
            assert(x[2] == 'c');
        }
    }
}

proof fn lemma_add_assoc<A>(a: Seq<A>, b: Seq<A>, c: Seq<A>)
    ensures
        a + (b + c) == a + b + c,
{
    assert(a + (b + c) =~= a + b + c);
}

/// The global settings add their arguments after those already on the
/// command, and their variables after those already in its environment.
pub proof fn lemma_global_settings_appended(c: CrocView)
    ensures
        croc_command(c).args == c.command.args + global_args(c),
        croc_command(c).envs == c.command.envs + croc_envs(c),
        croc_command(c).args.take(c.command.args.len() as int) == c.command.args,
{
    let a = c.command.args;
    let r = resolver_switches(c.internal_dns, c.debug, c.yes);
    let t = transfer_switches(c.compress, c.local, c.quiet);
    let m = address_arg("--multicast="@, c.multicast);
    let i = address_arg("--ip="@, c.ip);
    let cl = clipboard_args(c.clipboard);
    let cu = curve_args(c.curve);
    assert(croc_command(c).args == a + r + t + m + i + cl + cu);
    assert(global_args(c) == r + t + m + i + cl + cu);
    lemma_add_assoc(a, r, t);
    lemma_add_assoc(a, r + t, m);
    lemma_add_assoc(a, r + t + m, i);
    lemma_add_assoc(a, r + t + m + i, cl);
    lemma_add_assoc(a, r + t + m + i + cl, cu);
    assert((a + global_args(c)).take(a.len() as int) =~= a);
}

/// The switch for each yes-or-no setting is among the added arguments
/// exactly when the setting asks for it: `--internal-dns`, `--debug`,
/// `--yes`, `--local` and `--quiet` when on, `--no-compress` when
/// compression is off.
pub proof fn lemma_switches_follow_settings(c: CrocView)
    ensures
        global_args(c).contains("--internal-dns"@) <==> c.internal_dns,
        global_args(c).contains("--debug"@) <==> c.debug,
        global_args(c).contains("--yes"@) <==> c.yes,
        global_args(c).contains("--no-compress"@) <==> !c.compress,
        global_args(c).contains("--local"@) <==> c.local,
        global_args(c).contains("--quiet"@) <==> c.quiet,
{
    lemma_global_args_hold(c);
}

/// The clipboard behaviour: `--disable-clipboard` is added exactly when it
/// is disabled, `--extended-clipboard` exactly when it is extended; the
/// default, enabled, adds neither.
pub proof fn lemma_clipboard_follows_setting(c: CrocView)
    ensures
        global_args(c).contains("--disable-clipboard"@) <==> c.clipboard == ClipboardKind::Disabled,
        global_args(c).contains("--extended-clipboard"@) <==> c.clipboard
            == ClipboardKind::Extended,
{
    lemma_global_args_hold(c);
}

/// Whether an argument starts with `--curve=`.
pub open spec fn names_curve(a: Seq<char>) -> bool {
    a.len() >= 8 && a.take(8) == "--curve="@
}

/// The curve: the added arguments that start with `--curve=` are none for
/// the default P-256, else the one `--curve=<name>` of the chosen curve.
pub proof fn lemma_curve_follows_setting(c: CrocView)
    ensures
        global_args(c).filter(|a: Seq<char>| names_curve(a)) == curve_args(c.curve),
{
    let is_curve = |a: Seq<char>| names_curve(a);
    let head = resolver_switches(c.internal_dns, c.debug, c.yes) + transfer_switches(
        c.compress,
        c.local,
        c.quiet,
    ) + address_arg("--multicast="@, c.multicast) + address_arg("--ip="@, c.ip) + clipboard_args(
        c.clipboard,
    );
    assert(global_args(c) == head + curve_args(c.curve));
    Seq::filter_distributes_over_add(head, curve_args(c.curve), is_curve);
    lemma_no_curve_before(c);
    assert forall|i: int| 0 <= i < head.len() implies !is_curve(#[trigger] head[i]) by {
        assert(head.contains(head[i]));
    }
    lemma_filter_none(head, is_curve);
    lemma_curve_args_filtered(c.curve);
    assert(head.filter(is_curve) + curve_args(c.curve).filter(is_curve) =~= curve_args(c.curve));
}

proof fn lemma_curve_args_filtered(curve: EncryptionCurve)
    ensures
        curve_args(curve).filter(|a: Seq<char>| names_curve(a)) == curve_args(curve),
{
    let is_curve = |a: Seq<char>| names_curve(a);
    reveal(Seq::filter);
    if curve != EncryptionCurve::P256 {
        reveal_strlit("--curve=");
        let a = "--curve="@ + curve_name(curve);
        assert(a.take(8) =~= "--curve="@);
        assert(is_curve(a));
        let s = seq![a];
        assert(s.drop_last() =~= Seq::<Seq<char>>::empty());
        assert(s.drop_last().filter(is_curve) =~= Seq::<Seq<char>>::empty());
        assert(s.filter(is_curve) =~= s);
    }
}

/// The variable that names a relay: `CROC_RELAY` for an IPv4 address,
/// `CROC_RELAY6` for an IPv6 one.
pub open spec fn relay_key(r: RelayView) -> Seq<char> {
    if r.address is V4 {
        "CROC_RELAY"@
    } else {
        "CROC_RELAY6"@
    }
}

proof fn lemma_env_keys(c: CrocView)
    ensures
        forall|i: int|
            0 <= i < croc_envs(c).len() ==> (#[trigger] croc_envs(c)[i]).0 == "CROC_PASS"@ || (
            c.relay is Some && croc_envs(c)[i] == (relay_key(c.relay->0), relay_text(
                c.relay->0,
            ))),
        forall|i: int|
            0 <= i < croc_envs(c).len() && (#[trigger] croc_envs(c)[i]).0 == "CROC_PASS"@
                ==> c.pass is Some && croc_envs(c)[i].1 == c.pass->0,
{
    reveal_strlit("CROC_PASS");
    reveal_strlit("CROC_RELAY");
    reveal_strlit("CROC_RELAY6");
    assert forall|i: int|
        0 <= i < croc_envs(c).len() && (#[trigger] croc_envs(c)[i]).0 == "CROC_PASS"@ implies c.pass
        is Some && croc_envs(c)[i].1 == c.pass->0 by {
        if i < relay_env(c.relay).len() {
            assert(croc_envs(c)[i] == relay_env(c.relay)[i]);
            assert(relay_key(c.relay->0).len() >= 10);
            assert(false);
        } else {
            assert(croc_envs(c)[i] == pass_env(c.pass)[i - relay_env(c.relay).len()]);
        }
    }
    assert forall|i: int| 0 <= i < croc_envs(c).len() implies (#[trigger] croc_envs(c)[i]).0
        == "CROC_PASS"@ || (c.relay is Some && croc_envs(c)[i] == (
        relay_key(c.relay->0),
        relay_text(c.relay->0),
    )) by {
        if i < relay_env(c.relay).len() {
            assert(croc_envs(c)[i] == relay_env(c.relay)[i]);
        } else {
            assert(croc_envs(c)[i] == pass_env(c.pass)[i - relay_env(c.relay).len()]);
        }
    }
}

/// The relay reaches `croc` through its environment only: the arguments do
/// not depend on it; a relay is set in the variable of its family, and the
/// variable of the other family is not set; without a relay neither is set.
pub proof fn lemma_relay_goes_to_environment(c: CrocView)
    ensures
        croc_command(c).args == croc_command(CrocView { relay: None, ..c }).args,
        c.relay is Some ==> croc_envs(c).contains(
            (relay_key(c.relay->0), relay_text(c.relay->0)),
        ),
        c.relay is Some ==> !sets_key(
            croc_envs(c),
            if c.relay->0.address is V4 {
                "CROC_RELAY6"@
            } else {
                "CROC_RELAY"@
            },
        ),
        c.relay is None ==> !sets_key(croc_envs(c), "CROC_RELAY"@) && !sets_key(
            croc_envs(c),
            "CROC_RELAY6"@,
        ),
{
    reveal_strlit("CROC_PASS");
    reveal_strlit("CROC_RELAY");
    reveal_strlit("CROC_RELAY6");
    assert("CROC_PASS"@[5] == 'P');
    assert("CROC_RELAY"@[5] == 'R');
    assert("CROC_RELAY6"@[5] == 'R');
    lemma_env_keys(c);
    if let Some(r) = c.relay {
        assert(croc_envs(c)[0] == (relay_key(r), relay_text(r)));
        let other = if r.address is V4 {
            "CROC_RELAY6"@
        } else {
            "CROC_RELAY"@
        };
        assert(relay_key(r) != other) by {
            assert(relay_key(r).len() != other.len());
        }
        if sets_key(croc_envs(c), other) {
            let i = choose|i: int| 0 <= i < croc_envs(c).len() && #[trigger] croc_envs(c)[i].0 == other;
            assert(croc_envs(c)[i].0 == "CROC_PASS"@ || croc_envs(c)[i].0 == relay_key(r));
        }
    }
}

/// The relay's password reaches `croc` through its environment only: the
/// arguments do not depend on it; when set it is in `CROC_PASS`, and when
/// not, `CROC_PASS` is not set.
pub proof fn lemma_pass_goes_to_environment(c: CrocView, p: Seq<char>)
    ensures
        croc_command(CrocView { pass: Some(p), ..c }).args == croc_command(
            CrocView { pass: None, ..c },
        ).args,
        croc_envs(CrocView { pass: Some(p), ..c }).contains(("CROC_PASS"@, p)),
        !sets_key(croc_envs(CrocView { pass: None, ..c }), "CROC_PASS"@),
{
    let with = CrocView { pass: Some(p), ..c };
    let without = CrocView { pass: None, ..c };
    lemma_env_keys(without);
    let n = relay_env(c.relay).len();
    assert(croc_envs(with)[n as int] == ("CROC_PASS"@, p));
}

proof fn lemma_filter_none(s: Seq<Seq<char>>, f: spec_fn(Seq<char>) -> bool)
    requires
        forall|i: int| 0 <= i < s.len() ==> !f(#[trigger] s[i]),
    ensures
        s.filter(f) == Seq::<Seq<char>>::empty(),
    decreases s.len(),
{
    reveal(Seq::filter);
    if s.len() > 0 {
        let t = s.drop_last();
        assert forall|i: int| 0 <= i < t.len() implies !f(#[trigger] t[i]) by {
            assert(t[i] == s[i]);
        }
        lemma_filter_none(t, f);
    }
}

/// A sender address and a multicast address, IPv4 or IPv6 alike, each reach
/// the command line as `--ip=` or `--multicast=` followed by the address as
/// text.
pub proof fn lemma_addresses_reach_arguments(c: CrocView)
    ensures
        c.ip matches Some(a) ==> global_args(c).contains("--ip="@ + a.text()),
        c.multicast matches Some(a) ==> global_args(c).contains("--multicast="@ + a.text()),
        c.ip matches Some(a) ==> croc_command(c).args.contains("--ip="@ + a.text()),
        c.multicast matches Some(a) ==> croc_command(c).args.contains(
            "--multicast="@ + a.text(),
        ),
{
    let r = resolver_switches(c.internal_dns, c.debug, c.yes);
    let t = transfer_switches(c.compress, c.local, c.quiet);
    let m = address_arg("--multicast="@, c.multicast);
    let i = address_arg("--ip="@, c.ip);
    let cl = clipboard_args(c.clipboard);
    let cu = curve_args(c.curve);
    lemma_concat_contains(r, t);
    lemma_concat_contains(r + t, m);
    lemma_concat_contains(r + t + m, i);
    lemma_concat_contains(r + t + m + i, cl);
    lemma_concat_contains(r + t + m + i + cl, cu);
    assert(global_args(c) == r + t + m + i + cl + cu);
    lemma_global_settings_appended(c);
    lemma_concat_contains(c.command.args, global_args(c));
    if let Some(a) = c.ip {
        lemma_single_contains("--ip="@ + a.text());
    }
    if let Some(a) = c.multicast {
        lemma_single_contains("--multicast="@ + a.text());
    }
}

} // verus!
