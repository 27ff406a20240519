//! The `croc send` subcommand.
use vstd::prelude::*;

use super::code::{Code, CodeView};
use super::command::{flag, CommandView, CrocCommand, Platform};
use super::croc::{lemma_concat_contains, lemma_differs_at, lemma_single_contains};
use crate::number::{decimal, decimal_chars};
use crate::text::{chars_of, string_from};

verus! {

/// A collection of hash algorithms to be used by `croc`.
#[derive(Debug, Clone, Copy, PartialEq, Eq, Structural)]
pub enum HashKind {
    /// The `xxhash` algorithm.
    Xxhash,
    /// The `imohash` algorithm.
    Imohash,
    /// The `md5` algorithm.
    Md5,
}

/// The name `croc` gives the algorithm on its command line.
pub open spec fn hash_name(kind: HashKind) -> Seq<char> {
    match kind {
        HashKind::Xxhash => "xxhash"@,
        HashKind::Imohash => "imohash"@,
        HashKind::Md5 => "md5"@,
    }
}

impl HashKind {
    /// The name of the algorithm, as `croc --hash` takes it.
    pub fn as_str(&self) -> (s: &'static str)
        ensures
            s@ == hash_name(*self),
    {
        match self {
            HashKind::Xxhash => "xxhash",
            HashKind::Imohash => "imohash",
            HashKind::Md5 => "md5",
        }
    }
}

impl Default for HashKind {
    fn default() -> (r: Self)
        ensures
            r == HashKind::Xxhash,
    {
        HashKind::Xxhash
    }
}

/// A wrapper for the `croc` `send` command.
#[derive(Debug)]
pub struct CrocSend {
    /// The inner `croc` command.
    inner: CrocCommand,
    /// The files to be sent.
    files: Vec<String>,
    /// The settings that become arguments when the command is resolved.
    options: SendOptions,
}

/// The settings of a [`CrocSend`].
#[derive(Debug)]
struct SendOptions {
    /// Whether or not `croc` should zip the files before sending.
    zip: bool,
    /// The codephrase to be used.
    code: Code,
    /// The hash algorithm to use.
    hash: HashKind,
    /// Enable local relay when sending.
    local: bool,
    /// Enable multiplexing.
    multi: bool,
    /// Whether or not `croc` should respect `.gitignore`
    ignore_git: bool,
    /// Base port for the relay.
    port: u16,
    /// Number of ports to use for transfers.
    transfers: u8,
    /// Files to be excluded.
    excluded_files: Vec<String>,
}

/// The send settings as the contracts see them.
#[verifier::ext_equal]
pub struct SendView {
    pub command: CommandView,
    pub files: Seq<Seq<char>>,
    pub zip: bool,
    pub code: CodeView,
    pub hash: HashKind,
    pub local: bool,
    pub multi: bool,
    pub ignore_git: bool,
    pub port: u16,
    pub transfers: u8,
    pub excluded_files: Seq<Seq<char>>,
}

impl View for CrocSend {
    type V = SendView;

    closed spec fn view(&self) -> SendView {
        self.options.with(self.inner@, self.files@.map_values(|f: String| f@))
    }
}

/// On Windows a custom code is passed as `--code=`.
pub open spec fn code_args(code: CodeView, platform: Platform) -> Seq<Seq<char>> {
    match code {
        CodeView::Custom(c) => flag(platform == Platform::Windows, "--code="@ + c),
        CodeView::Generated => seq![],
    }
}

/// Elsewhere than on Windows a custom code is handed over in `CROC_SECRET`,
/// where other users cannot read it off the process list.
pub open spec fn code_envs(code: CodeView, platform: Platform) -> Seq<(Seq<char>, Seq<char>)> {
    match code {
        CodeView::Custom(c) => if platform == Platform::Other {
            seq![("CROC_SECRET"@, c)]
        } else {
            seq![]
        },
        CodeView::Generated => seq![],
    }
}

/// One `--exclude=` argument per excluded file.
pub open spec fn exclude_args(files: Seq<Seq<char>>) -> Seq<Seq<char>> {
    files.map_values(|f: Seq<char>| "--exclude="@ + f)
}

/// The arguments the send settings add, in order.
pub open spec fn send_args(s: SendView, platform: Platform) -> Seq<Seq<char>> {
    seq![
        "--hash="@ + hash_name(s.hash),
        "--transfers="@ + decimal(s.transfers as nat),
        "--port="@ + decimal(s.port as nat),
    ] + flag(s.zip, "--zip"@) + flag(!s.local, "--no-local"@) + flag(!s.multi, "--no-multi"@)
        + flag(s.ignore_git, "--git"@) + code_args(s.code, platform) + exclude_args(
        s.excluded_files,
    )
}

/// The environment the send settings add.
pub open spec fn send_envs(s: SendView, platform: Platform) -> Seq<(Seq<char>, Seq<char>)> {
    code_envs(s.code, platform)
}

/// The complete `croc send` command: global settings, `send`, the send
/// settings, then the files.
pub open spec fn send_command(s: SendView, platform: Platform) -> CommandView {
    CommandView {
        args: s.command.args + send_args(s, platform) + s.files,
        envs: s.command.envs + send_envs(s, platform),
        ..s.command
    }
}

impl CrocSend {
    /// The settings of a new `send` on `command`.
    pub open spec fn fresh(command: CommandView) -> SendView {
        SendView {
            command,
            files: seq![],
            zip: false,
            code: CodeView::Generated,
            hash: HashKind::Xxhash,
            local: true,
            multi: true,
            ignore_git: false,
            port: 9009,
            transfers: 4,
            excluded_files: seq![],
        }
    }

    /// Creates a new `croc` `send` command.
    pub(crate) fn new(inner: CrocCommand) -> (r: Self)
        ensures
            r@ == Self::fresh(CommandView { args: inner@.args.push("send"@), ..inner@ }),
    {
        let mut inner = inner;
        inner.arg(String::from_str("send"));
        let options = SendOptions {
            zip: false,
            code: Code::Generated,
            hash: HashKind::Xxhash,
            local: true,
            multi: true,
            ignore_git: false,
            port: 9009,
            transfers: 4,
            excluded_files: Vec::new(),
        };
        let r = Self { inner, files: Vec::new(), options };
        assert(r@.files =~= seq![]);
        assert(r@.excluded_files =~= seq![]);
        r
    }

    /// Sets whether `croc` should zip the folder before sending. (Defaults to `false`)
    pub fn zip(self, zip: bool) -> (r: Self)
        ensures
            r@ == (SendView { zip, ..self@ }),
    {
        let mut s = self;
        s.options.zip = zip;
        s
    }

    /// Sets a custom code to be used when sending files.
    pub fn code(self, code: String) -> (r: Self)
        ensures
            r@ == (SendView { code: CodeView::Custom(code@), ..self@ }),
    {
        let mut s = self;
        s.options.code = Code::Custom(code);
        s
    }

    /// Sets which hash algorithm to use to hash the files. (Defaults to [`HashKind::Xxhash`])
    pub fn hash(self, kind: HashKind) -> (r: Self)
        ensures
            r@ == (SendView { hash: kind, ..self@ }),
    {
        let mut s = self;
        s.options.hash = kind;
        s
    }

    /// Sets if the local relay should be used when sending. (Defaults to `true`)
    pub fn local(self, local: bool) -> (r: Self)
        ensures
            r@ == (SendView { local, ..self@ }),
    {
        let mut s = self;
        s.options.local = local;
        s
    }

    /// Sets if multiplexing should be enabled or not. (Defaults to `true`)
    pub fn multiplexing(self, multiplexing: bool) -> (r: Self)
        ensures
            r@ == (SendView { multi: multiplexing, ..self@ }),
    {
        let mut s = self;
        s.options.multi = multiplexing;
        s
    }

    /// Sets if `croc` should respect `.gitignore` / don't send ignored files. (Defaults to `false`)
    pub fn ignore_git(self, ignore_git: bool) -> (r: Self)
        ensures
            r@ == (SendView { ignore_git, ..self@ }),
    {
        let mut s = self;
        s.options.ignore_git = ignore_git;
        s
    }

    /// Sets the base port for the relay. (Defaults to `9009`)
    pub fn port(self, port: u16) -> (r: Self)
        ensures
            r@ == (SendView { port, ..self@ }),
    {
        let mut s = self;
        s.options.port = port;
        s
    }

    /// Sets the number of ports to be used for transfers. (Defaults to `4`)
    pub fn transfers(self, transfers: u8) -> (r: Self)
        ensures
            r@ == (SendView { transfers, ..self@ }),
    {
        let mut s = self;
        s.options.transfers = transfers;
        s
    }

    /// Adds a new file to be excluded when sending.
    pub fn exclude(self, file: String) -> (r: Self)
        ensures
            r@ == (SendView { excluded_files: self@.excluded_files.push(file@), ..self@ }),
    {
        let mut s = self;
        s.options.excluded_files.push(file);
        assert(s@.excluded_files =~= self@.excluded_files.push(file@));
        s
    }

    /// Adds several files to be excluded when sending, in order.
    pub fn exclude_many(self, files: Vec<String>) -> (r: Self)
        ensures
            r@ == (SendView {
                excluded_files: self@.excluded_files + files@.map_values(|f: String| f@),
                ..self@
            }),
    {
        let ghost v = self@;
        let ghost fv = files@;
        let mut s = self;
        let mut files = files;
        s.options.excluded_files.append(&mut files);
        assert(s@.excluded_files =~= v.excluded_files + fv.map_values(|f: String| f@));
        s
    }

    /// Adds a file to send.
    pub fn file(self, file: String) -> (r: Self)
        ensures
            r@ == (SendView { files: self@.files.push(file@), ..self@ }),
    {
        let mut s = self;
        s.files.push(file);
        assert(s@.files =~= self@.files.push(file@));
        s
    }

    /// Adds several files to send, in order.
    pub fn files(self, files: Vec<String>) -> (r: Self)
        ensures
            r@ == (SendView { files: self@.files + files@.map_values(|f: String| f@), ..self@ }),
    {
        let ghost v = self@;
        let ghost fv = files@;
        let mut s = self;
        let mut files = files;
        s.files.append(&mut files);
        assert(s@.files =~= v.files + fv.map_values(|f: String| f@));
        s
    }

    /// Use the settings in `self` to add their respective arguments (and, for
    /// a custom code elsewhere than on Windows, `CROC_SECRET`) to the `croc`
    /// command; the settings and the files stay as they are.
    pub fn parse_options(&mut self, platform: Platform)
        ensures
            final(self)@ == (SendView {
                command: CommandView {
                    args: old(self)@.command.args + send_args(old(self)@, platform),
                    envs: old(self)@.command.envs + send_envs(old(self)@, platform),
                    ..old(self)@.command
                },
                ..old(self)@
            }),
    {
        self.options.apply(&mut self.inner, platform);
    }

    /// Resolves all send settings into the `croc` command to spawn.
    pub fn command(self, platform: Platform) -> (c: CrocCommand)
        ensures
            c@ == send_command(self@, platform),
    {
        let ghost s0 = self@;
        let mut s = self;
        s.parse_options(platform);
        let ghost a0 = s.inner@.args;
        assert(a0 == s0.command.args + send_args(s0, platform));
        let mut i: usize = 0;
        while i < s.files.len()
            invariant
                i <= s.files@.len(),
                s.files@.map_values(|f: String| f@) == s0.files,
                s.inner@ == (CommandView {
                    args: a0 + s0.files.take(i as int),
                    envs: s0.command.envs + send_envs(s0, platform),
                    ..s0.command
                }),
            decreases s.files@.len() - i,
        {
            let f = s.files[i].clone();
            s.inner.arg(f);
            i = i + 1;
            assert(s.inner@.args =~= a0 + s0.files.take(i as int));
        }
        assert(s0.files.take(i as int) =~= s0.files);
        s.inner
    }
}

impl SendOptions {
    /// The send view with these settings on `command` and `files`.
    spec fn with(self, command: CommandView, files: Seq<Seq<char>>) -> SendView {
        SendView {
            command,
            files,
            zip: self.zip,
            code: self.code@,
            hash: self.hash,
            local: self.local,
            multi: self.multi,
            ignore_git: self.ignore_git,
            port: self.port,
            transfers: self.transfers,
            excluded_files: self.excluded_files@.map_values(|f: String| f@),
        }
    }

    /// `--hash`, `--transfers` and `--port`, always given.
    fn apply_values(&self, cmd: &mut CrocCommand)
        ensures
            final(cmd)@ == (CommandView {
                args: old(cmd)@.args + seq![
                    "--hash="@ + hash_name(self.hash),
                    "--transfers="@ + decimal(self.transfers as nat),
                    "--port="@ + decimal(self.port as nat),
                ],
                ..old(cmd)@
            }),
    {
        let ghost a0 = cmd@.args;
        let mut hash_arg = chars_of("--hash=");
        let mut name = chars_of(self.hash.as_str());
        hash_arg.append(&mut name);
        cmd.arg(string_from(hash_arg.as_slice()));
        let mut transfers_arg = chars_of("--transfers=");
        let mut digits = decimal_chars(self.transfers as u64);
        transfers_arg.append(&mut digits);
        cmd.arg(string_from(transfers_arg.as_slice()));
        let mut port_arg = chars_of("--port=");
        let mut digits = decimal_chars(self.port as u64);
        port_arg.append(&mut digits);
        cmd.arg(string_from(port_arg.as_slice()));
        assert(cmd@.args =~= a0 + seq![
            "--hash="@ + hash_name(self.hash),
            "--transfers="@ + decimal(self.transfers as nat),
            "--port="@ + decimal(self.port as nat),
        ]);
    }

    /// The switches, in order.
    fn apply_switches(&self, cmd: &mut CrocCommand)
        ensures
            final(cmd)@ == (CommandView {
                args: old(cmd)@.args + flag(self.zip, "--zip"@) + flag(!self.local, "--no-local"@)
                    + flag(!self.multi, "--no-multi"@) + flag(self.ignore_git, "--git"@),
                ..old(cmd)@
            }),
    {
        let ghost a0 = cmd@.args;
        cmd.arg_if(self.zip, "--zip");
        cmd.arg_if(!self.local, "--no-local");
        cmd.arg_if(!self.multi, "--no-multi");
        cmd.arg_if(self.ignore_git, "--git");
        assert(cmd@.args =~= a0 + flag(self.zip, "--zip"@) + flag(!self.local, "--no-local"@)
            + flag(!self.multi, "--no-multi"@) + flag(self.ignore_git, "--git"@));
    }

    /// A custom code: an argument on Windows, `CROC_SECRET` elsewhere.
    fn apply_code(&self, cmd: &mut CrocCommand, platform: Platform)
        ensures
            final(cmd)@ == (CommandView {
                args: old(cmd)@.args + code_args(self.code@, platform),
                envs: old(cmd)@.envs + code_envs(self.code@, platform),
                ..old(cmd)@
            }),
    {
        if let Code::Custom(code) = &self.code {
            match platform {
                Platform::Windows => {
                    cmd.arg(String::from_str("--code=").concat(code.as_str()));
                },
                Platform::Other => {
                    cmd.env(String::from_str("CROC_SECRET"), code.clone());
                },
            }
        }
        assert(cmd@.args =~= old(cmd)@.args + code_args(self.code@, platform));
        assert(cmd@.envs =~= old(cmd)@.envs + code_envs(self.code@, platform));
    }

    /// One `--exclude` per excluded file, in order.
    fn apply_excluded(&self, cmd: &mut CrocCommand)
        ensures
            final(cmd)@ == (CommandView {
                args: old(cmd)@.args + exclude_args(self.excluded_files@.map_values(|f: String| f@)),
                ..old(cmd)@
            }),
    {
        let ghost c0 = cmd@;
        let ghost excluded = exclude_args(self.excluded_files@.map_values(|f: String| f@));
        let mut i: usize = 0;
        while i < self.excluded_files.len()
            invariant
                i <= self.excluded_files@.len(),
                cmd@ == (CommandView { args: c0.args + excluded.take(i as int), ..c0 }),
                excluded == exclude_args(self.excluded_files@.map_values(|f: String| f@)),
            decreases self.excluded_files@.len() - i,
        {
            let a = String::from_str("--exclude=").concat(self.excluded_files[i].as_str());
            cmd.arg(a);
            i = i + 1;
            assert(cmd@.args =~= c0.args + excluded.take(i as int));
        }
        assert(excluded.take(i as int) =~= excluded);
    }

    /// Adds the arguments and environment of these settings to `cmd`.
    fn apply(&self, cmd: &mut CrocCommand, platform: Platform)
        ensures
            final(cmd)@ == (CommandView {
                args: old(cmd)@.args + send_args(self.with(old(cmd)@, seq![]), platform),
                envs: old(cmd)@.envs + send_envs(self.with(old(cmd)@, seq![]), platform),
                ..old(cmd)@
            }),
    {
        let ghost s = self.with(cmd@, seq![]);
        let ghost a0 = cmd@.args;
        self.apply_values(cmd);
        let ghost a1 = cmd@.args;
        self.apply_switches(cmd);
        let ghost a2 = cmd@.args;
        self.apply_code(cmd, platform);
        let ghost a3 = cmd@.args;
        self.apply_excluded(cmd);
        assert(cmd@.args =~= a0 + send_args(s, platform));
    }
}

/// Elsewhere than on Windows a custom code never reaches the command line:
/// the arguments are those of a generated code, and the code is added to the
/// environment as `CROC_SECRET`.
pub proof fn lemma_send_code_stays_in_environment(s: SendView, code: Seq<char>)
    ensures
        send_command(SendView { code: CodeView::Custom(code), ..s }, Platform::Other).args
            == send_command(SendView { code: CodeView::Generated, ..s }, Platform::Other).args,
        send_command(SendView { code: CodeView::Custom(code), ..s }, Platform::Other).envs
            == s.command.envs.push(("CROC_SECRET"@, code)),
{
    assert(s.command.envs + seq![("CROC_SECRET"@, code)] =~= s.command.envs.push(
        ("CROC_SECRET"@, code),
    ));
}

/// Every excluded-file argument reads `e` after its two dashes.
proof fn lemma_exclude_args_start(files: Seq<Seq<char>>)
    ensures
        forall|x: Seq<char>| #[trigger] exclude_args(files).contains(x) ==> x.len() > 2 && x[2] == 'e',
{
    reveal_strlit("--exclude=");
    assert forall|x: Seq<char>| #[trigger] exclude_args(files).contains(x) implies x.len() > 2
        && x[2] == 'e' by {
        let i = choose|i: int| 0 <= i < exclude_args(files).len() && exclude_args(files)[i] == x;
        assert(x == "--exclude="@ + files[i]);
        assert(x[2] == "--exclude="@[2]);
    }
}

/// The send settings add `--hash=`, `--transfers=` and `--port=` first, in
/// that order, and the excluded files last, one `--exclude=` each in order;
/// `--zip`, `--no-local`, `--no-multi` and `--git` are among the arguments
/// exactly when zipping is on, the local relay off, multiplexing off, and
/// `.gitignore` respected.
pub proof fn lemma_send_switches_follow_settings(s: SendView, platform: Platform)
    ensures
        send_args(s, platform).take(3) == seq![
            "--hash="@ + hash_name(s.hash),
            "--transfers="@ + decimal(s.transfers as nat),
            "--port="@ + decimal(s.port as nat),
        ],
        send_args(s, platform).skip(
            send_args(s, platform).len() - s.excluded_files.len(),
        ) == exclude_args(s.excluded_files),
        send_args(s, platform).contains("--zip"@) <==> s.zip,
        send_args(s, platform).contains("--no-local"@) <==> !s.local,
        send_args(s, platform).contains("--no-multi"@) <==> !s.multi,
        send_args(s, platform).contains("--git"@) <==> s.ignore_git,
{
    reveal_strlit("--zip");
    reveal_strlit("--no-local");
    reveal_strlit("--no-multi");
    reveal_strlit("--git");
    reveal_strlit("--hash=");
    reveal_strlit("--transfers=");
    reveal_strlit("--port=");
    reveal_strlit("--code=");
    assert("--zip"@[2] == 'z');
    assert("--git"@[2] == 'g');
    assert("--no-local"@[2] == 'n');
    assert("--no-multi"@[2] == 'n');
    assert("--no-local"@[5] == 'l');
    assert("--no-multi"@[5] == 'm');
    let v = seq![
        "--hash="@ + hash_name(s.hash),
        "--transfers="@ + decimal(s.transfers as nat),
        "--port="@ + decimal(s.port as nat),
    ];
    let f1 = flag(s.zip, "--zip"@);
    let f2 = flag(!s.local, "--no-local"@);
    let f3 = flag(!s.multi, "--no-multi"@);
    let f4 = flag(s.ignore_git, "--git"@);
    let c = code_args(s.code, platform);
    let e = exclude_args(s.excluded_files);
    let all = v + f1 + f2 + f3 + f4 + c + e;
    assert(send_args(s, platform) == all);
    assert(all.take(3) =~= v);
    assert(e.len() == s.excluded_files.len());
    assert(all.skip(all.len() - e.len()) =~= e);
    lemma_concat_contains(v, f1);
    lemma_concat_contains(v + f1, f2);
    lemma_concat_contains(v + f1 + f2, f3);
    lemma_concat_contains(v + f1 + f2 + f3, f4);
    lemma_concat_contains(v + f1 + f2 + f3 + f4, c);
    lemma_concat_contains(v + f1 + f2 + f3 + f4 + c, e);
    lemma_single_contains("--zip"@);
    lemma_single_contains("--no-local"@);
    lemma_single_contains("--no-multi"@);
    lemma_single_contains("--git"@);
    lemma_exclude_args_start(s.excluded_files);
    assert forall|x: Seq<char>| #[trigger] v.contains(x) ==> x.len() > 2 && (x[2] == 'h' || x[2]
        == 't' || x[2] == 'p') by {
        if v.contains(x) {
            let i = choose|i: int| 0 <= i < v.len() && v[i] == x;
            if i == 0 {
                assert(x[2] == "--hash="@[2]);
            } else if i == 1 {
                assert(x[2] == "--transfers="@[2]);
            } else {
                assert(x[2] == "--port="@[2]);
            }
        }
    }
    if let CodeView::Custom(k) = s.code {
        if platform == Platform::Windows {
            lemma_single_contains("--code="@ + k);
            assert(("--code="@ + k)[2] == 'c');
        }
    }
}

} // verus!
