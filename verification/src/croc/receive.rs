//! The receiving side of `croc`.
use vstd::prelude::*;

use super::command::{flag, CommandView, CrocCommand, Platform};
use crate::text::{chars_of, find_char, string_from, trim, trimmed};

verus! {

/// A wrapper for the `croc` `receive` command.
#[derive(Debug)]
pub struct CrocReceive {
    inner: CrocCommand,
    /// Overwrite if the file already exists.
    overwrite: bool,
    /// The path which the file will be saved at.
    out: Option<String>,
}

/// The receive settings as the contracts see them.
#[verifier::ext_equal]
pub struct ReceiveView {
    pub command: CommandView,
    pub overwrite: bool,
    pub out: Option<Seq<char>>,
}

impl View for CrocReceive {
    type V = ReceiveView;

    closed spec fn view(&self) -> ReceiveView {
        ReceiveView {
            command: self.inner@,
            overwrite: self.overwrite,
            out: match self.out {
                Some(p) => Some(p@),
                None => None,
            },
        }
    }
}

/// The arguments the receive settings add; on Windows the code itself, with
/// surrounding white space removed, is the last of them.
pub open spec fn receive_args(r: ReceiveView, code: Seq<char>, platform: Platform) -> Seq<Seq<char>> {
    flag(r.overwrite, "--overwrite"@) + match r.out {
        Some(p) => seq!["--out="@ + p],
        None => seq![],
    } + flag(platform == Platform::Windows, trim(code))
}

/// Elsewhere than on Windows the code, with surrounding white space removed,
/// is handed over in `CROC_SECRET`.
pub open spec fn receive_envs(code: Seq<char>, platform: Platform) -> Seq<(Seq<char>, Seq<char>)> {
    if platform == Platform::Other {
        seq![("CROC_SECRET"@, trim(code))]
    } else {
        seq![]
    }
}

/// The complete receiving command.
pub open spec fn receive_command(r: ReceiveView, code: Seq<char>, platform: Platform) -> CommandView {
    CommandView {
        args: r.command.args + receive_args(r, code, platform),
        envs: r.command.envs + receive_envs(code, platform),
        ..r.command
    }
}

/// A path of one plain component: not empty, and with no `/`, `\\` or `:`,
/// so that no platform reads a separator, a root or a drive prefix in it.
pub open spec fn plain_name(path: Seq<char>) -> bool {
    path.len() > 0 && forall|i: int|
        0 <= i < path.len() ==> #[trigger] path[i] != '/' && path[i] != '\\' && path[i] != ':'
}

/// A path `dir/name` of two plain names, the second not `.`: its `dir`.
/// On every platform `/` separates components and neither name can be a
/// root or a prefix, so the parent of such a path is `dir`.
pub open spec fn dir_and_name(path: Seq<char>) -> Option<Seq<char>> {
    match find_char(path, '/') {
        Some(k) => if plain_name(path.take(k)) && plain_name(path.skip(k + 1)) && path.skip(k + 1)
            != seq!['.'] {
            Some(path.take(k))
        } else {
            None
        },
        None => None,
    }
}

/// Calls `std::path::Path::parent` on `path`, and takes the result as text.
/// The documentation gives the path without its final component: what is
/// left is the start of `path`; a relative path of one component gives the
/// empty path, `dir/name` gives `dir` (as `foo/bar` gives `foo` in its
/// examples), and the empty path gives `None`. Those are the clauses. Which
/// component is final in any other path depends on the path rules of the
/// platform the library runs on (which characters separate components, which
/// prefixes are roots), so it is left unsaid.
#[verifier::external_body]
fn parent_dir(path: &str) -> (r: Option<String>)
    ensures
        path@.len() == 0 ==> r is None,
        r is Some ==> r->0@.is_prefix_of(path@),
        plain_name(path@) ==> r is Some && r->0@.len() == 0,
        dir_and_name(path@) is Some ==> r is Some && r->0@ == dir_and_name(path@)->0,
{
    std::path::Path::new(path).parent().map(|p| p.to_string_lossy().into_owned())
}

impl CrocReceive {
    /// The settings of a new receiving command on `command`.
    pub open spec fn fresh(command: CommandView) -> ReceiveView {
        ReceiveView { command, overwrite: false, out: None }
    }

    /// Creates a new `croc` receiving command.
    pub(crate) fn new(inner: CrocCommand) -> (r: Self)
        ensures
            r@ == Self::fresh(inner@),
    {
        Self { inner, overwrite: false, out: None }
    }

    /// Removes the prompt to overwrite or resume if file is already present. (Default: `false`)
    pub fn overwrite(self, value: bool) -> (r: Self)
        ensures
            r@ == (ReceiveView { overwrite: value, ..self@ }),
    {
        CrocReceive { overwrite: value, ..self }
    }

    /// Sets the output folder to receive the file: `path` itself when it is a
    /// directory (`path_is_dir`, which the caller reads off the file system),
    /// else the directory that holds it, which starts `path` (`dir` for
    /// `dir/name`, the empty path for a bare file name, none for the empty
    /// path).
    pub fn out(self, path: String, path_is_dir: bool) -> (r: Self)
        ensures
            r@.command == self@.command,
            r@.overwrite == self@.overwrite,
            path_is_dir ==> r@.out == Some(path@),
            !path_is_dir ==> (r@.out matches Some(q) ==> q.is_prefix_of(path@)),
            !path_is_dir && path@.len() == 0 ==> r@.out is None,
            !path_is_dir && plain_name(path@) ==> r@.out == Some(Seq::<char>::empty()),
            !path_is_dir && dir_and_name(path@) is Some ==> r@.out == dir_and_name(path@),
    {
        let out = if path_is_dir {
            Some(path)
        } else {
            parent_dir(path.as_str())
        };
        CrocReceive { out, ..self }
    }

    /// Resolves all receive settings, with the code to receive by, into the
    /// `croc` command to spawn.
    pub fn command(self, code: &str, platform: Platform) -> (c: CrocCommand)
        ensures
            c@ == receive_command(self@, code@, platform),
    {
        let ghost r = self@;
        let mut s = self;
        s.parse_options();
        s.set_receive_code(code, platform);
        assert(s.inner@.args =~= r.command.args + receive_args(r, code@, platform));
        s.inner
    }

    /// Use the settings in `self` to add their respective arguments to the `croc` command.
    fn parse_options(&mut self)
        ensures
            final(self)@ == (ReceiveView {
                command: CommandView {
                    args: old(self)@.command.args + flag(old(self)@.overwrite, "--overwrite"@)
                        + match old(self)@.out {
                        Some(p) => seq!["--out="@ + p],
                        None => seq![],
                    },
                    ..old(self)@.command
                },
                ..old(self)@
            }),
    {
        let ghost a0 = self@.command.args;
        if self.overwrite {
            self.inner.arg(String::from_str("--overwrite"));
        }
        assert(self@.command.args =~= a0 + flag(old(self)@.overwrite, "--overwrite"@));
        if let Some(path) = &self.out {
            let a = String::from_str("--out=").concat(path.as_str());
            self.inner.arg(a);
        }
        assert(self@.command.args =~= a0 + flag(old(self)@.overwrite, "--overwrite"@) + match old(
            self,
        )@.out {
            Some(p) => seq!["--out="@ + p],
            None => seq![],
        });
    }

    /// Sets the receive code for `croc`.
    fn set_receive_code(&mut self, code: &str, platform: Platform)
        ensures
            final(self)@ == (ReceiveView {
                command: CommandView {
                    args: old(self)@.command.args + flag(platform == Platform::Windows, trim(code@)),
                    envs: old(self)@.command.envs + receive_envs(code@, platform),
                    ..old(self)@.command
                },
                ..old(self)@
            }),
    {
        let chars = chars_of(code);
        let t = string_from(trimmed(chars.as_slice()));
        match platform {
            Platform::Windows => {
                self.inner.arg(t);
                assert(self@.command.args =~= old(self)@.command.args + flag(true, trim(code@)));
                assert(self@.command.envs =~= old(self)@.command.envs + receive_envs(code@, platform));
            },
            Platform::Other => {
                self.inner.env(String::from_str("CROC_SECRET"), t);
                assert(self@.command.args =~= old(self)@.command.args + flag(false, trim(code@)));
                assert(self@.command.envs =~= old(self)@.command.envs + receive_envs(code@, platform));
            },
        }
    }
}

/// Elsewhere than on Windows the code never reaches the command line: the
/// arguments do not depend on it, and it is handed over, trimmed, in
/// `CROC_SECRET`.
pub proof fn lemma_receive_code_stays_in_environment(r: ReceiveView, code: Seq<char>, other: Seq<char>)
    ensures
        receive_command(r, code, Platform::Other).args == receive_command(r, other, Platform::Other).args,
        receive_command(r, code, Platform::Other).envs == r.command.envs.push(
            ("CROC_SECRET"@, trim(code)),
        ),
{
    assert(r.command.envs + seq![("CROC_SECRET"@, trim(code))] =~= r.command.envs.push(
        ("CROC_SECRET"@, trim(code)),
    ));
}

/// Asking to overwrite adds `--overwrite` right after the arguments already
/// on the command, and changes nothing else, whether or not an output folder
/// is set; an output folder likewise adds its `--out=` argument right after
/// that, and changes nothing else.
pub proof fn lemma_overwrite_and_out_add_their_arguments(
    r: ReceiveView,
    code: Seq<char>,
    platform: Platform,
    folder: Seq<char>,
)
    ensures
        receive_command(ReceiveView { overwrite: true, ..r }, code, platform).args
            == receive_command(ReceiveView { overwrite: false, ..r }, code, platform).args.insert(
            r.command.args.len() as int,
            "--overwrite"@,
        ),
        receive_command(ReceiveView { overwrite: true, ..r }, code, platform).envs
            == receive_command(ReceiveView { overwrite: false, ..r }, code, platform).envs,
        receive_command(ReceiveView { out: Some(folder), ..r }, code, platform).args
            == receive_command(ReceiveView { out: None, ..r }, code, platform).args.insert(
            r.command.args.len() + (if r.overwrite {
                1int
            } else {
                0int
            }),
            "--out="@ + folder,
        ),
        receive_command(ReceiveView { out: Some(folder), ..r }, code, platform).envs
            == receive_command(ReceiveView { out: None, ..r }, code, platform).envs,
{
    let a = r.command.args;
    let out = match r.out {
        Some(p) => seq!["--out="@ + p],
        None => seq![],
    };
    let tail = flag(platform == Platform::Windows, trim(code));
    assert(receive_command(ReceiveView { overwrite: true, ..r }, code, platform).args =~= a
        + seq!["--overwrite"@] + out + tail);
    assert(receive_command(ReceiveView { overwrite: false, ..r }, code, platform).args =~= a
        + out + tail);
    assert((a + out + tail).insert(a.len() as int, "--overwrite"@) =~= a + seq!["--overwrite"@]
        + out + tail);
    let ov = flag(r.overwrite, "--overwrite"@);
    assert(receive_command(ReceiveView { out: Some(folder), ..r }, code, platform).args =~= a + ov
        + seq!["--out="@ + folder] + tail);
    assert(receive_command(ReceiveView { out: None, ..r }, code, platform).args =~= a + ov + tail);
    assert((a + ov + tail).insert((a.len() + ov.len()) as int, "--out="@ + folder) =~= a + ov + seq![
        "--out="@ + folder,
    ] + tail);
}

} // verus!
