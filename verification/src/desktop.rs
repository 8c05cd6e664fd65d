//! The desktop whose settings are read and written, and the commands that
//! read and write them.

use vstd::prelude::*;
use vstd::string::*;

use crate::text::{split_char, split_on, str_equal, strings_view, strs_view, trim, trim_str};

verus! {

/// Which desktop's configuration tools are used.
#[derive(Debug)]
pub struct Desktop {
    /// KDE Plasma (its `kioslaverc` and `gsettings`); otherwise GNOME (`gsettings` only).
    pub kde: bool,
    /// Plasma 6 (`kreadconfig6`, `kwriteconfig6`); otherwise Plasma 5 tools.
    pub plasma6: bool,
    /// The path of the user's `kioslaverc`; read only on KDE.
    pub kioslaverc: String,
}

/// What a [`Desktop`] holds, as mathematical values.
pub struct DesktopView {
    pub kde: bool,
    pub plasma6: bool,
    pub kioslaverc: Seq<char>,
}

impl View for Desktop {
    type V = DesktopView;

    open spec fn view(&self) -> DesktopView {
        DesktopView { kde: self.kde, plasma6: self.plasma6, kioslaverc: self.kioslaverc@ }
    }
}

/// A configuration tool to run: the program and its arguments.
#[derive(Debug)]
pub struct Command {
    pub program: String,
    pub args: Vec<String>,
}

/// What a [`Command`] holds, as mathematical values.
pub struct CommandView {
    pub program: Seq<char>,
    pub args: Seq<Seq<char>>,
}

impl View for Command {
    type V = CommandView;

    open spec fn view(&self) -> CommandView {
        CommandView { program: self.program@, args: strings_view(self.args@) }
    }
}

/// The views of a sequence of commands.
pub open spec fn commands_view(v: Seq<Command>) -> Seq<CommandView> {
    v.map_values(|c: Command| c@)
}

/// Whether `XDG_CURRENT_DESKTOP` (a `:`-separated list) names KDE.
pub open spec fn names_kde(current_desktop: Seq<char>) -> bool {
    exists|i: int|
        0 <= i < split_on(current_desktop, ':').len() && trim(
            #[trigger] split_on(current_desktop, ':')[i],
        ) == "KDE"@
}

/// `gsettings` with the given arguments.
pub open spec fn gsettings_spec(args: Seq<Seq<char>>) -> CommandView {
    CommandView { program: "gsettings"@, args }
}

/// The name of KDE's reading tool.
pub open spec fn kreadconfig_program(plasma6: bool) -> Seq<char> {
    if plasma6 {
        "kreadconfig6"@
    } else {
        "kreadconfig5"@
    }
}

/// The name of KDE's writing tool.
pub open spec fn kwriteconfig_program(plasma6: bool) -> Seq<char> {
    if plasma6 {
        "kwriteconfig6"@
    } else {
        "kwriteconfig5"@
    }
}

/// The arguments that name `key` in the proxy group of `kioslaverc`.
pub open spec fn kde_key_args(d: DesktopView, key: Seq<char>) -> Seq<Seq<char>> {
    seq!["--file"@, d.kioslaverc, "--group"@, "Proxy Settings"@, "--key"@, key]
}

/// Reading `key` of the proxy group of `kioslaverc`.
pub open spec fn kread_spec(d: DesktopView, key: Seq<char>) -> CommandView {
    CommandView { program: kreadconfig_program(d.plasma6), args: kde_key_args(d, key) }
}

/// Writing `value` to `key` of the proxy group of `kioslaverc`.
pub open spec fn kwrite_spec(d: DesktopView, key: Seq<char>, value: Seq<char>) -> CommandView {
    CommandView { program: kwriteconfig_program(d.plasma6), args: kde_key_args(d, key).push(value) }
}

/// Whether `XDG_CURRENT_DESKTOP` names KDE: one of its `:`-separated
/// entries is `KDE` once trimmed.
pub fn is_kde(current_desktop: &str) -> (r: bool)
    ensures
        r == names_kde(current_desktop@),
{
    let entries = split_char(current_desktop, ':');
    let n = entries.len();
    let mut i: usize = 0;
    while i < n
        invariant
            n == entries@.len(),
            strs_view(entries@) == split_on(current_desktop@, ':'),
            i <= n,
            forall|k: int|
                0 <= k < i ==> trim(#[trigger] split_on(current_desktop@, ':')[k]) != "KDE"@,
        decreases n - i,
    {
        let e = trim_str(entries[i]);
        assert(split_on(current_desktop@, ':')[i as int] == entries@[i as int]@);
        if str_equal(e, "KDE") {
            return true;
        }
        i = i + 1;
    }
    false
}

impl Desktop {
    /// The desktop named by `XDG_CURRENT_DESKTOP` and `KDE_SESSION_VERSION`
    /// (Plasma 6 exactly when the version is `6`), with the `kioslaverc` path.
    pub fn new(current_desktop: &str, kde_session_version: &str, kioslaverc: String) -> (r: Desktop)
        ensures
            r@ == (DesktopView {
                kde: names_kde(current_desktop@),
                plasma6: kde_session_version@ == "6"@,
                kioslaverc: kioslaverc@,
            }),
    {
        Desktop {
            kde: is_kde(current_desktop),
            plasma6: str_equal(kde_session_version, "6"),
            kioslaverc,
        }
    }
}

/// A command from its program and arguments.
fn command(program: &str, args: Vec<String>) -> (r: Command)
    ensures
        r@ == (CommandView { program: program@, args: strings_view(args@) }),
{
    Command { program: program.to_owned(), args }
}

/// Owned copies of the given texts, in order.
fn owned(parts: &[&str]) -> (r: Vec<String>)
    ensures
        strings_view(r@) == strs_view(parts@),
{
    let mut out: Vec<String> = Vec::new();
    let n = parts.len();
    let mut i: usize = 0;
    while i < n
        invariant
            n == parts@.len(),
            i <= n,
            strings_view(out@) == strs_view(parts@.take(i as int)),
        decreases n - i,
    {
        assert(strs_view(parts@.take(i + 1)) =~= strs_view(parts@.take(i as int)).push(
            parts@[i as int]@,
        ));
        let s = parts[i].to_owned();
        assert(strings_view(out@.push(s)) =~= strings_view(out@).push(s@));
        out.push(s);
        i = i + 1;
    }
    assert(parts@.take(n as int) =~= parts@);
    out
}

/// `gsettings` with the given arguments.
pub(crate) fn gsettings(args: &[&str]) -> (r: Command)
    ensures
        r@ == gsettings_spec(strs_view(args@)),
{
    command("gsettings", owned(args))
}

impl Desktop {
    fn key_args(&self, key: &str) -> (r: Vec<String>)
        ensures
            strings_view(r@) == kde_key_args(self@, key@),
    {
        let parts = [
            "--file",
            self.kioslaverc.as_str(),
            "--group",
            "Proxy Settings",
            "--key",
            key,
        ];
        let r = owned(&parts);
        assert(strs_view(parts@) =~= kde_key_args(self@, key@));
        r
    }

    /// Reading `key` of the proxy group of `kioslaverc`.
    pub fn kreadconfig(&self, key: &str) -> (r: Command)
        ensures
            r@ == kread_spec(self@, key@),
    {
        let program = if self.plasma6 {
            "kreadconfig6"
        } else {
            "kreadconfig5"
        };
        command(program, self.key_args(key))
    }

    /// Writing `value` to `key` of the proxy group of `kioslaverc`.
    pub fn kwriteconfig(&self, key: &str, value: &str) -> (r: Command)
        ensures
            r@ == kwrite_spec(self@, key@, value@),
    {
        let program = if self.plasma6 {
            "kwriteconfig6"
        } else {
            "kwriteconfig5"
        };
        let mut args = self.key_args(key);
        let v = value.to_owned();
        assert(strings_view(args@.push(v)) =~= strings_view(args@).push(v@));
        args.push(v);
        command(program, args)
    }
}

} // verus!
