//! Shell integration for Windows shells: which shells get it, the script each
//! one loads, and the arguments that load it while keeping the shell open.
//!
//! The scripts make the prompt report the current directory (OSC 7) and mark
//! the prompt's start and end (OSC 133). Writing the script file is left to
//! the caller.

use vstd::prelude::*;
use crate::text::{ascii_ci_eq, ascii_lower, chars_of, eq_ignore_ascii_case, string_from_chars};

verus! {

pub const POWERSHELL_SCRIPT: &'static str = r#"
if ($global:__OnetCliShellIntegrated) {
    return
}
$global:__OnetCliShellIntegrated = $true
$global:__OnetCliOriginalPrompt = $function:prompt

function global:__OnetCliWriteOsc([string] $Payload) {
    [Console]::Write(([char]27).ToString() + ']' + $Payload + [char]7)
}

function global:prompt {
    $path = (Get-Location).Path.Replace('\', '/')
    __OnetCliWriteOsc "7;file://localhost/$path"
    __OnetCliWriteOsc '133;A'

    if ($null -ne $global:__OnetCliOriginalPrompt) {
        $promptText = & $global:__OnetCliOriginalPrompt
    } else {
        $promptText = "PS $((Get-Location).Path)> "
    }

    __OnetCliWriteOsc '133;B'
    return $promptText
}
"#;

pub const CMD_SCRIPT: &'static str = r#"@echo off
prompt $E]133;A$E\$E]7;file://localhost/$P$E\$P$G$E]133;B$E\
"#;

/// The variable that tells the shell's children that integration is active.
pub const INTEGRATION_VARIABLE: &'static str = "ONETCLI_SHELL_INTEGRATION";

#[derive(Clone, Copy, Debug, PartialEq, Eq, Structural)]
pub enum WindowsShellKind {
    PowerShell,
    Cmd,
    Unsupported,
}

pub open spec fn is_separator(c: char) -> bool {
    c == '/' || c == '\\'
}

/// The part of `v` after its last `/` or `\`.
pub open spec fn last_segment(v: Seq<char>) -> Seq<char>
    decreases v.len(),
{
    if v.len() == 0 {
        v
    } else if is_separator(v.last()) {
        Seq::empty()
    } else {
        last_segment(v.drop_last()).push(v.last())
    }
}

/// The kind of shell a program is, by its file name (without regard to ASCII
/// case).
pub open spec fn shell_kind_of(program: Seq<char>) -> WindowsShellKind {
    let name = last_segment(program);
    if ascii_ci_eq(name, "powershell"@) || ascii_ci_eq(name, "powershell.exe"@) || ascii_ci_eq(name, "pwsh"@)
        || ascii_ci_eq(name, "pwsh.exe"@) {
        WindowsShellKind::PowerShell
    } else if ascii_ci_eq(name, "cmd"@) || ascii_ci_eq(name, "cmd.exe"@) {
        WindowsShellKind::Cmd
    } else {
        WindowsShellKind::Unsupported
    }
}

proof fn lemma_last_segment_from(v: Seq<char>, start: int)
    requires
        0 <= start <= v.len(),
        start == 0 || is_separator(v[start - 1]),
        forall|j: int| start <= j < v.len() ==> !is_separator(#[trigger] v[j]),
    ensures
        last_segment(v) =~= v.subrange(start, v.len() as int),
    decreases v.len(),
{
    if v.len() == 0 {
    } else if v.len() == start {
        assert(is_separator(v.last()));
    } else {
        assert(!is_separator(v[v.len() - 1]));
        lemma_last_segment_from(v.drop_last(), start);
        assert(v.drop_last().subrange(start, v.len() - 1).push(v.last()) =~= v.subrange(start, v.len() as int));
    }
}

fn file_name_of(program: &str) -> (r: String)
    ensures
        r@ == last_segment(program@),
{
    let chars = chars_of(program);
    let len = chars.len();
    let mut start = len;
    while start > 0
        invariant
            start <= len,
            len == chars@.len(),
            forall|j: int| start <= j < len ==> !is_separator(#[trigger] chars@[j]),
        ensures
            start <= len,
            forall|j: int| start <= j < len ==> !is_separator(#[trigger] chars@[j]),
            start == 0 || is_separator(chars@[start - 1]),
        decreases start,
    {
        let c = chars[start - 1];
        if c == '/' || c == '\\' {
            break;
        }
        start = start - 1;
    }
    let mut name: Vec<char> = Vec::new();
    let mut k = start;
    while k < len
        invariant
            start <= k <= len,
            len == chars@.len(),
            name@ =~= chars@.subrange(start as int, k as int),
        decreases len - k,
    {
        name.push(chars[k]);
        k = k + 1;
    }
    proof {
        lemma_last_segment_from(chars@, start as int);
    }
    string_from_chars(name.as_slice())
}

/// Which integration a program gets.
pub fn detect_shell_kind(program: &str) -> (r: WindowsShellKind)
    ensures
        r == shell_kind_of(program@),
{
    let name = file_name_of(program);
    let name = name.as_str();
    if eq_ignore_ascii_case(name, "powershell") || eq_ignore_ascii_case(name, "powershell.exe")
        || eq_ignore_ascii_case(name, "pwsh") || eq_ignore_ascii_case(name, "pwsh.exe") {
        WindowsShellKind::PowerShell
    } else if eq_ignore_ascii_case(name, "cmd") || eq_ignore_ascii_case(name, "cmd.exe") {
        WindowsShellKind::Cmd
    } else {
        WindowsShellKind::Unsupported
    }
}

pub fn powershell_integration_script() -> (r: &'static str)
    ensures
        r@ == POWERSHELL_SCRIPT@,
{
    POWERSHELL_SCRIPT
}

pub fn cmd_integration_script() -> (r: &'static str)
    ensures
        r@ == CMD_SCRIPT@,
{
    CMD_SCRIPT
}

/// The file extension and the script of a shell's integration; none for an
/// unsupported shell.
pub fn integration_file(kind: WindowsShellKind) -> (r: Option<(&'static str, &'static str)>)
    ensures
        match kind {
            WindowsShellKind::PowerShell => r matches Some((ext, script)) && ext@ == "ps1"@
                && script@ == POWERSHELL_SCRIPT@,
            WindowsShellKind::Cmd => r matches Some((ext, script)) && ext@ == "cmd"@ && script@ == CMD_SCRIPT@,
            WindowsShellKind::Unsupported => r is None,
        },
{
    match kind {
        WindowsShellKind::PowerShell => Some(("ps1", powershell_integration_script())),
        WindowsShellKind::Cmd => Some(("cmd", cmd_integration_script())),
        WindowsShellKind::Unsupported => None,
    }
}

pub open spec fn strings_of(v: Seq<String>) -> Seq<Seq<char>> {
    Seq::new(v.len(), |i: int| v[i]@)
}

pub open spec fn shell_args(kind: WindowsShellKind, path: Seq<char>) -> Seq<Seq<char>> {
    match kind {
        WindowsShellKind::PowerShell => seq!["-NoLogo"@, "-NoExit"@, "-ExecutionPolicy"@, "Bypass"@, "-File"@, path],
        WindowsShellKind::Cmd => seq!["/K"@, "call"@, path],
        WindowsShellKind::Unsupported => Seq::<Seq<char>>::empty(),
    }
}

/// The arguments that load the integration script at `path` and keep the
/// shell open. The path is always one argument of its own, so that the
/// process launcher quotes it: PowerShell runs it with `-File`, cmd with
/// `/K call`.
pub fn integration_args(kind: WindowsShellKind, path: &str) -> (r: Vec<String>)
    ensures
        strings_of(r@) == shell_args(kind, path@),
{
    let mut args: Vec<String> = Vec::new();
    match kind {
        WindowsShellKind::PowerShell => {
            args.push("-NoLogo".to_owned());
            args.push("-NoExit".to_owned());
            args.push("-ExecutionPolicy".to_owned());
            args.push("Bypass".to_owned());
            args.push("-File".to_owned());
            args.push(path.to_owned());
        },
        WindowsShellKind::Cmd => {
            args.push("/K".to_owned());
            args.push("call".to_owned());
            args.push(path.to_owned());
        },
        WindowsShellKind::Unsupported => {},
    }
    assert(strings_of(args@) =~= shell_args(kind, path@));
    args
}

/// The environment and arguments that launch `program` with its integration
/// script at `path`: nothing at all for an unsupported shell.
pub fn integration_launch(program: &str, path: &str) -> (r: (Vec<(String, String)>, Vec<String>))
    ensures
        shell_kind_of(program@) == WindowsShellKind::Unsupported ==> r.0@.len() == 0 && r.1@.len() == 0,
        shell_kind_of(program@) != WindowsShellKind::Unsupported ==> {
            &&& r.0@.len() == 1
            &&& r.0@[0].0@ == INTEGRATION_VARIABLE@
            &&& r.0@[0].1@ == "1"@
            &&& strings_of(r.1@) == shell_args(shell_kind_of(program@), path@)
        },
{
    let kind = detect_shell_kind(program);
    match kind {
        WindowsShellKind::Unsupported => (Vec::new(), Vec::new()),
        _ => {
            let mut env: Vec<(String, String)> = Vec::new();
            env.push((INTEGRATION_VARIABLE.to_owned(), "1".to_owned()));
            (env, integration_args(kind, path))
        },
    }
}

/// Whether `name` ends in `.exe`, in any ASCII case.
pub open spec fn ends_with_exe(name: Seq<char>) -> bool {
    name.len() >= 4 && ascii_ci_eq(name.skip(name.len() - 4), ".exe"@)
}

proof fn lemma_ci_concat(a: Seq<char>, b: Seq<char>, c: Seq<char>, d: Seq<char>)
    requires
        a.len() == c.len(),
    ensures
        ascii_ci_eq(a + b, c + d) <==> ascii_ci_eq(a, c) && ascii_ci_eq(b, d),
{
    if ascii_ci_eq(a + b, c + d) {
        assert forall|i: int| 0 <= i < a.len() implies ascii_lower(#[trigger] a[i]) == ascii_lower(c[i]) by {
            assert((a + b)[i] == a[i] && (c + d)[i] == c[i]);
        }
        assert forall|i: int| 0 <= i < b.len() implies ascii_lower(#[trigger] b[i]) == ascii_lower(d[i]) by {
            assert((a + b)[a.len() + i] == b[i] && (c + d)[c.len() + i] == d[i]);
        }
    }
    if ascii_ci_eq(a, c) && ascii_ci_eq(b, d) {
        assert forall|i: int| 0 <= i < (a + b).len() implies ascii_lower(#[trigger] (a + b)[i]) == ascii_lower((c + d)[i]) by {
            if i < a.len() {
                assert(ascii_lower(a[i]) == ascii_lower(c[i]));
            } else {
                assert(ascii_lower(b[i - a.len()]) == ascii_lower(d[i - a.len()]));
            }
        }
    }
}

proof fn lemma_ci_ends(x: Seq<char>, y: Seq<char>)
    requires
        ascii_ci_eq(x, y),
        x.len() >= 4,
    ensures
        ascii_ci_eq(x.skip(x.len() - 4), y.skip(y.len() - 4)),
{
    assert(x == x.take(x.len() - 4) + x.skip(x.len() - 4));
    assert(y == y.take(y.len() - 4) + y.skip(y.len() - 4));
    lemma_ci_concat(x.take(x.len() - 4), x.skip(x.len() - 4), y.take(y.len() - 4), y.skip(y.len() - 4));
}

proof fn lemma_ci_trans(a: Seq<char>, b: Seq<char>, c: Seq<char>)
    requires
        ascii_ci_eq(a, b),
        ascii_ci_eq(b, c),
    ensures
        ascii_ci_eq(a, c),
{
    assert forall|i: int| 0 <= i < a.len() implies ascii_lower(#[trigger] a[i]) == ascii_lower(c[i]) by {
        assert(ascii_lower(a[i]) == ascii_lower(b[i]));
        assert(ascii_lower(b[i]) == ascii_lower(c[i]));
    }
}

/// The file name of a program path is what follows the directory part.
proof fn lemma_file_name_after_directory(dir: Seq<char>, name: Seq<char>)
    requires
        dir.len() == 0 || is_separator(dir.last()),
        forall|k: int| 0 <= k < name.len() ==> !is_separator(#[trigger] name[k]),
    ensures
        last_segment(dir + name) == name,
{
    let v = dir + name;
    assert forall|j: int| dir.len() <= j < v.len() implies !is_separator(#[trigger] v[j]) by {
        assert(v[j] == name[j - dir.len()]);
    }
    if dir.len() > 0 {
        assert(v[dir.len() - 1] == dir.last());
    }
    lemma_last_segment_from(v, dir.len() as int);
    assert(v.subrange(dir.len() as int, v.len() as int) =~= name);
}

/// The shells with integration are found by file name in any directory and
/// any ASCII case: `powershell`, `powershell.exe`, `pwsh` and `pwsh.exe` are
/// PowerShell, `cmd` and `cmd.exe` are cmd.
pub proof fn lemma_shell_names_detected(dir: Seq<char>, name: Seq<char>)
    requires
        dir.len() == 0 || is_separator(dir.last()),
        forall|k: int| 0 <= k < name.len() ==> !is_separator(#[trigger] name[k]),
    ensures
        ascii_ci_eq(name, "powershell"@) || ascii_ci_eq(name, "powershell.exe"@) || ascii_ci_eq(name, "pwsh"@)
            || ascii_ci_eq(name, "pwsh.exe"@) ==> shell_kind_of(dir + name) == WindowsShellKind::PowerShell,
        ascii_ci_eq(name, "cmd"@) || ascii_ci_eq(name, "cmd.exe"@) ==> shell_kind_of(dir + name) == WindowsShellKind::Cmd,
{
    lemma_file_name_after_directory(dir, name);
    reveal_strlit("powershell");
    reveal_strlit("powershell.exe");
    reveal_strlit("pwsh");
    reveal_strlit("pwsh.exe");
    reveal_strlit("cmd");
    reveal_strlit("cmd.exe");
    if ascii_ci_eq(name, "cmd"@) || ascii_ci_eq(name, "cmd.exe"@) {
        assert(!ascii_ci_eq(name, "powershell"@) && !ascii_ci_eq(name, "powershell.exe"@));
        assert(!ascii_ci_eq(name, "pwsh"@)) by {
            if ascii_ci_eq(name, "pwsh"@) {
                assert(name.len() == 4);
                assert(ascii_lower(name[0]) == ascii_lower('p'));
                assert(ascii_lower(name[0]) == ascii_lower('c'));
            }
        }
        assert(!ascii_ci_eq(name, "pwsh.exe"@)) by {
            if ascii_ci_eq(name, "pwsh.exe"@) {
                assert(ascii_lower(name[0]) == ascii_lower('p'));
                assert(ascii_lower(name[0]) == ascii_lower('c'));
            }
        }
    }
}

/// Adding `.exe` to a program's file name does not change its detection:
/// for a file name that does not already end in `.exe`, the program with
/// and without the suffix is detected as the same kind of shell.
pub proof fn lemma_exe_suffix_agrees(dir: Seq<char>, name: Seq<char>)
    requires
        dir.len() == 0 || is_separator(dir.last()),
        forall|k: int| 0 <= k < name.len() ==> !is_separator(#[trigger] name[k]),
        !ends_with_exe(name),
    ensures
        shell_kind_of(dir + (name + ".exe"@)) == shell_kind_of(dir + name),
{
    reveal_strlit(".exe");
    reveal_strlit("powershell");
    reveal_strlit("powershell.exe");
    reveal_strlit("pwsh");
    reveal_strlit("pwsh.exe");
    reveal_strlit("cmd");
    reveal_strlit("cmd.exe");
    let exe = ".exe"@;
    let named = name + exe;
    assert forall|k: int| 0 <= k < named.len() implies !is_separator(#[trigger] named[k]) by {
        if k >= name.len() {
            assert(named[k] == exe[k - name.len()]);
        }
    }
    lemma_file_name_after_directory(dir, name);
    lemma_file_name_after_directory(dir, named);
    // With the suffix: the names ending in `.exe` match their stems.
    assert("powershell.exe"@ == "powershell"@ + exe);
    assert("pwsh.exe"@ == "pwsh"@ + exe);
    assert("cmd.exe"@ == "cmd"@ + exe);
    if name.len() == "powershell"@.len() {
        lemma_ci_concat(name, exe, "powershell"@, exe);
    }
    if name.len() == "pwsh"@.len() {
        lemma_ci_concat(name, exe, "pwsh"@, exe);
    }
    if name.len() == "cmd"@.len() {
        lemma_ci_concat(name, exe, "cmd"@, exe);
    }
    assert(ascii_ci_eq(exe, exe));
    // With the suffix, the names without `.exe` cannot match.
    assert(named.skip(named.len() - 4) =~= exe);
    if ascii_ci_eq(named, "powershell"@) {
        lemma_ci_ends(named, "powershell"@);
        assert(ascii_lower(exe[0]) == ascii_lower("powershell"@[6]));
    }
    if ascii_ci_eq(named, "pwsh"@) {
        lemma_ci_ends(named, "pwsh"@);
        assert(ascii_lower(exe[0]) == ascii_lower("pwsh"@[0]));
    }
    assert(!ascii_ci_eq(named, "cmd"@));
    // Without the suffix, the names ending in `.exe` cannot match.
    if ascii_ci_eq(name, "powershell.exe"@) {
        lemma_ci_ends(name, "powershell.exe"@);
        assert("powershell.exe"@.skip(10) =~= exe);
    }
    if ascii_ci_eq(name, "pwsh.exe"@) {
        lemma_ci_ends(name, "pwsh.exe"@);
        assert("pwsh.exe"@.skip(4) =~= exe);
    }
    if ascii_ci_eq(name, "cmd.exe"@) {
        lemma_ci_ends(name, "cmd.exe"@);
        assert("cmd.exe"@.skip(3) =~= exe);
    }
}

/// A supported shell is always handed the script path as its last argument,
/// whole, after at least one option that makes the shell run it and stay
/// open; an unsupported shell gets no arguments.
pub proof fn lemma_script_path_is_last_argument(kind: WindowsShellKind, path: Seq<char>)
    ensures
        kind != WindowsShellKind::Unsupported ==> shell_args(kind, path).len() >= 2 && shell_args(kind, path).last() == path,
        kind == WindowsShellKind::Unsupported ==> shell_args(kind, path).len() == 0,
{
}

} // verus!
