//! Shells the integration supports, and how this tool was installed.
use crate::text::{find_from, find_text, first_at, first_index, has_infix, same_text, slice};
use crate::version_file::{join, join_path};
use vstd::prelude::*;
use vstd::string::*;

verus! {

/// A supported interactive shell.
#[derive(Debug, Clone, Copy, PartialEq, Eq, Structural)]
pub enum Shell {
    Bash,
    Zsh,
}

/// Why a shell could not be determined.
#[derive(Debug, Clone, PartialEq, Eq)]
pub enum ShellError {
    /// `$SHELL` is not set.
    NotSet,
    /// The shell at this path is not supported.
    Unsupported(String),
}

/// The last component of a path.
pub open spec fn file_name(p: Seq<char>) -> Seq<char> {
    p.skip(crate::version_file::last_slash(p) + 1)
}

pub open spec fn shell_name(s: Shell) -> Seq<char> {
    match s {
        Shell::Bash => "bash"@,
        Shell::Zsh => "zsh"@,
    }
}

impl Shell {
    /// The shell whose binary is at `path`, by its file name.
    pub fn from_path(path: &str) -> (r: Result<Shell, ShellError>)
        ensures
            file_name(path@) == "bash"@ ==> r == Ok::<Shell, ShellError>(Shell::Bash),
            file_name(path@) == "zsh"@ ==> r == Ok::<Shell, ShellError>(Shell::Zsh),
            file_name(path@) != "bash"@ && file_name(path@) != "zsh"@ ==> (r matches Err(
                ShellError::Unsupported(n),
            ) && n@ == file_name(path@)),
    {
        let n = path.unicode_len();
        let mut i: usize = n;
        proof {
            assert(path@.take(n as int) =~= path@);
        }
        while i > 0 && path.get_char(i - 1) != '/'
            invariant
                n == path@.len(),
                i <= n,
                crate::version_file::last_slash(path@) == crate::version_file::last_slash(
                    path@.take(i as int),
                ),
            decreases i,
        {
            proof {
                assert(path@.take(i as int).drop_last() =~= path@.take(i - 1));
            }
            i = i - 1;
        }
        proof {
            if i == 0 {
                assert(path@.take(0) =~= Seq::<char>::empty());
            } else {
                assert(path@.take(i as int).last() == '/');
            }
        }
        let name = crate::text::slice(path, i, n);
        assert(name@ =~= file_name(path@));
        proof {
            reveal_strlit("bash");
            reveal_strlit("zsh");
        }
        if same_text(name.as_str(), "bash") {
            Ok(Shell::Bash)
        } else if same_text(name.as_str(), "zsh") {
            Ok(Shell::Zsh)
        } else {
            Err(ShellError::Unsupported(name))
        }
    }

    /// The shell named by the value of `$SHELL`, if it is set.
    pub fn detect(shell_var: Option<&str>) -> (r: Result<Shell, ShellError>)
        ensures
            shell_var is None ==> r == Err::<Shell, ShellError>(ShellError::NotSet),
            shell_var matches Some(p) && file_name(p@) == "bash"@ ==> r == Ok::<Shell, ShellError>(
                Shell::Bash,
            ),
            shell_var matches Some(p) && file_name(p@) == "zsh"@ ==> r == Ok::<Shell, ShellError>(
                Shell::Zsh,
            ),
            shell_var is Some && file_name(shell_var->Some_0@) != "bash"@ && file_name(
                shell_var->Some_0@,
            ) != "zsh"@ ==> (r matches Err(ShellError::Unsupported(n)) && n@ == file_name(
                shell_var->Some_0@,
            )),
    {
        match shell_var {
            Some(p) => Shell::from_path(p),
            None => Err(ShellError::NotSet),
        }
    }

    pub fn name(&self) -> (r: &'static str)
        ensures
            r@ == shell_name(*self),
    {
        match self {
            Shell::Bash => "bash",
            Shell::Zsh => "zsh",
        }
    }

    /// The startup files of this shell under `home`, most preferred first.
    pub fn profile_files(&self, home: &str) -> (r: Vec<String>)
        ensures
            r.deep_view() == (match *self {
                Shell::Bash => seq![
                    join(home@, ".bashrc"@),
                    join(home@, ".bash_profile"@),
                    join(home@, ".profile"@),
                ],
                Shell::Zsh => seq![join(home@, ".zshrc"@), join(home@, ".zprofile"@)],
            }),
    {
        let r = match self {
            Shell::Bash => vec![
                join_path(home, ".bashrc"),
                join_path(home, ".bash_profile"),
                join_path(home, ".profile"),
            ],
            Shell::Zsh => vec![join_path(home, ".zshrc"), join_path(home, ".zprofile")],
        };
        proof {
            match *self {
                Shell::Bash => assert(r.deep_view() =~= seq![
                    join(home@, ".bashrc"@),
                    join(home@, ".bash_profile"@),
                    join(home@, ".profile"@),
                ]),
                Shell::Zsh => assert(r.deep_view() =~= seq![
                    join(home@, ".zshrc"@),
                    join(home@, ".zprofile"@),
                ]),
            }
        }
        r
    }
}

/// Position of the first `true` in `s`, or its length.
pub open spec fn first_true(s: Seq<bool>) -> nat
    decreases s.len(),
{
    if s.len() == 0 {
        0
    } else if s[0] {
        0
    } else {
        1 + first_true(s.drop_first())
    }
}

/// Which candidate to edit: the first that exists, else the first.
pub open spec fn profile_choice(exists: Seq<bool>) -> int {
    if first_true(exists) < exists.len() {
        first_true(exists) as int
    } else {
        0
    }
}

/// The startup file to edit, given which candidates exist.
pub fn choose_profile(candidates: &Vec<String>, exists: &Vec<bool>) -> (r: Option<String>)
    requires
        exists@.len() == candidates@.len(),
    ensures
        candidates@.len() == 0 ==> r is None,
        candidates@.len() > 0 ==> (r matches Some(p) && p@ == candidates@[profile_choice(
            exists@,
        )]@),
{
    let mut i: usize = 0;
    proof {
        assert(exists@.skip(0) =~= exists@);
    }
    while i < candidates.len() && !exists[i]
        invariant
            exists@.len() == candidates@.len(),
            i <= candidates@.len(),
            first_true(exists@) == i + first_true(exists@.skip(i as int)),
        decreases candidates@.len() - i,
    {
        proof {
            assert(exists@.skip(i as int).drop_first() =~= exists@.skip(i + 1));
        }
        i = i + 1;
    }
    if i < candidates.len() {
        return Some(candidates[i].clone());
    }
    if candidates.len() > 0 {
        Some(candidates[0].clone())
    } else {
        None
    }
}

/// First line of the block this tool keeps in a shell startup file.
pub const MARKER_START: &'static str = "# >>> anvs initialize >>>";

/// Last line of that block.
pub const MARKER_END: &'static str = "# <<< anvs initialize <<<";

/// The lines between the markers.
pub const SETUP_LINES: &'static str = "# anvs shell integration\nexport ANVS_DIR=\"$HOME/.anvs\"\nexport PATH=\"$ANVS_DIR/bin:$PATH\"\n\n# Try npm installation location first\nif [ -s \"$ANVS_DIR/current/lib/anvs.sh\" ]; then\n  . \"$ANVS_DIR/current/lib/anvs.sh\"\n# Try Homebrew installation location\nelif command -v brew >/dev/null 2>&1 && [ -s \"$(brew --prefix anvs 2>/dev/null)/lib/anvs.sh\" ]; then\n  . \"$(brew --prefix anvs)/lib/anvs.sh\"\nfi";

pub proof fn lemma_first_at_unique(s: Seq<char>, needle: Seq<char>, a: int, b: int)
    requires
        first_at(s, needle, a),
        first_at(s, needle, b),
    ensures
        a == b,
{
    if a < b {
        assert(s.subrange(a, a + needle.len()) == needle);
    } else if b < a {
        assert(s.subrange(b, b + needle.len()) == needle);
    }
}

/// Where `needle` first occurs in `s`; meaningful when it occurs.
pub open spec fn first_pos(s: Seq<char>, needle: Seq<char>) -> int {
    choose|k: int| first_at(s, needle, k)
}

/// `c` without the block between the markers: from the start marker (and
/// the line feed just before it) to the end of the end marker's line. Text
/// without both markers is kept as it is.
pub open spec fn without_block(c: Seq<char>) -> Seq<char> {
    if !has_infix(c, MARKER_START@) || !has_infix(c, MARKER_END@) {
        c
    } else {
        let s = first_pos(c, MARKER_START@);
        let e = first_pos(c, MARKER_END@);
        let nl = e + first_index(c.skip(e), '\n');
        let end = if nl < c.len() {
            nl + 1
        } else {
            c.len() as int
        };
        let start = if s > 0 && c[s - 1] == '\n' {
            s - 1
        } else {
            s
        };
        c.take(start) + c.skip(end)
    }
}

/// Removes this tool's block from the text of a startup file.
pub fn remove_anvs_block(content: &str) -> (r: String)
    ensures
        r@ == without_block(content@),
{
    let n = content.unicode_len();
    let s = match find_text(content, MARKER_START) {
        Some(k) => k,
        None => {
            return String::from_str(content);
        },
    };
    let e = match find_text(content, MARKER_END) {
        Some(k) => k,
        None => {
            return String::from_str(content);
        },
    };
    proof {
        assert(has_infix(content@, MARKER_START@));
        assert(has_infix(content@, MARKER_END@));
        lemma_first_at_unique(content@, MARKER_START@, s as int, first_pos(content@, MARKER_START@));
        lemma_first_at_unique(content@, MARKER_END@, e as int, first_pos(content@, MARKER_END@));
    }
    let nl = find_from(content, '\n', e);
    let end = if nl < n {
        nl + 1
    } else {
        n
    };
    let start = if s > 0 && content.get_char(s - 1) == '\n' {
        s - 1
    } else {
        s
    };
    let mut out = slice(content, 0, start);
    let tail = slice(content, end, n);
    out.append(tail.as_str());
    proof {
        assert(content@.subrange(0, start as int) =~= content@.take(start as int));
        assert(content@.subrange(end as int, n as int) =~= content@.skip(end as int));
    }
    out
}

/// The text of a startup file once this tool's block is in it: the old
/// text without any earlier block, a line feed where it lacks a final one,
/// then a blank line and the marked block.
pub open spec fn with_block(current: Option<Seq<char>>) -> Seq<char> {
    let base = match current {
        Some(t) => without_block(t),
        None => seq![],
    };
    let base = if base.len() > 0 && base.last() != '\n' {
        base + seq!['\n']
    } else {
        base
    };
    base + seq!['\n'] + MARKER_START@ + seq!['\n'] + SETUP_LINES@ + seq!['\n'] + MARKER_END@
        + seq!['\n']
}

pub fn profile_with_integration(current: Option<&str>) -> (r: String)
    ensures
        r@ == with_block(
            match current {
                Some(t) => Some(t@),
                None => None,
            },
        ),
{
    let mut content = match current {
        Some(t) => remove_anvs_block(t),
        None => String::new(),
    };
    let n = content.unicode_len();
    proof {
        reveal_strlit("\n");
    }
    if n > 0 && content.as_str().get_char(n - 1) != '\n' {
        content.append("\n");
    }
    content.append("\n");
    content.append(MARKER_START);
    content.append("\n");
    content.append(SETUP_LINES);
    content.append("\n");
    content.append(MARKER_END);
    content.append("\n");
    content
}

/// How this tool was installed.
#[derive(Debug, Clone, Copy, PartialEq, Eq, Structural)]
pub enum InstallMethod {
    Npm,
    Homebrew,
    Cargo,
}

impl InstallMethod {
    pub fn description(&self) -> (r: &'static str)
        ensures
            r@ == (match *self {
                InstallMethod::Npm => "npm global package (@olvrcc/anvs)"@,
                InstallMethod::Homebrew => "Homebrew (brew install anvs)"@,
                InstallMethod::Cargo => "Cargo (cargo install anvs)"@,
            }),
    {
        match self {
            InstallMethod::Npm => "npm global package (@olvrcc/anvs)",
            InstallMethod::Homebrew => "Homebrew (brew install anvs)",
            InstallMethod::Cargo => "Cargo (cargo install anvs)",
        }
    }

    pub fn uninstall_command(&self) -> (r: &'static str)
        ensures
            r@ == (match *self {
                InstallMethod::Npm => "npm uninstall -g @olvrcc/anvs"@,
                InstallMethod::Homebrew => "brew uninstall anvs"@,
                InstallMethod::Cargo => "cargo uninstall anvs"@,
            }),
    {
        match self {
            InstallMethod::Npm => "npm uninstall -g @olvrcc/anvs",
            InstallMethod::Homebrew => "brew uninstall anvs",
            InstallMethod::Cargo => "cargo uninstall anvs",
        }
    }
}

/// Decisions about installations of this tool found on the machine.
pub struct InstallationDetector;

impl InstallationDetector {
    /// More than one installation is a conflict.
    pub fn has_conflicts(installations: &Vec<(InstallMethod, String)>) -> (r: bool)
        ensures
            r == (installations@.len() > 1),
    {
        installations.len() > 1
    }
}

} // verus!
