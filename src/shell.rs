//! Handing commands back to the invoking shell: quoting for POSIX shells,
//! escaping for PowerShell, and the two ways the commands travel.
use vstd::prelude::*;
use vstd::string::*;

verus! {

/// Characters that a POSIX shell reads as themselves, with no quoting.
pub open spec fn is_shell_plain(c: char) -> bool {
    ('a' <= c && c <= 'z') || ('A' <= c && c <= 'Z') || ('0' <= c && c <= '9') || c == '-'
        || c == '_' || c == '=' || c == '/' || c == ',' || c == '.' || c == '+'
}

/// How one character is written inside a single-quoted word: a quote or a
/// bang closes the quotes, stands escaped, and reopens them.
pub open spec fn quoted_piece(c: char) -> Seq<char> {
    if c == '\'' || c == '!' {
        seq!['\'', '\\', c, '\'']
    } else {
        seq![c]
    }
}

/// The characters of `s` as they stand between the outer quotes.
pub open spec fn quoted_body(s: Seq<char>) -> Seq<char>
    decreases s.len(),
{
    if s.len() == 0 {
        seq![]
    } else {
        quoted_body(s.drop_last()) + quoted_piece(s.last())
    }
}

/// `s` as one shell word: unchanged when it is non-empty and all plain,
/// otherwise wrapped in single quotes.
pub open spec fn shell_word(s: Seq<char>) -> Seq<char> {
    if s.len() > 0 && (forall|i: int| 0 <= i < s.len() ==> is_shell_plain(#[trigger] s[i])) {
        s
    } else {
        seq!['\''] + quoted_body(s) + seq!['\'']
    }
}

/// Relies on `shell_escape::unix::escape`: a non-empty word of plain
/// characters comes back as it is; any other is wrapped in single quotes,
/// with each `'` and `!` written as `'\''` and `'\!'`.
#[verifier::external_body]
pub(crate) fn escape_word(s: &str) -> (r: String)
    ensures
        r@ == shell_word(s@),
{
    shell_escape::unix::escape(std::borrow::Cow::Borrowed(s)).into_owned()
}

/// Where a POSIX shell's reader stands while it reads a word.
pub enum LexState {
    /// Outside quotes: metacharacters end words and start operators.
    Bare,
    /// Inside single quotes: every character is literal.
    Quoted,
    /// Just after a backslash outside quotes.
    Escaped,
}

pub open spec fn lex_step(st: LexState, c: char) -> LexState {
    match st {
        LexState::Bare => if c == '\'' {
            LexState::Quoted
        } else if c == '\\' {
            LexState::Escaped
        } else {
            LexState::Bare
        },
        LexState::Quoted => if c == '\'' {
            LexState::Bare
        } else {
            LexState::Quoted
        },
        LexState::Escaped => LexState::Bare,
    }
}

/// Where the reader stands after reading `t` from `st`.
pub open spec fn lex_from(st: LexState, t: Seq<char>) -> LexState
    decreases t.len(),
{
    if t.len() == 0 {
        st
    } else {
        lex_step(lex_from(st, t.drop_last()), t.last())
    }
}

/// Characters a shell treats specially outside quotes.
pub open spec fn is_meta(c: char) -> bool {
    c == ';' || c == '&' || c == '|' || c == '`' || c == '$' || c == '(' || c == ')' || c == '<'
        || c == '>' || c == ' ' || c == '\t' || c == '\n'
}

pub proof fn lemma_lex_append(st: LexState, a: Seq<char>, b: Seq<char>)
    ensures
        lex_from(st, a + b) == lex_from(lex_from(st, a), b),
    decreases b.len(),
{
    if b.len() == 0 {
        assert(a + b =~= a);
    } else {
        lemma_lex_append(st, a, b.drop_last());
        assert((a + b).drop_last() =~= a + b.drop_last());
    }
}

pub proof fn lemma_lex_plain_prefix(a: Seq<char>)
    requires
        forall|k: int| 0 <= k < a.len() ==> a[k] != '\'' && a[k] != '\\',
    ensures
        lex_from(LexState::Bare, a) == LexState::Bare,
    decreases a.len(),
{
    if a.len() > 0 {
        lemma_lex_plain_prefix(a.drop_last());
    }
}

/// Inside the outer quotes every metacharacter is read in quoted state,
/// and the quotes are open again at the end.
pub proof fn lemma_body_stays_quoted(s: Seq<char>)
    ensures
        lex_from(LexState::Quoted, quoted_body(s)) == LexState::Quoted,
        forall|j: int|
            0 <= j < quoted_body(s).len() && is_meta(#[trigger] quoted_body(s)[j]) ==> lex_from(
                LexState::Quoted,
                quoted_body(s).take(j),
            ) == LexState::Quoted,
    decreases s.len(),
{
    if s.len() > 0 {
        let s0 = s.drop_last();
        let c = s.last();
        lemma_body_stays_quoted(s0);
        let b0 = quoted_body(s0);
        let pc = quoted_piece(c);
        assert(quoted_body(s) == b0 + pc);
        lemma_lex_append(LexState::Quoted, b0, pc);
        if c == '\'' || c == '!' {
            let p0 = Seq::<char>::empty();
            let p1 = seq!['\''];
            let p2 = seq!['\'', '\\'];
            let p3 = seq!['\'', '\\', c];
            assert(p1.drop_last() =~= p0);
            assert(p2.drop_last() =~= p1);
            assert(p3.drop_last() =~= p2);
            assert(pc.drop_last() =~= p3);
            assert(lex_from(LexState::Quoted, p0) == LexState::Quoted);
            assert(p1.last() == '\'' && p2.last() == '\\' && p3.last() == c && pc.last() == '\'');
            assert(lex_from(LexState::Quoted, p1) == LexState::Bare);
            assert(lex_from(LexState::Quoted, p2) == LexState::Escaped);
            assert(lex_from(LexState::Quoted, p3) == LexState::Bare);
            assert(lex_from(LexState::Quoted, pc) == LexState::Quoted);
        } else {
            assert(pc.drop_last() =~= Seq::<char>::empty());
            assert(lex_from(LexState::Quoted, Seq::<char>::empty()) == LexState::Quoted);
            assert(lex_from(LexState::Quoted, pc) == LexState::Quoted);
        }
        assert forall|j: int|
            0 <= j < quoted_body(s).len() && is_meta(#[trigger] quoted_body(s)[j]) implies lex_from(
            LexState::Quoted,
            quoted_body(s).take(j),
        ) == LexState::Quoted by {
            if j < b0.len() {
                assert(quoted_body(s).take(j) =~= b0.take(j));
                assert(quoted_body(s)[j] == b0[j]);
            } else {
                assert(quoted_body(s)[j] == pc[j - b0.len()]);
                assert(quoted_body(s).take(j) =~= b0 + pc.take(j - b0.len()));
                assert(j == b0.len());
                assert(pc.take(0) =~= Seq::<char>::empty());
                lemma_lex_append(LexState::Quoted, b0, pc.take(0));
            }
        }
    }
}

/// A command that is a quote-free prefix followed by a word that
/// `shell_word` made: every metacharacter after the prefix is read inside
/// single quotes.
pub proof fn lemma_word_metachars_quoted(prefix: Seq<char>, v: Seq<char>, i: int)
    requires
        forall|k: int| 0 <= k < prefix.len() ==> prefix[k] != '\'' && prefix[k] != '\\',
        prefix.len() <= i < (prefix + shell_word(v)).len(),
        is_meta((prefix + shell_word(v))[i]),
    ensures
        lex_from(LexState::Bare, (prefix + shell_word(v)).take(i)) == LexState::Quoted,
{
    let t = prefix + shell_word(v);
    let b = quoted_body(v);
    if v.len() > 0 && (forall|k: int| 0 <= k < v.len() ==> is_shell_plain(#[trigger] v[k])) {
        assert(t[i] == v[i - prefix.len()]);
        assert(is_shell_plain(v[i - prefix.len()]));
    } else {
        let q = seq!['\''];
        assert(shell_word(v) == q + b + q);
        let j = i - prefix.len() - 1;
        assert(t[prefix.len() as int] == '\'');
        assert(t[t.len() - 1] == '\'');
        assert(0 <= j < b.len());
        assert(t[i] == b[j]);
        assert(t.take(i) =~= (prefix + q) + b.take(j));
        lemma_lex_append(LexState::Bare, prefix + q, b.take(j));
        lemma_lex_append(LexState::Bare, prefix, q);
        lemma_lex_plain_prefix(prefix);
        assert(q.drop_last() =~= Seq::<char>::empty());
        assert(lex_from(LexState::Bare, Seq::<char>::empty()) == LexState::Bare);
        assert(lex_from(LexState::Bare, q) == LexState::Quoted);
        lemma_body_stays_quoted(v);
        assert(is_meta(b[j]));
        assert(lex_from(LexState::Quoted, b.take(j)) == LexState::Quoted);
    }
}

/// How PowerShell is to read one character inside a double-quoted string.
pub open spec fn ps_piece(c: char) -> Seq<char> {
    if c == '`' {
        seq!['`', '`']
    } else if c == '$' {
        seq!['`', '$']
    } else if c == '"' {
        seq!['`', '"']
    } else {
        seq![c]
    }
}

/// `s` escaped for a PowerShell double-quoted string.
pub open spec fn ps_escaped(s: Seq<char>) -> Seq<char>
    decreases s.len(),
{
    if s.len() == 0 {
        seq![]
    } else {
        ps_escaped(s.drop_last()) + ps_piece(s.last())
    }
}

/// Escapes backticks, dollar signs and double quotes with a backtick.
pub fn escape_powershell(value: &str) -> (r: String)
    ensures
        r@ == ps_escaped(value@),
{
    let n = value.unicode_len();
    let mut out = String::new();
    let mut start: usize = 0;
    let mut i: usize = 0;
    while i < n
        invariant
            n == value@.len(),
            start <= i <= n,
            out@ + value@.subrange(start as int, i as int) == ps_escaped(value@.take(i as int)),
            forall|k: int| start <= k < i ==> ps_piece(value@[k]) == seq![value@[k]],
        decreases n - i,
    {
        let c = value.get_char(i);
        proof {
            assert(value@.take(i + 1).drop_last() =~= value@.take(i as int));
            assert(value@.take(i + 1).last() == c);
        }
        if c == '`' || c == '$' || c == '"' {
            out.append(value.substring_char(start, i));
            out.append(if c == '`' {
                "``"
            } else if c == '$' {
                "`$"
            } else {
                "`\""
            });
            proof {
                reveal_strlit("``");
                reveal_strlit("`$");
                reveal_strlit("`\"");
                assert(out@ =~= ps_escaped(value@.take(i + 1)));
            }
            start = i + 1;
        } else {
            proof {
                assert(value@.subrange(start as int, i + 1) =~= value@.subrange(start as int, i as int).push(c));
            }
        }
        i = i + 1;
        assert(out@ + value@.subrange(start as int, i as int) =~= ps_escaped(value@.take(i as int)));
    }
    out.append(value.substring_char(start, n));
    assert(value@.take(n as int) =~= value@);
    out
}

/// How the commands reach the shell.
#[derive(Debug, Clone, Copy, PartialEq, Eq)]
pub enum OutputProtocol {
    /// Written to file descriptor 3, which bash and zsh evaluate.
    Fd3,
    /// Printed as a JSON block between marker lines, for PowerShell.
    Json,
}

impl OutputProtocol {
    /// The protocol of this platform, given whether it is Windows.
    pub fn detect(windows: bool) -> (r: OutputProtocol)
        ensures
            r == (if windows {
                OutputProtocol::Json
            } else {
                OutputProtocol::Fd3
            }),
    {
        if windows {
            OutputProtocol::Json
        } else {
            OutputProtocol::Fd3
        }
    }
}


/// The JSON text that `serde_json` writes for a list of strings.
pub uninterp spec fn json_string_list(items: Seq<Seq<char>>) -> Seq<char>;

#[verifier::external_type_specification]
#[verifier::external_body]
pub struct ExJsonError(serde_json::Error);

/// Relies on `serde_json::to_string` on a `Vec<String>`: the compact JSON
/// array of the strings, in order. It fails only where a `Serialize` impl
/// fails or a map has non-string keys, which a list of strings never does.
#[verifier::external_body]
fn json_of_strings(items: &Vec<String>) -> (r: Result<String, serde_json::Error>)
    ensures
        r is Ok,
        r matches Ok(t) ==> t@ == json_string_list(items.deep_view()),
{
    serde_json::to_string(items)
}

/// Line that opens the command block on standard output.
pub const COMMANDS_START: &'static str = "__ANVS_COMMANDS_START__";

/// Line that closes the command block on standard output.
pub const COMMANDS_END: &'static str = "__ANVS_COMMANDS_END__";

/// The block printed for PowerShell around the JSON text of the command
/// list: the two marker lines around `{"commands":...}`, each line ending
/// in a line feed.
pub open spec fn framed(list_json: Seq<char>) -> Seq<char> {
    COMMANDS_START@ + seq!['\n'] + "{\"commands\":"@ + list_json + seq!['}', '\n'] + COMMANDS_END@
        + seq!['\n']
}

/// The block printed for a list of commands.
pub open spec fn json_block(items: Seq<Seq<char>>) -> Seq<char> {
    framed(json_string_list(items))
}

/// Wraps the JSON text of a command list in the object and marker lines.
pub fn frame_commands(list_json: &str) -> (r: String)
    ensures
        r@ == framed(list_json@),
{
    let mut out = String::from_str(COMMANDS_START);
    out.append("\n{\"commands\":");
    out.append(list_json);
    out.append("}\n");
    out.append(COMMANDS_END);
    out.append("\n");
    proof {
        reveal_strlit("\n{\"commands\":");
        reveal_strlit("{\"commands\":");
        reveal_strlit("}\n");
        reveal_strlit("\n");
        assert(out@ =~= framed(list_json@));
    }
    out
}

/// Why the command block could not be produced.
#[derive(Debug, Clone, PartialEq, Eq)]
pub enum CommandOutputError {
    /// The JSON encoder refused the commands.
    Encoding,
}

/// Collects commands for PowerShell and renders them as one JSON block.
#[derive(Debug, Clone)]
pub struct JsonCommandWriter {
    pub commands: Vec<String>,
}

impl JsonCommandWriter {
    pub open spec fn view_commands(&self) -> Seq<Seq<char>> {
        self.commands.deep_view()
    }

    pub fn new() -> (r: JsonCommandWriter)
        ensures
            r.view_commands() == Seq::<Seq<char>>::empty(),
    {
        let r = JsonCommandWriter { commands: Vec::new() };
        assert(r.view_commands() =~= Seq::<Seq<char>>::empty());
        r
    }

    /// Adds `$env:KEY = "value"`, the value escaped.
    pub fn export_env(&mut self, key: &str, value: &str)
        ensures
            final(self).view_commands() == old(self).view_commands().push(
                "$env:"@ + key@ + " = \""@ + ps_escaped(value@) + "\""@,
            ),
    {
        let escaped = escape_powershell(value);
        let mut cmd = String::from_str("$env:");
        cmd.append(key);
        cmd.append(" = \"");
        cmd.append(escaped.as_str());
        cmd.append("\"");
        let ghost before = self.view_commands();
        self.commands.push(cmd);
        assert(self.view_commands() =~= before.push(
            "$env:"@ + key@ + " = \""@ + ps_escaped(value@) + "\""@,
        ));
    }

    /// Adds a command that puts `path` in front of `PATH`.
    pub fn prepend_path(&mut self, path: &str)
        ensures
            final(self).view_commands() == old(self).view_commands().push(
                "$env:PATH = \""@ + ps_escaped(path@) + ";\" + $env:PATH"@,
            ),
    {
        let escaped = escape_powershell(path);
        let mut cmd = String::from_str("$env:PATH = \"");
        cmd.append(escaped.as_str());
        cmd.append(";\" + $env:PATH");
        let ghost before = self.view_commands();
        self.commands.push(cmd);
        assert(self.view_commands() =~= before.push(
            "$env:PATH = \""@ + ps_escaped(path@) + ";\" + $env:PATH"@,
        ));
    }

    /// Adds a command as it is.
    pub fn add_command(&mut self, command: String)
        ensures
            final(self).view_commands() == old(self).view_commands().push(command@),
    {
        let ghost before = self.view_commands();
        self.commands.push(command);
        assert(self.view_commands() =~= before.push(command@));
    }

    /// The text to print: nothing when no command was collected, otherwise
    /// the marked JSON block.
    pub fn render(&self) -> (r: Result<Option<String>, CommandOutputError>)
        ensures
            self.view_commands().len() == 0 ==> r == Ok::<Option<String>, CommandOutputError>(
                None,
            ),
            self.view_commands().len() > 0 ==> (r matches Ok(Some(t)) && t@ == json_block(
                self.view_commands(),
            )),
    {
        if self.commands.len() == 0 {
            return Ok(None);
        }
        match json_of_strings(&self.commands) {
            Ok(json) => Ok(Some(frame_commands(json.as_str()))),
            Err(_) => Err(CommandOutputError::Encoding),
        }
    }
}

/// Keeps every command it is given, for callers that inspect them.
#[derive(Debug, Clone)]
pub struct MockCommandWriter {
    pub commands: Vec<String>,
}

impl MockCommandWriter {
    pub fn new() -> (r: MockCommandWriter)
        ensures
            r.commands@.len() == 0,
    {
        MockCommandWriter { commands: Vec::new() }
    }

    pub fn write_command(&mut self, cmd: &str) -> (r: Result<(), ()>)
        ensures
            r is Ok,
            final(self).commands.deep_view() == old(self).commands.deep_view().push(cmd@),
    {
        let ghost before = self.commands.deep_view();
        self.commands.push(String::from_str(cmd));
        assert(self.commands.deep_view() =~= before.push(cmd@));
        Ok(())
    }

    pub fn is_available(&self) -> (r: bool)
        ensures
            r,
    {
        true
    }
}

} // verus!
