//! The system clipboard through the platform's own tools: which commands to
//! run, and what their output means. Running them is the caller's.
use vstd::prelude::*;
use crate::text::{chars_of, owned, push_char, push_str, string_from_chars, trim_chars, trimmed};

verus! {

/// The operating system the clipboard belongs to.
#[derive(Debug, Clone, Copy, PartialEq, Eq, Structural)]
pub enum Platform {
    MacOs,
    Linux,
    Windows,
    Other,
}

/// A program to run, with its arguments and what to write to its input.
#[derive(Debug)]
pub struct ClipCommand {
    pub program: String,
    pub args: Vec<String>,
    pub stdin: Option<String>,
}

/// A command, as text.
pub open spec fn command_view(c: ClipCommand) -> (Seq<char>, Seq<Seq<char>>, Option<Seq<char>>) {
    (c.program@, c.args@.map_values(|a: String| a@), match c.stdin {
        Some(s) => Some(s@),
        None => None,
    })
}

/// `s` with each `c` replaced by `rep`.
pub open spec fn replace_char(s: Seq<char>, c: char, rep: Seq<char>) -> Seq<char>
    decreases s.len(),
{
    if s.len() == 0 {
        Seq::empty()
    } else {
        replace_char(s.drop_last(), c, rep) + if s.last() == c { rep } else { seq![s.last()] }
    }
}

fn replaced(s: &str, c: char, rep: &str) -> (r: String)
    ensures
        r@ == replace_char(s@, c, rep@),
{
    let cs = chars_of(s);
    let mut out = String::new();
    let mut i: usize = 0;
    while i < cs.len()
        invariant
            i <= cs@.len(),
            cs@ == s@,
            out@ == replace_char(cs@.subrange(0, i as int), c, rep@),
        decreases cs@.len() - i,
    {
        if cs[i] == c {
            push_str(&mut out, rep);
        } else {
            push_char(&mut out, cs[i]);
        }
        i = i + 1;
        assert(cs@.subrange(0, i as int).drop_last() =~= cs@.subrange(0, i - 1));
    }
    assert(cs@.subrange(0, i as int) =~= cs@);
    out
}

fn command(program: &str, args: Vec<&str>, stdin: Option<String>) -> (r: ClipCommand)
    ensures
        command_view(r) == (program@, args@.map_values(|a: &str| a@), match stdin {
            Some(s) => Some(s@),
            None => None::<Seq<char>>,
        }),
{
    let mut v: Vec<String> = Vec::new();
    let mut i: usize = 0;
    while i < args.len()
        invariant
            i <= args@.len(),
            v@.map_values(|a: String| a@) == args@.subrange(0, i as int).map_values(|a: &str| a@),
        decreases args@.len() - i,
    {
        let ghost prev = v@;
        v.push(owned(args[i]));
        assert(v@.map_values(|a: String| a@) =~= prev.map_values(|a: String| a@).push(args@[i as int]@));
        i = i + 1;
        assert(args@.subrange(0, i as int).map_values(|a: &str| a@) =~= args@.subrange(0, i - 1).map_values(
            |a: &str| a@,
        ).push(args@[i - 1]@));
    }
    assert(args@.subrange(0, i as int) =~= args@);
    ClipCommand { program: owned(program), args: v, stdin }
}

/// The commands that put `text` on the clipboard, to be tried in order
/// until one runs.
pub open spec fn write_plan(p: Platform, text: Seq<char>) -> Seq<(Seq<char>, Seq<Seq<char>>, Option<Seq<char>>)> {
    match p {
        Platform::MacOs => seq![
            ("osascript"@, seq!["-e"@, "set the clipboard to \""@ + replace_char(text, '"', "\\\""@) + "\""@], None),
        ],
        Platform::Linux => seq![
            ("wl-copy"@, seq!["--trim-newline"@], Some(text)),
            ("xclip"@, seq!["-selection"@, "clipboard"@], Some(text)),
        ],
        Platform::Windows => seq![
            (
                "powershell.exe"@,
                seq![
                    "-NoProfile"@,
                    "-Command"@,
                    "[System.Windows.Forms.Clipboard]::SetText('"@ + replace_char(text, '\'', "''"@) + "')"@,
                ],
                None,
            ),
        ],
        Platform::Other => Seq::empty(),
    }
}

/// The commands that put `text` on the clipboard, to be tried in order
/// until one runs.
pub fn write_commands(p: Platform, text: &str) -> (r: Vec<ClipCommand>)
    ensures
        r@.map_values(|c: ClipCommand| command_view(c)) == write_plan(p, text@),
{
    let mut out: Vec<ClipCommand> = Vec::new();
    match p {
        Platform::MacOs => {
            let mut script = owned("set the clipboard to \"");
            let esc = replaced(text, '"', "\\\"");
            push_str(&mut script, esc.as_str());
            push_str(&mut script, "\"");
            let mut args: Vec<&str> = Vec::new();
            args.push("-e");
            args.push(script.as_str());
            assert(args@.map_values(|a: &str| a@) =~= seq!["-e"@, script@]);
            let c = command("osascript", args, None);
            out.push(c);
            assert(out@.map_values(|c: ClipCommand| command_view(c)) =~= write_plan(p, text@));
        },
        Platform::Linux => {
            let mut a1: Vec<&str> = Vec::new();
            a1.push("--trim-newline");
            assert(a1@.map_values(|a: &str| a@) =~= seq!["--trim-newline"@]);
            out.push(command("wl-copy", a1, Some(owned(text))));
            let mut a2: Vec<&str> = Vec::new();
            a2.push("-selection");
            a2.push("clipboard");
            assert(a2@.map_values(|a: &str| a@) =~= seq!["-selection"@, "clipboard"@]);
            out.push(command("xclip", a2, Some(owned(text))));
            assert(out@.map_values(|c: ClipCommand| command_view(c)) =~= write_plan(p, text@));
        },
        Platform::Windows => {
            let mut script = owned("[System.Windows.Forms.Clipboard]::SetText('");
            let esc = replaced(text, '\'', "''");
            push_str(&mut script, esc.as_str());
            push_str(&mut script, "')");
            let mut args: Vec<&str> = Vec::new();
            args.push("-NoProfile");
            args.push("-Command");
            args.push(script.as_str());
            assert(args@.map_values(|a: &str| a@) =~= seq!["-NoProfile"@, "-Command"@, script@]);
            out.push(command("powershell.exe", args, None));
            assert(out@.map_values(|c: ClipCommand| command_view(c)) =~= write_plan(p, text@));
        },
        Platform::Other => {
            assert(out@.map_values(|c: ClipCommand| command_view(c)) =~= write_plan(p, text@));
        },
    }
    out
}

/// The commands that read the clipboard, in the order they are tried.
pub open spec fn read_plan(p: Platform) -> Seq<(Seq<char>, Seq<Seq<char>>, Option<Seq<char>>)> {
    match p {
        Platform::MacOs => seq![("osascript"@, seq!["-e"@, "the clipboard as text"@], None)],
        Platform::Linux => seq![
            ("wl-paste"@, Seq::empty(), None),
            ("xclip"@, seq!["-selection"@, "clipboard"@, "-o"@], None),
        ],
        Platform::Windows => seq![
            (
                "powershell.exe"@,
                seq![
                    "-NoProfile"@,
                    "-Command"@,
                    "Add-Type -AssemblyName System.Windows.Forms; [System.Windows.Forms.Clipboard]::GetText()"@,
                ],
                None,
            ),
        ],
        Platform::Other => Seq::empty(),
    }
}

/// The commands that read the clipboard, in the order they are tried.
pub fn read_commands(p: Platform) -> (r: Vec<ClipCommand>)
    ensures
        r@.map_values(|c: ClipCommand| command_view(c)) == read_plan(p),
{
    let mut out: Vec<ClipCommand> = Vec::new();
    match p {
        Platform::MacOs => {
            let mut args: Vec<&str> = Vec::new();
            args.push("-e");
            args.push("the clipboard as text");
            assert(args@.map_values(|a: &str| a@) =~= seq!["-e"@, "the clipboard as text"@]);
            out.push(command("osascript", args, None));
            assert(out@.map_values(|c: ClipCommand| command_view(c)) =~= read_plan(p));
        },
        Platform::Linux => {
            let none: Vec<&str> = Vec::new();
            assert(none@.map_values(|a: &str| a@) =~= Seq::<Seq<char>>::empty());
            out.push(command("wl-paste", none, None));
            let mut args: Vec<&str> = Vec::new();
            args.push("-selection");
            args.push("clipboard");
            args.push("-o");
            assert(args@.map_values(|a: &str| a@) =~= seq!["-selection"@, "clipboard"@, "-o"@]);
            out.push(command("xclip", args, None));
            assert(out@.map_values(|c: ClipCommand| command_view(c)) =~= read_plan(p));
        },
        Platform::Windows => {
            let mut args: Vec<&str> = Vec::new();
            args.push("-NoProfile");
            args.push("-Command");
            args.push("Add-Type -AssemblyName System.Windows.Forms; [System.Windows.Forms.Clipboard]::GetText()");
            assert(args@.map_values(|a: &str| a@) =~= seq![
                "-NoProfile"@,
                "-Command"@,
                "Add-Type -AssemblyName System.Windows.Forms; [System.Windows.Forms.Clipboard]::GetText()"@,
            ]);
            out.push(command("powershell.exe", args, None));
            assert(out@.map_values(|c: ClipCommand| command_view(c)) =~= read_plan(p));
        },
        Platform::Other => {
            assert(out@.map_values(|c: ClipCommand| command_view(c)) =~= read_plan(p));
        },
    }
    out
}

/// Whether a read attempt counts: on Linux the tool must have succeeded;
/// elsewhere it is enough that it ran.
pub open spec fn attempt_counts(p: Platform, attempt: Option<(bool, String)>) -> bool {
    match attempt {
        Some((success, _)) => p != Platform::Linux || success,
        None => false,
    }
}

/// The first attempt at or after `i` that counts, among those of the
/// platform's read commands.
pub open spec fn first_counting(p: Platform, attempts: Seq<Option<(bool, String)>>, i: int) -> Option<int>
    decreases attempts.len() - i,
{
    if i < 0 || i >= attempts.len() || i >= read_plan(p).len() {
        None
    } else if attempt_counts(p, attempts[i]) {
        Some(i)
    } else {
        first_counting(p, attempts, i + 1)
    }
}

/// Whether the caller can stop trying the read commands after this attempt.
pub fn read_attempt_counts(p: Platform, attempt: &Option<(bool, String)>) -> (r: bool)
    ensures
        r == attempt_counts(p, *attempt),
{
    match attempt {
        Some((success, _)) => p != Platform::Linux || *success,
        None => false,
    }
}

/// The clipboard's text: the output of the first read command that counts,
/// trimmed; none when none does (always on a platform without read
/// commands). `attempts[i]` is what running `read_commands(p)[i]` gave: none
/// when it could not start, else whether it succeeded and its output
/// (decoded lossily); attempts past the platform's commands are not looked
/// at. The text is its own trim.
pub fn read(p: Platform, attempts: &Vec<Option<(bool, String)>>) -> (r: Option<String>)
    ensures
        match first_counting(p, attempts@, 0) {
            Some(i) => r matches Some(t) && attempts@[i] matches Some((_, out)) && t@ == trimmed(out@),
            None => r is None,
        },
        r matches Some(t) ==> trimmed(t@) == t@,
        p == Platform::Other ==> r is None,
{
    let n = read_commands(p).len();
    let mut i: usize = 0;
    while i < attempts.len() && i < n
        invariant
            i <= attempts@.len(),
            n == read_plan(p).len(),
            first_counting(p, attempts@, 0) == first_counting(p, attempts@, i as int),
        decreases attempts@.len() - i,
    {
        if read_attempt_counts(p, &attempts[i]) {
            match &attempts[i] {
                Some((_, out)) => {
                    let cs = chars_of(out.as_str());
                    let t = trim_chars(cs.as_slice());
                    proof {
                        crate::text::lemma_trimmed_twice(cs@);
                    }
                    return Some(string_from_chars(t.as_slice()));
                },
                None => {},
            }
        }
        i = i + 1;
    }
    None
}

} // verus!
