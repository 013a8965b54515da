//! Command-line handling for `herdr gui` and `herdr desktop`: decimal
//! numbers, option parsing, and subcommand dispatch.

use vstd::prelude::*;

verus! {

/// Compares two strings character by character.
pub fn str_eq(a: &str, b: &str) -> (eq: bool)
    ensures
        eq == (a@ == b@),
{
    let n: usize = a.unicode_len();
    if n != b.unicode_len() {
        return false;
    }
    let mut i: usize = 0;
    while i < n
        invariant
            n == a@.len(),
            n == b@.len(),
            i <= n,
            forall|k: int| 0 <= k < i ==> a@[k] == b@[k],
        decreases n - i,
    {
        if a.get_char(i) != b.get_char(i) {
            return false;
        }
        i += 1;
    }
    assert(a@ =~= b@);
    true
}

pub open spec fn is_digit(c: char) -> bool {
    '0' <= c <= '9'
}

/// The value of a string of decimal digits.
pub open spec fn digits_value(s: Seq<char>) -> int
    decreases s.len(),
{
    if s.len() == 0 {
        0
    } else {
        digits_value(s.drop_last()) * 10 + (s.last() as int - '0' as int)
    }
}

/// The digits of an unsigned decimal: everything after an optional `+`.
pub open spec fn unsigned_digits(s: Seq<char>) -> Seq<char> {
    if s.len() > 0 && s[0] == '+' { s.drop_first() } else { s }
}

/// What `u16::from_str` accepts: an optional `+`, then one or more decimal
/// digits whose value fits in 16 bits.
pub open spec fn spec_parse_u16(s: Seq<char>) -> Option<u16> {
    let d = unsigned_digits(s);
    if d.len() > 0 && (forall|i: int| 0 <= i < d.len() ==> is_digit(#[trigger] d[i])) && digits_value(d) <= 0xFFFF {
        Some(digits_value(d) as u16)
    } else {
        None
    }
}

proof fn lemma_digits_value_grows(s: Seq<char>, k: int)
    requires
        0 <= k <= s.len(),
        forall|i: int| 0 <= i < s.len() ==> is_digit(#[trigger] s[i]),
    ensures
        0 <= digits_value(s.take(k)) <= digits_value(s),
    decreases s.len() - k,
{
    if k < s.len() {
        lemma_digits_value_grows(s, k + 1);
        assert(s.take(k + 1).drop_last() =~= s.take(k));
        assert(is_digit(s[k]));
    } else {
        assert(s.take(k) =~= s);
        lemma_digits_value_nonneg(s);
    }
}

proof fn lemma_digits_value_nonneg(s: Seq<char>)
    requires
        forall|i: int| 0 <= i < s.len() ==> is_digit(#[trigger] s[i]),
    ensures
        0 <= digits_value(s),
    decreases s.len(),
{
    if s.len() > 0 {
        assert(is_digit(s[s.len() - 1]));
        lemma_digits_value_nonneg(s.drop_last());
    }
}

/// Parses an unsigned 16-bit decimal the way `u16::from_str` does.
pub fn parse_u16(s: &str) -> (v: Option<u16>)
    ensures
        v == spec_parse_u16(s@),
{
    let n: usize = s.unicode_len();
    let start: usize = if n > 0 && s.get_char(0) == '+' { 1 } else { 0 };
    let ghost d = unsigned_digits(s@);
    proof {
        assert(d =~= s@.subrange(start as int, n as int));
    }
    if start == n {
        return None;
    }
    let mut value: u32 = 0;
    let mut i: usize = start;
    while i < n
        invariant
            n == s@.len(),
            d == s@.subrange(start as int, n as int),
            d == unsigned_digits(s@),
            start <= i <= n,
            start < n,
            forall|k: int| 0 <= k < i - start ==> is_digit(#[trigger] d[k]),
            value == digits_value(d.take(i - start)),
            value <= 0xFFFF,
        decreases n - i,
    {
        let c = s.get_char(i);
        proof {
            assert(c == d[i - start]);
            assert(d.take(i - start + 1).drop_last() =~= d.take(i - start));
        }
        if !('0' <= c && c <= '9') {
            assert(!is_digit(d[i - start]));
            return None;
        }
        let next: u32 = value * 10 + (c as u32 - '0' as u32);
        if next > 0xFFFF {
            proof {
                if forall|k: int| 0 <= k < d.len() ==> is_digit(#[trigger] d[k]) {
                    lemma_digits_value_grows(d, i - start + 1);
                }
            }
            return None;
        }
        value = next;
        i += 1;
    }
    proof {
        assert(d.take(n - start) =~= d);
    }
    Some(value as u16)
}

/// Parsed `herdr gui` invocation.
#[derive(Debug, Clone)]
pub struct GuiArgs {
    /// Write a PNG snapshot of the first frame to this path instead of
    /// opening a window.
    pub snapshot: Option<String>,
    /// Show the server's composited screen instead of the native chrome.
    pub mirror: bool,
    pub cols: u16,
    pub rows: u16,
}

/// What `herdr gui` was asked to do.
#[derive(Debug, Clone)]
pub enum GuiCommand {
    Run(GuiArgs),
    /// Print usage and exit successfully.
    Help,
}

/// The parsed options as values: snapshot path, mirror, cols, rows.
pub type GuiArgsView = (Option<Seq<char>>, bool, u16, u16);

/// The outcome of parsing: run with options, show help, or fail with a
/// message.
pub enum GuiParse {
    Run(GuiArgsView),
    Help,
    Error(Seq<char>),
}

pub open spec fn usage_message() -> Seq<char> {
    "usage: herdr gui --snapshot <path.png> [--cols N --rows N]"@
}

/// Parses `args[i..]` on top of the options gathered so far. Each option
/// is read in turn; help wins as soon as it is seen; the first problem
/// ends parsing with its message.
pub open spec fn spec_parse_gui_from(args: Seq<String>, i: int, acc: GuiArgsView) -> GuiParse
    decreases args.len() - i,
{
    if i >= args.len() || i < 0 {
        GuiParse::Run(acc)
    } else {
        let arg = args[i]@;
        if arg == "--snapshot"@ {
            if i + 1 < args.len() {
                spec_parse_gui_from(args, i + 2, (Some(args[i + 1]@), acc.1, acc.2, acc.3))
            } else {
                GuiParse::Error(usage_message())
            }
        } else if arg == "--mirror"@ {
            spec_parse_gui_from(args, i + 1, (acc.0, true, acc.2, acc.3))
        } else if arg == "--cols"@ {
            if i + 1 >= args.len() {
                GuiParse::Error("--cols needs a value"@)
            } else {
                match spec_parse_u16(args[i + 1]@) {
                    Some(v) => spec_parse_gui_from(args, i + 2, (acc.0, acc.1, v, acc.3)),
                    None => GuiParse::Error("--cols must be a number"@),
                }
            }
        } else if arg == "--rows"@ {
            if i + 1 >= args.len() {
                GuiParse::Error("--rows needs a value"@)
            } else {
                match spec_parse_u16(args[i + 1]@) {
                    Some(v) => spec_parse_gui_from(args, i + 2, (acc.0, acc.1, acc.2, v)),
                    None => GuiParse::Error("--rows must be a number"@),
                }
            }
        } else if arg == "help"@ || arg == "--help"@ || arg == "-h"@ {
            GuiParse::Help
        } else {
            GuiParse::Error("unknown gui option: "@ + arg)
        }
    }
}

/// The defaults: no snapshot, native chrome, a 120 x 34 grid.
pub open spec fn default_gui_args() -> GuiArgsView {
    (None, false, 120, 34)
}

pub open spec fn spec_parse_gui_args(args: Seq<String>) -> GuiParse {
    spec_parse_gui_from(args, 0, default_gui_args())
}

pub open spec fn gui_args_view(a: GuiArgs) -> GuiArgsView {
    (
        match a.snapshot {
            Some(p) => Some(p@),
            None => None,
        },
        a.mirror,
        a.cols,
        a.rows,
    )
}

/// The parse result matches the outcome `p`.
pub open spec fn parse_matches(r: Result<GuiCommand, String>, p: GuiParse) -> bool {
    match p {
        GuiParse::Run(v) => r matches Ok(GuiCommand::Run(a)) && gui_args_view(a) == v,
        GuiParse::Help => r matches Ok(GuiCommand::Help),
        GuiParse::Error(m) => r matches Err(e) && e@ == m,
    }
}

/// Parses the arguments of `herdr gui`.
pub fn parse_gui_args(args: &[String]) -> (r: Result<GuiCommand, String>)
    ensures
        parse_matches(r, spec_parse_gui_args(args@)),
{
    let mut parsed = GuiArgs { snapshot: None, mirror: false, cols: 120, rows: 34 };
    let n: usize = args.len();
    let mut i: usize = 0;
    while i < n
        invariant
            n == args@.len(),
            spec_parse_gui_from(args@, i as int, gui_args_view(parsed)) == spec_parse_gui_args(args@),
        decreases n - i,
    {
        let arg = args[i].as_str();
        if str_eq(arg, "--snapshot") {
            if i + 1 >= n {
                return Err(String::from_str("usage: herdr gui --snapshot <path.png> [--cols N --rows N]"));
            }
            parsed.snapshot = Some(args[i + 1].clone());
            i += 2;
        } else if str_eq(arg, "--mirror") {
            parsed.mirror = true;
            i += 1;
        } else if str_eq(arg, "--cols") {
            if i + 1 >= n {
                return Err(String::from_str("--cols needs a value"));
            }
            match parse_u16(args[i + 1].as_str()) {
                Some(v) => parsed.cols = v,
                None => return Err(String::from_str("--cols must be a number")),
            }
            i += 2;
        } else if str_eq(arg, "--rows") {
            if i + 1 >= n {
                return Err(String::from_str("--rows needs a value"));
            }
            match parse_u16(args[i + 1].as_str()) {
                Some(v) => parsed.rows = v,
                None => return Err(String::from_str("--rows must be a number")),
            }
            i += 2;
        } else if str_eq(arg, "help") || str_eq(arg, "--help") || str_eq(arg, "-h") {
            return Ok(GuiCommand::Help);
        } else {
            return Err(String::from_str("unknown gui option: ").concat(arg));
        }
    }
    Ok(GuiCommand::Run(parsed))
}

/// What `herdr desktop` was asked to do.
#[derive(Debug, Clone, Copy, PartialEq, Eq, Structural)]
pub enum DesktopCommand {
    /// Print the desktop shell model as JSON.
    Snapshot,
    /// Print the subcommand help and exit with this code.
    Help(i32),
}

/// `snapshot` alone prints the model; `help`, `--help`, and `-h` print help
/// and succeed; anything else, or nothing, prints help and fails with 2.
pub open spec fn spec_desktop_command(args: Seq<String>) -> DesktopCommand {
    if args.len() == 0 {
        DesktopCommand::Help(2)
    } else if args[0]@ == "snapshot"@ && args.len() == 1 {
        DesktopCommand::Snapshot
    } else if args[0]@ == "help"@ || args[0]@ == "--help"@ || args[0]@ == "-h"@ {
        DesktopCommand::Help(0)
    } else {
        DesktopCommand::Help(2)
    }
}

pub fn desktop_command(args: &[String]) -> (c: DesktopCommand)
    ensures
        c == spec_desktop_command(args@),
{
    if args.len() == 0 {
        return DesktopCommand::Help(2);
    }
    let sub = args[0].as_str();
    if str_eq(sub, "snapshot") && args.len() == 1 {
        DesktopCommand::Snapshot
    } else if str_eq(sub, "help") || str_eq(sub, "--help") || str_eq(sub, "-h") {
        DesktopCommand::Help(0)
    } else {
        DesktopCommand::Help(2)
    }
}

} // verus!
