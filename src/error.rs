//! Error contexts reported to users: exit codes, messages, and their terminal rendering.
use vstd::prelude::*;
use ansi_term::{Colour, Style};

verus! {

pub const DOC_SITE_HOST: &'static str = "https://ast-grep.github.io";
pub const PATTERN_GUIDE: &'static str = "/guide/pattern-syntax.html";
pub const CONFIG_GUIDE: &'static str = "/guide/rule-config.html";
pub const CLI_USAGE: &'static str = "/reference/cli.html";
pub const TEST_GUIDE: &'static str = "/guide/test-rule.html";
pub const EDITOR_INTEGRATION: &'static str = "/guide/editor-integration.html";
pub const PLAYGROUND: &'static str = "/playground.html";

/// What the tool was doing when it failed. Paths are held as text.
pub enum ErrorContext {
    ReadConfiguration,
    ParseConfiguration,
    WalkRuleDir(String),
    ReadRule(String),
    ParseRule(String),
    ParseTest(String),
    GlobPattern,
    ParsePattern,
    DiagnosticError(usize),
    StartLanguageServer,
    OpenEditor,
    WriteFile(String),
    TestFail(String),
}

pub open spec fn exit_code_of(ctx: ErrorContext) -> i32 {
    match ctx {
        ErrorContext::ReadConfiguration | ErrorContext::ReadRule(_) | ErrorContext::WalkRuleDir(_) => 2,
        ErrorContext::TestFail(_) => 3,
        ErrorContext::ParseTest(_) | ErrorContext::ParseRule(_) | ErrorContext::ParseConfiguration => 5,
        ErrorContext::OpenEditor => 126,
        _ => 1,
    }
}

/// The decimal digits of `n`.
pub open spec fn decimal(n: nat) -> Seq<char>
    decreases n,
{
    let d = seq!['0', '1', '2', '3', '4', '5', '6', '7', '8', '9'][(n % 10) as int];
    if n < 10 {
        seq![d]
    } else {
        decimal(n / 10).push(d)
    }
}

pub open spec fn title_of(ctx: ErrorContext) -> Seq<char> {
    match ctx {
        ErrorContext::ReadConfiguration => "Cannot read configuration."@,
        ErrorContext::ParseConfiguration => "Cannot parse configuration"@,
        ErrorContext::WalkRuleDir(d) => "Cannot read rule directory "@ + d@,
        ErrorContext::ReadRule(f) => "Cannot read rule "@ + f@,
        ErrorContext::ParseRule(f) => "Cannot parse rule "@ + f@,
        ErrorContext::GlobPattern => "Cannot parse glob pattern in config"@,
        ErrorContext::ParseTest(f) => "Cannot parse test case "@ + f@,
        ErrorContext::DiagnosticError(n) => decimal(n as nat) + " error(s) found in code."@,
        ErrorContext::ParsePattern => "Cannot parse query as a valid pattern"@,
        ErrorContext::StartLanguageServer => "Cannot start language server."@,
        ErrorContext::OpenEditor => "Cannot open file in editor."@,
        ErrorContext::WriteFile(f) => "Cannot rewrite file "@ + f@,
        ErrorContext::TestFail(m) => m@,
    }
}

pub open spec fn description_of(ctx: ErrorContext) -> Seq<char> {
    match ctx {
        ErrorContext::ReadConfiguration => "Please add an sgconfig.yml configuration file in the project root to run the scan command."@,
        ErrorContext::ParseConfiguration => "The sgconfig.yml is not a valid configuration file. Please refer to doc and fix the error."@,
        ErrorContext::WalkRuleDir(_) => "The rule directory cannot be read or traversed"@,
        ErrorContext::ReadRule(_) => "The rule file either does not exist or cannot be opened."@,
        ErrorContext::ParseRule(_) => "The file is not a valid ast-grep rule. Please refer to doc and fix the error."@,
        ErrorContext::GlobPattern => "The pattern in files/ignore is not a valid glob. Please refer to doc and fix the error."@,
        ErrorContext::ParseTest(_) => "The file is not a valid ast-grep test case. Please refer to doc and fix the error."@,
        ErrorContext::DiagnosticError(_) => "Scan succeeded and found error level diagnostics in the codebase."@,
        ErrorContext::ParsePattern => "The pattern either fails to parse or contains error. Please refer to pattern syntax guide."@,
        ErrorContext::StartLanguageServer => "Please see language server logging file."@,
        ErrorContext::OpenEditor => "Please check if the editor is installed and the EDITOR environment variable is correctly set."@,
        ErrorContext::WriteFile(_) => "Fail to apply fix to the file. Skip to next file"@,
        ErrorContext::TestFail(_) => "You can use ast-grep playground to debug your rules and test cases."@,
    }
}

pub open spec fn link_of(ctx: ErrorContext) -> Option<Seq<char>> {
    match ctx {
        ErrorContext::ReadConfiguration | ErrorContext::ParseConfiguration | ErrorContext::ReadRule(_)
        | ErrorContext::ParseRule(_) | ErrorContext::GlobPattern => Some(CONFIG_GUIDE@),
        ErrorContext::ParseTest(_) => Some(TEST_GUIDE@),
        ErrorContext::ParsePattern => Some(PATTERN_GUIDE@),
        ErrorContext::StartLanguageServer => Some(EDITOR_INTEGRATION@),
        ErrorContext::OpenEditor => Some(CLI_USAGE@),
        ErrorContext::TestFail(_) => Some(PLAYGROUND@),
        _ => None,
    }
}

impl ErrorContext {
    /// The process exit code for this context.
    pub fn exit_code(&self) -> (r: i32)
        ensures
            r == exit_code_of(*self),
    {
        match self {
            ErrorContext::ReadConfiguration | ErrorContext::ReadRule(_) | ErrorContext::WalkRuleDir(_) => 2,
            ErrorContext::TestFail(_) => 3,
            ErrorContext::ParseTest(_) | ErrorContext::ParseRule(_) | ErrorContext::ParseConfiguration => 5,
            ErrorContext::OpenEditor => 126,
            ErrorContext::DiagnosticError(_) => 1,
            _ => 1,
        }
    }

    /// The one-line title of this context.
    pub fn title(&self) -> (r: String)
        ensures
            r@ == title_of(*self),
    {
        ErrorMessage::from_context(self).title
    }
}

/// Relies on `usize`'s `Display` through `ToString`: the decimal digits, no sign or padding.
#[verifier::external_body]
fn decimal_text(n: usize) -> (r: String)
    ensures
        r@ == decimal(n as nat),
{
    n.to_string()
}

/// A user-facing message: what failed, what to do, and where to read more.
pub struct ErrorMessage {
    pub title: String,
    pub description: String,
    pub link: Option<&'static str>,
}

fn prefixed(head: &str, tail: &String) -> (r: String)
    ensures
        r@ == head@ + tail@,
{
    let mut s = String::from_str(head);
    s.append(tail.as_str());
    s
}

impl ErrorMessage {
    pub fn new(title: String, description: &str, link: Option<&'static str>) -> (r: ErrorMessage)
        ensures
            r.title@ == title@,
            r.description@ == description@,
            r.link == link,
    {
        ErrorMessage { title, description: String::from_str(description), link }
    }

    /// The message for a context.
    pub fn from_context(ctx: &ErrorContext) -> (r: ErrorMessage)
        ensures
            r.title@ == title_of(*ctx),
            r.description@ == description_of(*ctx),
            match link_of(*ctx) {
                Some(l) => r.link is Some && r.link.unwrap()@ == l,
                None => r.link is None,
            },
    {
        match ctx {
            ErrorContext::ReadConfiguration => Self::new(
                String::from_str("Cannot read configuration."),
                "Please add an sgconfig.yml configuration file in the project root to run the scan command.",
                Some(CONFIG_GUIDE),
            ),
            ErrorContext::ParseConfiguration => Self::new(
                String::from_str("Cannot parse configuration"),
                "The sgconfig.yml is not a valid configuration file. Please refer to doc and fix the error.",
                Some(CONFIG_GUIDE),
            ),
            ErrorContext::WalkRuleDir(dir) => Self::new(
                prefixed("Cannot read rule directory ", dir),
                "The rule directory cannot be read or traversed",
                None,
            ),
            ErrorContext::ReadRule(file) => Self::new(
                prefixed("Cannot read rule ", file),
                "The rule file either does not exist or cannot be opened.",
                Some(CONFIG_GUIDE),
            ),
            ErrorContext::ParseRule(file) => Self::new(
                prefixed("Cannot parse rule ", file),
                "The file is not a valid ast-grep rule. Please refer to doc and fix the error.",
                Some(CONFIG_GUIDE),
            ),
            ErrorContext::GlobPattern => Self::new(
                String::from_str("Cannot parse glob pattern in config"),
                "The pattern in files/ignore is not a valid glob. Please refer to doc and fix the error.",
                Some(CONFIG_GUIDE),
            ),
            ErrorContext::ParseTest(file) => Self::new(
                prefixed("Cannot parse test case ", file),
                "The file is not a valid ast-grep test case. Please refer to doc and fix the error.",
                Some(TEST_GUIDE),
            ),
            ErrorContext::DiagnosticError(num) => {
                let mut t = decimal_text(*num);
                t.append(" error(s) found in code.");
                Self::new(t, "Scan succeeded and found error level diagnostics in the codebase.", None)
            },
            ErrorContext::ParsePattern => Self::new(
                String::from_str("Cannot parse query as a valid pattern"),
                "The pattern either fails to parse or contains error. Please refer to pattern syntax guide.",
                Some(PATTERN_GUIDE),
            ),
            ErrorContext::StartLanguageServer => Self::new(
                String::from_str("Cannot start language server."),
                "Please see language server logging file.",
                Some(EDITOR_INTEGRATION),
            ),
            ErrorContext::OpenEditor => Self::new(
                String::from_str("Cannot open file in editor."),
                "Please check if the editor is installed and the EDITOR environment variable is correctly set.",
                Some(CLI_USAGE),
            ),
            ErrorContext::WriteFile(file) => Self::new(
                prefixed("Cannot rewrite file ", file),
                "Fail to apply fix to the file. Skip to next file",
                None,
            ),
            ErrorContext::TestFail(message) => Self::new(
                message.clone(),
                "You can use ast-grep playground to debug your rules and test cases.",
                Some(PLAYGROUND),
            ),
        }
    }
}

/// A terminal style used when rendering an error.
pub enum Paint {
    Red,
    Blue,
    Bold,
    BoldDimmed,
    CyanItalic,
}

/// The text `text` wrapped in the escape codes of style `p`.
pub uninterp spec fn painted(p: Paint, text: Seq<char>) -> Seq<char>;

/// Relies on ansi_term's `Style::paint` and the `Display` of the painted string:
/// the text with the style's escape codes around it, a function of the two alone.
#[verifier::external_body]
fn paint(p: Paint, text: &str) -> (r: String)
    ensures
        r@ == painted(p, text@),
{
    let style = match p {
        Paint::Red => Colour::Red.normal(),
        Paint::Blue => Colour::Blue.normal(),
        Paint::Bold => Style::new().bold(),
        Paint::BoldDimmed => Style::new().bold().dimmed(),
        Paint::CyanItalic => Colour::Cyan.italic(),
    };
    format!("{}", style.paint(text))
}

pub open spec fn cause_line(cause: Seq<char>) -> Seq<char> {
    painted(Paint::Red, "\u{2570}\u{25bb}"@) + " "@ + cause + "\n"@
}

/// One line per cause, in order.
pub open spec fn causes_text(causes: Seq<Seq<char>>) -> Seq<char>
    decreases causes.len(),
{
    if causes.len() == 0 {
        Seq::empty()
    } else {
        causes_text(causes.drop_last()) + cause_line(causes.last())
    }
}

pub open spec fn link_line(url: Seq<char>) -> Seq<char> {
    painted(Paint::BoldDimmed, "See also:"@) + " "@ + "\u{1b}]8;;"@ + DOC_SITE_HOST@ + url + "\u{1b}\\"@
        + painted(Paint::CyanItalic, DOC_SITE_HOST@) + painted(Paint::CyanItalic, url)
        + "\u{1b}]8;;\u{1b}\\"@ + "\n"@
}

/// The rendering of an error: title, help, an optional link, and the chain of causes
/// below the error itself, if there are any.
pub open spec fn rendered(ctx: ErrorContext, causes: Seq<Seq<char>>) -> Seq<char> {
    let head = painted(Paint::Red, "Error:"@) + " "@ + painted(Paint::Bold, title_of(ctx)) + "\n"@
        + painted(Paint::Blue, "Help:"@) + " "@ + description_of(ctx) + "\n"@;
    let link = match link_of(ctx) {
        Some(url) => link_line(url),
        None => Seq::empty(),
    };
    let tail = if causes.len() == 0 {
        Seq::empty()
    } else {
        "\n"@ + painted(Paint::Red, "\u{d7}"@) + " Caused by\n"@ + causes_text(causes)
    };
    head + link + tail
}

fn push_str(s: &mut String, t: &str)
    ensures
        final(s)@ == old(s)@ + t@,
{
    s.append(t);
}

/// Renders the error of context `ctx` whose underlying causes are `causes`.
pub fn render_error(ctx: &ErrorContext, causes: &Vec<String>) -> (r: String)
    ensures
        r@ == rendered(*ctx, causes@.map_values(|c: String| c@)),
{
    let msg = ErrorMessage::from_context(ctx);
    let mut out = paint(Paint::Red, "Error:");
    push_str(&mut out, " ");
    let title = paint(Paint::Bold, msg.title.as_str());
    push_str(&mut out, title.as_str());
    push_str(&mut out, "\n");
    let help = paint(Paint::Blue, "Help:");
    push_str(&mut out, help.as_str());
    push_str(&mut out, " ");
    push_str(&mut out, msg.description.as_str());
    push_str(&mut out, "\n");
    let ghost head = out@;
    match msg.link {
        Some(url) => {
            let see = paint(Paint::BoldDimmed, "See also:");
            push_str(&mut out, see.as_str());
            push_str(&mut out, " ");
            push_str(&mut out, "\u{1b}]8;;");
            push_str(&mut out, DOC_SITE_HOST);
            push_str(&mut out, url);
            push_str(&mut out, "\u{1b}\\");
            let host = paint(Paint::CyanItalic, DOC_SITE_HOST);
            push_str(&mut out, host.as_str());
            let path = paint(Paint::CyanItalic, url);
            push_str(&mut out, path.as_str());
            push_str(&mut out, "\u{1b}]8;;\u{1b}\\");
            push_str(&mut out, "\n");
            assert(out@ =~= head + link_line(url@));
        },
        None => {},
    }
    let ghost with_link = out@;
    let ghost cs = causes@.map_values(|c: String| c@);
    if causes.len() == 0 {
        assert(out@ =~= rendered(*ctx, cs));
        return out;
    }
    push_str(&mut out, "\n");
    let cross = paint(Paint::Red, "\u{d7}");
    push_str(&mut out, cross.as_str());
    push_str(&mut out, " Caused by\n");
    let ghost before = out@;
    assert(cs.take(0) =~= Seq::<Seq<char>>::empty());
    let mut i: usize = 0;
    while i < causes.len()
        invariant
            i <= causes@.len(),
            cs == causes@.map_values(|c: String| c@),
            out@ == before + causes_text(cs.take(i as int)),
        decreases causes@.len() - i,
    {
        let arrow = paint(Paint::Red, "\u{2570}\u{25bb}");
        push_str(&mut out, arrow.as_str());
        push_str(&mut out, " ");
        push_str(&mut out, causes[i].as_str());
        push_str(&mut out, "\n");
        assert(cs.take(i + 1).drop_last() =~= cs.take(i as int));
        assert(out@ =~= before + causes_text(cs.take(i + 1)));
        i = i + 1;
    }
    assert(cs.take(i as int) =~= cs);
    assert(out@ =~= rendered(*ctx, cs));
    out
}

} // verus!
