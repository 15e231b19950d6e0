//! The error value shared by every fallible operation, and log severities.

use vstd::prelude::*;
use vstd::string::StringExecFns;

verus! {

/// The classes of failure that an operation can report.
#[derive(Clone, Copy, Debug, PartialEq, Eq, Structural)]
pub enum ErrorKind {
    /// The command line could not be understood.
    Usage,
    /// The manifest is missing or unparseable, or `HOME` is not set.
    Config,
    /// A glob pattern is malformed.
    Pattern,
    /// A path named by the manifest does not exist.
    NotFound,
    /// The palette variant is not one of the known names.
    InvalidVariant,
    /// The theme is neither `dark` nor `light`.
    InvalidTheme,
    /// The wallpaper could not be read, decoded or quantized.
    Image,
    /// A template is to be rendered, but no wallpaper is configured.
    MissingWallpaper,
    /// The entry named on the command line is not in the manifest.
    EntryNotFound,
    /// A template's syntax is malformed.
    TemplateCompile,
    /// A template could not be rendered against the context.
    TemplateRender,
    /// A hook could not be launched.
    Hook,
    /// The file system refused an operation.
    Io,
}

/// What an `Error` is, as mathematical values.
pub struct ErrorView {
    pub kind: ErrorKind,
    pub ctx: Seq<char>,
}

/// A failure: its class, and the message shown to the user.
#[derive(Debug)]
pub struct Error {
    kind: ErrorKind,
    ctx: String,
}

impl View for Error {
    type V = ErrorView;

    closed spec fn view(&self) -> ErrorView {
        ErrorView { kind: self.kind, ctx: self.ctx@ }
    }
}

impl Error {
    /// An error of class `kind` whose message is `ctx`.
    pub fn new(kind: ErrorKind, ctx: String) -> (e: Error)
        ensures
            e@ == (ErrorView { kind, ctx: ctx@ }),
    {
        Error { kind, ctx }
    }

    /// An error of class `kind` whose message is `prefix` followed by `detail`.
    pub fn with_detail(kind: ErrorKind, prefix: &str, detail: &str) -> (e: Error)
        ensures
            e@ == (ErrorView { kind, ctx: prefix@ + detail@ }),
    {
        let mut ctx = String::from_str(prefix);
        ctx.append(detail);
        Error { kind, ctx }
    }

    /// The class of this failure.
    pub fn kind(&self) -> (k: ErrorKind)
        ensures
            k == self@.kind,
    {
        self.kind
    }

    /// The message of this failure, as it is shown to the user.
    pub fn message(&self) -> (s: String)
        ensures
            s@ == self@.ctx,
    {
        self.ctx.clone()
    }
}

/// The severity of a log line.
#[derive(Clone, Copy, Debug, PartialEq, Eq, Structural)]
pub enum LogLevel {
    Info,
    Warning,
    Error,
}

impl LogLevel {
    /// The coloured tag that starts a line of this severity.
    pub open spec fn spec_prefix(self) -> Seq<char> {
        match self {
            LogLevel::Info => "\x1b[0;32mINFO\x1b[0m: "@,
            LogLevel::Warning => "\x1b[0;33mWARNING\x1b[0m: "@,
            LogLevel::Error => "\x1b[0;31mERROR\x1b[0m: "@,
        }
    }

    /// The coloured tag that starts a line of this severity.
    pub fn prefix(&self) -> (s: &'static str)
        ensures
            s@ == self.spec_prefix(),
    {
        match self {
            LogLevel::Info => "\x1b[0;32mINFO\x1b[0m: ",
            LogLevel::Warning => "\x1b[0;33mWARNING\x1b[0m: ",
            LogLevel::Error => "\x1b[0;31mERROR\x1b[0m: ",
        }
    }

    /// Whether lines of this severity go to standard error rather than
    /// standard output: only errors do.
    pub fn to_stderr(&self) -> (b: bool)
        ensures
            b <==> self == LogLevel::Error,
    {
        match self {
            LogLevel::Error => true,
            _ => false,
        }
    }

    /// The full log line for `message`: the tag followed by the message.
    pub fn line(&self, message: &str) -> (s: String)
        ensures
            s@ == self.spec_prefix() + message@,
    {
        let mut s = String::from_str(self.prefix());
        s.append(message);
        s
    }
}

/// A message for the user, with its severity.
#[derive(Debug)]
pub struct Notice {
    pub level: LogLevel,
    pub text: String,
}

/// A `Notice` as mathematical values.
pub struct NoticeView {
    pub level: LogLevel,
    pub text: Seq<char>,
}

impl DeepView for Notice {
    type V = NoticeView;

    open spec fn deep_view(&self) -> NoticeView {
        NoticeView { level: self.level, text: self.text@ }
    }
}

impl View for Notice {
    type V = NoticeView;

    open spec fn view(&self) -> NoticeView {
        self.deep_view()
    }
}

impl Notice {
    /// The notice as the line that is printed: the tag of its severity,
    /// then its text.
    pub fn line(&self) -> (s: String)
        ensures
            s@ == self@.level.spec_prefix() + self@.text,
    {
        self.level.line(self.text.as_str())
    }
}

} // verus!
