use vstd::prelude::*;

verus! {

/// Errors of the markup parser.
#[derive(Debug, Clone, Copy, PartialEq, Eq, Structural)]
pub enum TextParseError {
    /// A `$` with no name after it.
    EmptyVariableName,
    /// A color escape whose code is not a known foreground color.
    InvalidColor,
}

/// Errors of the line command parser.
#[derive(Debug, Clone, PartialEq, Eq)]
pub enum ParseError {
    NoArguments,
    UnknownCommand { command: String },
    FailedToParseNumber,
    NotEnoughArguments,
    UnknownVariableModifier { modifier: String },
    /// Declared for a `random` range whose low bound exceeds the high one; the parser
    /// accepts such ranges as they are.
    RandomLowIsHigherThanHigh { low: u16, high: u16 },
    UnknownClearTextType(String),
    Text(TextParseError),
}

pub enum ParseErrorView {
    NoArguments,
    UnknownCommand { command: Seq<char> },
    FailedToParseNumber,
    NotEnoughArguments,
    UnknownVariableModifier { modifier: Seq<char> },
    RandomLowIsHigherThanHigh { low: u16, high: u16 },
    UnknownClearTextType(Seq<char>),
    Text(TextParseError),
}

impl View for ParseError {
    type V = ParseErrorView;

    open spec fn view(&self) -> ParseErrorView {
        match self {
            ParseError::NoArguments => ParseErrorView::NoArguments,
            ParseError::UnknownCommand { command } => ParseErrorView::UnknownCommand {
                command: command@,
            },
            ParseError::FailedToParseNumber => ParseErrorView::FailedToParseNumber,
            ParseError::NotEnoughArguments => ParseErrorView::NotEnoughArguments,
            ParseError::UnknownVariableModifier { modifier } =>
                ParseErrorView::UnknownVariableModifier { modifier: modifier@ },
            ParseError::RandomLowIsHigherThanHigh { low, high } =>
                ParseErrorView::RandomLowIsHigherThanHigh { low: *low, high: *high },
            ParseError::UnknownClearTextType(t) => ParseErrorView::UnknownClearTextType(t@),
            ParseError::Text(e) => ParseErrorView::Text(*e),
        }
    }
}

/// Errors of the script engine.
#[derive(Debug, Clone, Copy, PartialEq, Eq, Structural)]
pub enum JumpToLabelError {
    LabelNotFound,
}

/// Errors of resource lookup inside a loaded novel.
#[derive(Debug, Clone, Copy, PartialEq, Eq, Structural)]
pub enum ResourceLoadError {
    FileNotFound,
}

/// Errors of loading a novel's resource directory.
#[derive(Debug, Clone, Copy, PartialEq, Eq, Structural)]
pub enum NovelLoadError {
    NoBackgroundDirectory,
    NoSoundDirectory,
    NoForegroundDirectory,
    NoScriptDirectory,
    NoHighResolutionIcon,
    NoLowResolutionIcon,
    NoThumbnail,
    NoTitle,
    InvalidImgIni,
}

/// Errors of loading a script file: the read failed (with the reader's message), or
/// the text did not parse.
#[derive(Debug, Clone, PartialEq, Eq)]
pub enum LoadScriptError {
    Io(String),
    Parse(ParseError),
}

} // verus!
