use vstd::prelude::*;

use crate::chars::string_of;
use crate::error::{ParseError, ParseErrorView};
use crate::text::{Text, TextView};
use core::ops::RangeInclusive;

verus! {

#[derive(Debug, Clone, Copy, PartialEq, Eq, Structural)]
pub enum ClearTextType {
    FillBottomScreen,
    TextBufferInclHistory,
}

#[derive(Debug, Clone, Copy, PartialEq, Eq, Structural)]
pub enum VariableStorageType {
    /// Common variable for all saves
    Global,
    /// Variable specific to one save
    Local,
}

#[derive(Debug, Clone, PartialEq, Eq)]
pub enum IfRhs {
    Number(u16),
    Variable(String),
}

pub enum IfRhsView {
    Number(u16),
    Variable(Seq<char>),
}

impl View for IfRhs {
    type V = IfRhsView;

    open spec fn view(&self) -> IfRhsView {
        match self {
            IfRhs::Number(n) => IfRhsView::Number(*n),
            IfRhs::Variable(v) => IfRhsView::Variable(v@),
        }
    }
}

#[derive(Debug, Clone, Copy, PartialEq, Eq, Structural)]
pub enum VariableModifier {
    Assign,
    Add,
    Sub,
    GtOrEq,
    LtOrEq,
    Gt,
    Lt,
}

/// The modifier that a token denotes, if any.
pub open spec fn modifier_of(s: Seq<char>) -> Option<VariableModifier> {
    if s == seq!['='] {
        Some(VariableModifier::Assign)
    } else if s == seq!['+'] {
        Some(VariableModifier::Add)
    } else if s == seq!['-'] {
        Some(VariableModifier::Sub)
    } else if s == seq!['>'] {
        Some(VariableModifier::Gt)
    } else if s == seq!['<'] {
        Some(VariableModifier::Lt)
    } else if s == seq!['>', '='] {
        Some(VariableModifier::GtOrEq)
    } else if s == seq!['<', '='] {
        Some(VariableModifier::LtOrEq)
    } else {
        None
    }
}

impl VariableModifier {
    /// Reads a modifier token: `=`, `+`, `-`, `>`, `<`, `>=` or `<=`.
    pub fn parse(s: &Vec<char>) -> (r: Result<VariableModifier, ParseError>)
        ensures
            match r {
                Ok(m) => modifier_of(s@) == Some(m),
                Err(e) => modifier_of(s@) is None && e@
                    == (ParseErrorView::UnknownVariableModifier { modifier: s@ }),
            },
    {
        if s.len() == 1 {
            let c = s[0];
            assert(s@ =~= seq![c]);
            if c == '=' {
                return Ok(VariableModifier::Assign);
            } else if c == '+' {
                return Ok(VariableModifier::Add);
            } else if c == '-' {
                return Ok(VariableModifier::Sub);
            } else if c == '>' {
                return Ok(VariableModifier::Gt);
            } else if c == '<' {
                return Ok(VariableModifier::Lt);
            }
        } else if s.len() == 2 && s[1] == '=' {
            let c = s[0];
            assert(s@ =~= seq![c, '=']);
            if c == '>' {
                return Ok(VariableModifier::GtOrEq);
            } else if c == '<' {
                return Ok(VariableModifier::LtOrEq);
            }
        }
        Err(ParseError::UnknownVariableModifier { modifier: string_of(s) })
    }
}

#[derive(Debug, Clone, PartialEq, Eq)]
pub enum ChoiceOption {
    Variable(String),
    Option(String),
}

pub enum ChoiceOptionView {
    Variable(Seq<char>),
    Option(Seq<char>),
}

impl View for ChoiceOption {
    type V = ChoiceOptionView;

    open spec fn view(&self) -> ChoiceOptionView {
        match self {
            ChoiceOption::Variable(v) => ChoiceOptionView::Variable(v@),
            ChoiceOption::Option(o) => ChoiceOptionView::Option(o@),
        }
    }
}

/// A choice token: `$name` names a variable, anything else is literal text.
pub open spec fn choice_option_of(s: Seq<char>) -> ChoiceOptionView {
    if s.len() > 0 && s[0] == '$' {
        ChoiceOptionView::Variable(s.drop_first())
    } else {
        ChoiceOptionView::Option(s)
    }
}

impl ChoiceOption {
    pub fn parse(s: &Vec<char>) -> (r: ChoiceOption)
        ensures
            r@ == choice_option_of(s@),
    {
        if s.len() > 0 && s[0] == '$' {
            let name = crate::chars::sub_chars(s, 1, s.len());
            assert(name@ =~= s@.drop_first());
            ChoiceOption::Variable(string_of(&name))
        } else {
            ChoiceOption::Option(string_of(s))
        }
    }
}

#[derive(Debug, Clone, PartialEq, Eq)]
pub enum SoundLooping {
    /// Play `file` in a loop until stopped
    Infinite { file: String },
    /// Stop the sound that is playing
    StopCurrentlyPlaying,
    /// Play `file` `count` times
    Count { file: String, count: u16 },
}

pub enum SoundLoopingView {
    Infinite { file: Seq<char> },
    StopCurrentlyPlaying,
    Count { file: Seq<char>, count: u16 },
}

impl View for SoundLooping {
    type V = SoundLoopingView;

    open spec fn view(&self) -> SoundLoopingView {
        match self {
            SoundLooping::Infinite { file } => SoundLoopingView::Infinite { file: file@ },
            SoundLooping::StopCurrentlyPlaying => SoundLoopingView::StopCurrentlyPlaying,
            SoundLooping::Count { file, count } => SoundLoopingView::Count {
                file: file@,
                count: *count,
            },
        }
    }
}

#[derive(Debug, Clone, PartialEq, Eq)]
pub enum MusicFile {
    StopPlaying,
    Path(String),
}

pub enum MusicFileView {
    StopPlaying,
    Path(Seq<char>),
}

impl View for MusicFile {
    type V = MusicFileView;

    open spec fn view(&self) -> MusicFileView {
        match self {
            MusicFile::StopPlaying => MusicFileView::StopPlaying,
            MusicFile::Path(p) => MusicFileView::Path(p@),
        }
    }
}

/// One instruction of a script.
#[derive(Debug, PartialEq, Eq)]
pub enum Command {
    BgLoad { file: String, fadetime: u16 },
    SetImg { file: String, coordinates: (u16, u16) },
    Sound(SoundLooping),
    Music { file: MusicFile },
    Choice { options: Vec<ChoiceOption> },
    SetVar {
        name: String,
        accumulator: u16,
        modifier: VariableModifier,
        storage: VariableStorageType,
    },
    If { name: String, rhs: IfRhs },
    Jump { file: String, label: Option<String> },
    Delay { frames: u16 },
    Random { variable: String, range: RangeInclusive<u16> },
    Text(Text),
    Label(String),
    Goto(String),
    ClearText(ClearTextType),
    EndIf,
}

pub enum CommandView {
    BgLoad { file: Seq<char>, fadetime: u16 },
    SetImg { file: Seq<char>, coordinates: (u16, u16) },
    Sound(SoundLoopingView),
    Music { file: MusicFileView },
    Choice { options: Seq<ChoiceOptionView> },
    SetVar {
        name: Seq<char>,
        accumulator: u16,
        modifier: VariableModifier,
        storage: VariableStorageType,
    },
    If { name: Seq<char>, rhs: IfRhsView },
    Jump { file: Seq<char>, label: Option<Seq<char>> },
    Delay { frames: u16 },
    Random { variable: Seq<char>, low: u16, high: u16, exhausted: bool },
    Text(TextView),
    Label(Seq<char>),
    Goto(Seq<char>),
    ClearText(ClearTextType),
    EndIf,
}

pub open spec fn options_view(v: Seq<ChoiceOption>) -> Seq<ChoiceOptionView> {
    v.map_values(|o: ChoiceOption| o@)
}

pub open spec fn opt_string_view(o: Option<String>) -> Option<Seq<char>> {
    match o {
        Some(s) => Some(s@),
        None => None,
    }
}

impl View for Command {
    type V = CommandView;

    open spec fn view(&self) -> CommandView {
        match self {
            Command::BgLoad { file, fadetime } => CommandView::BgLoad {
                file: file@,
                fadetime: *fadetime,
            },
            Command::SetImg { file, coordinates } => CommandView::SetImg {
                file: file@,
                coordinates: *coordinates,
            },
            Command::Sound(l) => CommandView::Sound(l@),
            Command::Music { file } => CommandView::Music { file: file@ },
            Command::Choice { options } => CommandView::Choice { options: options_view(options@) },
            Command::SetVar { name, accumulator, modifier, storage } => CommandView::SetVar {
                name: name@,
                accumulator: *accumulator,
                modifier: *modifier,
                storage: *storage,
            },
            Command::If { name, rhs } => CommandView::If { name: name@, rhs: rhs@ },
            Command::Jump { file, label } => CommandView::Jump {
                file: file@,
                label: opt_string_view(*label),
            },
            Command::Delay { frames } => CommandView::Delay { frames: *frames },
            Command::Random { variable, range } => CommandView::Random {
                variable: variable@,
                low: range@.start,
                high: range@.end,
                exhausted: range@.exhausted,
            },
            Command::Text(t) => CommandView::Text(t@),
            Command::Label(l) => CommandView::Label(l@),
            Command::Goto(g) => CommandView::Goto(g@),
            Command::ClearText(k) => CommandView::ClearText(*k),
            Command::EndIf => CommandView::EndIf,
        }
    }
}

pub open spec fn commands_view(v: Seq<Command>) -> Seq<CommandView> {
    v.map_values(|c: Command| c@)
}

} // verus!
