use vstd::prelude::*;

use crate::chars::{
    chars_eq, chars_of, find_char_from, find_from, lemma_find_from_absent, lemma_find_from_bounds,
    parse_u16, parse_u16_spec, split_once, split_once_spec, string_of, sub_chars, trim, trim_spec,
};
use crate::command::{
    choice_option_of, commands_view, modifier_of, options_view, ChoiceOption,
    ClearTextType, Command, CommandView, IfRhs, IfRhsView, MusicFile, MusicFileView,
    SoundLooping, SoundLoopingView, VariableModifier, VariableStorageType,
};
use crate::error::{ParseError, ParseErrorView};
use crate::text::{text_spec, Text};
use core::ops::RangeInclusive;

verus! {

/// A value, or the answer "nothing was given" to be replaced by a default.
pub enum OptionalResult<T, E> {
    Result(Result<T, E>),
    Absent,
}

impl<T, E> OptionalResult<T, E> {
    /// The result that was given, or `Ok(default)` if none was.
    pub fn default_or_err(self, default: T) -> (r: Result<T, E>)
        ensures
            match self {
                OptionalResult::Result(res) => r == res,
                OptionalResult::Absent => r == Ok::<T, E>(default),
            },
    {
        match self {
            OptionalResult::Result(r) => r,
            OptionalResult::Absent => Ok(default),
        }
    }

    pub fn from_option(value: Option<Result<T, E>>) -> (r: OptionalResult<T, E>)
        ensures
            match value {
                Some(res) => r == OptionalResult::<T, E>::Result(res),
                None => r == OptionalResult::<T, E>::Absent,
            },
    {
        match value {
            Some(res) => OptionalResult::Result(res),
            None => OptionalResult::Absent,
        }
    }
}

pub open spec fn cmd_view(r: Result<Command, ParseError>) -> Result<CommandView, ParseErrorView> {
    match r {
        Ok(c) => Ok(c@),
        Err(e) => Err(e@),
    }
}

pub open spec fn script_view(r: Result<Vec<Command>, ParseError>) -> Result<
    Seq<CommandView>,
    ParseErrorView,
> {
    match r {
        Ok(v) => Ok(commands_view(v@)),
        Err(e) => Err(e@),
    }
}

/// Splitting off the first space-separated token, where a second part is required.
pub open spec fn split_req(s: Seq<char>) -> Result<(Seq<char>, Seq<char>), ParseErrorView> {
    match split_once_spec(s, ' ') {
        Some(p) => Ok(p),
        None => Err(ParseErrorView::NotEnoughArguments),
    }
}

/// Splitting off the first space-separated token, where the rest may be missing.
pub open spec fn split_opt(s: Seq<char>) -> (Seq<char>, Option<Seq<char>>) {
    match split_once_spec(s, ' ') {
        Some((a, b)) => (a, Some(b)),
        None => (s, None),
    }
}

pub open spec fn number(s: Seq<char>) -> Result<u16, ParseErrorView> {
    match parse_u16_spec(s) {
        Some(n) => Ok(n),
        None => Err(ParseErrorView::FailedToParseNumber),
    }
}

/// The pieces of `s` from position `i` on, between occurrences of `c`, as `str::split`
/// gives them (empty pieces included).
pub open spec fn pieces_from(s: Seq<char>, c: char, i: int) -> Seq<Seq<char>>
    decreases s.len() - i
    via pieces_from_decreases
{
    if i < 0 || i > s.len() {
        Seq::empty()
    } else {
        let j = find_from(s, c, i);
        if j >= s.len() {
            seq![s.subrange(i, s.len() as int)]
        } else {
            seq![s.subrange(i, j)].add(pieces_from(s, c, j + 1))
        }
    }
}

#[via_fn]
proof fn pieces_from_decreases(s: Seq<char>, c: char, i: int) {
    if 0 <= i <= s.len() {
        lemma_find_from_bounds(s, c, i);
    }
}

pub open spec fn random_spec(args: Seq<char>) -> Result<CommandView, ParseErrorView> {
    match split_req(args) {
        Err(e) => Err(e),
        Ok((variable, low_high)) => match split_req(low_high) {
            Err(e) => Err(e),
            Ok((l, h)) => match (parse_u16_spec(l), parse_u16_spec(h)) {
                (Some(low), Some(high)) => Ok(
                    CommandView::Random { variable, low, high, exhausted: false },
                ),
                _ => Err(ParseErrorView::FailedToParseNumber),
            },
        },
    }
}

pub open spec fn if_spec(args: Seq<char>) -> Result<CommandView, ParseErrorView> {
    match split_req(args) {
        Err(e) => Err(e),
        Ok((name, op_value)) => match split_req(op_value) {
            Err(e) => Err(e),
            Ok((_op, value)) => Ok(
                CommandView::If {
                    name,
                    rhs: match parse_u16_spec(value) {
                        Some(n) => IfRhsView::Number(n),
                        None => IfRhsView::Variable(value),
                    },
                },
            ),
        },
    }
}

pub open spec fn setvar_spec(args: Seq<char>, storage: VariableStorageType) -> Result<
    CommandView,
    ParseErrorView,
> {
    match split_req(args) {
        Err(e) => Err(e),
        Ok((name, mod_value)) => match split_req(mod_value) {
            Err(e) => Err(e),
            Ok((m, value)) => match modifier_of(m) {
                None => Err(ParseErrorView::UnknownVariableModifier { modifier: m }),
                Some(modifier) => match number(value) {
                    Err(e) => Err(e),
                    Ok(accumulator) => Ok(
                        CommandView::SetVar { name, accumulator, modifier, storage },
                    ),
                },
            },
        },
    }
}

pub open spec fn sound_spec(args: Seq<char>) -> Result<CommandView, ParseErrorView> {
    if args == seq!['~'] {
        Ok(CommandView::Sound(SoundLoopingView::StopCurrentlyPlaying))
    } else {
        match split_req(args) {
            Err(e) => Err(e),
            Ok((file, looping)) => if looping == seq!['-', '1'] {
                Ok(CommandView::Sound(SoundLoopingView::Infinite { file }))
            } else {
                match number(looping) {
                    Err(e) => Err(e),
                    Ok(count) => Ok(CommandView::Sound(SoundLoopingView::Count { file, count })),
                }
            },
        }
    }
}

/// The fade time that `bgload` uses when none is given.
pub const DEFAULT_FADETIME: u16 = 16;

pub open spec fn bgload_spec(args: Seq<char>) -> Result<CommandView, ParseErrorView> {
    let (file, fade) = split_opt(args);
    match fade {
        None => Ok(CommandView::BgLoad { file, fadetime: DEFAULT_FADETIME }),
        Some(f) => match number(f) {
            Err(e) => Err(e),
            Ok(fadetime) => Ok(CommandView::BgLoad { file, fadetime }),
        },
    }
}

pub open spec fn setimg_spec(args: Seq<char>) -> Result<CommandView, ParseErrorView> {
    match split_req(args) {
        Err(e) => Err(e),
        Ok((file, coords)) => match split_req(coords) {
            Err(e) => Err(e),
            Ok((x, y)) => match (parse_u16_spec(x), parse_u16_spec(y)) {
                (Some(a), Some(b)) => Ok(CommandView::SetImg { file, coordinates: (a, b) }),
                _ => Err(ParseErrorView::FailedToParseNumber),
            },
        },
    }
}

/// The command that keyword `cmd` with arguments `args` denotes.
pub open spec fn dispatch_spec(cmd: Seq<char>, args: Seq<char>) -> Result<
    CommandView,
    ParseErrorView,
> {
    if cmd == seq!['l', 'a', 'b', 'e', 'l'] {
        Ok(CommandView::Label(args))
    } else if cmd == seq!['g', 'o', 't', 'o'] {
        Ok(CommandView::Goto(args))
    } else if cmd == seq!['c', 'l', 'e', 'a', 'r', 't', 'e', 'x', 't'] {
        if args == seq!['!'] {
            Ok(CommandView::ClearText(ClearTextType::TextBufferInclHistory))
        } else {
            Err(ParseErrorView::UnknownClearTextType(args))
        }
    } else if cmd == seq!['r', 'a', 'n', 'd', 'o', 'm'] {
        random_spec(args)
    } else if cmd == seq!['d', 'e', 'l', 'a', 'y'] {
        match number(args) {
            Ok(frames) => Ok(CommandView::Delay { frames }),
            Err(e) => Err(e),
        }
    } else if cmd == seq!['j', 'u', 'm', 'p'] {
        let (file, label) = split_opt(args);
        Ok(CommandView::Jump { file, label })
    } else if cmd == seq!['i', 'f'] {
        if_spec(args)
    } else if cmd == seq!['s', 'e', 't', 'v', 'a', 'r'] {
        setvar_spec(args, VariableStorageType::Local)
    } else if cmd == seq!['g', 's', 'e', 't', 'v', 'a', 'r'] {
        setvar_spec(args, VariableStorageType::Global)
    } else if cmd == seq!['c', 'h', 'o', 'i', 'c', 'e'] {
        Ok(
            CommandView::Choice {
                options: pieces_from(args, '|', 0).map_values(
                    |p: Seq<char>| choice_option_of(p),
                ),
            },
        )
    } else if cmd == seq!['t', 'e', 'x', 't'] {
        match text_spec(args) {
            Ok(t) => Ok(CommandView::Text(t)),
            Err(e) => Err(ParseErrorView::Text(e)),
        }
    } else if cmd == seq!['m', 'u', 's', 'i', 'c'] {
        if args == seq!['~'] {
            Ok(CommandView::Music { file: MusicFileView::StopPlaying })
        } else {
            Ok(CommandView::Music { file: MusicFileView::Path(args) })
        }
    } else if cmd == seq!['s', 'o', 'u', 'n', 'd'] {
        sound_spec(args)
    } else if cmd == seq!['b', 'g', 'l', 'o', 'a', 'd'] {
        bgload_spec(args)
    } else if cmd == seq!['s', 'e', 't', 'i', 'm', 'g'] {
        setimg_spec(args)
    } else {
        Err(ParseErrorView::UnknownCommand { command: cmd })
    }
}

/// The command that a trimmed line denotes.
pub open spec fn parse_line(line: Seq<char>) -> Result<CommandView, ParseErrorView> {
    if line == seq!['f', 'i'] {
        Ok(CommandView::EndIf)
    } else if line == seq!['c', 'l', 'e', 'a', 'r', 't', 'e', 'x', 't'] {
        Ok(CommandView::ClearText(ClearTextType::FillBottomScreen))
    } else {
        match split_once_spec(line, ' ') {
            None => if line.len() == 0 || is_keyword(line) {
                Err(ParseErrorView::NotEnoughArguments)
            } else {
                Err(ParseErrorView::UnknownCommand { command: line })
            },
            Some((cmd, args)) => dispatch_spec(cmd, args),
        }
    }
}

pub open spec fn res_view<T>(r: Result<T, ParseError>) -> Result<T, ParseErrorView> {
    match r {
        Ok(v) => Ok(v),
        Err(e) => Err(e@),
    }
}

pub open spec fn pair_view(r: Result<(Vec<char>, Vec<char>), ParseError>) -> Result<
    (Seq<char>, Seq<char>),
    ParseErrorView,
> {
    match r {
        Ok((a, b)) => Ok((a@, b@)),
        Err(e) => Err(e@),
    }
}

pub open spec fn opt_chars_view(o: Option<Vec<char>>) -> Option<Seq<char>> {
    match o {
        Some(v) => Some(v@),
        None => None,
    }
}

fn split_once_required(s: &Vec<char>) -> (r: Result<(Vec<char>, Vec<char>), ParseError>)
    ensures
        pair_view(r) == split_req(s@),
{
    match split_once(s, ' ') {
        Some(p) => Ok(p),
        None => Err(ParseError::NotEnoughArguments),
    }
}

fn split_once_optional(s: &Vec<char>) -> (r: (Vec<char>, Option<Vec<char>>))
    ensures
        split_opt(s@) == (r.0@, opt_chars_view(r.1)),
{
    match split_once(s, ' ') {
        Some((a, b)) => (a, Some(b)),
        None => (sub_chars(s, 0, s.len()), None),
    }
}

fn parse_u16_opt(s: &Vec<char>) -> (r: Option<u16>)
    ensures
        r == parse_u16_spec(s@),
{
    parse_u16(s)
}

fn try_parse_u16(s: &Vec<char>) -> (r: Result<u16, ParseError>)
    ensures
        res_view(r) == number(s@),
{
    match parse_u16(s) {
        Some(n) => Ok(n),
        None => Err(ParseError::FailedToParseNumber),
    }
}

fn try_parse_u16_opt(s: &Option<Vec<char>>) -> (r: OptionalResult<u16, ParseError>)
    ensures
        match s {
            None => r is Absent,
            Some(v) => r matches OptionalResult::Result(res) && res_view(res) == number(v@),
        },
{
    match s {
        Some(v) => OptionalResult::from_option(Some(try_parse_u16(v))),
        None => OptionalResult::from_option(None),
    }
}

fn parse_random(args: &Vec<char>) -> (r: Result<Command, ParseError>)
    ensures
        cmd_view(r) == random_spec(args@),
{
    let (variable, low_high) = match split_once_required(args) {
        Ok(p) => p,
        Err(e) => { return Err(e); },
    };
    let (l, h) = match split_once_required(&low_high) {
        Ok(p) => p,
        Err(e) => { return Err(e); },
    };
    match (parse_u16_opt(&l), parse_u16_opt(&h)) {
        (Some(low), Some(high)) => {
            let range = RangeInclusive::new(low, high);
            Ok(Command::Random { variable: string_of(&variable), range })
        },
        _ => Err(ParseError::FailedToParseNumber),
    }
}

fn parse_if(args: &Vec<char>) -> (r: Result<Command, ParseError>)
    ensures
        cmd_view(r) == if_spec(args@),
{
    let (name, op_value) = match split_once_required(args) {
        Ok(p) => p,
        Err(e) => { return Err(e); },
    };
    let (_op, value) = match split_once_required(&op_value) {
        Ok(p) => p,
        Err(e) => { return Err(e); },
    };
    let rhs = match parse_u16_opt(&value) {
        Some(n) => IfRhs::Number(n),
        None => IfRhs::Variable(string_of(&value)),
    };
    Ok(Command::If { name: string_of(&name), rhs })
}

fn parse_setvar(args: &Vec<char>, storage: VariableStorageType) -> (r: Result<Command, ParseError>)
    ensures
        cmd_view(r) == setvar_spec(args@, storage),
{
    let (name, mod_value) = match split_once_required(args) {
        Ok(p) => p,
        Err(e) => { return Err(e); },
    };
    let (m, value) = match split_once_required(&mod_value) {
        Ok(p) => p,
        Err(e) => { return Err(e); },
    };
    let modifier = match VariableModifier::parse(&m) {
        Ok(modifier) => modifier,
        Err(e) => { return Err(e); },
    };
    let accumulator = match try_parse_u16(&value) {
        Ok(n) => n,
        Err(e) => { return Err(e); },
    };
    Ok(Command::SetVar { name: string_of(&name), accumulator, modifier, storage })
}

fn parse_choice(args: &Vec<char>) -> (r: Vec<ChoiceOption>)
    ensures
        options_view(r@) == pieces_from(args@, '|', 0).map_values(
            |p: Seq<char>| choice_option_of(p),
        ),
{
    let mut out: Vec<ChoiceOption> = Vec::new();
    let ghost done: Seq<Seq<char>> = Seq::empty();
    let mut start: usize = 0;
    assert(options_view(out@) =~= done.map_values(|p: Seq<char>| choice_option_of(p)));
    assert(pieces_from(args@, '|', 0) =~= done + pieces_from(args@, '|', 0));
    loop
        invariant
            start <= args@.len(),
            pieces_from(args@, '|', 0) == done + pieces_from(args@, '|', start as int),
            options_view(out@) == done.map_values(|p: Seq<char>| choice_option_of(p)),
        decreases args@.len() - start,
    {
        let j = find_char_from(args, '|', start);
        let piece = sub_chars(args, start, j);
        let ghost before = out@;
        out.push(ChoiceOption::parse(&piece));
        proof {
            done = done.push(piece@);
            assert(options_view(out@) =~= options_view(before).push(choice_option_of(piece@)));
            assert(options_view(out@) =~= done.map_values(|p: Seq<char>| choice_option_of(p)));
        }
        if j >= args.len() {
            assert(pieces_from(args@, '|', start as int) =~= seq![piece@]);
            assert(pieces_from(args@, '|', 0) =~= done);
            return out;
        }
        assert(pieces_from(args@, '|', start as int) =~= seq![piece@].add(
            pieces_from(args@, '|', j + 1),
        ));
        assert(pieces_from(args@, '|', 0) =~= done + pieces_from(args@, '|', j + 1));
        start = j + 1;
    }
}

fn parse_sound(args: &Vec<char>) -> (r: Result<Command, ParseError>)
    ensures
        cmd_view(r) == sound_spec(args@),
{
    let stop: [char; 1] = ['~'];
    assert(stop@ == seq!['~']);
    if chars_eq(args, &stop) {
        return Ok(Command::Sound(SoundLooping::StopCurrentlyPlaying));
    }
    let (file, looping) = match split_once_required(args) {
        Ok(p) => p,
        Err(e) => { return Err(e); },
    };
    let infinite: [char; 2] = ['-', '1'];
    assert(infinite@ == seq!['-', '1']);
    if chars_eq(&looping, &infinite) {
        Ok(Command::Sound(SoundLooping::Infinite { file: string_of(&file) }))
    } else {
        match try_parse_u16(&looping) {
            Ok(count) => Ok(Command::Sound(SoundLooping::Count { file: string_of(&file), count })),
            Err(e) => Err(e),
        }
    }
}

fn parse_bgload(args: &Vec<char>) -> (r: Result<Command, ParseError>)
    ensures
        cmd_view(r) == bgload_spec(args@),
{
    let (file, fadetime) = split_once_optional(args);
    let fadetime = match try_parse_u16_opt(&fadetime).default_or_err(DEFAULT_FADETIME) {
        Ok(n) => n,
        Err(e) => { return Err(e); },
    };
    Ok(Command::BgLoad { file: string_of(&file), fadetime })
}

fn parse_setimg(args: &Vec<char>) -> (r: Result<Command, ParseError>)
    ensures
        cmd_view(r) == setimg_spec(args@),
{
    let (file, coords) = match split_once_required(args) {
        Ok(p) => p,
        Err(e) => { return Err(e); },
    };
    let (x, y) = match split_once_required(&coords) {
        Ok(p) => p,
        Err(e) => { return Err(e); },
    };
    match (parse_u16_opt(&x), parse_u16_opt(&y)) {
        (Some(a), Some(b)) => Ok(Command::SetImg { file: string_of(&file), coordinates: (a, b) }),
        _ => Err(ParseError::FailedToParseNumber),
    }
}

/// The keywords of the line table.
#[derive(Clone, Copy, PartialEq, Eq, Structural)]
enum Keyword {
    Label,
    Goto,
    ClearText,
    Random,
    Delay,
    Jump,
    If,
    SetVar,
    GSetVar,
    Choice,
    Text,
    Music,
    Sound,
    BgLoad,
    SetImg,
}

spec fn keyword_text(k: Keyword) -> Seq<char> {
    match k {
        Keyword::Label => seq!['l', 'a', 'b', 'e', 'l'],
        Keyword::Goto => seq!['g', 'o', 't', 'o'],
        Keyword::ClearText => seq!['c', 'l', 'e', 'a', 'r', 't', 'e', 'x', 't'],
        Keyword::Random => seq!['r', 'a', 'n', 'd', 'o', 'm'],
        Keyword::Delay => seq!['d', 'e', 'l', 'a', 'y'],
        Keyword::Jump => seq!['j', 'u', 'm', 'p'],
        Keyword::If => seq!['i', 'f'],
        Keyword::SetVar => seq!['s', 'e', 't', 'v', 'a', 'r'],
        Keyword::GSetVar => seq!['g', 's', 'e', 't', 'v', 'a', 'r'],
        Keyword::Choice => seq!['c', 'h', 'o', 'i', 'c', 'e'],
        Keyword::Text => seq!['t', 'e', 'x', 't'],
        Keyword::Music => seq!['m', 'u', 's', 'i', 'c'],
        Keyword::Sound => seq!['s', 'o', 'u', 'n', 'd'],
        Keyword::BgLoad => seq!['b', 'g', 'l', 'o', 'a', 'd'],
        Keyword::SetImg => seq!['s', 'e', 't', 'i', 'm', 'g'],
    }
}

/// The keyword that `cmd` spells, if any.
fn keyword_of(cmd: &Vec<char>) -> (r: Option<Keyword>)
    ensures
        match r {
            Some(k) => cmd@ == keyword_text(k),
            None => !is_keyword(cmd@),
        },
{
    let kw_label: [char; 5] = ['l', 'a', 'b', 'e', 'l'];
    let kw_goto: [char; 4] = ['g', 'o', 't', 'o'];
    let kw_cleartext: [char; 9] = ['c', 'l', 'e', 'a', 'r', 't', 'e', 'x', 't'];
    let kw_random: [char; 6] = ['r', 'a', 'n', 'd', 'o', 'm'];
    let kw_delay: [char; 5] = ['d', 'e', 'l', 'a', 'y'];
    let kw_jump: [char; 4] = ['j', 'u', 'm', 'p'];
    let kw_if: [char; 2] = ['i', 'f'];
    let kw_setvar: [char; 6] = ['s', 'e', 't', 'v', 'a', 'r'];
    let kw_gsetvar: [char; 7] = ['g', 's', 'e', 't', 'v', 'a', 'r'];
    let kw_choice: [char; 6] = ['c', 'h', 'o', 'i', 'c', 'e'];
    let kw_text: [char; 4] = ['t', 'e', 'x', 't'];
    let kw_music: [char; 5] = ['m', 'u', 's', 'i', 'c'];
    let kw_sound: [char; 5] = ['s', 'o', 'u', 'n', 'd'];
    let kw_bgload: [char; 6] = ['b', 'g', 'l', 'o', 'a', 'd'];
    let kw_setimg: [char; 6] = ['s', 'e', 't', 'i', 'm', 'g'];
    assert(kw_label@ == seq!['l', 'a', 'b', 'e', 'l']);
    assert(kw_goto@ == seq!['g', 'o', 't', 'o']);
    assert(kw_cleartext@ == seq!['c', 'l', 'e', 'a', 'r', 't', 'e', 'x', 't']);
    assert(kw_random@ == seq!['r', 'a', 'n', 'd', 'o', 'm']);
    assert(kw_delay@ == seq!['d', 'e', 'l', 'a', 'y']);
    assert(kw_jump@ == seq!['j', 'u', 'm', 'p']);
    assert(kw_if@ == seq!['i', 'f']);
    assert(kw_setvar@ == seq!['s', 'e', 't', 'v', 'a', 'r']);
    assert(kw_gsetvar@ == seq!['g', 's', 'e', 't', 'v', 'a', 'r']);
    assert(kw_choice@ == seq!['c', 'h', 'o', 'i', 'c', 'e']);
    assert(kw_text@ == seq!['t', 'e', 'x', 't']);
    assert(kw_music@ == seq!['m', 'u', 's', 'i', 'c']);
    assert(kw_sound@ == seq!['s', 'o', 'u', 'n', 'd']);
    assert(kw_bgload@ == seq!['b', 'g', 'l', 'o', 'a', 'd']);
    assert(kw_setimg@ == seq!['s', 'e', 't', 'i', 'm', 'g']);
    if chars_eq(cmd, &kw_label) {
        Some(Keyword::Label)
    } else if chars_eq(cmd, &kw_goto) {
        Some(Keyword::Goto)
    } else if chars_eq(cmd, &kw_cleartext) {
        Some(Keyword::ClearText)
    } else if chars_eq(cmd, &kw_random) {
        Some(Keyword::Random)
    } else if chars_eq(cmd, &kw_delay) {
        Some(Keyword::Delay)
    } else if chars_eq(cmd, &kw_jump) {
        Some(Keyword::Jump)
    } else if chars_eq(cmd, &kw_if) {
        Some(Keyword::If)
    } else if chars_eq(cmd, &kw_setvar) {
        Some(Keyword::SetVar)
    } else if chars_eq(cmd, &kw_gsetvar) {
        Some(Keyword::GSetVar)
    } else if chars_eq(cmd, &kw_choice) {
        Some(Keyword::Choice)
    } else if chars_eq(cmd, &kw_text) {
        Some(Keyword::Text)
    } else if chars_eq(cmd, &kw_music) {
        Some(Keyword::Music)
    } else if chars_eq(cmd, &kw_sound) {
        Some(Keyword::Sound)
    } else if chars_eq(cmd, &kw_bgload) {
        Some(Keyword::BgLoad)
    } else if chars_eq(cmd, &kw_setimg) {
        Some(Keyword::SetImg)
    } else {
        None
    }
}

fn dispatch(cmd: &Vec<char>, args: &Vec<char>) -> (r: Result<Command, ParseError>)
    ensures
        cmd_view(r) == dispatch_spec(cmd@, args@),
{
    let bang: [char; 1] = ['!'];
    let tilde: [char; 1] = ['~'];
    assert(bang@ == seq!['!']);
    assert(tilde@ == seq!['~']);
    match keyword_of(cmd) {
        Some(Keyword::Label) => Ok(Command::Label(string_of(args))),
        Some(Keyword::Goto) => Ok(Command::Goto(string_of(args))),
        Some(Keyword::ClearText) => {
            if chars_eq(args, &bang) {
                Ok(Command::ClearText(ClearTextType::TextBufferInclHistory))
            } else {
                Err(ParseError::UnknownClearTextType(string_of(args)))
            }
        },
        Some(Keyword::Random) => parse_random(args),
        Some(Keyword::Delay) => match try_parse_u16(args) {
            Ok(frames) => Ok(Command::Delay { frames }),
            Err(e) => Err(e),
        },
        Some(Keyword::Jump) => {
            let (file, label) = split_once_optional(args);
            let label = match label {
                Some(l) => Some(string_of(&l)),
                None => None,
            };
            Ok(Command::Jump { file: string_of(&file), label })
        },
        Some(Keyword::If) => parse_if(args),
        Some(Keyword::SetVar) => parse_setvar(args, VariableStorageType::Local),
        Some(Keyword::GSetVar) => parse_setvar(args, VariableStorageType::Global),
        Some(Keyword::Choice) => Ok(Command::Choice { options: parse_choice(args) }),
        Some(Keyword::Text) => match Text::parse_chars(args) {
            Ok(t) => Ok(Command::Text(t)),
            Err(e) => Err(ParseError::Text(e)),
        },
        Some(Keyword::Music) => {
            if chars_eq(args, &tilde) {
                Ok(Command::Music { file: MusicFile::StopPlaying })
            } else {
                Ok(Command::Music { file: MusicFile::Path(string_of(args)) })
            }
        },
        Some(Keyword::Sound) => parse_sound(args),
        Some(Keyword::BgLoad) => parse_bgload(args),
        Some(Keyword::SetImg) => parse_setimg(args),
        None => Err(ParseError::UnknownCommand { command: string_of(cmd) }),
    }
}

/// Parses one trimmed line into a command.
pub fn parse_command(line: &Vec<char>) -> (r: Result<Command, ParseError>)
    ensures
        cmd_view(r) == parse_line(line@),
{
    let fi: [char; 2] = ['f', 'i'];
    let cleartext: [char; 9] = ['c', 'l', 'e', 'a', 'r', 't', 'e', 'x', 't'];
    assert(fi@ == seq!['f', 'i']);
    assert(cleartext@ == seq!['c', 'l', 'e', 'a', 'r', 't', 'e', 'x', 't']);
    if chars_eq(line, &fi) {
        return Ok(Command::EndIf);
    } else if chars_eq(line, &cleartext) {
        return Ok(Command::ClearText(ClearTextType::FillBottomScreen));
    }
    match split_once(line, ' ') {
        Some((cmd, args)) => dispatch(&cmd, &args),
        None => {
            if line.len() == 0 || known_keyword(line) {
                Err(ParseError::NotEnoughArguments)
            } else {
                Err(ParseError::UnknownCommand { command: string_of(line) })
            }
        },
    }
}

fn known_keyword(cmd: &Vec<char>) -> (r: bool)
    ensures
        r == is_keyword(cmd@),
{
    keyword_of(cmd).is_some()
}

/// The lines of `s` from position `i` on, as `str::lines` gives them: split at `\n`, a
/// `\r` just before the `\n` dropped, with no empty line after a final line ending.
pub open spec fn lines_from(s: Seq<char>, i: int) -> Seq<Seq<char>>
    decreases s.len() - i
    via lines_from_decreases
{
    if i < 0 || i >= s.len() {
        Seq::empty()
    } else {
        let j = find_from(s, '\n', i);
        if j >= s.len() {
            seq![s.subrange(i, s.len() as int)]
        } else {
            seq![s.subrange(i, line_end(s, i, j))].add(lines_from(s, j + 1))
        }
    }
}

/// Where the line from `i` to the `\n` at `j` ends: before a `\r` that ends it, if any.
pub open spec fn line_end(s: Seq<char>, i: int, j: int) -> int {
    if j > i && s[j - 1] == '\r' {
        j - 1
    } else {
        j
    }
}

#[via_fn]
proof fn lines_from_decreases(s: Seq<char>, i: int) {
    if 0 <= i < s.len() {
        lemma_find_from_bounds(s, '\n', i);
    }
}

/// The commands of a sequence of raw lines: each is trimmed and parsed, and the first
/// line that fails decides the error.
pub open spec fn parse_lines(lines: Seq<Seq<char>>) -> Result<Seq<CommandView>, ParseErrorView>
    decreases lines.len(),
{
    if lines.len() == 0 {
        Ok(Seq::empty())
    } else {
        match parse_lines(lines.drop_last()) {
            Err(e) => Err(e),
            Ok(done) => match parse_line(trim_spec(lines.last())) {
                Ok(c) => Ok(done.push(c)),
                Err(e) => Err(e),
            },
        }
    }
}

/// What a script text denotes.
pub open spec fn script_spec(text: Seq<char>) -> Result<Seq<CommandView>, ParseErrorView> {
    parse_lines(lines_from(text, 0))
}

/// A failure among the first `k` lines is the failure of every longer prefix.
pub proof fn lemma_parse_lines_error_sticks(lines: Seq<Seq<char>>, k: int, m: int)
    requires
        0 <= k <= m <= lines.len(),
        parse_lines(lines.take(k)) is Err,
    ensures
        parse_lines(lines.take(m)) == parse_lines(lines.take(k)),
    decreases m - k,
{
    if m > k {
        lemma_parse_lines_error_sticks(lines, k, m - 1);
        assert(lines.take(m).drop_last() =~= lines.take(m - 1));
    }
}

pub open spec fn lines_view(v: Seq<Vec<char>>) -> Seq<Seq<char>> {
    v.map_values(|l: Vec<char>| l@)
}

pub(crate) fn split_lines(s: &Vec<char>) -> (r: Vec<Vec<char>>)
    ensures
        lines_view(r@) == lines_from(s@, 0),
{
    let mut out: Vec<Vec<char>> = Vec::new();
    let mut start: usize = 0;
    assert(lines_view(out@) + lines_from(s@, 0) =~= lines_from(s@, 0));
    while start < s.len()
        invariant
            start <= s@.len(),
            lines_from(s@, 0) == lines_view(out@) + lines_from(s@, start as int),
        decreases s@.len() - start,
    {
        let j = find_char_from(s, '\n', start);
        let end = if j < s.len() && j > start && s[j - 1] == '\r' {
            j - 1
        } else {
            j
        };
        let line = sub_chars(s, start, end);
        let ghost before = out@;
        out.push(line);
        assert(lines_view(out@) =~= lines_view(before).push(line@));
        if j >= s.len() {
            assert(lines_from(s@, start as int) =~= seq![line@]);
            assert(lines_from(s@, 0) =~= lines_view(out@));
            return out;
        }
        assert(lines_from(s@, start as int) =~= seq![line@].add(lines_from(s@, j + 1)));
        assert(lines_from(s@, 0) =~= lines_view(out@) + lines_from(s@, j + 1));
        start = j + 1;
    }
    assert(lines_from(s@, 0) =~= lines_view(out@));
    out
}

/// Parses every line in order; stops at the first line that fails.
fn try_collect_vec(lines: &Vec<Vec<char>>) -> (r: Result<Vec<Command>, ParseError>)
    ensures
        script_view(r) == parse_lines(lines_view(lines@)),
{
    let ghost ls = lines_view(lines@);
    let mut out: Vec<Command> = Vec::new();
    let mut i: usize = 0;
    assert(ls.take(0) =~= Seq::<Seq<char>>::empty());
    assert(commands_view(out@) =~= Seq::<CommandView>::empty());
    while i < lines.len()
        invariant
            ls == lines_view(lines@),
            i <= lines@.len(),
            parse_lines(ls.take(i as int)) == Ok::<Seq<CommandView>, ParseErrorView>(
                commands_view(out@),
            ),
        decreases lines@.len() - i,
    {
        let trimmed = trim(&lines[i]);
        assert(ls.take(i + 1).drop_last() =~= ls.take(i as int));
        assert(ls.take(i + 1).last() == lines@[i as int]@);
        match parse_command(&trimmed) {
            Ok(c) => {
                let ghost before = out@;
                out.push(c);
                assert(commands_view(out@) =~= commands_view(before).push(c@));
            },
            Err(e) => {
                proof {
                    lemma_parse_lines_error_sticks(ls, i + 1, ls.len() as int);
                    assert(ls.take(ls.len() as int) =~= ls);
                }
                return Err(e);
            },
        }
        i = i + 1;
    }
    assert(ls.take(i as int) =~= ls);
    Ok(out)
}

/// Parses a whole script: one command per line, failing on the first line that does
/// not parse.
pub fn parse_script(text: &str) -> (r: Result<Vec<Command>, ParseError>)
    ensures
        script_view(r) == script_spec(text@),
{
    let chars = chars_of(text);
    let lines = split_lines(&chars);
    try_collect_vec(&lines)
}

/// Script text that can be parsed into commands.
pub trait ParseScript {
    /// The script text that `self` holds.
    spec fn script_text(&self) -> Seq<char>;

    fn parse_script(&self) -> (r: Result<Vec<Command>, ParseError>)
        ensures
            script_view(r) == script_spec(self.script_text()),
    ;
}

impl ParseScript for str {
    open spec fn script_text(&self) -> Seq<char> {
        self@
    }

    fn parse_script(&self) -> (r: Result<Vec<Command>, ParseError>) {
        parse_script(self)
    }
}

/// The keywords that the line parser knows.
pub open spec fn is_keyword(cmd: Seq<char>) -> bool {
    cmd == seq!['l', 'a', 'b', 'e', 'l'] || cmd == seq!['g', 'o', 't', 'o'] || cmd == seq![
        'c',
        'l',
        'e',
        'a',
        'r',
        't',
        'e',
        'x',
        't',
    ] || cmd == seq!['r', 'a', 'n', 'd', 'o', 'm'] || cmd == seq!['d', 'e', 'l', 'a', 'y']
        || cmd == seq!['j', 'u', 'm', 'p'] || cmd == seq!['i', 'f'] || cmd == seq![
        's',
        'e',
        't',
        'v',
        'a',
        'r',
    ] || cmd == seq!['g', 's', 'e', 't', 'v', 'a', 'r'] || cmd == seq!['c', 'h', 'o', 'i', 'c', 'e']
        || cmd == seq!['t', 'e', 'x', 't'] || cmd == seq!['m', 'u', 's', 'i', 'c'] || cmd == seq![
        's',
        'o',
        'u',
        'n',
        'd',
    ] || cmd == seq!['b', 'g', 'l', 'o', 'a', 'd'] || cmd == seq!['s', 'e', 't', 'i', 'm', 'g']
}

/// The leading keyword of a line: the text before its first space, or the whole line.
pub open spec fn leading_word(line: Seq<char>) -> Seq<char> {
    match split_once_spec(line, ' ') {
        Some((cmd, _)) => cmd,
        None => line,
    }
}

/// A line whose leading keyword is unknown fails with `UnknownCommand` naming that keyword,
/// whether or not arguments follow it.
pub proof fn lemma_unknown_keyword_fails(line: Seq<char>)
    requires
        line.len() > 0,
        line != seq!['f', 'i'],
        line != seq!['c', 'l', 'e', 'a', 'r', 't', 'e', 'x', 't'],
        !is_keyword(leading_word(line)),
    ensures
        parse_line(line) == Err::<CommandView, ParseErrorView>(
            ParseErrorView::UnknownCommand { command: leading_word(line) },
        ),
{
}

/// A script with a line that fails yields an error, never a partial command list.
pub proof fn lemma_failing_line_fails_script(lines: Seq<Seq<char>>, k: int)
    requires
        0 <= k < lines.len(),
        parse_line(trim_spec(lines[k])) is Err,
    ensures
        parse_lines(lines) is Err,
    decreases lines.len(),
{
    if k < lines.len() - 1 {
        assert(lines.drop_last()[k] == lines[k]);
        lemma_failing_line_fails_script(lines.drop_last(), k);
    } else {
        assert(lines.last() == lines[k]);
    }
}

/// A `bgload` line that names a file and no fade time gets the default fade time.
pub proof fn lemma_bgload_default_fadetime(file: Seq<char>)
    requires
        forall|k: int| 0 <= k < file.len() ==> file[k] != ' ',
    ensures
        parse_line(seq!['b', 'g', 'l', 'o', 'a', 'd', ' '] + file) == Ok::<
            CommandView,
            ParseErrorView,
        >(CommandView::BgLoad { file, fadetime: DEFAULT_FADETIME }),
{
    let kw = seq!['b', 'g', 'l', 'o', 'a', 'd'];
    let line = seq!['b', 'g', 'l', 'o', 'a', 'd', ' '] + file;
    assert(line[0] == 'b' && line[1] == 'g' && line[2] == 'l' && line[3] == 'o');
    assert(line[4] == 'a' && line[5] == 'd' && line[6] == ' ');
    assert(find_from(line, ' ', 6) == 6);
    assert(find_from(line, ' ', 5) == 6);
    assert(find_from(line, ' ', 4) == 6);
    assert(find_from(line, ' ', 3) == 6);
    assert(find_from(line, ' ', 2) == 6);
    assert(find_from(line, ' ', 1) == 6);
    assert(find_from(line, ' ', 0) == 6);
    assert(line.subrange(0, 6) =~= kw);
    assert(line.subrange(7, line.len() as int) =~= file);
    assert(line != seq!['f', 'i']);
    assert(line != seq!['c', 'l', 'e', 'a', 'r', 't', 'e', 'x', 't']);
    lemma_find_from_absent(file, ' ', 0);
}

proof fn lemma_parse_lines_prefix_ok(lines: Seq<Seq<char>>, k: int)
    requires
        0 <= k <= lines.len(),
        forall|j: int| 0 <= j < k ==> parse_line(trim_spec(#[trigger] lines[j])) is Ok,
    ensures
        parse_lines(lines.take(k)) is Ok,
    decreases k,
{
    if k > 0 {
        lemma_parse_lines_prefix_ok(lines, k - 1);
        assert(lines.take(k).drop_last() =~= lines.take(k - 1));
        assert(lines.take(k).last() == lines[k - 1]);
    }
}

/// In a script whose lines before line `k` all parse, a line `k` with an unknown leading
/// keyword makes the whole script fail with `UnknownCommand` naming that keyword,
/// whatever lines follow it.
pub proof fn lemma_unknown_keyword_fails_script(lines: Seq<Seq<char>>, k: int)
    requires
        0 <= k < lines.len(),
        forall|j: int| 0 <= j < k ==> parse_line(trim_spec(#[trigger] lines[j])) is Ok,
        trim_spec(lines[k]).len() > 0,
        trim_spec(lines[k]) != seq!['f', 'i'],
        trim_spec(lines[k]) != seq!['c', 'l', 'e', 'a', 'r', 't', 'e', 'x', 't'],
        !is_keyword(leading_word(trim_spec(lines[k]))),
    ensures
        parse_lines(lines) == Err::<Seq<CommandView>, ParseErrorView>(
            ParseErrorView::UnknownCommand { command: leading_word(trim_spec(lines[k])) },
        ),
{
    lemma_parse_lines_prefix_ok(lines, k);
    lemma_unknown_keyword_fails(trim_spec(lines[k]));
    assert(lines.take(k + 1).drop_last() =~= lines.take(k));
    assert(lines.take(k + 1).last() == lines[k]);
    lemma_parse_lines_error_sticks(lines, k + 1, lines.len() as int);
    assert(lines.take(lines.len() as int) =~= lines);
}

} // verus!
