use vstd::prelude::*;

use crate::chars::{
    chars_eq, chars_of, parse_u16, parse_u16_spec, split_once, split_once_spec, string_of,
    trim, trim_spec,
};
use crate::command::CommandView;
use crate::error::{LoadScriptError, NovelLoadError, ParseErrorView};
use crate::parser::{lines_from, lines_view, parse_script, script_spec};
use crate::script::{labels_of, Script};

verus! {

/// Paths of a novel's resource directories and icons.
#[derive(Debug, Clone)]
pub struct NovelResources {
    pub background: String,
    pub foreground: String,
    pub script: String,
    pub sound: String,
    pub icon: NovelIcon,
}

#[derive(Debug, Clone)]
pub struct NovelIcon {
    pub high: String,
    pub low: String,
    pub thumbnail: String,
}

/// A loaded novel: its title, resources and the resolution it was made for.
#[derive(Debug)]
pub struct Novel {
    pub title: String,
    pub resources: NovelResources,
    pub device_resolution: (u16, u16),
}

/// The value part of the first line that holds `=`, if any line does.
pub open spec fn title_of(lines: Seq<Seq<char>>) -> Option<Seq<char>>
    decreases lines.len(),
{
    if lines.len() == 0 {
        None
    } else {
        match title_of(lines.drop_last()) {
            Some(t) => Some(t),
            None => match split_once_spec(lines.last(), '=') {
                Some((_, v)) => Some(v),
                None => None,
            },
        }
    }
}

/// The number that a `key = value` line gives for `key`, if it gives one.
pub open spec fn entry_value(line: Seq<char>, key: Seq<char>) -> Option<u16> {
    match split_once_spec(trim_spec(line), '=') {
        Some((k, v)) => if trim_spec(k) == key {
            parse_u16_spec(trim_spec(v))
        } else {
            None
        },
        None => None,
    }
}

/// The number that the first line giving one for `key` gives.
pub open spec fn first_value(lines: Seq<Seq<char>>, key: Seq<char>) -> Option<u16>
    decreases lines.len(),
{
    if lines.len() == 0 {
        None
    } else {
        match first_value(lines.drop_last(), key) {
            Some(v) => Some(v),
            None => entry_value(lines.last(), key),
        }
    }
}

pub open spec fn width_key() -> Seq<char> {
    seq!['w', 'i', 'd', 't', 'h']
}

pub open spec fn height_key() -> Seq<char> {
    seq!['h', 'e', 'i', 'g', 'h', 't']
}

fn split_text_lines(text: &str) -> (r: Vec<Vec<char>>)
    ensures
        lines_view(r@) == lines_from(text@, 0),
{
    let chars = chars_of(text);
    crate::parser::split_lines(&chars)
}

/// The title that an `info.txt` text gives: what follows the first `=` of the first line
/// that holds one.
pub fn title_from_info(text: &str) -> (r: Result<String, NovelLoadError>)
    ensures
        match title_of(lines_from(text@, 0)) {
            Some(t) => r matches Ok(s) && s@ == t,
            None => r == Err::<String, NovelLoadError>(NovelLoadError::NoTitle),
        },
{
    let lines = split_text_lines(text);
    let ghost ls = lines_view(lines@);
    let mut i: usize = 0;
    assert(ls.take(0) =~= Seq::<Seq<char>>::empty());
    while i < lines.len()
        invariant
            ls == lines_view(lines@),
            ls == lines_from(text@, 0),
            i <= lines@.len(),
            title_of(ls.take(i as int)) is None,
        decreases lines@.len() - i,
    {
        assert(ls.take(i + 1).drop_last() =~= ls.take(i as int));
        assert(ls.take(i + 1).last() == lines@[i as int]@);
        match split_once(&lines[i], '=') {
            Some((_, v)) => {
                proof { lemma_title_sticks(ls, i + 1, ls.len() as int); }
                assert(ls.take(ls.len() as int) =~= ls);
                return Ok(string_of(&v));
            },
            None => {},
        }
        i = i + 1;
    }
    assert(ls.take(i as int) =~= ls);
    Err(NovelLoadError::NoTitle)
}

proof fn lemma_title_sticks(lines: Seq<Seq<char>>, k: int, m: int)
    requires
        0 <= k <= m <= lines.len(),
        title_of(lines.take(k)) is Some,
    ensures
        title_of(lines.take(m)) == title_of(lines.take(k)),
    decreases m - k,
{
    if m > k {
        lemma_title_sticks(lines, k, m - 1);
        assert(lines.take(m).drop_last() =~= lines.take(m - 1));
    }
}

fn line_value(line: &Vec<char>, key: &[char]) -> (r: Option<u16>)
    ensures
        r == entry_value(line@, key@),
{
    let t = trim(line);
    match split_once(&t, '=') {
        Some((k, v)) => {
            if chars_eq(&trim(&k), key) {
                parse_u16(&trim(&v))
            } else {
                None
            }
        },
        None => None,
    }
}

/// The resolution `(width, height)` that an `img.ini` text gives: for each key, the first
/// `key = number` line that holds it.
pub fn resolution_from_img_ini(text: &str) -> (r: Result<(u16, u16), NovelLoadError>)
    ensures
        match (
            first_value(lines_from(text@, 0), width_key()),
            first_value(lines_from(text@, 0), height_key()),
        ) {
            (Some(w), Some(h)) => r == Ok::<(u16, u16), NovelLoadError>((w, h)),
            _ => r == Err::<(u16, u16), NovelLoadError>(NovelLoadError::InvalidImgIni),
        },
{
    let lines = split_text_lines(text);
    let ghost ls = lines_view(lines@);
    let wk: [char; 5] = ['w', 'i', 'd', 't', 'h'];
    let hk: [char; 6] = ['h', 'e', 'i', 'g', 'h', 't'];
    assert(wk@ == width_key());
    assert(hk@ == height_key());
    let mut width: Option<u16> = None;
    let mut height: Option<u16> = None;
    let mut i: usize = 0;
    assert(ls.take(0) =~= Seq::<Seq<char>>::empty());
    while i < lines.len()
        invariant
            ls == lines_view(lines@),
            ls == lines_from(text@, 0),
            wk@ == width_key(),
            hk@ == height_key(),
            i <= lines@.len(),
            width == first_value(ls.take(i as int), width_key()),
            height == first_value(ls.take(i as int), height_key()),
        decreases lines@.len() - i,
    {
        assert(ls.take(i + 1).drop_last() =~= ls.take(i as int));
        assert(ls.take(i + 1).last() == lines@[i as int]@);
        if width.is_none() {
            width = line_value(&lines[i], &wk);
        }
        if height.is_none() {
            height = line_value(&lines[i], &hk);
        }
        i = i + 1;
    }
    assert(ls.take(i as int) =~= ls);
    match (width, height) {
        (Some(w), Some(h)) => Ok((w, h)),
        _ => Err(NovelLoadError::InvalidImgIni),
    }
}

/// A script over the commands of `text`, with the cursor at the start.
pub fn script_from_text(text: &str) -> (r: Result<Script, LoadScriptError>)
    ensures
        match r {
            Ok(s) => {
                &&& script_spec(text@) == Ok::<Seq<CommandView>, ParseErrorView>(s@.commands)
                &&& s@.labels == labels_of(s@.commands)
                &&& s@.cursor == 0
            },
            Err(LoadScriptError::Parse(e)) => {
                script_spec(text@) == Err::<Seq<CommandView>, ParseErrorView>(e@)
            },
            Err(LoadScriptError::Io(_)) => false,
        },
{
    match parse_script(text) {
        Ok(commands) => Ok(Script::new(commands)),
        Err(e) => Err(LoadScriptError::Parse(e)),
    }
}

} // verus!
