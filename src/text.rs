use vstd::prelude::*;

use crate::chars::{
    chars_of, find_char_from, find_from, lemma_find_from_bounds, parse_u16, parse_u16_spec,
    string_of, sub_chars, chars_eq,
};
use crate::error::TextParseError;

verus! {

/// Text colors, after the SGR foreground codes 30 to 37 and 39.
#[derive(Debug, Clone, Copy, PartialEq, Eq, Structural)]
pub enum Foreground {
    /// Actually greyish
    Black,
    Red,
    Green,
    Yellow,
    Blue,
    Purple,
    Cyan,
    White,
    Regular,
}

/// The color of an SGR foreground code, if it is one of the closed set.
pub open spec fn foreground_of(code: u16) -> Option<Foreground> {
    if code == 30 {
        Some(Foreground::Black)
    } else if code == 31 {
        Some(Foreground::Red)
    } else if code == 32 {
        Some(Foreground::Green)
    } else if code == 33 {
        Some(Foreground::Yellow)
    } else if code == 34 {
        Some(Foreground::Blue)
    } else if code == 35 {
        Some(Foreground::Purple)
    } else if code == 36 {
        Some(Foreground::Cyan)
    } else if code == 37 {
        Some(Foreground::White)
    } else if code == 39 {
        Some(Foreground::Regular)
    } else {
        None
    }
}

impl Foreground {
    /// The SGR code of this color.
    pub fn code(self) -> (r: u16)
        ensures
            foreground_of(r) == Some(self),
    {
        match self {
            Foreground::Black => 30,
            Foreground::Red => 31,
            Foreground::Green => 32,
            Foreground::Yellow => 33,
            Foreground::Blue => 34,
            Foreground::Purple => 35,
            Foreground::Cyan => 36,
            Foreground::White => 37,
            Foreground::Regular => 39,
        }
    }

    /// The color of an SGR code; any code outside 30..=37 and 39 is `InvalidColor`.
    pub fn from_code(value: u16) -> (r: Result<Foreground, TextParseError>)
        ensures
            match foreground_of(value) {
                Some(f) => r == Ok::<Foreground, TextParseError>(f),
                None => r == Err::<Foreground, TextParseError>(TextParseError::InvalidColor),
            },
    {
        match value {
            30 => Ok(Foreground::Black),
            31 => Ok(Foreground::Red),
            32 => Ok(Foreground::Green),
            33 => Ok(Foreground::Yellow),
            34 => Ok(Foreground::Blue),
            35 => Ok(Foreground::Purple),
            36 => Ok(Foreground::Cyan),
            37 => Ok(Foreground::White),
            39 => Ok(Foreground::Regular),
            _ => Err(TextParseError::InvalidColor),
        }
    }
}

#[derive(Debug, Clone, PartialEq, Eq)]
pub enum TextType {
    Plain(String),
    Variable(String),
}

pub enum TextTypeView {
    Plain(Seq<char>),
    Variable(Seq<char>),
}

impl View for TextType {
    type V = TextTypeView;

    open spec fn view(&self) -> TextTypeView {
        match self {
            TextType::Plain(s) => TextTypeView::Plain(s@),
            TextType::Variable(s) => TextTypeView::Variable(s@),
        }
    }
}

/// A run of dialogue text in one color: plain text or a variable reference.
#[derive(Debug, Clone, PartialEq, Eq)]
pub struct TextSpan {
    pub text: TextType,
    pub color: Foreground,
}

pub struct SpanView {
    pub text: TextTypeView,
    pub color: Foreground,
}

impl View for TextSpan {
    type V = SpanView;

    open spec fn view(&self) -> SpanView {
        SpanView { text: self.text@, color: self.color }
    }
}

#[derive(Debug, Clone, PartialEq, Eq)]
pub enum Text {
    Spans { spans: Vec<TextSpan>, click_to_advance: bool },
    BlankLine { click_to_advance: bool },
}

pub enum TextView {
    Spans { spans: Seq<SpanView>, click_to_advance: bool },
    BlankLine { click_to_advance: bool },
}

pub open spec fn spans_view(v: Seq<TextSpan>) -> Seq<SpanView> {
    v.map_values(|t: TextSpan| t@)
}

impl View for Text {
    type V = TextView;

    open spec fn view(&self) -> TextView {
        match self {
            Text::Spans { spans, click_to_advance } => TextView::Spans {
                spans: spans_view(spans@),
                click_to_advance: *click_to_advance,
            },
            Text::BlankLine { click_to_advance } => TextView::BlankLine {
                click_to_advance: *click_to_advance,
            },
        }
    }
}

/// Characters that may stand in a `$name` variable reference.
pub open spec fn is_name_char(c: char) -> bool {
    !(c == ' ' || c == '$' || c == '{' || c == '}' || c == ';' || c == ',' || c == '.' || c
        == '=' || c == '(' || c == ')' || c == '\\' || c == '/')
}

/// The first index at or after `i` whose character cannot stand in a name, or the length.
pub open spec fn name_end(s: Seq<char>, i: int) -> int
    decreases s.len() - i,
{
    if i < 0 || i >= s.len() {
        s.len() as int
    } else if !is_name_char(s[i]) {
        i
    } else {
        name_end(s, i + 1)
    }
}

/// `i`, or the length of `s` where `i` lies past it.
pub open spec fn clamp(s: Seq<char>, i: int) -> int {
    if i > s.len() {
        s.len() as int
    } else {
        i
    }
}

/// The spans with the pending plain text appended, if there is any.
pub open spec fn flush(spans: Seq<SpanView>, buf: Seq<char>, color: Foreground) -> Seq<SpanView> {
    if buf.len() == 0 {
        spans
    } else {
        spans.push(SpanView { text: TextTypeView::Plain(buf), color })
    }
}

pub open spec fn escape_intro() -> Seq<char> {
    seq!['x', '1', 'b']
}

/// The spans of markup `s` read from position `i`, with pending plain text `buf`, current
/// color `color` and the spans already emitted.
pub open spec fn scan(
    s: Seq<char>,
    i: int,
    buf: Seq<char>,
    color: Foreground,
    spans: Seq<SpanView>,
) -> Result<Seq<SpanView>, TextParseError>
    decreases s.len() - i
    via scan_decreases
{
    if i < 0 || i >= s.len() {
        Ok(flush(spans, buf, color))
    } else if s[i] == '$' {
        let j = name_end(s, i + 1);
        let name = s.subrange(i + 1, j);
        if name.len() == 0 {
            Err(TextParseError::EmptyVariableName)
        } else {
            let var = SpanView { text: TextTypeView::Variable(name), color };
            scan(s, clamp(s, j + 1), Seq::empty(), color, flush(spans, buf, color).push(var))
        }
    } else if s[i] == '{' {
        if i + 1 >= s.len() {
            scan(s, i + 1, buf.push('{'), color, spans)
        } else if s[i + 1] != '$' {
            scan(s, i + 2, buf.push('{').push(s[i + 1]), color, spans)
        } else {
            let j = find_from(s, '}', i + 2);
            let var = SpanView { text: TextTypeView::Variable(s.subrange(i + 2, j)), color };
            scan(s, clamp(s, j + 1), Seq::empty(), color, flush(spans, buf, color).push(var))
        }
    } else if s[i] == '\\' {
        let j = find_from(s, '[', i + 1);
        let intro = s.subrange(i + 1, j);
        if intro != escape_intro() {
            scan(s, clamp(s, j + 1), buf.push('\\') + intro.push('['), color, spans)
        } else {
            let k = clamp(s, j + 1);
            let code = s.subrange(k, clamp(s, k + 2));
            if code == seq!['0', 'm'] {
                let fl = flush(spans, buf, color);
                scan(s, clamp(s, k + 2), Seq::empty(), Foreground::Regular, fl)
            } else {
                match parse_u16_spec(code) {
                    None => Err(TextParseError::InvalidColor),
                    Some(n) => match foreground_of(n) {
                        None => Err(TextParseError::InvalidColor),
                        Some(f) => {
                            scan(s, clamp(s, k + 5), Seq::empty(), f, flush(spans, buf, color))
                        },
                    },
                }
            }
        }
    } else {
        scan(s, i + 1, buf.push(s[i]), color, spans)
    }
}

/// What the markup `s` denotes.
pub open spec fn text_spec(s: Seq<char>) -> Result<TextView, TextParseError> {
    if s == seq!['~'] {
        Ok(TextView::BlankLine { click_to_advance: false })
    } else if s == seq!['!'] {
        Ok(TextView::BlankLine { click_to_advance: true })
    } else {
        let quiet = s.len() > 0 && s[0] == '@';
        let body = if quiet { s.drop_first() } else { s };
        match scan(body, 0, Seq::empty(), Foreground::Regular, Seq::empty()) {
            Ok(spans) => Ok(TextView::Spans { spans, click_to_advance: !quiet }),
            Err(e) => Err(e),
        }
    }
}

#[via_fn]
proof fn scan_decreases(
    s: Seq<char>,
    i: int,
    buf: Seq<char>,
    color: Foreground,
    spans: Seq<SpanView>,
) {
    if 0 <= i < s.len() {
        lemma_name_end_bounds(s, i + 1);
        if i + 2 <= s.len() {
            lemma_find_from_bounds(s, '}', i + 2);
        }
        lemma_find_from_bounds(s, '[', i + 1);
    }
}

proof fn lemma_name_end_bounds(s: Seq<char>, i: int)
    requires
        0 <= i <= s.len(),
    ensures
        i <= name_end(s, i) <= s.len(),
    decreases s.len() - i,
{
    if i < s.len() && is_name_char(s[i]) {
        lemma_name_end_bounds(s, i + 1);
    }
}

fn name_char(c: char) -> (r: bool)
    ensures
        r == is_name_char(c),
{
    !(c == ' ' || c == '$' || c == '{' || c == '}' || c == ';' || c == ',' || c == '.' || c
        == '=' || c == '(' || c == ')' || c == '\\' || c == '/')
}

fn find_name_end(v: &Vec<char>, start: usize) -> (r: usize)
    requires
        start <= v@.len(),
    ensures
        r == name_end(v@, start as int),
{
    proof { lemma_name_end_bounds(v@, start as int); }
    let mut i: usize = start;
    while i < v.len() && name_char(v[i])
        invariant
            start <= i <= v@.len(),
            name_end(v@, start as int) == name_end(v@, i as int),
        decreases v@.len() - i,
    {
        i = i + 1;
    }
    i
}

fn clamp_to(v: &Vec<char>, i: usize, n: usize) -> (r: usize)
    requires
        i <= v@.len(),
    ensures
        r == clamp(v@, i + n),
{
    if v.len() - i < n {
        v.len()
    } else {
        i + n
    }
}

/// Moves the pending plain text, if any, into `spans` as a span of `color`.
fn flush_into(spans: &mut Vec<TextSpan>, buf: &mut Vec<char>, color: Foreground)
    ensures
        spans_view(final(spans)@) == flush(spans_view(old(spans)@), old(buf)@, color),
        final(buf)@.len() == 0,
{
    if buf.len() > 0 {
        let text = string_of(buf);
        let span = TextSpan { text: TextType::Plain(text), color };
        let ghost before = spans@;
        spans.push(span);
        assert(spans_view(spans@) =~= spans_view(before).push(span@));
        *buf = Vec::new();
    }
}

fn push_span(spans: &mut Vec<TextSpan>, span: TextSpan)
    ensures
        spans_view(final(spans)@) == spans_view(old(spans)@).push(span@),
{
    let ghost before = spans@;
    spans.push(span);
    assert(spans_view(spans@) =~= spans_view(before).push(span@));
}

/// The spans of markup `s`, as `scan` gives them.
pub fn scan_spans(s: &Vec<char>) -> (r: Result<Vec<TextSpan>, TextParseError>)
    ensures
        match r {
            Ok(spans) => scan(s@, 0, Seq::empty(), Foreground::Regular, Seq::empty()) == Ok::<
                Seq<SpanView>,
                TextParseError,
            >(spans_view(spans@)),
            Err(e) => scan(s@, 0, Seq::empty(), Foreground::Regular, Seq::empty()) == Err::<
                Seq<SpanView>,
                TextParseError,
            >(e),
        },
{
    let mut spans: Vec<TextSpan> = Vec::new();
    let mut buf: Vec<char> = Vec::new();
    let mut color = Foreground::Regular;
    let mut i: usize = 0;
    assert(spans_view(spans@) =~= Seq::<SpanView>::empty());
    while i < s.len()
        invariant
            0 <= i <= s@.len(),
            scan(s@, 0, Seq::empty(), Foreground::Regular, Seq::empty()) == scan(
                s@,
                i as int,
                buf@,
                color,
                spans_view(spans@),
            ),
        decreases s@.len() - i,
    {
        let c = s[i];
        if c == '$' {
            let j = find_name_end(s, i + 1);
            proof { lemma_name_end_bounds(s@, i + 1); }
            if j == i + 1 {
                return Err(TextParseError::EmptyVariableName);
            }
            let name = string_of(&sub_chars(s, i + 1, j));
            flush_into(&mut spans, &mut buf, color);
            push_span(&mut spans, TextSpan { text: TextType::Variable(name), color });
            assert(buf@ =~= Seq::<char>::empty());
            i = clamp_to(s, j, 1);
        } else if c == '{' {
            if i + 1 >= s.len() {
                buf.push('{');
                i = i + 1;
            } else if s[i + 1] != '$' {
                buf.push('{');
                buf.push(s[i + 1]);
                i = i + 2;
            } else {
                let j = find_char_from(s, '}', i + 2);
                let name = string_of(&sub_chars(s, i + 2, j));
                flush_into(&mut spans, &mut buf, color);
                push_span(&mut spans, TextSpan { text: TextType::Variable(name), color });
                assert(buf@ =~= Seq::<char>::empty());
                i = clamp_to(s, j, 1);
            }
        } else if c == '\\' {
            let j = find_char_from(s, '[', i + 1);
            let intro = sub_chars(s, i + 1, j);
            let x1b: [char; 3] = ['x', '1', 'b'];
            assert(x1b@ == escape_intro());
            if !chars_eq(&intro, &x1b) {
                let ghost b0 = buf@;
                buf.push('\\');
                let mut t: usize = 0;
                while t < intro.len()
                    invariant
                        0 <= t <= intro@.len(),
                        buf@ == b0.push('\\') + intro@.subrange(0, t as int),
                    decreases intro@.len() - t,
                {
                    buf.push(intro[t]);
                    t = t + 1;
                    assert(buf@ =~= b0.push('\\') + intro@.subrange(0, t as int));
                }
                buf.push('[');
                assert(buf@ =~= b0.push('\\') + intro@.push('['));
                i = clamp_to(s, j, 1);
            } else {
                let k = clamp_to(s, j, 1);
                let code = sub_chars(s, k, clamp_to(s, k, 2));
                let reset: [char; 2] = ['0', 'm'];
                assert(reset@ == seq!['0', 'm']);
                if chars_eq(&code, &reset) {
                    flush_into(&mut spans, &mut buf, color);
                    color = Foreground::Regular;
                    i = clamp_to(s, k, 2);
                } else {
                    let f = match parse_u16(&code) {
                        None => { return Err(TextParseError::InvalidColor); },
                        Some(n) => match Foreground::from_code(n) {
                            Err(e) => { return Err(e); },
                            Ok(f) => f,
                        },
                    };
                    flush_into(&mut spans, &mut buf, color);
                    color = f;
                    i = clamp_to(s, k, 5);
                }
                assert(buf@ =~= Seq::<char>::empty());
            }
        } else {
            buf.push(c);
            i = i + 1;
        }
    }
    flush_into(&mut spans, &mut buf, color);
    Ok(spans)
}

/// Every plain span holds at least one character.
pub open spec fn no_empty_plain(spans: Seq<SpanView>) -> bool {
    forall|k: int|
        0 <= k < spans.len() ==> !((#[trigger] spans[k]).text matches TextTypeView::Plain(t)
            && t.len() == 0)
}

proof fn lemma_flush_no_empty_plain(spans: Seq<SpanView>, buf: Seq<char>, color: Foreground)
    requires
        no_empty_plain(spans),
    ensures
        no_empty_plain(flush(spans, buf, color)),
{
    let f = flush(spans, buf, color);
    assert forall|k: int| 0 <= k < f.len() implies !((#[trigger] f[k]).text
        matches TextTypeView::Plain(t) && t.len() == 0) by {
        if k < spans.len() {
            assert(f[k] == spans[k]);
        }
    }
}

proof fn lemma_push_var_no_empty_plain(spans: Seq<SpanView>, v: SpanView)
    requires
        no_empty_plain(spans),
        v.text is Variable,
    ensures
        no_empty_plain(spans.push(v)),
{
    let f = spans.push(v);
    assert forall|k: int| 0 <= k < f.len() implies !((#[trigger] f[k]).text
        matches TextTypeView::Plain(t) && t.len() == 0) by {
        if k < spans.len() {
            assert(f[k] == spans[k]);
        }
    }
}

proof fn lemma_scan_no_empty_plain(
    s: Seq<char>,
    i: int,
    buf: Seq<char>,
    color: Foreground,
    spans: Seq<SpanView>,
)
    requires
        no_empty_plain(spans),
    ensures
        scan(s, i, buf, color, spans) matches Ok(out) ==> no_empty_plain(out),
    decreases s.len() - i,
{
    if i < 0 || i >= s.len() {
        lemma_flush_no_empty_plain(spans, buf, color);
    } else if s[i] == '$' {
        lemma_name_end_bounds(s, i + 1);
        let j = name_end(s, i + 1);
        let name = s.subrange(i + 1, j);
        if name.len() != 0 {
            let var = SpanView { text: TextTypeView::Variable(name), color };
            lemma_flush_no_empty_plain(spans, buf, color);
            lemma_push_var_no_empty_plain(flush(spans, buf, color), var);
            let next = flush(spans, buf, color).push(var);
            lemma_scan_no_empty_plain(s, clamp(s, j + 1), Seq::empty(), color, next);
        }
    } else if s[i] == '{' {
        if i + 1 >= s.len() {
            lemma_scan_no_empty_plain(s, i + 1, buf.push('{'), color, spans);
        } else if s[i + 1] != '$' {
            lemma_scan_no_empty_plain(s, i + 2, buf.push('{').push(s[i + 1]), color, spans);
        } else {
            lemma_find_from_bounds(s, '}', i + 2);
            let j = find_from(s, '}', i + 2);
            let var = SpanView { text: TextTypeView::Variable(s.subrange(i + 2, j)), color };
            lemma_flush_no_empty_plain(spans, buf, color);
            lemma_push_var_no_empty_plain(flush(spans, buf, color), var);
            let next = flush(spans, buf, color).push(var);
            lemma_scan_no_empty_plain(s, clamp(s, j + 1), Seq::empty(), color, next);
        }
    } else if s[i] == '\\' {
        lemma_find_from_bounds(s, '[', i + 1);
        let j = find_from(s, '[', i + 1);
        let intro = s.subrange(i + 1, j);
        if intro != escape_intro() {
            let next_buf = buf.push('\\') + intro.push('[');
            lemma_scan_no_empty_plain(s, clamp(s, j + 1), next_buf, color, spans);
        } else {
            let k = clamp(s, j + 1);
            let code = s.subrange(k, clamp(s, k + 2));
            lemma_flush_no_empty_plain(spans, buf, color);
            if code == seq!['0', 'm'] {
                let fl = flush(spans, buf, color);
                let regular = Foreground::Regular;
                lemma_scan_no_empty_plain(s, clamp(s, k + 2), Seq::empty(), regular, fl);
            } else {
                match parse_u16_spec(code) {
                    None => {},
                    Some(n) => match foreground_of(n) {
                        None => {},
                        Some(f) => {
                            let fl = flush(spans, buf, color);
                            lemma_scan_no_empty_plain(s, clamp(s, k + 5), Seq::empty(), f, fl);
                        },
                    },
                }
            }
        }
    } else {
        lemma_scan_no_empty_plain(s, i + 1, buf.push(s[i]), color, spans);
    }
}

/// Parsed markup never holds an empty plain span: only pending text that is not empty
/// becomes a span.
pub proof fn lemma_no_empty_plain_spans(s: Seq<char>)
    ensures
        text_spec(s) matches Ok(TextView::Spans { spans, .. }) ==> no_empty_plain(spans),
{
    let quiet = s.len() > 0 && s[0] == '@';
    let body = if quiet { s.drop_first() } else { s };
    lemma_scan_no_empty_plain(body, 0, Seq::empty(), Foreground::Regular, Seq::empty());
}

impl Text {
    /// Parses the argument of a `text` line.
    pub fn parse(s: &str) -> (r: Result<Text, TextParseError>)
        ensures
            match r {
                Ok(t) => text_spec(s@) == Ok::<TextView, TextParseError>(t@),
                Err(e) => text_spec(s@) == Err::<TextView, TextParseError>(e),
            },
    {
        let v = chars_of(s);
        Text::parse_chars(&v)
    }

    pub fn parse_chars(v: &Vec<char>) -> (r: Result<Text, TextParseError>)
        ensures
            match r {
                Ok(t) => text_spec(v@) == Ok::<TextView, TextParseError>(t@),
                Err(e) => text_spec(v@) == Err::<TextView, TextParseError>(e),
            },
    {
        let tilde: [char; 1] = ['~'];
        let bang: [char; 1] = ['!'];
        assert(tilde@ == seq!['~']);
        assert(bang@ == seq!['!']);
        if chars_eq(v, &tilde) {
            return Ok(Text::BlankLine { click_to_advance: false });
        }
        if chars_eq(v, &bang) {
            return Ok(Text::BlankLine { click_to_advance: true });
        }
        let quiet = v.len() > 0 && v[0] == '@';
        let body = if quiet {
            sub_chars(v, 1, v.len())
        } else {
            sub_chars(v, 0, v.len())
        };
        assert(body@ =~= (if quiet { v@.drop_first() } else { v@ }));
        match scan_spans(&body) {
            Ok(spans) => Ok(Text::Spans { spans, click_to_advance: !quiet }),
            Err(e) => Err(e),
        }
    }
}

} // verus!
