use nds_novel::error::TextParseError;
use nds_novel::text::{Foreground, Text, TextSpan, TextType};

fn plain(s: &str, color: Foreground) -> TextSpan {
    TextSpan { text: TextType::Plain(s.to_owned()), color }
}

fn var(s: &str, color: Foreground) -> TextSpan {
    TextSpan { text: TextType::Variable(s.to_owned()), color }
}

#[test]
fn markup_spans_and_colors() {
    assert_eq!(
        Text::parse("hello $world \\x1b[30;1m{$name}-chan"),
        Ok(Text::Spans {
            spans: vec![
                plain("hello ", Foreground::Regular),
                var("world", Foreground::Regular),
                var("name", Foreground::Black),
                plain("-chan", Foreground::Black),
            ],
            click_to_advance: true,
        })
    );
}

#[test]
fn color_reset_flushes_with_previous_color() {
    assert_eq!(
        Text::parse("a\\x1b[31;1mred\\x1b[0mplain"),
        Ok(Text::Spans {
            spans: vec![
                plain("a", Foreground::Regular),
                plain("red", Foreground::Red),
                plain("plain", Foreground::Regular),
            ],
            click_to_advance: true,
        })
    );
}

#[test]
fn invalid_color_fails() {
    assert_eq!(Text::parse("\\x1b[38;1mx"), Err(TextParseError::InvalidColor));
    assert_eq!(Text::parse("\\x1b[zz;1mx"), Err(TextParseError::InvalidColor));
}

#[test]
fn failed_escape_stays_literal() {
    assert_eq!(
        Text::parse("a\\y[b"),
        Ok(Text::Spans { spans: vec![plain("a\\y[b", Foreground::Regular)], click_to_advance: true })
    );
}

#[test]
fn blank_lines_and_quiet_text() {
    assert_eq!(Text::parse("~"), Ok(Text::BlankLine { click_to_advance: false }));
    assert_eq!(Text::parse("!"), Ok(Text::BlankLine { click_to_advance: true }));
    assert_eq!(
        Text::parse("@hi"),
        Ok(Text::Spans { spans: vec![plain("hi", Foreground::Regular)], click_to_advance: false })
    );
    assert_eq!(Text::parse(""), Ok(Text::Spans { spans: vec![], click_to_advance: true }));
}

#[test]
fn empty_variable_name_fails() {
    assert_eq!(Text::parse("x $ y"), Err(TextParseError::EmptyVariableName));
}

#[test]
fn brace_without_dollar_is_literal() {
    assert_eq!(
        Text::parse("{a}"),
        Ok(Text::Spans { spans: vec![plain("{a}", Foreground::Regular)], click_to_advance: true })
    );
}

#[test]
fn variable_stops_at_punctuation() {
    assert_eq!(
        Text::parse("$hp."),
        Ok(Text::Spans { spans: vec![var("hp", Foreground::Regular)], click_to_advance: true })
    );
    assert_eq!(
        Text::parse("$hp,x"),
        Ok(Text::Spans {
            spans: vec![var("hp", Foreground::Regular), plain("x", Foreground::Regular)],
            click_to_advance: true
        })
    );
}

#[test]
fn foreground_codes() {
    assert_eq!(Foreground::from_code(31), Ok(Foreground::Red));
    assert_eq!(Foreground::from_code(39), Ok(Foreground::Regular));
    assert_eq!(Foreground::from_code(38), Err(TextParseError::InvalidColor));
    assert_eq!(Foreground::from_code(40), Err(TextParseError::InvalidColor));
    assert_eq!(Foreground::Cyan.code(), 36);
}
