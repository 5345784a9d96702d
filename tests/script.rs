use nds_novel::command::Command;
use nds_novel::error::{JumpToLabelError, LoadScriptError, NovelLoadError, ParseError};
use nds_novel::novel::{resolution_from_img_ini, script_from_text, title_from_info};
use nds_novel::parser::parse_script;
use nds_novel::script::{Script, ScriptControlFlow};

fn script(text: &str) -> Script {
    Script::new(parse_script(text).unwrap())
}

#[test]
fn later_duplicate_label_wins() {
    let mut s = script("label a\ndelay 1\nlabel a\ndelay 2");
    assert_eq!(s.jump_to_label("a"), Ok(()));
    assert_eq!(s.cursor(), 2);
    let mut s = script("label a\nlabel a\nlabel b\nlabel a");
    assert_eq!(s.jump_to_label("a"), Ok(()));
    assert_eq!(s.cursor(), 3);
}

#[test]
fn absent_label_keeps_cursor() {
    let mut s = script("label a\ndelay 1");
    s.adjust_cursor_to(1);
    assert_eq!(s.jump_to_label("b"), Err(JumpToLabelError::LabelNotFound));
    assert_eq!(s.cursor(), 1);
}

#[test]
fn last_command_then_stopped() {
    let mut s = script("delay 1\ndelay 2");
    s.adjust_cursor_to(1);
    match s.next_command() {
        ScriptControlFlow::Execute(c) => assert_eq!(c, &Command::Delay { frames: 2 }),
        ScriptControlFlow::Stopped => panic!("expected a command"),
    }
    assert_eq!(s.cursor(), 2);
    assert!(matches!(s.peek(), ScriptControlFlow::Stopped));
}

#[test]
fn advance_and_peek() {
    let mut s = script("delay 1\ndelay 2\ndelay 3");
    assert_eq!(s.advance_by(2), 0);
    assert_eq!(s.cursor(), 2);
    assert!(matches!(s.peek(), ScriptControlFlow::Execute(Command::Delay { frames: 3 })));
    assert!(matches!(s.peek_from(0), ScriptControlFlow::Execute(Command::Delay { frames: 1 })));
    assert!(matches!(s.peek_from(9), ScriptControlFlow::Stopped));
    assert_eq!(s.advance_by(5), 2);
    assert_eq!(s.cursor(), 7);
}

#[test]
fn supplied_label_table() {
    let commands = parse_script("delay 1\ndelay 2").unwrap();
    let mut s = Script::with_labels(commands, vec![("x".to_owned(), 0), ("x".to_owned(), 1)]);
    assert_eq!(s.jump_to_label("x"), Ok(()));
    assert_eq!(s.cursor(), 1);
}

#[test]
fn script_from_text_parses_and_indexes() {
    let mut s = script_from_text("delay 1\nlabel end").unwrap();
    assert_eq!(s.cursor(), 0);
    assert_eq!(s.jump_to_label("end"), Ok(()));
    assert_eq!(s.cursor(), 1);
    assert!(matches!(
        script_from_text("oops x"),
        Err(LoadScriptError::Parse(ParseError::UnknownCommand { .. }))
    ));
}

#[test]
fn info_title() {
    assert_eq!(title_from_info("header\ntitle=My Novel\nauthor=x"), Ok("My Novel".to_owned()));
    assert_eq!(title_from_info("no title here"), Err(NovelLoadError::NoTitle));
    assert_eq!(title_from_info("title=My Novel\r\nauthor=x\r\n"), Ok("My Novel".to_owned()));
    assert_eq!(title_from_info("title=a\rb"), Ok("a\rb".to_owned()));
}

#[test]
fn img_ini_resolution() {
    assert_eq!(resolution_from_img_ini("height = 192\nwidth=256\n"), Ok((256, 192)));
    assert_eq!(resolution_from_img_ini("width=256"), Err(NovelLoadError::InvalidImgIni));
    assert_eq!(
        resolution_from_img_ini("width=abc\nwidth=10\nheight=20"),
        Ok((10, 20))
    );
}
