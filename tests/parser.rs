use nds_novel::command::{
    ChoiceOption, ClearTextType, Command, IfRhs, MusicFile, SoundLooping, VariableModifier,
    VariableStorageType,
};
use nds_novel::error::{ParseError, TextParseError};
use nds_novel::parser::{parse_command, parse_script, OptionalResult, ParseScript};
use nds_novel::text::{Foreground, Text, TextSpan, TextType};

#[test]
fn test_cleartext() {
    let commands = "cleartext\ncleartext !".parse_script().unwrap();

    assert_eq!(
        commands,
        [
            Command::ClearText(ClearTextType::FillBottomScreen),
            Command::ClearText(ClearTextType::TextBufferInclHistory)
        ]
    );
}

#[test]
fn test_random() {
    let commands = "random var 0 10".parse_script().unwrap();

    assert_eq!(
        commands,
        [Command::Random {
            variable: "var".into(),
            range: 0..=10
        }]
    );
}

#[test]
fn test_delay() {
    let commands = "delay 100".parse_script().unwrap();

    assert_eq!(commands, [Command::Delay { frames: 100 }]);
}

#[test]
fn test_jump() {
    let commands = "jump file.scr\njump fuck.scr label".parse_script().unwrap();

    assert_eq!(
        commands,
        [
            Command::Jump {
                file: "file.scr".into(),
                label: None
            },
            Command::Jump {
                file: "fuck.scr".into(),
                label: Some("label".into())
            }
        ]
    );
}

#[test]
fn test_label_and_goto() {
    let commands = "label test\ngoto test".parse_script().unwrap();
    assert_eq!(
        commands,
        [
            Command::Label("test".to_owned()),
            Command::Goto("test".to_owned())
        ]
    );
}

#[test]
fn test_choice() {
    let commands = "choice hello|world|$name".parse_script().unwrap();

    assert_eq!(
        commands,
        [Command::Choice {
            options: vec![
                ChoiceOption::Option("hello".to_owned()),
                ChoiceOption::Option("world".to_owned()),
                ChoiceOption::Variable("name".to_owned()),
            ]
        }]
    );
}

#[test]
fn test_music() {
    let commands = "music bgm.mp3\nmusic ~".parse_script().unwrap();

    assert_eq!(
        commands,
        [
            Command::Music {
                file: MusicFile::Path("bgm.mp3".into())
            },
            Command::Music {
                file: MusicFile::StopPlaying
            }
        ]
    );
}

#[test]
fn test_sound() {
    let commands = "sound bg0.aac -1\nsound ~\nsound waves.aac -1".parse_script().unwrap();
    assert_eq!(
        commands,
        [
            Command::Sound(SoundLooping::Infinite {
                file: "bg0.aac".into()
            }),
            Command::Sound(SoundLooping::StopCurrentlyPlaying),
            Command::Sound(SoundLooping::Infinite {
                file: "waves.aac".into()
            })
        ]
    );
}

#[test]
fn test_setvar() {
    let commands = "setvar affection = 10\ngsetvar progress = 0".parse_script().unwrap();

    assert_eq!(
        commands,
        [
            Command::SetVar {
                name: "affection".to_owned(),
                accumulator: 10,
                modifier: VariableModifier::Assign,
                storage: VariableStorageType::Local
            },
            Command::SetVar {
                name: "progress".to_owned(),
                accumulator: 0,
                modifier: VariableModifier::Assign,
                storage: VariableStorageType::Global
            },
        ]
    );
}

#[test]
fn test_setimg() {
    let commands = "setimg test.jpg 10 10".parse_script().unwrap();

    assert_eq!(
        commands,
        [Command::SetImg {
            file: "test.jpg".into(),
            coordinates: (10, 10)
        }]
    );
}

#[test]
fn test_bgload() {
    let commands = "bgload test.jpg 20\nbgload test.jpg".parse_script().unwrap();

    assert_eq!(
        commands,
        [
            Command::BgLoad {
                file: "test.jpg".into(),
                fadetime: 20
            },
            Command::BgLoad {
                file: "test.jpg".into(),
                fadetime: 16
            }
        ]
    );
}

#[test]
fn test_branch() {
    let commands = "if a == b\nfi\nif a == 10\nfi".parse_script().unwrap();

    assert_eq!(
        commands,
        [
            Command::If {
                name: "a".to_owned(),
                rhs: IfRhs::Variable("b".to_owned())
            },
            Command::EndIf,
            Command::If {
                name: "a".to_owned(),
                rhs: IfRhs::Number(10)
            },
            Command::EndIf,
        ]
    );
}

#[test]
fn test_text() {
    let commands = "text hello $world real world \\x1b[30;1m{$name}-chan"
        .parse_script()
        .unwrap();

    assert_eq!(
        commands,
        [Command::Text(Text::Spans {
            spans: vec![
                TextSpan {
                    text: TextType::Plain("hello ".to_owned()),
                    color: Foreground::Regular,
                },
                TextSpan {
                    text: TextType::Variable("world".to_owned()),
                    color: Foreground::Regular,
                },
                TextSpan {
                    text: TextType::Plain("real world ".to_owned()),
                    color: Foreground::Regular,
                },
                TextSpan {
                    text: TextType::Variable("name".to_owned()),
                    color: Foreground::Black,
                },
                TextSpan {
                    text: TextType::Plain("-chan".to_owned()),
                    color: Foreground::Black,
                },
            ],
            click_to_advance: true,
        })]
    );
}

#[test]
fn delay_rejects_non_number() {
    assert_eq!(parse_script("delay abc"), Err(ParseError::FailedToParseNumber));
    assert_eq!(parse_script("delay 65536"), Err(ParseError::FailedToParseNumber));
    assert_eq!(parse_script("delay +7"), Ok(vec![Command::Delay { frames: 7 }]));
}

#[test]
fn bgload_default_and_bad_fadetime() {
    assert_eq!(
        parse_script("bgload x.png 20"),
        Ok(vec![Command::BgLoad { file: "x.png".into(), fadetime: 20 }])
    );
    assert_eq!(
        parse_script("bgload x.png"),
        Ok(vec![Command::BgLoad { file: "x.png".into(), fadetime: 16 }])
    );
    assert_eq!(parse_script("bgload x.png fast"), Err(ParseError::FailedToParseNumber));
}

#[test]
fn sound_variants() {
    assert_eq!(
        parse_script("sound a.aac -1\nsound a.aac 3\nsound ~"),
        Ok(vec![
            Command::Sound(SoundLooping::Infinite { file: "a.aac".into() }),
            Command::Sound(SoundLooping::Count { file: "a.aac".into(), count: 3 }),
            Command::Sound(SoundLooping::StopCurrentlyPlaying),
        ])
    );
    assert_eq!(parse_script("sound a.aac x"), Err(ParseError::FailedToParseNumber));
    assert_eq!(parse_script("sound a.aac"), Err(ParseError::NotEnoughArguments));
}

#[test]
fn setvar_storage_and_modifiers() {
    assert_eq!(
        parse_script("setvar hp = 10\ngsetvar hp = 10\nsetvar hp >= 2\nsetvar hp <= 3\nsetvar hp - 4"),
        Ok(vec![
            Command::SetVar {
                name: "hp".into(),
                modifier: VariableModifier::Assign,
                accumulator: 10,
                storage: VariableStorageType::Local,
            },
            Command::SetVar {
                name: "hp".into(),
                modifier: VariableModifier::Assign,
                accumulator: 10,
                storage: VariableStorageType::Global,
            },
            Command::SetVar {
                name: "hp".into(),
                modifier: VariableModifier::GtOrEq,
                accumulator: 2,
                storage: VariableStorageType::Local,
            },
            Command::SetVar {
                name: "hp".into(),
                modifier: VariableModifier::LtOrEq,
                accumulator: 3,
                storage: VariableStorageType::Local,
            },
            Command::SetVar {
                name: "hp".into(),
                modifier: VariableModifier::Sub,
                accumulator: 4,
                storage: VariableStorageType::Local,
            },
        ])
    );
    assert_eq!(
        parse_script("setvar hp ?= 1"),
        Err(ParseError::UnknownVariableModifier { modifier: "?=".into() })
    );
    assert_eq!(parse_script("setvar hp = many"), Err(ParseError::FailedToParseNumber));
}

#[test]
fn choice_options_in_order() {
    assert_eq!(
        parse_script("choice a|b|$c"),
        Ok(vec![Command::Choice {
            options: vec![
                ChoiceOption::Option("a".into()),
                ChoiceOption::Option("b".into()),
                ChoiceOption::Variable("c".into()),
            ]
        }])
    );
    assert_eq!(
        parse_script("choice a||"),
        Ok(vec![Command::Choice {
            options: vec![
                ChoiceOption::Option("a".into()),
                ChoiceOption::Option("".into()),
                ChoiceOption::Option("".into()),
            ]
        }])
    );
}

#[test]
fn unknown_keyword_fails_whole_script() {
    assert_eq!(
        parse_script("dance now"),
        Err(ParseError::UnknownCommand { command: "dance".into() })
    );
    assert_eq!(
        parse_script("delay 1\ndance now\ndelay 2"),
        Err(ParseError::UnknownCommand { command: "dance".into() })
    );
}

#[test]
fn unknown_single_word_fails_with_that_word() {
    assert_eq!(
        parse_script("frob"),
        Err(ParseError::UnknownCommand { command: "frob".into() })
    );
    assert_eq!(
        parse_script("delay 1
  frob  
delay 2"),
        Err(ParseError::UnknownCommand { command: "frob".into() })
    );
    let line: Vec<char> = "frob".chars().collect();
    assert_eq!(parse_command(&line), Err(ParseError::UnknownCommand { command: "frob".into() }));
}

#[test]
fn known_keyword_without_arguments() {
    assert_eq!(parse_script("goto"), Err(ParseError::NotEnoughArguments));
    assert_eq!(parse_script("delay"), Err(ParseError::NotEnoughArguments));
    assert_eq!(parse_script("setimg"), Err(ParseError::NotEnoughArguments));
}

#[test]
fn crlf_line_endings() {
    assert_eq!(
        parse_script("label a\r\ngoto a\r\n"),
        Ok(vec![Command::Label("a".into()), Command::Goto("a".into())])
    );
}

#[test]
fn first_failing_line_decides() {
    assert_eq!(
        parse_script("delay x\ndance now"),
        Err(ParseError::FailedToParseNumber)
    );
}

#[test]
fn argument_errors() {
    assert_eq!(parse_script("goto"), Err(ParseError::NotEnoughArguments));
    assert_eq!(parse_script(""), Ok(vec![]));
    assert_eq!(parse_script("delay 1\n\ndelay 2"), Err(ParseError::NotEnoughArguments));
    assert_eq!(
        parse_script("cleartext ?"),
        Err(ParseError::UnknownClearTextType("?".into()))
    );
    assert_eq!(parse_script("random v 1"), Err(ParseError::NotEnoughArguments));
    assert_eq!(parse_script("random v 1 x"), Err(ParseError::FailedToParseNumber));
    assert_eq!(parse_script("setimg a.png 1 y"), Err(ParseError::FailedToParseNumber));
    assert_eq!(parse_script("if a =="), Err(ParseError::NotEnoughArguments));
    assert_eq!(
        parse_script("text $"),
        Err(ParseError::Text(TextParseError::EmptyVariableName))
    );
}

#[test]
fn random_keeps_reversed_range() {
    assert_eq!(
        parse_script("random v 10 2"),
        Ok(vec![Command::Random { variable: "v".into(), range: 10..=2 }])
    );
}

#[test]
fn lines_are_trimmed() {
    assert_eq!(
        parse_script("  delay 5 \r\n\tfi\r\n"),
        Ok(vec![Command::Delay { frames: 5 }, Command::EndIf])
    );
}

#[test]
fn parse_single_line() {
    let line: Vec<char> = "jump a.scr start".chars().collect();
    assert_eq!(
        parse_command(&line),
        Ok(Command::Jump { file: "a.scr".into(), label: Some("start".into()) })
    );
}

#[test]
fn optional_result_defaults() {
    let missing: OptionalResult<u16, ParseError> = OptionalResult::from_option(None);
    assert_eq!(missing.default_or_err(16), Ok(16));
    let given: OptionalResult<u16, ParseError> = OptionalResult::from_option(Some(Ok(3)));
    assert_eq!(given.default_or_err(16), Ok(3));
    let bad: OptionalResult<u16, ParseError> =
        OptionalResult::from_option(Some(Err(ParseError::FailedToParseNumber)));
    assert_eq!(bad.default_or_err(16), Err(ParseError::FailedToParseNumber));
}

#[test]
fn variable_modifier_tokens() {
    let t: Vec<char> = "<".chars().collect();
    assert_eq!(VariableModifier::parse(&t), Ok(VariableModifier::Lt));
    let t: Vec<char> = "+".chars().collect();
    assert_eq!(VariableModifier::parse(&t), Ok(VariableModifier::Add));
    let t: Vec<char> = "==".chars().collect();
    assert_eq!(
        VariableModifier::parse(&t),
        Err(ParseError::UnknownVariableModifier { modifier: "==".into() })
    );
}
