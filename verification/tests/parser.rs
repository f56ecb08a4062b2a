use msl_engine::parse_script;
use msl_engine::parser::parse_click;
use msl_engine::parser::parse_open;
use msl_engine::MslError;
use msl_engine::ast::MediaFilter;
use msl_engine::ast::MslCommand;
use msl_engine::ast::MslValue;

#[test]
fn test_parse_open() {
    let input = r#"open "https://example.com""#;
    let n = input.chars().count();
    let result = parse_open(input, 0, n);
    assert!(result.is_some());
    if let Some((MslCommand::Open { url }, _)) = result {
        assert_eq!(url, "https://example.com");
    }
}

#[test]
fn test_parse_click() {
    let input = "click \".user-card a\"\n  set user = text";
    let n = input.chars().count();
    let result = parse_click(input, 0, n, 0);
    assert!(result.is_some());
}

#[test]
fn test_parse_script() {
    let script = r#"
open "https://example.com"
click ".user-card a"
  set user = text
  media
    image
      where src ~ "cdn.example.com"
      extensions jpg, png
    save to "./media/{user}"
"#;
    let result = parse_script(script);
    assert!(result.is_ok());
}

#[test]
fn flat_script_command_count_equals_keyword_count() {
    let script = "open \"http://a\"\nwait 5\nsave to \"x\"\nset v = text\nmedia";
    let parsed = parse_script(script).unwrap();
    assert_eq!(parsed.commands.len(), 5);
    assert!(matches!(parsed.commands[0], MslCommand::Open { .. }));
    assert!(matches!(parsed.commands[1], MslCommand::Wait { seconds: 5 }));
    assert!(matches!(parsed.commands[2], MslCommand::Save { .. }));
    assert!(matches!(parsed.commands[3], MslCommand::SetVar { .. }));
    assert!(matches!(parsed.commands[4], MslCommand::Media { .. }));
}

#[test]
fn click_bodies_nest_three_levels() {
    let script = "click \"a\"\n  click \"b\"\n    click \"c\"";
    let parsed = parse_script(script).unwrap();
    assert_eq!(parsed.commands.len(), 1);
    let (sel1, body1) = match &parsed.commands[0] {
        MslCommand::Click { selector, commands } => (selector, commands),
        c => panic!("expected click, got {:?}", c),
    };
    assert_eq!(sel1, "a");
    assert_eq!(body1.len(), 1);
    let (sel2, body2) = match &body1[0] {
        MslCommand::Click { selector, commands } => (selector, commands),
        c => panic!("expected click, got {:?}", c),
    };
    assert_eq!(sel2, "b");
    assert_eq!(body2.len(), 1);
    let (sel3, body3) = match &body2[0] {
        MslCommand::Click { selector, commands } => (selector, commands),
        c => panic!("expected click, got {:?}", c),
    };
    assert_eq!(sel3, "c");
    assert!(body3.is_empty());
}

#[test]
fn invalid_wait_numeral_defaults_to_one_second() {
    let parsed = parse_script("wait abc").unwrap();
    assert_eq!(parsed.commands.len(), 1);
    assert!(matches!(parsed.commands[0], MslCommand::Wait { seconds: 1 }));
}

#[test]
fn wait_numeral_overflow_defaults_to_one_second() {
    let parsed = parse_script("wait 99999999999999999999999999").unwrap();
    assert!(matches!(parsed.commands[0], MslCommand::Wait { seconds: 1 }));
}

#[test]
fn wait_zero_parses_exactly() {
    let parsed = parse_script("wait 0").unwrap();
    assert!(matches!(parsed.commands[0], MslCommand::Wait { seconds: 0 }));
}

#[test]
fn trailing_content_is_a_parse_error_with_remainder() {
    let result = parse_script("open \"http://a\" ???");
    match result {
        Err(MslError::ParseError(msg)) => {
            assert!(msg.contains("Unparsed content:"));
            assert!(msg.contains("???"));
        },
        other => panic!("expected a parse error, got {:?}", other),
    }
}

#[test]
fn end_to_end_open_then_wait_parses_in_order() {
    let parsed = parse_script("open \"http://example.com\"\nwait 0").unwrap();
    assert_eq!(parsed.commands.len(), 2);
    match &parsed.commands[0] {
        MslCommand::Open { url } => assert_eq!(url, "http://example.com"),
        c => panic!("expected open, got {:?}", c),
    }
    assert!(matches!(parsed.commands[1], MslCommand::Wait { seconds: 0 }));
}

#[test]
fn set_parses_attribute_and_split_values() {
    let parsed = parse_script("set a = attr(\"href\")").unwrap();
    match &parsed.commands[0] {
        MslCommand::SetVar { variable, value } => {
            assert_eq!(variable, "a");
            match value {
                MslValue::Attribute { name } => assert_eq!(name, "href"),
                v => panic!("expected attr, got {:?}", v),
            }
        },
        c => panic!("expected set, got {:?}", c),
    }
    let parsed = parse_script("set b = split(\"x\").split(\",\")[-2]").unwrap();
    match &parsed.commands[0] {
        MslCommand::SetVar { value, .. } => match value {
            MslValue::Split { delimiter, index } => {
                assert_eq!(delimiter, ",");
                assert_eq!(*index, -2);
            },
            v => panic!("expected split, got {:?}", v),
        },
        c => panic!("expected set, got {:?}", c),
    }
}

#[test]
fn invalid_split_index_defaults_to_minus_one() {
    let parsed = parse_script("set b = split(\"x\").split(\",\")[zz]").unwrap();
    match &parsed.commands[0] {
        MslCommand::SetVar { value, .. } => match value {
            MslValue::Split { index, .. } => assert_eq!(*index, -1),
            v => panic!("expected split, got {:?}", v),
        },
        c => panic!("expected set, got {:?}", c),
    }
}

#[test]
fn media_block_filters_parse_exactly() {
    let script = "media\n  image\n    where src != \"spam\"\n    extensions gif";
    let parsed = parse_script(script).unwrap();
    match &parsed.commands[0] {
        MslCommand::Media { media_blocks } => {
            assert_eq!(media_blocks.len(), 1);
            let block = &media_blocks[0];
            assert_eq!(block.filters.len(), 2);
            match &block.filters[0] {
                MediaFilter::Where { field, operator, value } => {
                    assert_eq!(field, "src");
                    assert_eq!(operator, "!=");
                    assert_eq!(value, "spam");
                },
                f => panic!("expected where, got {:?}", f),
            }
            match &block.filters[1] {
                MediaFilter::Extensions { extensions } => {
                    assert_eq!(extensions, &vec!["gif".to_string()]);
                },
                f => panic!("expected extensions, got {:?}", f),
            }
        },
        c => panic!("expected media, got {:?}", c),
    }
}

#[test]
fn quotes_terminate_strings_without_escapes() {
    let parsed = parse_script("open \"a\\\"").unwrap();
    match &parsed.commands[0] {
        MslCommand::Open { url } => assert_eq!(url, "a\\"),
        c => panic!("expected open, got {:?}", c),
    }
}

#[test]
fn error_messages_name_their_kind() {
    assert_eq!(
        MslError::NoPageLoaded.message(),
        "No page loaded. Use 'open' first."
    );
    assert_eq!(
        MslError::ParseError("x".to_string()).message(),
        "Parse error: x"
    );
    assert!(MslError::InvalidSelector("s".to_string()).message().contains("s"));
    assert!(MslError::InvalidUrl("u".to_string()).message().contains("u"));
    assert!(MslError::TransportError("t".to_string()).message().contains("t"));
    assert!(MslError::IoError("i".to_string()).message().contains("i"));
}
