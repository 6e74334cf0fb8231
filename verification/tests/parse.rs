use niji::parse::State;
use niji::scanner::Position;
use niji::{parse, Insert, Name, ParseErrorKind, Section, Template, Token, Value};

fn value(path: &[&str]) -> Token {
    Token::Insert(Insert {
        name: Name(path.iter().map(|s| s.to_string()).collect()),
        format: None,
    })
}

fn failure(source: &str) -> (ParseErrorKind, usize, usize) {
    let error = parse(source).unwrap_err();
    (
        error.kind().clone(),
        error.position().line,
        error.position().column,
    )
}

#[test]
fn basic_template() {
    let template: Template = "Abc {{value1}} def {{value2}}".parse().unwrap();

    assert_eq!(
        template,
        Template::new(vec![
            Token::String("Abc ".to_string()),
            Token::Insert(Insert {
                name: Name(vec!["value1".to_string()]),
                format: None
            }),
            Token::String(" def ".to_string()),
            Token::Insert(Insert {
                name: Name(vec!["value2".to_string()]),
                format: None
            })
        ])
    );
}

#[test]
fn inherent_values() {
    let template: Template = "{{.}}".parse().unwrap();

    assert_eq!(
        template,
        Template::new(vec![Token::Insert(Insert {
            name: Name(vec![]),
            format: None
        })])
    );
}

#[test]
fn dotted_names() {
    let template: Template = "{{abc.def}}".parse().unwrap();

    assert_eq!(
        template,
        Template::new(vec![Token::Insert(Insert {
            name: Name(vec!["abc".to_string(), "def".to_string()]),
            format: None
        })])
    );
}

#[test]
fn sections() {
    let template: Template = "{{#abc}}{{^def}}{{value}}{{/def}}{{/abc}}".parse().unwrap();

    assert_eq!(
        template,
        Template::new(vec![Token::Section(Section {
            name: Name(vec!["abc".to_string()]),
            inverted: false,
            content: vec![Token::Section(Section {
                name: Name(vec!["def".to_string()]),
                inverted: true,
                content: vec![Token::Insert(Insert {
                    name: Name(vec!["value".to_string()]),
                    format: None
                })]
            })]
        })])
    );
}

#[test]
fn delimiter_reassignment() {
    let template: Template = "{{=.% %.=}}.%value%..%= || || =%.||value2||"
        .parse()
        .unwrap();

    assert_eq!(
        template,
        Template::new(vec![
            Token::Insert(Insert {
                name: Name(vec!["value".to_string()]),
                format: None
            }),
            Token::Insert(Insert {
                name: Name(vec!["value2".to_string()]),
                format: None
            })
        ])
    );
}

#[test]
fn the_empty_text_is_the_empty_template() {
    assert_eq!(parse("").unwrap(), Template::new(vec![]));
}

#[test]
fn redefined_delimiters_parse_like_the_default_ones() {
    assert_eq!(
        parse("{{=<% %>=}}<%value%>").unwrap(),
        parse("{{value}}").unwrap()
    );
}

#[test]
fn redefined_delimiters_persist_to_the_end() {
    assert_eq!(
        parse("{{=<% %>=}}<%a%> {{b}} <%#s%><%c%><%/s%>").unwrap(),
        Template::new(vec![
            value(&["a"]),
            Token::String(" {{b}} ".to_string()),
            Token::Section(Section {
                name: Name(vec!["s".to_string()]),
                inverted: false,
                content: vec![value(&["c"])],
            }),
        ])
    );
}

#[test]
fn delimiters_redefined_in_a_section_stay_after_it() {
    assert_eq!(
        parse("{{#s}}{{=[ ]=}}[a][/s][b]{{c}}").unwrap(),
        Template::new(vec![
            Token::Section(Section {
                name: Name(vec!["s".to_string()]),
                inverted: false,
                content: vec![value(&["a"])],
            }),
            value(&["b"]),
            Token::String("{{c}}".to_string()),
        ])
    );
}

#[test]
fn whitespace_is_allowed_inside_tags() {
    assert_eq!(
        failure("{{ a . b }}"),
        (ParseErrorKind::ExpectedClosingDelim("}}".to_string()), 1, 5)
    );
    assert_eq!(
        parse("{{  #  name  }}x{{  /  name  }}{{\t.\n}}").unwrap(),
        Template::new(vec![
            Token::Section(Section {
                name: Name(vec!["name".to_string()]),
                inverted: false,
                content: vec![Token::String("x".to_string())],
            }),
            value(&[]),
        ])
    );
}

#[test]
fn identifiers_take_letters_digits_underscore_and_hyphen() {
    assert_eq!(
        parse("{{aZ_09-x.0.b-c}}").unwrap(),
        Template::new(vec![value(&["aZ_09-x", "0", "b-c"])])
    );
}

#[test]
fn text_runs_up_to_the_next_start_delimiter() {
    assert_eq!(
        parse("a { b }} c{{d}}e{").unwrap(),
        Template::new(vec![
            Token::String("a { b }} c".to_string()),
            value(&["d"]),
            Token::String("e{".to_string()),
        ])
    );
}

#[test]
fn delimiters_of_other_scripts_are_matched_by_character() {
    assert_eq!(
        parse("{{=« »=}}ab«x»cd").unwrap(),
        Template::new(vec![
            Token::String("ab".to_string()),
            value(&["x"]),
            Token::String("cd".to_string()),
        ])
    );
}

#[test]
fn mismatched_section_end_is_reported_where_the_closing_tag_begins() {
    assert_eq!(
        failure("{{#a}}{{/b}}"),
        (
            ParseErrorKind::MismatchedSectionEnd("b".to_string(), "a".to_string()),
            1,
            6
        )
    );
    assert_eq!(
        failure("{{#a.b}}\n  {{/.}}"),
        (
            ParseErrorKind::MismatchedSectionEnd(".".to_string(), "a.b".to_string()),
            2,
            2
        )
    );
}

#[test]
fn missing_section_end_is_reported_at_the_end_of_the_text() {
    assert_eq!(
        failure("{{#a}}text"),
        (ParseErrorKind::MissingSectionEnd("a".to_string()), 1, 10)
    );
    assert_eq!(
        failure("{{^a.b}}\n{{#c}}\n"),
        (ParseErrorKind::MissingSectionEnd("c".to_string()), 3, 0)
    );
}

#[test]
fn expected_ident_is_reported_where_the_identifier_should_stand() {
    assert_eq!(failure("{{}}"), (ParseErrorKind::ExpectedIdent, 1, 2));
    assert_eq!(failure("{{ a. }}"), (ParseErrorKind::ExpectedIdent, 1, 5));
    assert_eq!(failure("ab\n{{#}}"), (ParseErrorKind::ExpectedIdent, 2, 3));
    assert_eq!(failure("{{/a}}"), (ParseErrorKind::ExpectedIdent, 1, 2));
}

#[test]
fn expected_closing_delimiter_names_the_delimiter() {
    assert_eq!(
        failure("{{a"),
        (ParseErrorKind::ExpectedClosingDelim("}}".to_string()), 1, 3)
    );
    assert_eq!(
        failure("{{a b}}"),
        (ParseErrorKind::ExpectedClosingDelim("}}".to_string()), 1, 4)
    );
    assert_eq!(
        failure("{{=[ ]=}}[a}}"),
        (ParseErrorKind::ExpectedClosingDelim("]".to_string()), 1, 11)
    );
    assert_eq!(
        failure("{{=[ ] }}"),
        (ParseErrorKind::ExpectedClosingDelim("=}}".to_string()), 1, 7)
    );
}

#[test]
fn instructions_need_both_delimiters() {
    assert_eq!(
        failure("{{= =}}"),
        (ParseErrorKind::MissingStartDelimiterDef, 1, 4)
    );
    assert_eq!(
        failure("{{=[ =}}"),
        (ParseErrorKind::MissingEndDelimiterDef, 1, 5)
    );
    assert_eq!(failure("{{="), (ParseErrorKind::MissingStartDelimiterDef, 1, 3));
}

#[test]
fn parse_errors_print_kind_and_position() {
    assert_eq!(
        parse("{{#a}}{{/b}}").unwrap_err().to_string(),
        "Mismatched section end: expected \"/a\", found \"/b\" (1:6)"
    );
    assert_eq!(
        parse("\n\n{{a").unwrap_err().to_string(),
        "Expected closing delimiter \"}}\" (3:3)"
    );
    assert_eq!(
        parse("{{#a}}").unwrap_err().to_string(),
        "Section \"a\" was never closed (1:6)"
    );
    assert_eq!(
        ParseErrorKind::ExpectedIdent.message(),
        "Expected an identifier"
    );
    assert_eq!(ParseErrorKind::ExpectedName.message(), "Expected a name");
    assert_eq!(
        ParseErrorKind::MissingStartDelimiterDef.message(),
        "Missing a definition for the start delimiter"
    );
    assert_eq!(
        ParseErrorKind::MissingEndDelimiterDef.message(),
        "Missing a definition for the end delimiter"
    );
}

#[test]
fn positions_step_over_characters_and_lines() {
    let mut position = Position::default();
    assert_eq!((position.line, position.column), (1, 0));
    position.step('a');
    position.step('é');
    assert_eq!((position.line, position.column), (1, 2));
    position.step('\n');
    assert_eq!((position.line, position.column), (2, 0));
    position.step('\r');
    assert_eq!((position.line, position.column), (2, 1));
    assert_eq!(position.to_string(), "2:1");
}

#[test]
fn parsing_starts_with_the_default_delimiters() {
    let state = State::default();
    assert_eq!(state.start_delimiter, vec!['{', '{']);
    assert_eq!(state.end_delimiter, vec!['}', '}']);
}

#[test]
fn parsed_templates_render() {
    let mut template = parse("Hello, {{name}}!{{#items}} {{.}}{{/items}}").unwrap();
    let value = Value::Dict(vec![
        ("name".to_string(), Value::String("world".to_string())),
        (
            "items".to_string(),
            Value::Vec(vec![
                Value::String("a".to_string()),
                Value::String("b".to_string()),
            ]),
        ),
    ]);
    assert_eq!(template.render(&value).unwrap(), "Hello, world! a b");
}

#[test]
fn whitespace_is_what_the_standard_library_calls_whitespace() {
    for code in 0..=0x10FFFFu32 {
        if let Some(c) = char::from_u32(code) {
            assert_eq!(niji::text::is_whitespace(c), c.is_whitespace(), "U+{code:04X}");
        }
    }
}

#[test]
fn every_kind_of_whitespace_is_skipped_in_tags() {
    assert_eq!(
        parse("{{\u{a0}\u{2003}a\u{3000}\r\n}}").unwrap(),
        Template::new(vec![value(&["a"])])
    );
    assert_eq!(
        failure("{{\u{200b}a}}"),
        (ParseErrorKind::ExpectedIdent, 1, 2)
    );
}
