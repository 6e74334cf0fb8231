use niji::{FmtValue, Format, Insert, Name, RenderError, Section, SetFmt, Template, Token, Value};

#[derive(Debug)]
struct TestFormat;

impl Format for TestFormat {
    fn typename(&self) -> &'static str {
        "test"
    }

    fn default_fmtstr(&self) -> &'static str {
        "default: {string}"
    }

    fn get_placeholder(&self, name: &str) -> Option<FmtValue> {
        match name {
            "string" => Some(FmtValue::from("STRING VALUE :)".to_string())),
            "int" => Some(FmtValue::from(69)),
            _ => None,
        }
    }
}

fn insert(path: &[&str], format: Option<&str>) -> Token {
    Token::Insert(Insert {
        name: Name(path.iter().map(|s| s.to_string()).collect()),
        format: format.map(|f| f.to_string()),
    })
}

fn section(path: &[&str], inverted: bool, content: Vec<Token>) -> Token {
    Token::Section(Section {
        name: Name(path.iter().map(|s| s.to_string()).collect()),
        inverted,
        content,
    })
}

fn text(s: &str) -> Value {
    Value::String(s.to_string())
}

#[test]
fn render_static() {
    let mut template = Template::new(vec![
        Token::String("AAA".to_string()),
        Token::String("BBB".to_string()),
        Token::String("CCC".to_string()),
    ]);

    let result = template.render(&Value::Nil).unwrap();
    assert_eq!(result, "AAABBBCCC");
}

#[test]
fn render_whole_value() {
    let mut template = Template::new(vec![
        Token::String("Value: ".to_string()),
        Token::Insert(Insert {
            name: Name(vec![]),
            format: None,
        }),
    ]);
    let result = template.render(&Value::String(":3c".to_string())).unwrap();
    assert_eq!(result, "Value: :3c");
}

#[test]
fn render_named_value() {
    let mut template = Template::new(vec![
        Token::String("Value: ".to_string()),
        Token::Insert(Insert {
            name: Name(vec!["foo".to_string()]),
            format: None,
        }),
    ]);
    let result = template
        .render(&Value::Dict(
            [("foo".to_string(), Value::String(">:3".to_string()))].into(),
        ))
        .unwrap();
    assert_eq!(result, "Value: >:3");
}

#[test]
fn render_index_value() {
    let mut template = Template::new(vec![
        Token::String("Value: ".to_string()),
        Token::Insert(Insert {
            name: Name(vec!["1".to_string()]),
            format: None,
        }),
    ]);
    let result = template
        .render(&Value::Vec(vec![
            Value::Nil,
            Value::String("^-^".to_string()),
        ]))
        .unwrap();
    assert_eq!(result, "Value: ^-^");
}

#[test]
fn render_deep_value() {
    let mut template = Template::new(vec![
        Token::String("Value: ".to_string()),
        Token::Insert(Insert {
            name: Name(vec!["foo".to_string(), "0".to_string(), "bar".to_string()]),
            format: None,
        }),
    ]);
    let result = template
        .render(&Value::Dict(
            [(
                "foo".to_string(),
                Value::Vec(vec![Value::Dict(
                    [("bar".to_string(), Value::String("c:".to_string()))].into(),
                )]),
            )]
            .into(),
        ))
        .unwrap();
    assert_eq!(result, "Value: c:");
}

#[test]
fn render_unformatted_insert() {
    let mut template = Template::new(vec![
        Token::String("Value: ".to_string()),
        Token::Insert(Insert {
            name: Name(vec![]),
            format: None,
        }),
    ]);
    let result = template.render(&Value::Fmt(Box::new(TestFormat))).unwrap();
    assert_eq!(result, "Value: default: STRING VALUE :)");
}

#[test]
fn render_formatted_insert() {
    let mut template = Template::new(vec![
        Token::String("Value: ".to_string()),
        Token::Insert(Insert {
            name: Name(vec![]),
            format: Some("«{string}»".to_string()),
        }),
    ]);
    let result = template.render(&Value::Fmt(Box::new(TestFormat))).unwrap();
    assert_eq!(result, "Value: «STRING VALUE :)»");
}

#[test]
fn render_global_formatted_insert() {
    let mut template = Template::new(vec![
        Token::String("Value: ".to_string()),
        Token::Insert(Insert {
            name: Name(vec![]),
            format: None,
        }),
    ]);
    template.set_format(TestFormat.typename().to_string(), "“{string}”".to_string());
    let result = template.render(&Value::Fmt(Box::new(TestFormat))).unwrap();
    assert_eq!(result, "Value: “STRING VALUE :)”");
}

#[test]
fn override_global_formatting() {
    let mut template = Template::new(vec![
        Token::String("Value: ".to_string()),
        Token::Insert(Insert {
            name: Name(vec![]),
            format: Some("«{string}»".to_string()),
        }),
    ]);
    template.set_format(TestFormat.typename().to_string(), "“{string}”".to_string());
    let result = template.render(&Value::Fmt(Box::new(TestFormat))).unwrap();
    assert_eq!(result, "Value: «STRING VALUE :)»");
}

#[test]
fn literal_text_renders_unchanged_for_any_value() {
    for source in ["", "plain text", "line one\nline two", "a } b { c }} d"] {
        let mut template: Template = source.parse().unwrap();
        assert_eq!(template.render(&Value::Nil).unwrap(), source);
        assert_eq!(template.render(&Value::Bool(true)).unwrap(), source);
        assert_eq!(template.render(&text("x")).unwrap(), source);
        assert_eq!(template.render(&Value::Vec(vec![text("x")])).unwrap(), source);
    }
}

#[test]
fn dotted_lookup_descends_into_dictionaries() {
    let value = Value::Dict(vec![(
        "a".to_string(),
        Value::Dict(vec![("b".to_string(), text("x"))]),
    )]);
    let mut template: Template = "{{a.b}}".parse().unwrap();
    assert_eq!(template.render(&value).unwrap(), "x");
}

#[test]
fn names_resolve_through_the_scope_chain() {
    let value = Value::Dict(vec![(
        "a".to_string(),
        Value::Dict(vec![("b".to_string(), text("x"))]),
    )]);
    let mut template: Template = "{{#a}}{{b}}{{/a}}".parse().unwrap();
    assert_eq!(template.render(&value).unwrap(), "x");
}

#[test]
fn a_missing_key_falls_back_to_the_outer_scope() {
    let value = Value::Dict(vec![
        ("outer".to_string(), text("o")),
        ("a".to_string(), Value::Dict(vec![("b".to_string(), text("x"))])),
    ]);
    let mut template: Template = "{{#a}}{{b}}{{outer}}{{/a}}".parse().unwrap();
    assert_eq!(template.render(&value).unwrap(), "xo");
}

#[test]
fn a_name_that_nothing_defines_is_nil() {
    let mut template: Template = "[{{missing}}]".parse().unwrap();
    assert_eq!(template.render(&Value::Dict(vec![])).unwrap(), "[]");
    assert_eq!(template.render(&text("scalar")).unwrap(), "[]");
}

#[test]
fn scalars_are_skipped_by_dotted_names() {
    let section_on_string = section(&["s"], false, vec![insert(&["k"], None)]);
    let mut template = Template::new(vec![section_on_string]);
    let value = Value::Dict(vec![
        ("s".to_string(), text("scalar")),
        ("k".to_string(), text("found")),
    ]);
    assert_eq!(template.render(&value).unwrap(), "found");
}

#[test]
fn list_items_are_rendered_in_order() {
    let value = Value::Dict(vec![(
        "list".to_string(),
        Value::Vec(vec![text("1"), text("2"), text("3")]),
    )]);
    let mut template: Template = "{{#list}}{{.}}{{/list}}".parse().unwrap();
    assert_eq!(template.render(&value).unwrap(), "123");
}

#[test]
fn an_inverted_list_is_rendered_in_reverse_order() {
    let value = Value::Dict(vec![(
        "list".to_string(),
        Value::Vec(vec![text("1"), text("2"), text("3")]),
    )]);
    let mut template: Template = "{{^list}}{{.}}{{/list}}".parse().unwrap();
    assert_eq!(template.render(&value).unwrap(), "321");
}

#[test]
fn an_empty_list_renders_nothing_either_way() {
    let value = Value::Dict(vec![("list".to_string(), Value::Vec(vec![]))]);
    let mut plain: Template = "{{#list}}X{{/list}}".parse().unwrap();
    let mut inverted: Template = "{{^list}}X{{/list}}".parse().unwrap();
    assert_eq!(plain.render(&value).unwrap(), "");
    assert_eq!(inverted.render(&value).unwrap(), "");
}

#[test]
fn inverted_boolean_sections_complement_plain_ones() {
    let mut inverted: Template = "{{^flag}}X{{/flag}}".parse().unwrap();
    let mut plain: Template = "{{#flag}}X{{/flag}}".parse().unwrap();
    let yes = Value::Dict(vec![("flag".to_string(), Value::Bool(true))]);
    let no = Value::Dict(vec![("flag".to_string(), Value::Bool(false))]);
    assert_eq!(inverted.render(&no).unwrap(), "X");
    assert_eq!(inverted.render(&yes).unwrap(), "");
    assert_eq!(plain.render(&no).unwrap(), "");
    assert_eq!(plain.render(&yes).unwrap(), "X");
}

#[test]
fn nil_sections_render_only_when_inverted() {
    let value = Value::Dict(vec![("nothing".to_string(), Value::Nil)]);
    let mut plain: Template = "{{#nothing}}X{{/nothing}}".parse().unwrap();
    let mut inverted: Template = "{{^nothing}}X{{/nothing}}".parse().unwrap();
    assert_eq!(plain.render(&value).unwrap(), "");
    assert_eq!(inverted.render(&value).unwrap(), "X");
}

#[test]
fn sections_on_strings_and_dictionaries_render_once() {
    let value = Value::Dict(vec![
        ("s".to_string(), text("str")),
        ("d".to_string(), Value::Dict(vec![("k".to_string(), text("v"))])),
    ]);
    let mut template: Template = "{{#s}}<{{.}}>{{/s}}{{#d}}<{{k}}>{{/d}}".parse().unwrap();
    assert_eq!(template.render(&value).unwrap(), "<str><v>");
}

#[test]
fn inverting_a_string_dictionary_or_formattable_is_an_error() {
    let value = Value::Dict(vec![
        ("s".to_string(), text("str")),
        ("d".to_string(), Value::Dict(vec![])),
        ("f".to_string(), Value::Fmt(Box::new(TestFormat))),
    ]);
    for source in ["{{^s}}X{{/s}}", "{{^d}}X{{/d}}", "{{^f}}X{{/f}}"] {
        let mut template: Template = source.parse().unwrap();
        assert_eq!(
            template.render(&value).unwrap_err(),
            RenderError::CannotInvertSection
        );
    }
}

#[test]
fn inserting_a_collection_is_an_error() {
    let value = Value::Dict(vec![
        ("list".to_string(), Value::Vec(vec![text("1")])),
        ("map".to_string(), Value::Dict(vec![])),
    ]);
    let mut list: Template = "{{list}}".parse().unwrap();
    let mut map: Template = "{{map}}".parse().unwrap();
    let mut whole: Template = "{{.}}".parse().unwrap();
    assert_eq!(
        list.render(&value).unwrap_err(),
        RenderError::CannotInsertCollection
    );
    assert_eq!(
        map.render(&value).unwrap_err(),
        RenderError::CannotInsertCollection
    );
    assert_eq!(
        whole.render(&value).unwrap_err(),
        RenderError::CannotInsertCollection
    );
}

#[test]
fn booleans_and_nil_are_inserted_as_text() {
    let value = Value::Dict(vec![
        ("yes".to_string(), Value::Bool(true)),
        ("no".to_string(), Value::Bool(false)),
        ("nil".to_string(), Value::Nil),
    ]);
    let mut template: Template = "{{yes}}/{{no}}/{{nil}}".parse().unwrap();
    assert_eq!(template.render(&value).unwrap(), "true/false/");
}

#[test]
fn strings_are_inserted_unescaped() {
    let mut template: Template = "{{.}}".parse().unwrap();
    assert_eq!(
        template.render(&text("<b>&\"'{{x}}")).unwrap(),
        "<b>&\"'{{x}}"
    );
}

#[test]
fn list_indices_are_checked() {
    let list = Value::Vec(vec![text("a"), text("b")]);
    let mut first = Template::new(vec![insert(&["0"], None)]);
    let mut signed = Template::new(vec![insert(&["+1"], None)]);
    let mut third = Template::new(vec![insert(&["2"], None)]);
    let mut word = Template::new(vec![insert(&["x"], None)]);
    let mut negative = Template::new(vec![insert(&["-1"], None)]);
    let mut huge = Template::new(vec![insert(&["99999999999999999999999999"], None)]);
    assert_eq!(first.render(&list).unwrap(), "a");
    assert_eq!(signed.render(&list).unwrap(), "b");
    assert_eq!(
        third.render(&list).unwrap_err(),
        RenderError::IndexOutOfBounds(2, 2)
    );
    assert_eq!(
        word.render(&list).unwrap_err(),
        RenderError::InvalidIndex("x".to_string())
    );
    assert_eq!(
        negative.render(&list).unwrap_err(),
        RenderError::InvalidIndex("-1".to_string())
    );
    assert_eq!(
        huge.render(&list).unwrap_err(),
        RenderError::InvalidIndex("99999999999999999999999999".to_string())
    );
}

#[test]
fn an_indexed_item_replaces_its_list_in_the_context() {
    let value = Value::Dict(vec![
        ("k".to_string(), text("outer")),
        (
            "list".to_string(),
            Value::Vec(vec![Value::Dict(vec![("i".to_string(), text("inner"))])]),
        ),
    ]);
    let mut by_path = Template::new(vec![
        insert(&["list", "0", "i"], None),
        Token::String("|".to_string()),
        insert(&["list", "0", "k"], None),
    ]);
    assert_eq!(by_path.render(&value).unwrap(), "inner|");
    let mut by_section: Template = "{{#list}}{{i}}|{{k}}{{/list}}".parse().unwrap();
    assert_eq!(by_section.render(&value).unwrap(), "inner|outer");
}

#[test]
fn format_precedence_is_inline_then_registered_then_default() {
    let value = Value::Fmt(Box::new(TestFormat));
    let mut plain = Template::new(vec![insert(&[], None)]);
    assert_eq!(plain.render(&value).unwrap(), "default: STRING VALUE :)");
    plain.set_format("test".to_string(), "[{string}]".to_string());
    assert_eq!(plain.render(&value).unwrap(), "[STRING VALUE :)]");
    plain.set_format("other".to_string(), "({string})".to_string());
    assert_eq!(plain.render(&value).unwrap(), "[STRING VALUE :)]");
    let mut both = Template::new(vec![insert(&[], Some("<{int}>")), insert(&[], None)]);
    both.set_format("test".to_string(), "[{string}]".to_string());
    assert_eq!(both.render(&value).unwrap(), "<69>[STRING VALUE :)]");
}

#[test]
fn set_format_tokens_affect_later_inserts_and_later_renders() {
    let value = Value::Fmt(Box::new(TestFormat));
    let mut template = Template::new(vec![
        insert(&[], None),
        Token::String("|".to_string()),
        Token::SetFmt(SetFmt {
            typename: "test".to_string(),
            format: "#{int}".to_string(),
        }),
        insert(&[], None),
    ]);
    assert_eq!(
        template.render(&value).unwrap(),
        "default: STRING VALUE :)|#69"
    );
    assert_eq!(template.render(&value).unwrap(), "#69|#69");
}

#[test]
fn a_set_format_before_an_error_stays_registered() {
    let mut template = Template::new(vec![
        section(
            &["register"],
            false,
            vec![Token::SetFmt(SetFmt {
                typename: "test".to_string(),
                format: "#{int}".to_string(),
            })],
        ),
        insert(&["f"], None),
        insert(&["list"], None),
    ]);
    let failing = Value::Dict(vec![
        ("register".to_string(), Value::Bool(true)),
        ("f".to_string(), Value::Fmt(Box::new(TestFormat))),
        ("list".to_string(), Value::Vec(vec![])),
    ]);
    assert_eq!(
        template.render(&failing).unwrap_err(),
        RenderError::CannotInsertCollection
    );
    let passing = Value::Dict(vec![
        ("register".to_string(), Value::Bool(false)),
        ("f".to_string(), Value::Fmt(Box::new(TestFormat))),
        ("list".to_string(), Value::Nil),
    ]);
    assert_eq!(template.render(&passing).unwrap(), "#69");
}

#[test]
fn unknown_placeholders_name_type_and_key() {
    let value = Value::Fmt(Box::new(TestFormat));
    let mut template = Template::new(vec![insert(&[], Some("{string} {nope}"))]);
    assert_eq!(
        template.render(&value).unwrap_err(),
        RenderError::UnknownPlaceholder("test".to_string(), "nope".to_string())
    );
}

#[test]
fn malformed_format_strings_are_errors() {
    let value = Value::Fmt(Box::new(TestFormat));
    let mut unclosed = Template::new(vec![insert(&[], Some("{string"))]);
    assert!(matches!(
        unclosed.render(&value).unwrap_err(),
        RenderError::InvalidFormat(typename, _) if typename == "test"
    ));
    let mut wrong_type = Template::new(vec![insert(&[], Some("{string:x}"))]);
    assert!(matches!(
        wrong_type.render(&value).unwrap_err(),
        RenderError::FormatType(typename, _) if typename == "test"
    ));
}

#[test]
fn wide_fields_are_padded_as_asked() {
    let value = Value::Fmt(Box::new(TestFormat));
    let mut template = Template::new(vec![insert(&[], Some("{int:>1234567}"))]);
    let text = template.render(&value).unwrap();
    assert_eq!(text.len(), 1234567);
    assert!(text.ends_with(" 69"));
}

#[test]
fn format_options_are_those_of_strfmt() {
    let value = Value::Fmt(Box::new(TestFormat));
    let mut template = Template::new(vec![insert(&[], Some("{int:>5}|{int:x}|{string:.6}|{{}}"))]);
    assert_eq!(template.render(&value).unwrap(), "   69|45|STRING|{}");
}

#[test]
fn render_errors_have_messages() {
    assert_eq!(
        RenderError::InvalidIndex("x".to_string()).message(),
        "\"x\" is not a valid array index"
    );
    assert_eq!(
        RenderError::IndexOutOfBounds(7, 3).message(),
        "Index 7 is out of bounds for array of length 3"
    );
    assert_eq!(
        RenderError::UnknownPlaceholder("color".to_string(), "q".to_string()).message(),
        "Failed to format color: unknown placeholder \"q\""
    );
}

fn words(alphabet: &[char], longest: usize) -> Vec<String> {
    let mut all = vec![String::new()];
    let mut last = vec![String::new()];
    for _ in 0..longest {
        let mut next = Vec::new();
        for word in &last {
            for c in alphabet {
                let mut longer = word.clone();
                longer.push(*c);
                next.push(longer);
            }
        }
        all.extend(next.iter().cloned());
        last = next;
    }
    all
}

#[test]
fn indices_parse_as_numbers_of_the_standard_library() {
    let mut candidates = words(&['+', '-', '0', '1', '9', 'a', ' ', '_'], 4);
    candidates.extend(
        [
            "18446744073709551615",
            "18446744073709551616",
            "+18446744073709551615",
            "000000000000000000000000000001",
            "99999999999999999999",
            "4294967295",
            "4294967296",
            "١",
            "1é",
        ]
        .iter()
        .map(|s| s.to_string()),
    );
    for word in candidates {
        assert_eq!(
            niji::value::parse_index(&word),
            word.parse::<usize>().ok(),
            "{word:?}"
        );
    }
}

#[test]
fn format_tables_keep_the_last_format_of_each_type() {
    let mut table = niji::formats::FormatTable::new();
    assert_eq!(table.get(&"color".to_string()), None);
    table.insert("color".to_string(), "a".to_string());
    table.insert("size".to_string(), "b".to_string());
    assert_eq!(table.get(&"color".to_string()), Some(&"a".to_string()));
    table.insert("color".to_string(), "c".to_string());
    assert_eq!(table.get(&"color".to_string()), Some(&"c".to_string()));
    assert_eq!(table.get(&"size".to_string()), Some(&"b".to_string()));
    assert_eq!(table.get(&"".to_string()), None);
    let mut same = niji::formats::FormatTable::new();
    same.insert("color".to_string(), "c".to_string());
    same.insert("size".to_string(), "b".to_string());
    assert_eq!(table, same);
}

#[test]
fn names_print_as_they_are_written() {
    let name = |path: &[&str]| Name(path.iter().map(|s| s.to_string()).collect());
    assert_eq!(name(&[]).to_string(), ".");
    assert_eq!(name(&["a"]).to_string(), "a");
    assert_eq!(name(&["a", "0", "b-c"]).to_string(), "a.0.b-c");
    assert!(name(&["a", "b"]).same_as(&name(&["a", "b"])));
    assert!(!name(&["a", "b"]).same_as(&name(&["a"])));
    assert!(!name(&["a", "b"]).same_as(&name(&["a", "c"])));
    assert!(name(&[]).same_as(&name(&[])));
}

#[test]
fn tables_and_templates_are_equal_whatever_the_order_of_registration() {
    let mut first = niji::formats::FormatTable::new();
    first.insert("color".to_string(), "c".to_string());
    first.insert("size".to_string(), "s".to_string());
    let mut second = niji::formats::FormatTable::new();
    second.insert("size".to_string(), "old".to_string());
    second.insert("color".to_string(), "c".to_string());
    assert_ne!(first, second);
    second.insert("size".to_string(), "s".to_string());
    assert_eq!(first, second);
    second.insert("other".to_string(), "o".to_string());
    assert_ne!(first, second);
    assert_ne!(second, first);
    assert_ne!(first, niji::formats::FormatTable::new());
    assert_eq!(niji::formats::FormatTable::new(), niji::formats::FormatTable::new());

    let mut one = Template::new(vec![Token::String("x".to_string())]);
    let mut other = Template::new(vec![Token::String("x".to_string())]);
    one.set_format("a".to_string(), "1".to_string());
    one.set_format("b".to_string(), "2".to_string());
    other.set_format("b".to_string(), "2".to_string());
    assert_ne!(one, other);
    other.set_format("a".to_string(), "1".to_string());
    assert_eq!(one, other);
    assert_ne!(one, Template::new(vec![Token::String("x".to_string())]));
}
