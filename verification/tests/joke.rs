use jokers::decode_document;
use jokers::missing_joke;
use jokers::parse_joke;
use jokers::Backend;
use jokers::Category;
use jokers::Cause;
use jokers::Document;
use jokers::Error;
use jokers::Field;
use jokers::Format;
use jokers::Joke;
use jokers::JokeType;

#[test]
fn test_parse_single_joke_json() {
    let json = r#"
        {
            "error": false,
            "category": "Programming",
            "type": "single",
            "joke": "test joke",
            "safe": true
        }
        "#;
    let result = parse_joke(json, &Format::Json, 1);
    assert!(result.is_ok());

    let jokes = result.unwrap();
    assert_eq!(jokes.len(), 1);
    assert_eq!(jokes[0].category, Category::Programming);
    assert_eq!(jokes[0].joke_type, JokeType::Single);
    assert_eq!(jokes[0].joke, "test joke");
}

#[test]
fn test_parse_multi_joke_json() {
    let json = r#"
        {
            "error": false,
            "amount": 2,
            "jokes": [
                {
                    "category": "Programming",
                    "type": "single",
                    "joke": "joke1",
                    "safe": true
                },
                {
                    "category": "Misc",
                    "type": "twopart",
                    "setup": "joke2 setup",
                    "delivery": "joke2 delivery",
                    "safe": true
                }
            ]
        }
        "#;

    let result = parse_joke(json, &Format::Json, 2);
    assert!(result.is_ok());

    let jokes = result.unwrap();
    assert_eq!(jokes.len(), 2);

    assert_eq!(jokes[0].category, Category::Programming);
    assert_eq!(jokes[0].joke_type, JokeType::Single);
    assert_eq!(jokes[0].joke, "joke1");
    assert_eq!(jokes[1].category, Category::Misc);
    assert_eq!(jokes[1].joke_type, JokeType::Twopart);
    assert_eq!(jokes[1].setup, "joke2 setup");
    assert_eq!(jokes[1].delivery, "joke2 delivery");
}

#[test]
fn test_parse_error_response() {
    let json = r#"
        {
            "error": true,
            "category": "Programming",
            "type": "single",
            "joke": "This won't be returned",
            "safe": true
        }
        "#;

    let result = parse_joke(json, &Format::Json, 1);
    assert!(result.is_err());

    if let Err(Error::ApiResponse(msg)) = result {
        assert_eq!(msg, "error:true");
    } else {
        panic!("Expected ApiResponse error");
    }
}

fn text(value: &str) -> Document {
    Document::Text(String::from(value))
}

fn entry(key: &str, value: Document) -> (String, Document) {
    (String::from(key), value)
}

fn single_payload(joke: &str) -> Vec<(String, Document)> {
    vec![
        entry("category", text("Programming")),
        entry("type", text("single")),
        entry("joke", text(joke)),
        entry("safe", Document::Bool(true)),
    ]
}

fn envelope_of_one(joke: &str) -> Document {
    let mut entries = vec![entry("error", Document::Bool(false))];
    entries.extend(single_payload(joke));
    Document::Record(entries)
}

#[test]
fn missing_joke_is_the_placeholder() {
    assert_eq!(missing_joke(), "<missing joke>");
}

#[test]
fn single_joke_fills_every_field() {
    let json = "{\"error\":false,\"category\":\"Programming\",\"type\":\"single\",\"joke\":\"test joke\",\"safe\":true}";
    let jokes = parse_joke(json, &Format::Json, 1).unwrap();
    assert_eq!(
        jokes,
        vec![Joke {
            category: Category::Programming,
            joke_type: JokeType::Single,
            joke: String::from("test joke"),
            setup: String::from("<missing joke>"),
            delivery: String::from("<missing joke>"),
            safe: true,
        }]
    );
}

#[test]
fn twopart_joke_fills_every_field() {
    let json = "{\"error\":false,\"category\":\"Christmas\",\"type\":\"twopart\",\"setup\":\"knock\",\"delivery\":\"who\",\"safe\":false,\"id\":7,\"lang\":\"en\"}";
    let jokes = parse_joke(json, &Format::Json, 1).unwrap();
    assert_eq!(
        jokes,
        vec![Joke {
            category: Category::Christmas,
            joke_type: JokeType::Twopart,
            joke: String::from("<missing joke>"),
            setup: String::from("knock"),
            delivery: String::from("who"),
            safe: false,
        }]
    );
}

#[test]
fn list_keeps_the_order_of_its_entries() {
    let json = r#"{"error": false, "amount": 3, "jokes": [
        {"category": "Pun", "type": "single", "joke": "a", "safe": true},
        {"category": "Dark", "type": "twopart", "setup": "b1", "delivery": "b2", "safe": false},
        {"category": "Spooky", "type": "single", "joke": "c", "safe": true}
    ]}"#;
    let jokes = parse_joke(json, &Format::Json, 3).unwrap();
    assert_eq!(jokes.len(), 3);
    assert_eq!(jokes[0].category, Category::Pun);
    assert_eq!(jokes[0].joke, "a");
    assert_eq!(jokes[1].category, Category::Dark);
    assert_eq!(jokes[1].setup, "b1");
    assert_eq!(jokes[1].delivery, "b2");
    assert_eq!(jokes[1].joke, "<missing joke>");
    assert!(!jokes[1].safe);
    assert_eq!(jokes[2].category, Category::Spooky);
    assert_eq!(jokes[2].joke, "c");
}

#[test]
fn empty_list_decodes_to_no_joke() {
    let json = r#"{"error": false, "amount": 0, "jokes": []}"#;
    assert_eq!(parse_joke(json, &Format::Json, 0), Ok(vec![]));
    assert_eq!(parse_joke(json, &Format::Json, 5), Ok(vec![]));
}

#[test]
fn amount_decides_the_shape_of_the_envelope() {
    let single = r#"{"error": false, "category": "Misc", "type": "single", "joke": "j", "safe": true}"#;
    assert_eq!(
        parse_joke(single, &Format::Json, 2),
        Err(Error::Json(Cause::Missing(Field::Amount)))
    );
    assert_eq!(
        parse_joke(single, &Format::Json, 0),
        Err(Error::Json(Cause::Missing(Field::Amount)))
    );
    let list = r#"{"error": false, "amount": 1, "jokes": [{"category": "Misc", "type": "single", "joke": "j", "safe": true}]}"#;
    assert_eq!(
        parse_joke(list, &Format::Json, 1),
        Err(Error::Json(Cause::Missing(Field::Category)))
    );
    assert_eq!(parse_joke(list, &Format::Json, 255).unwrap().len(), 1);
}

#[test]
fn declared_error_wins_whatever_else_is_there() {
    let declared = Err(Error::ApiResponse(String::from("error:true")));
    let bare = r#"{"error": true}"#;
    assert_eq!(parse_joke(bare, &Format::Json, 1), declared);
    assert_eq!(parse_joke(bare, &Format::Json, 2), declared);
    assert_eq!(parse_joke(bare, &Format::Json, 0), declared);
    assert_eq!(parse_joke(bare, &Format::Txt, 7), declared);
    let broken = r#"{"error": true, "category": 12, "jokes": "none", "amount": -4}"#;
    assert_eq!(parse_joke(broken, &Format::Json, 1), declared);
    assert_eq!(parse_joke(broken, &Format::Json, 3), declared);
    assert_eq!(parse_joke("error: true\n", &Format::Yaml, 1), declared);
    assert_eq!(parse_joke("error: true\n", &Format::Yaml, 9), declared);
}

#[test]
fn malformed_json_is_a_syntax_failure() {
    match parse_joke("{\"error\": false,", &Format::Json, 1) {
        Err(Error::Json(Cause::Syntax(message))) => {
            assert_eq!(message, "EOF while parsing a value at line 1 column 16");
        }
        other => panic!("expected a syntax failure, got {:?}", other),
    }
    assert!(matches!(
        parse_joke("", &Format::Json, 1),
        Err(Error::Json(Cause::Syntax(_)))
    ));
    assert!(matches!(
        parse_joke("{\"error\": false} trailing", &Format::Json, 1),
        Err(Error::Json(Cause::Syntax(_)))
    ));
}

#[test]
fn envelope_must_be_a_record() {
    assert_eq!(
        parse_joke("[1, 2]", &Format::Json, 1),
        Err(Error::Json(Cause::NotRecord))
    );
    assert_eq!(
        parse_joke("\"error\"", &Format::Json, 2),
        Err(Error::Json(Cause::NotRecord))
    );
    assert_eq!(
        parse_joke("null", &Format::Json, 1),
        Err(Error::Json(Cause::NotRecord))
    );
    assert_eq!(
        parse_joke("- a\n- b\n", &Format::Yaml, 1),
        Err(Error::Yaml(Cause::NotRecord))
    );
}

#[test]
fn error_flag_is_required_and_boolean() {
    assert_eq!(
        parse_joke("{}", &Format::Json, 1),
        Err(Error::Json(Cause::Missing(Field::Error)))
    );
    assert_eq!(
        parse_joke(r#"{"error": "false"}"#, &Format::Json, 1),
        Err(Error::Json(Cause::Invalid(Field::Error)))
    );
    assert_eq!(
        parse_joke(r#"{"error": 0}"#, &Format::Json, 4),
        Err(Error::Json(Cause::Invalid(Field::Error)))
    );
}

#[test]
fn first_faulty_key_of_a_joke_decides() {
    let cases: [(&str, Cause); 10] = [
        (
            r#"{"error": false, "type": "single", "joke": "j", "safe": true}"#,
            Cause::Missing(Field::Category),
        ),
        (
            r#"{"error": false, "category": 3, "type": "single", "safe": true}"#,
            Cause::Invalid(Field::Category),
        ),
        (
            r#"{"error": false, "category": "misc", "type": "single", "safe": true}"#,
            Cause::Invalid(Field::Category),
        ),
        (
            r#"{"error": false, "category": "Misc", "joke": "j", "safe": true}"#,
            Cause::Missing(Field::Type),
        ),
        (
            r#"{"error": false, "category": "Misc", "type": "triple", "safe": true}"#,
            Cause::Invalid(Field::Type),
        ),
        (
            r#"{"error": false, "category": "Misc", "type": "single", "joke": null, "safe": true}"#,
            Cause::Invalid(Field::Joke),
        ),
        (
            r#"{"error": false, "category": "Misc", "type": "twopart", "setup": 1, "delivery": 2, "safe": true}"#,
            Cause::Invalid(Field::Setup),
        ),
        (
            r#"{"error": false, "category": "Misc", "type": "twopart", "setup": "s", "delivery": [], "safe": true}"#,
            Cause::Invalid(Field::Delivery),
        ),
        (
            r#"{"error": false, "category": "Misc", "type": "single", "joke": "j"}"#,
            Cause::Missing(Field::Safe),
        ),
        (
            r#"{"error": false, "category": "Misc", "type": "single", "joke": "j", "safe": "yes"}"#,
            Cause::Invalid(Field::Safe),
        ),
    ];
    for (body, cause) in cases {
        assert_eq!(parse_joke(body, &Format::Json, 1), Err(Error::Json(cause)));
    }
    let two_faults = r#"{"error": false, "category": "Nope", "type": "triple"}"#;
    assert_eq!(
        parse_joke(two_faults, &Format::Json, 1),
        Err(Error::Json(Cause::Invalid(Field::Category)))
    );
}

#[test]
fn declared_amount_must_fit_a_byte() {
    let cases: [(&str, Option<Cause>); 8] = [
        (r#"{"error": false, "amount": 0, "jokes": []}"#, None),
        (r#"{"error": false, "amount": 255, "jokes": []}"#, None),
        (
            r#"{"error": false, "amount": 256, "jokes": []}"#,
            Some(Cause::Invalid(Field::Amount)),
        ),
        (
            r#"{"error": false, "amount": -1, "jokes": []}"#,
            Some(Cause::Invalid(Field::Amount)),
        ),
        (
            r#"{"error": false, "amount": 2.5, "jokes": []}"#,
            Some(Cause::Invalid(Field::Amount)),
        ),
        (
            r#"{"error": false, "amount": "2", "jokes": []}"#,
            Some(Cause::Invalid(Field::Amount)),
        ),
        (
            r#"{"error": false, "jokes": []}"#,
            Some(Cause::Missing(Field::Amount)),
        ),
        (
            r#"{"error": false, "amount": 18446744073709551616, "jokes": []}"#,
            Some(Cause::Invalid(Field::Amount)),
        ),
    ];
    for (body, cause) in cases {
        let expected = match cause {
            None => Ok(vec![]),
            Some(cause) => Err(Error::Json(cause)),
        };
        assert_eq!(parse_joke(body, &Format::Json, 2), expected);
    }
}

#[test]
fn joke_list_is_required_and_a_list() {
    assert_eq!(
        parse_joke(r#"{"error": false, "amount": 2}"#, &Format::Json, 2),
        Err(Error::Json(Cause::Missing(Field::Jokes)))
    );
    assert_eq!(
        parse_joke(r#"{"error": false, "amount": 2, "jokes": {}}"#, &Format::Json, 2),
        Err(Error::Json(Cause::Invalid(Field::Jokes)))
    );
}

#[test]
fn one_faulty_entry_fails_the_whole_list() {
    let second_bad = r#"{"error": false, "amount": 3, "jokes": [
        {"category": "Pun", "type": "single", "joke": "a", "safe": true},
        {"category": "Dark", "type": "single", "joke": "b"},
        {"category": "Nope", "type": "single", "joke": "c", "safe": true}
    ]}"#;
    assert_eq!(
        parse_joke(second_bad, &Format::Json, 3),
        Err(Error::Json(Cause::Missing(Field::Safe)))
    );
    let not_a_record = r#"{"error": false, "amount": 2, "jokes": [
        {"category": "Pun", "type": "single", "joke": "a", "safe": true},
        "a joke"
    ]}"#;
    assert_eq!(
        parse_joke(not_a_record, &Format::Json, 2),
        Err(Error::Json(Cause::NotRecord))
    );
}

#[test]
fn yaml_body_is_read_as_yaml() {
    let yaml = "error: false\ncategory: Programming\ntype: twopart\nsetup: why\ndelivery: because\nsafe: true\n";
    let jokes = parse_joke(yaml, &Format::Yaml, 1).unwrap();
    assert_eq!(
        jokes,
        vec![Joke {
            category: Category::Programming,
            joke_type: JokeType::Twopart,
            joke: String::from("<missing joke>"),
            setup: String::from("why"),
            delivery: String::from("because"),
            safe: true,
        }]
    );
    assert!(matches!(
        parse_joke(yaml, &Format::Json, 1),
        Err(Error::Json(Cause::Syntax(_)))
    ));
}

#[test]
fn yaml_faults_are_yaml_failures() {
    assert!(matches!(
        parse_joke("error: [unclosed\n", &Format::Yaml, 1),
        Err(Error::Yaml(Cause::Syntax(_)))
    ));
    assert_eq!(
        parse_joke("error: false\ncategory: Misc\n", &Format::Yaml, 1),
        Err(Error::Yaml(Cause::Missing(Field::Type)))
    );
    assert_eq!(
        parse_joke("error: false\namount: 300\njokes: []\n", &Format::Yaml, 2),
        Err(Error::Yaml(Cause::Invalid(Field::Amount)))
    );
}

#[test]
fn other_formats_fall_back_to_json() {
    let json = r#"{"error": false, "category": "Misc", "type": "single", "joke": "j", "safe": true}"#;
    assert_eq!(parse_joke(json, &Format::Xml, 1).unwrap().len(), 1);
    assert_eq!(parse_joke(json, &Format::Txt, 1).unwrap().len(), 1);
    assert!(matches!(
        parse_joke("<joke>j</joke>", &Format::Xml, 1),
        Err(Error::Json(Cause::Syntax(_)))
    ));
    assert!(matches!(
        parse_joke("just a joke", &Format::Txt, 1),
        Err(Error::Json(Cause::Syntax(_)))
    ));
}

#[test]
fn document_decodes_without_a_parser() {
    let jokes = decode_document(&envelope_of_one("by hand"), Backend::Json, 1).unwrap();
    assert_eq!(jokes.len(), 1);
    assert_eq!(jokes[0].joke, "by hand");
    assert_eq!(jokes[0].setup, "<missing joke>");

    let list = Document::Record(vec![
        entry("error", Document::Bool(false)),
        entry("amount", Document::Number(Some(2))),
        entry(
            "jokes",
            Document::List(vec![
                Document::Record(single_payload("first")),
                Document::Record(single_payload("second")),
            ]),
        ),
    ]);
    let jokes = decode_document(&list, Backend::Yaml, 2).unwrap();
    assert_eq!(jokes.len(), 2);
    assert_eq!(jokes[0].joke, "first");
    assert_eq!(jokes[1].joke, "second");
}

#[test]
fn document_faults_name_the_backend() {
    let no_flag = Document::Record(single_payload("j"));
    assert_eq!(
        decode_document(&no_flag, Backend::Json, 1),
        Err(Error::Json(Cause::Missing(Field::Error)))
    );
    assert_eq!(
        decode_document(&no_flag, Backend::Yaml, 1),
        Err(Error::Yaml(Cause::Missing(Field::Error)))
    );
    assert_eq!(
        decode_document(&Document::Null, Backend::Yaml, 1),
        Err(Error::Yaml(Cause::NotRecord))
    );
    let fraction = Document::Record(vec![
        entry("error", Document::Bool(false)),
        entry("amount", Document::Number(None)),
        entry("jokes", Document::List(vec![])),
    ]);
    assert_eq!(
        decode_document(&fraction, Backend::Json, 2),
        Err(Error::Json(Cause::Invalid(Field::Amount)))
    );
}

#[test]
fn first_of_two_equal_keys_counts() {
    let document = Document::Record(vec![
        entry("error", Document::Bool(false)),
        entry("error", Document::Bool(true)),
        entry("category", text("Pun")),
        entry("category", text("Dark")),
        entry("type", text("single")),
        entry("joke", text("kept")),
        entry("joke", Document::Null),
        entry("safe", Document::Bool(false)),
    ]);
    let jokes = decode_document(&document, Backend::Json, 1).unwrap();
    assert_eq!(jokes[0].category, Category::Pun);
    assert_eq!(jokes[0].joke, "kept");
}

#[test]
fn joke_is_told_by_its_type() {
    let single = Joke {
        category: Category::Misc,
        joke_type: JokeType::Single,
        joke: String::from("one line"),
        setup: missing_joke(),
        delivery: missing_joke(),
        safe: true,
    };
    assert_eq!(single.to_string(), "one line");
    let twopart = Joke {
        category: Category::Misc,
        joke_type: JokeType::Twopart,
        joke: missing_joke(),
        setup: String::from("the setup"),
        delivery: String::from("the delivery"),
        safe: true,
    };
    assert_eq!(twopart.to_string(), "the setup\nthe delivery");
}
