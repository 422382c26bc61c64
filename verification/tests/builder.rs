use jokers::Category;
use jokers::Error;
use jokers::Flag;
use jokers::Format;
use jokers::JokeBuilder;
use jokers::JokeType;

#[test]
fn test_joke_builder_url() {
    let builder = JokeBuilder::default();
    assert_eq!(
        builder.url(),
        "https://v2.jokeapi.dev/joke/Any?blacklistFlags=&format=json&type=&amount=1"
    );

    let builder = JokeBuilder::new()
        .add_category(Category::Dark)
        .add_flag(Flag::Nsfw);
    assert_eq!(
        builder.url(),
        "https://v2.jokeapi.dev/joke/Dark?blacklistFlags=nsfw&format=json&type=&amount=1"
    );

    let builder = JokeBuilder::new()
        .add_category(Category::Dark)
        .add_flag(Flag::Nsfw)
        .format(Format::Txt);
    assert_eq!(
        builder.url(),
        "https://v2.jokeapi.dev/joke/Dark?blacklistFlags=nsfw&format=txt&type=&amount=1"
    );

    let builder = JokeBuilder::new()
        .add_category(Category::Dark)
        .add_flag(Flag::Nsfw)
        .joke_type(JokeType::Single)
        .format(Format::Txt);
    assert_eq!(
        builder.url(),
        "https://v2.jokeapi.dev/joke/Dark?blacklistFlags=nsfw&format=txt&type=single&amount=1"
    );

    let builder = JokeBuilder::new()
        .add_category(Category::Dark)
        .add_flag(Flag::Nsfw)
        .format(Format::Txt)
        .amount(10);
    assert_eq!(
        builder.url(),
        "https://v2.jokeapi.dev/joke/Dark?blacklistFlags=nsfw&format=txt&type=&amount=10"
    );
}

#[test]
fn new_and_default_agree() {
    assert_eq!(JokeBuilder::new().url(), JokeBuilder::default().url());
}

#[test]
fn last_category_decides() {
    let builder = JokeBuilder::new()
        .add_category(Category::Pun)
        .add_category(Category::Misc)
        .add_category(Category::Any);
    assert_eq!(
        builder.url(),
        "https://v2.jokeapi.dev/joke/Any?blacklistFlags=&format=json&type=&amount=1"
    );

    let builder = builder
        .add_category(Category::Spooky)
        .add_category(Category::Christmas);
    assert_eq!(
        builder.url(),
        "https://v2.jokeapi.dev/joke/Spooky,Christmas?blacklistFlags=&format=json&type=&amount=1"
    );
}

#[test]
fn flags_render_once_each() {
    let builder = JokeBuilder::new()
        .add_flag(Flag::Religious)
        .add_flag(Flag::Political)
        .add_flag(Flag::Religious)
        .add_flag(Flag::Explicit)
        .add_flag(Flag::Political);
    assert_eq!(
        builder.url(),
        "https://v2.jokeapi.dev/joke/Any?blacklistFlags=religious,political,explicit&format=json&type=&amount=1"
    );
}

#[test]
fn joke_type_is_a_single_choice() {
    let builder = JokeBuilder::new()
        .joke_type(JokeType::Single)
        .joke_type(JokeType::Twopart);
    assert_eq!(
        builder.url(),
        "https://v2.jokeapi.dev/joke/Any?blacklistFlags=&format=json&type=twopart&amount=1"
    );
}

#[test]
fn every_format_renders() {
    assert_eq!(
        JokeBuilder::new().format(Format::Xml).url(),
        "https://v2.jokeapi.dev/joke/Any?blacklistFlags=&format=xml&type=&amount=1"
    );
    assert_eq!(
        JokeBuilder::new().format(Format::Yaml).url(),
        "https://v2.jokeapi.dev/joke/Any?blacklistFlags=&format=yaml&type=&amount=1"
    );
    assert_eq!(
        JokeBuilder::new().format(Format::Yaml).format(Format::Json).url(),
        "https://v2.jokeapi.dev/joke/Any?blacklistFlags=&format=json&type=&amount=1"
    );
}

#[test]
fn amount_renders_in_decimal() {
    let cases: [(u8, &str); 8] = [
        (0, "0"),
        (1, "1"),
        (9, "9"),
        (10, "10"),
        (99, "99"),
        (100, "100"),
        (205, "205"),
        (255, "255"),
    ];
    for (amount, digits) in cases {
        let expected = format!(
            "https://v2.jokeapi.dev/joke/Any?blacklistFlags=&format=json&type=&amount={}",
            digits
        );
        assert_eq!(JokeBuilder::new().amount(amount).url(), expected);
    }
}

#[test]
fn receive_decodes_a_body() {
    let body = String::from(
        "{\"error\":false,\"category\":\"Pun\",\"type\":\"single\",\"joke\":\"a pun\",\"safe\":true}",
    );
    let jokes = JokeBuilder::new().receive(Ok(body)).unwrap();
    assert_eq!(jokes.len(), 1);
    assert_eq!(jokes[0].category, Category::Pun);
    assert_eq!(jokes[0].joke, "a pun");
}

#[test]
fn receive_uses_the_builders_amount_and_format() {
    let body = String::from(
        "error: false\namount: 2\njokes:\n  - category: Dark\n    type: single\n    joke: one\n    safe: false\n  - category: Misc\n    type: single\n    joke: two\n    safe: true\n",
    );
    let builder = JokeBuilder::new().format(Format::Yaml).amount(2);
    let jokes = builder.receive(Ok(body)).unwrap();
    assert_eq!(jokes.len(), 2);
    assert_eq!(jokes[0].joke, "one");
    assert_eq!(jokes[1].joke, "two");
}

#[test]
fn receive_passes_a_transport_failure_on() {
    let outcome = JokeBuilder::new().receive(Err(String::from("connection refused")));
    assert_eq!(
        outcome,
        Err(Error::Transport(String::from("connection refused")))
    );
}
