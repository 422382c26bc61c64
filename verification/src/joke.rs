//! Jokes, and the decoding of a response body into them.

use vstd::prelude::*;
use vstd::string::StringExecFns;
use crate::document::Backend;
use crate::document::Document;
use crate::document::backend_of;
use crate::document::failure;
use crate::document::reading;
use crate::error::Cause;
use crate::error::CauseView;
use crate::error::Error;
use crate::error::ErrorView;
use crate::error::Field;
use crate::params::Category;
use crate::params::Format;
use crate::params::JokeType;
use crate::text::same_text;

verus! {

/// What this library's fallible functions return.
pub type Result<T> = std::result::Result<T, Error>;

/// One joke as the API delivers it. Of `joke`, `setup` and `delivery` only
/// those that belong to `joke_type` carry text of the API; one that the
/// payload left out holds the placeholder of [`missing_joke`].
#[derive(Debug, PartialEq, Eq)]
pub struct Joke {
    pub category: Category,
    pub joke_type: JokeType,
    pub joke: String,
    pub setup: String,
    pub delivery: String,
    pub safe: bool,
}

/// A [`Joke`] with its texts as sequences of characters.
pub struct JokeView {
    pub category: Category,
    pub joke_type: JokeType,
    pub joke: Seq<char>,
    pub setup: Seq<char>,
    pub delivery: Seq<char>,
    pub safe: bool,
}

impl View for Joke {
    type V = JokeView;

    open spec fn view(&self) -> JokeView {
        JokeView {
            category: self.category,
            joke_type: self.joke_type,
            joke: self.joke@,
            setup: self.setup@,
            delivery: self.delivery@,
            safe: self.safe,
        }
    }
}

/// The views of a sequence of jokes, in the same order.
pub open spec fn views(jokes: Seq<Joke>) -> Seq<JokeView> {
    jokes.map_values(|joke: Joke| joke@)
}

/// The text that stands in for a text field that a payload left out.
pub open spec fn placeholder() -> Seq<char> {
    "<missing joke>"@
}

/// The message of the error that an envelope's own error flag leads to.
pub open spec fn declared_message() -> Seq<char> {
    "error:true"@
}

/// The value under `key` in a record's entries: that of the first entry with
/// this key, if there is one.
pub open spec fn lookup(entries: Seq<(String, Document)>, key: Seq<char>) -> Option<Document>
    decreases entries.len(),
{
    if entries.len() == 0 {
        None
    } else if entries[0].0@ == key {
        Some(entries[0].1)
    } else {
        lookup(entries.drop_first(), key)
    }
}

/// The boolean under a required key.
pub open spec fn flag_at(entries: Seq<(String, Document)>, field: Field) -> std::result::Result<
    bool,
    CauseView,
> {
    match lookup(entries, field.key()) {
        None => Err(CauseView::Missing(field)),
        Some(Document::Bool(flag)) => Ok(flag),
        Some(_) => Err(CauseView::Invalid(field)),
    }
}

/// The text under a required key.
pub open spec fn text_at(entries: Seq<(String, Document)>, field: Field) -> std::result::Result<
    Seq<char>,
    CauseView,
> {
    match lookup(entries, field.key()) {
        None => Err(CauseView::Missing(field)),
        Some(Document::Text(text)) => Ok(text@),
        Some(_) => Err(CauseView::Invalid(field)),
    }
}

/// The text under a key that may be absent: the placeholder where it is.
pub open spec fn text_or_placeholder(
    entries: Seq<(String, Document)>,
    field: Field,
) -> std::result::Result<Seq<char>, CauseView> {
    match lookup(entries, field.key()) {
        None => Ok(placeholder()),
        Some(Document::Text(text)) => Ok(text@),
        Some(_) => Err(CauseView::Invalid(field)),
    }
}

/// The category under the key `category`, which is required and must be the
/// wire text of a category.
pub open spec fn category_at(entries: Seq<(String, Document)>) -> std::result::Result<
    Category,
    CauseView,
> {
    match text_at(entries, Field::Category) {
        Err(cause) => Err(cause),
        Ok(text) => match Category::named(text) {
            Some(category) => Ok(category),
            None => Err(CauseView::Invalid(Field::Category)),
        },
    }
}

/// The joke type under the key `type`, which is required and must be the wire
/// text of a joke type.
pub open spec fn type_at(entries: Seq<(String, Document)>) -> std::result::Result<
    JokeType,
    CauseView,
> {
    match text_at(entries, Field::Type) {
        Err(cause) => Err(cause),
        Ok(text) => match JokeType::named(text) {
            Some(joke_type) => Ok(joke_type),
            None => Err(CauseView::Invalid(Field::Type)),
        },
    }
}

/// The joke that a record's entries describe. The keys are read in the order
/// category, type, joke, setup, delivery, safe, and the first that is at
/// fault decides the cause. Other keys are ignored.
pub open spec fn joke_in(entries: Seq<(String, Document)>) -> std::result::Result<
    JokeView,
    CauseView,
> {
    let category = category_at(entries);
    let joke_type = type_at(entries);
    let joke = text_or_placeholder(entries, Field::Joke);
    let setup = text_or_placeholder(entries, Field::Setup);
    let delivery = text_or_placeholder(entries, Field::Delivery);
    let safe = flag_at(entries, Field::Safe);
    if category is Err {
        Err(category->Err_0)
    } else if joke_type is Err {
        Err(joke_type->Err_0)
    } else if joke is Err {
        Err(joke->Err_0)
    } else if setup is Err {
        Err(setup->Err_0)
    } else if delivery is Err {
        Err(delivery->Err_0)
    } else if safe is Err {
        Err(safe->Err_0)
    } else {
        Ok(
            JokeView {
                category: category->Ok_0,
                joke_type: joke_type->Ok_0,
                joke: joke->Ok_0,
                setup: setup->Ok_0,
                delivery: delivery->Ok_0,
                safe: safe->Ok_0,
            },
        )
    }
}

/// The joke that a document describes: it must be a record.
pub open spec fn joke_of(document: Document) -> std::result::Result<JokeView, CauseView> {
    match document {
        Document::Record(entries) => joke_in(entries@),
        _ => Err(CauseView::NotRecord),
    }
}

/// The jokes that the entries of a list describe, in the list's order; where
/// an entry is at fault, the cause of the first such entry.
pub open spec fn jokes_of(items: Seq<Document>) -> std::result::Result<Seq<JokeView>, CauseView>
    decreases items.len(),
{
    if items.len() == 0 {
        Ok(Seq::empty())
    } else {
        match jokes_of(items.drop_last()) {
            Err(cause) => Err(cause),
            Ok(front) => match joke_of(items.last()) {
                Err(cause) => Err(cause),
                Ok(joke) => Ok(front.push(joke)),
            },
        }
    }
}

/// The declared amount of a list envelope: required, and an integer from 0
/// to 255.
pub open spec fn amount_at(entries: Seq<(String, Document)>) -> std::result::Result<u8, CauseView> {
    match lookup(entries, Field::Amount.key()) {
        None => Err(CauseView::Missing(Field::Amount)),
        Some(Document::Number(Some(n))) => if n <= 255 {
            Ok(n as u8)
        } else {
            Err(CauseView::Invalid(Field::Amount))
        },
        Some(_) => Err(CauseView::Invalid(Field::Amount)),
    }
}

/// The jokes of a list envelope: the declared amount is read first, then the
/// list under `jokes`, entry by entry.
pub open spec fn listed(entries: Seq<(String, Document)>) -> std::result::Result<
    Seq<JokeView>,
    CauseView,
> {
    match amount_at(entries) {
        Err(cause) => Err(cause),
        Ok(_) => match lookup(entries, Field::Jokes.key()) {
            None => Err(CauseView::Missing(Field::Jokes)),
            Some(Document::List(items)) => jokes_of(items@),
            Some(_) => Err(CauseView::Invalid(Field::Jokes)),
        },
    }
}

/// What a body that a backend has read decodes to, for a request of `amount`
/// jokes.
///
/// The envelope must be a record with a boolean under `error`. Where that
/// flag is set, the outcome is the API's own error, whatever else the
/// envelope holds. Otherwise a request for one joke finds the joke's keys in
/// the envelope itself, and any other amount finds a list of jokes in it.
/// A fault in the envelope is the failure of the backend that read it.
pub open spec fn decoded(document: Document, backend: Backend, amount: u8) -> std::result::Result<
    Seq<JokeView>,
    ErrorView,
> {
    match document {
        Document::Record(entries) => match flag_at(entries@, Field::Error) {
            Err(cause) => Err(failure(backend, cause)),
            Ok(declared) => if declared {
                Err(ErrorView::ApiResponse(declared_message()))
            } else if amount == 1 {
                match joke_in(entries@) {
                    Ok(joke) => Ok(seq![joke]),
                    Err(cause) => Err(failure(backend, cause)),
                }
            } else {
                match listed(entries@) {
                    Ok(jokes) => Ok(jokes),
                    Err(cause) => Err(failure(backend, cause)),
                }
            },
        },
        _ => Err(failure(backend, CauseView::NotRecord)),
    }
}

/// What a body decodes to: the text is read by the backend of the format,
/// and what was read is decoded. A text that the backend rejects is a syntax
/// failure of that backend.
pub open spec fn parsed(text: Seq<char>, format: Format, amount: u8) -> std::result::Result<
    Seq<JokeView>,
    ErrorView,
> {
    let backend = backend_of(format);
    match reading(backend, text) {
        Err(message) => Err(failure(backend, CauseView::Syntax(message))),
        Ok(document) => decoded(document, backend, amount),
    }
}

/// Whether a result of this library matches a result over views.
pub open spec fn agrees(
    outcome: Result<Vec<Joke>>,
    expected: std::result::Result<Seq<JokeView>, ErrorView>,
) -> bool {
    match outcome {
        Ok(jokes) => expected == Ok::<Seq<JokeView>, ErrorView>(views(jokes@)),
        Err(error) => expected == Err::<Seq<JokeView>, ErrorView>(error@),
    }
}

/// The placeholder for a text field that a payload left out.
pub fn missing_joke() -> (text: String)
    ensures
        text@ == placeholder(),
{
    String::from_str("<missing joke>")
}

/// The value under `key`, as [`lookup`] defines it.
fn find<'a>(entries: &'a Vec<(String, Document)>, key: &str) -> (found: Option<&'a Document>)
    ensures
        match found {
            Some(document) => lookup(entries@, key@) == Some(*document),
            None => lookup(entries@, key@) is None,
        },
{
    let mut i: usize = 0;
    proof {
        assert(entries@.skip(0) =~= entries@);
    }
    while i < entries.len()
        invariant
            i <= entries.len(),
            lookup(entries@, key@) == lookup(entries@.skip(i as int), key@),
        decreases entries.len() - i,
    {
        proof {
            assert(entries@.skip(i as int).drop_first() =~= entries@.skip(i + 1));
            assert(entries@.skip(i as int)[0] == entries@[i as int]);
        }
        if same_text(entries[i].0.as_str(), key) {
            return Some(&entries[i].1);
        }
        i += 1;
    }
    None
}

/// Reads the boolean under a required key.
fn read_flag(entries: &Vec<(String, Document)>, field: Field) -> (outcome: std::result::Result<
    bool,
    Cause,
>)
    ensures
        match outcome {
            Ok(flag) => flag_at(entries@, field) == Ok::<bool, CauseView>(flag),
            Err(cause) => flag_at(entries@, field) == Err::<bool, CauseView>(cause@),
        },
{
    match find(entries, field.as_str()) {
        None => Err(Cause::Missing(field)),
        Some(Document::Bool(flag)) => Ok(*flag),
        Some(_) => Err(Cause::Invalid(field)),
    }
}

/// Reads the text under a key; `fallback` says whether the key may be absent.
fn read_text(entries: &Vec<(String, Document)>, field: Field, fallback: bool) -> (outcome:
    std::result::Result<String, Cause>)
    ensures
        match outcome {
            Ok(text) => (if fallback {
                text_or_placeholder(entries@, field)
            } else {
                text_at(entries@, field)
            }) == Ok::<Seq<char>, CauseView>(text@),
            Err(cause) => (if fallback {
                text_or_placeholder(entries@, field)
            } else {
                text_at(entries@, field)
            }) == Err::<Seq<char>, CauseView>(cause@),
        },
{
    match find(entries, field.as_str()) {
        None => if fallback {
            Ok(missing_joke())
        } else {
            Err(Cause::Missing(field))
        },
        Some(Document::Text(text)) => Ok(text.clone()),
        Some(_) => Err(Cause::Invalid(field)),
    }
}

/// Reads one joke from a record's entries.
fn read_joke(entries: &Vec<(String, Document)>) -> (outcome: std::result::Result<Joke, Cause>)
    ensures
        match outcome {
            Ok(joke) => joke_in(entries@) == Ok::<JokeView, CauseView>(joke@),
            Err(cause) => joke_in(entries@) == Err::<JokeView, CauseView>(cause@),
        },
{
    let category = match read_text(entries, Field::Category, false) {
        Err(cause) => {
            return Err(cause);
        },
        Ok(text) => match Category::from_wire(text.as_str()) {
            Some(category) => category,
            None => {
                return Err(Cause::Invalid(Field::Category));
            },
        },
    };
    let joke_type = match read_text(entries, Field::Type, false) {
        Err(cause) => {
            return Err(cause);
        },
        Ok(text) => match JokeType::from_wire(text.as_str()) {
            Some(joke_type) => joke_type,
            None => {
                return Err(Cause::Invalid(Field::Type));
            },
        },
    };
    let joke = match read_text(entries, Field::Joke, true) {
        Err(cause) => {
            return Err(cause);
        },
        Ok(text) => text,
    };
    let setup = match read_text(entries, Field::Setup, true) {
        Err(cause) => {
            return Err(cause);
        },
        Ok(text) => text,
    };
    let delivery = match read_text(entries, Field::Delivery, true) {
        Err(cause) => {
            return Err(cause);
        },
        Ok(text) => text,
    };
    let safe = match read_flag(entries, Field::Safe) {
        Err(cause) => {
            return Err(cause);
        },
        Ok(flag) => flag,
    };
    Ok(Joke { category, joke_type, joke, setup, delivery, safe })
}

/// Reads the jokes of a list envelope.
fn read_listed(entries: &Vec<(String, Document)>) -> (outcome: std::result::Result<
    Vec<Joke>,
    Cause,
>)
    ensures
        match outcome {
            Ok(jokes) => listed(entries@) == Ok::<Seq<JokeView>, CauseView>(views(jokes@)),
            Err(cause) => listed(entries@) == Err::<Seq<JokeView>, CauseView>(cause@),
        },
{
    match find(entries, Field::Amount.as_str()) {
        None => {
            return Err(Cause::Missing(Field::Amount));
        },
        Some(Document::Number(Some(n))) => {
            if *n > 255 {
                return Err(Cause::Invalid(Field::Amount));
            }
        },
        Some(_) => {
            return Err(Cause::Invalid(Field::Amount));
        },
    }
    let items = match find(entries, Field::Jokes.as_str()) {
        None => {
            return Err(Cause::Missing(Field::Jokes));
        },
        Some(Document::List(items)) => items,
        Some(_) => {
            return Err(Cause::Invalid(Field::Jokes));
        },
    };
    let mut jokes: Vec<Joke> = Vec::new();
    let mut i: usize = 0;
    proof {
        assert(items@.take(0).len() == 0);
        assert(views(jokes@) =~= Seq::<JokeView>::empty());
    }
    while i < items.len()
        invariant
            i <= items.len(),
            listed(entries@) == jokes_of(items@),
            jokes_of(items@.take(i as int)) == Ok::<Seq<JokeView>, CauseView>(views(jokes@)),
        decreases items.len() - i,
    {
        proof {
            assert(items@.take(i + 1).drop_last() =~= items@.take(i as int));
            assert(items@.take(i + 1).last() == items@[i as int]);
        }
        let joke = match &items[i] {
            Document::Record(inner) => match read_joke(inner) {
                Ok(joke) => joke,
                Err(cause) => {
                    proof {
                        lemma_jokes_of_fails(items@, i as int);
                    }
                    return Err(cause);
                },
            },
            _ => {
                proof {
                    lemma_jokes_of_fails(items@, i as int);
                }
                return Err(Cause::NotRecord);
            },
        };
        proof {
            assert(views(jokes@).push(joke@) =~= views(jokes@.push(joke)));
        }
        jokes.push(joke);
        i += 1;
    }
    proof {
        assert(items@.take(items.len() as int) =~= items@);
    }
    Ok(jokes)
}

/// Where the entries before `at` decode and the entry at `at` does not, the
/// list fails with that entry's cause.
pub proof fn lemma_jokes_of_fails(items: Seq<Document>, at: int)
    requires
        0 <= at < items.len(),
        jokes_of(items.take(at)) is Ok,
        joke_of(items[at]) is Err,
    ensures
        jokes_of(items) == Err::<Seq<JokeView>, CauseView>(joke_of(items[at])->Err_0),
    decreases items.len(),
{
    if at == items.len() - 1 {
        assert(items.drop_last() =~= items.take(at));
    } else {
        assert(items.drop_last().take(at) =~= items.take(at));
        lemma_jokes_of_fails(items.drop_last(), at);
    }
}

/// Decodes a body that a backend has read, for a request of `amount` jokes.
pub fn decode_document(document: &Document, backend: Backend, amount: u8) -> (outcome: Result<
    Vec<Joke>,
>)
    ensures
        agrees(outcome, decoded(*document, backend, amount)),
{
    let entries = match document {
        Document::Record(entries) => entries,
        _ => {
            return Err(backend.fail(Cause::NotRecord));
        },
    };
    match read_flag(entries, Field::Error) {
        Err(cause) => {
            return Err(backend.fail(cause));
        },
        Ok(declared) => {
            if declared {
                return Err(Error::ApiResponse(String::from_str("error:true")));
            }
        },
    }
    if amount == 1 {
        match read_joke(entries) {
            Ok(joke) => {
                let mut jokes: Vec<Joke> = Vec::new();
                jokes.push(joke);
                proof {
                    assert(views(jokes@) =~= seq![joke@]);
                }
                Ok(jokes)
            },
            Err(cause) => Err(backend.fail(cause)),
        }
    } else {
        match read_listed(entries) {
            Ok(jokes) => Ok(jokes),
            Err(cause) => Err(backend.fail(cause)),
        }
    }
}

/// Decodes a response body of the given format, for a request of `amount`
/// jokes. A YAML body is read as YAML and a body of any other format as JSON.
pub fn parse_joke(resp: &str, format: &Format, amount: u8) -> (outcome: Result<Vec<Joke>>)
    ensures
        agrees(outcome, parsed(resp@, *format, amount)),
{
    let backend = Backend::for_format(format);
    match backend.read(resp) {
        Err(error) => Err(error),
        Ok(document) => decode_document(&document, backend, amount),
    }
}

impl Joke {
    /// The joke as it is told: the text of a single joke, or the setup and
    /// the delivery on two lines.
    pub open spec fn told(self) -> Seq<char> {
        match self.joke_type {
            JokeType::Single => self.joke@,
            JokeType::Twopart => self.setup@ + seq!['\n'] + self.delivery@,
        }
    }

    /// The joke as it is told.
    pub fn to_string(&self) -> (text: String)
        ensures
            text@ == self.told(),
    {
        match self.joke_type {
            JokeType::Single => self.joke.clone(),
            JokeType::Twopart => {
                proof {
                    reveal_strlit("\n");
                    assert("\n"@ =~= seq!['\n']);
                }
                let mut out = self.setup.clone();
                out.append("\n");
                out.append(self.delivery.as_str());
                out
            },
        }
    }
}

/// An envelope that declares an error decodes to the API's own error,
/// whatever the backend, the amount asked for and the envelope's other keys.
pub proof fn lemma_declared_error(document: Document, backend: Backend, amount: u8)
    requires
        document matches Document::Record(entries) && lookup(entries@, Field::Error.key()) == Some(
            Document::Bool(true),
        ),
    ensures
        decoded(document, backend, amount) == Err::<Seq<JokeView>, ErrorView>(
            ErrorView::ApiResponse(declared_message()),
        ),
{
}

/// A body that its backend reads as an envelope that declares an error
/// parses to the API's own error, whatever the format and the amount.
pub proof fn lemma_declared_error_parsed(text: Seq<char>, format: Format, amount: u8)
    requires
        reading(backend_of(format), text) matches Ok(Document::Record(entries)) && lookup(
            entries@,
            Field::Error.key(),
        ) == Some(Document::Bool(true)),
    ensures
        parsed(text, format, amount) == Err::<Seq<JokeView>, ErrorView>(
            ErrorView::ApiResponse(declared_message()),
        ),
{
}

/// A list envelope decodes to as many jokes as its list has entries, or
/// to none at all: no outcome holds a part of the list.
pub proof fn lemma_jokes_of_len(items: Seq<Document>)
    ensures
        jokes_of(items) matches Ok(jokes) ==> jokes.len() == items.len(),
    decreases items.len(),
{
    if items.len() > 0 {
        lemma_jokes_of_len(items.drop_last());
    }
}

} // verus!
