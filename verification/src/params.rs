//! The closed vocabularies of the API's query parameters, each value with its
//! exact text on the wire.

use vstd::prelude::*;
use vstd::string::StringExecFns;
use crate::text::lemma_plain_to;
use crate::text::plain;
use crate::text::plain_to;
use crate::text::same_text;

verus! {

/// A value of one of the API's closed vocabularies.
pub trait Param: Copy {
    /// The text that stands for this value in a URL and in a response body.
    spec fn wire(self) -> Seq<char>;

    /// The wire text, as a string slice.
    fn as_str(&self) -> (text: &'static str)
        ensures
            text@ == self.wire(),
    ;

    /// Whether two values are the same variant.
    fn same(&self, other: &Self) -> (equal: bool)
        ensures
            equal == (*self == *other),
    ;

    /// A wire text can stand in a comma-separated list: it is not empty and
    /// holds no comma.
    proof fn lemma_wire_plain(self)
        ensures
            self.wire().len() > 0,
            plain(self.wire()),
    ;

    /// No two values share a wire text.
    proof fn lemma_wire_distinct(self, other: Self)
        requires
            self.wire() == other.wire(),
        ensures
            self == other,
    ;
}

/// The joke categories. `Any` stands for "no restriction" and excludes every
/// other category.
#[derive(Debug, PartialEq, Eq, Hash, Clone, Copy, Structural)]
pub enum Category {
    Any,
    Misc,
    Programming,
    Dark,
    Pun,
    Spooky,
    Christmas,
}

/// The content flags that a caller can ask the API to exclude.
#[derive(Debug, PartialEq, Eq, Hash, Clone, Copy, Structural)]
pub enum Flag {
    Nsfw,
    Religious,
    Political,
    Racist,
    Sexist,
    Explicit,
}

/// The payload formats that the API can answer in.
#[derive(Debug, PartialEq, Eq, Hash, Clone, Copy, Structural)]
pub enum Format {
    Json,
    Xml,
    Yaml,
    Txt,
}

/// The two shapes of a joke: one text, or a setup and a delivery.
#[derive(Debug, PartialEq, Eq, Hash, Clone, Copy, Structural)]
pub enum JokeType {
    Single,
    Twopart,
}

impl Param for Category {
    open spec fn wire(self) -> Seq<char> {
        match self {
            Category::Any => "Any"@,
            Category::Misc => "Misc"@,
            Category::Programming => "Programming"@,
            Category::Dark => "Dark"@,
            Category::Pun => "Pun"@,
            Category::Spooky => "Spooky"@,
            Category::Christmas => "Christmas"@,
        }
    }

    fn as_str(&self) -> (text: &'static str) {
        match self {
            Category::Any => "Any",
            Category::Misc => "Misc",
            Category::Programming => "Programming",
            Category::Dark => "Dark",
            Category::Pun => "Pun",
            Category::Spooky => "Spooky",
            Category::Christmas => "Christmas",
        }
    }

    fn same(&self, other: &Self) -> (equal: bool) {
        *self == *other
    }

    proof fn lemma_wire_plain(self) {
        reveal_with_fuel(plain_to, 12);
        match self {
            Category::Any => {
                reveal_strlit("Any");
                assert(plain_to("Any"@, 3));
                lemma_plain_to("Any"@, 3);
            },
            Category::Misc => {
                reveal_strlit("Misc");
                assert(plain_to("Misc"@, 4));
                lemma_plain_to("Misc"@, 4);
            },
            Category::Programming => {
                reveal_strlit("Programming");
                assert(plain_to("Programming"@, 11));
                lemma_plain_to("Programming"@, 11);
            },
            Category::Dark => {
                reveal_strlit("Dark");
                assert(plain_to("Dark"@, 4));
                lemma_plain_to("Dark"@, 4);
            },
            Category::Pun => {
                reveal_strlit("Pun");
                assert(plain_to("Pun"@, 3));
                lemma_plain_to("Pun"@, 3);
            },
            Category::Spooky => {
                reveal_strlit("Spooky");
                assert(plain_to("Spooky"@, 6));
                lemma_plain_to("Spooky"@, 6);
            },
            Category::Christmas => {
                reveal_strlit("Christmas");
                assert(plain_to("Christmas"@, 9));
                lemma_plain_to("Christmas"@, 9);
            },
        }
    }

    proof fn lemma_wire_distinct(self, other: Self) {
        reveal_strlit("Any");
        reveal_strlit("Misc");
        reveal_strlit("Programming");
        reveal_strlit("Dark");
        reveal_strlit("Pun");
        reveal_strlit("Spooky");
        reveal_strlit("Christmas");
        assert("Any"@.len() == 3);
        assert("Any"@[0] == 'A');
        assert("Misc"@.len() == 4);
        assert("Misc"@[0] == 'M');
        assert("Programming"@.len() == 11);
        assert("Programming"@[0] == 'P');
        assert("Dark"@.len() == 4);
        assert("Dark"@[0] == 'D');
        assert("Pun"@.len() == 3);
        assert("Pun"@[0] == 'P');
        assert("Spooky"@.len() == 6);
        assert("Spooky"@[0] == 'S');
        assert("Christmas"@.len() == 9);
        assert("Christmas"@[0] == 'C');
    }
}

impl Category {
    /// The category's wire text, as an owned string.
    pub fn to_string(&self) -> (text: String)
        ensures
            text@ == self.wire(),
    {
        String::from_str(self.as_str())
    }
}

impl Param for Flag {
    open spec fn wire(self) -> Seq<char> {
        match self {
            Flag::Nsfw => "nsfw"@,
            Flag::Religious => "religious"@,
            Flag::Political => "political"@,
            Flag::Racist => "racist"@,
            Flag::Sexist => "sexist"@,
            Flag::Explicit => "explicit"@,
        }
    }

    fn as_str(&self) -> (text: &'static str) {
        match self {
            Flag::Nsfw => "nsfw",
            Flag::Religious => "religious",
            Flag::Political => "political",
            Flag::Racist => "racist",
            Flag::Sexist => "sexist",
            Flag::Explicit => "explicit",
        }
    }

    fn same(&self, other: &Self) -> (equal: bool) {
        *self == *other
    }

    proof fn lemma_wire_plain(self) {
        reveal_with_fuel(plain_to, 12);
        match self {
            Flag::Nsfw => {
                reveal_strlit("nsfw");
                assert(plain_to("nsfw"@, 4));
                lemma_plain_to("nsfw"@, 4);
            },
            Flag::Religious => {
                reveal_strlit("religious");
                assert(plain_to("religious"@, 9));
                lemma_plain_to("religious"@, 9);
            },
            Flag::Political => {
                reveal_strlit("political");
                assert(plain_to("political"@, 9));
                lemma_plain_to("political"@, 9);
            },
            Flag::Racist => {
                reveal_strlit("racist");
                assert(plain_to("racist"@, 6));
                lemma_plain_to("racist"@, 6);
            },
            Flag::Sexist => {
                reveal_strlit("sexist");
                assert(plain_to("sexist"@, 6));
                lemma_plain_to("sexist"@, 6);
            },
            Flag::Explicit => {
                reveal_strlit("explicit");
                assert(plain_to("explicit"@, 8));
                lemma_plain_to("explicit"@, 8);
            },
        }
    }

    proof fn lemma_wire_distinct(self, other: Self) {
        reveal_strlit("nsfw");
        reveal_strlit("religious");
        reveal_strlit("political");
        reveal_strlit("racist");
        reveal_strlit("sexist");
        reveal_strlit("explicit");
        assert("nsfw"@.len() == 4);
        assert("nsfw"@[0] == 'n');
        assert("nsfw"@[1] == 's');
        assert("religious"@.len() == 9);
        assert("religious"@[0] == 'r');
        assert("religious"@[1] == 'e');
        assert("political"@.len() == 9);
        assert("political"@[0] == 'p');
        assert("political"@[1] == 'o');
        assert("racist"@.len() == 6);
        assert("racist"@[0] == 'r');
        assert("racist"@[1] == 'a');
        assert("sexist"@.len() == 6);
        assert("sexist"@[0] == 's');
        assert("sexist"@[1] == 'e');
        assert("explicit"@.len() == 8);
        assert("explicit"@[0] == 'e');
        assert("explicit"@[1] == 'x');
    }
}

impl Flag {
    /// The flag's wire text, as an owned string.
    pub fn to_string(&self) -> (text: String)
        ensures
            text@ == self.wire(),
    {
        String::from_str(self.as_str())
    }
}

impl Param for Format {
    open spec fn wire(self) -> Seq<char> {
        match self {
            Format::Json => "json"@,
            Format::Xml => "xml"@,
            Format::Yaml => "yaml"@,
            Format::Txt => "txt"@,
        }
    }

    fn as_str(&self) -> (text: &'static str) {
        match self {
            Format::Json => "json",
            Format::Xml => "xml",
            Format::Yaml => "yaml",
            Format::Txt => "txt",
        }
    }

    fn same(&self, other: &Self) -> (equal: bool) {
        *self == *other
    }

    proof fn lemma_wire_plain(self) {
        reveal_with_fuel(plain_to, 12);
        match self {
            Format::Json => {
                reveal_strlit("json");
                assert(plain_to("json"@, 4));
                lemma_plain_to("json"@, 4);
            },
            Format::Xml => {
                reveal_strlit("xml");
                assert(plain_to("xml"@, 3));
                lemma_plain_to("xml"@, 3);
            },
            Format::Yaml => {
                reveal_strlit("yaml");
                assert(plain_to("yaml"@, 4));
                lemma_plain_to("yaml"@, 4);
            },
            Format::Txt => {
                reveal_strlit("txt");
                assert(plain_to("txt"@, 3));
                lemma_plain_to("txt"@, 3);
            },
        }
    }

    proof fn lemma_wire_distinct(self, other: Self) {
        reveal_strlit("json");
        reveal_strlit("xml");
        reveal_strlit("yaml");
        reveal_strlit("txt");
        assert("json"@.len() == 4);
        assert("json"@[0] == 'j');
        assert("xml"@.len() == 3);
        assert("xml"@[0] == 'x');
        assert("yaml"@.len() == 4);
        assert("yaml"@[0] == 'y');
        assert("txt"@.len() == 3);
        assert("txt"@[0] == 't');
    }
}

impl Format {
    /// The format's wire text, as an owned string.
    pub fn to_string(&self) -> (text: String)
        ensures
            text@ == self.wire(),
    {
        String::from_str(self.as_str())
    }
}

impl Param for JokeType {
    open spec fn wire(self) -> Seq<char> {
        match self {
            JokeType::Single => "single"@,
            JokeType::Twopart => "twopart"@,
        }
    }

    fn as_str(&self) -> (text: &'static str) {
        match self {
            JokeType::Single => "single",
            JokeType::Twopart => "twopart",
        }
    }

    fn same(&self, other: &Self) -> (equal: bool) {
        *self == *other
    }

    proof fn lemma_wire_plain(self) {
        reveal_with_fuel(plain_to, 12);
        match self {
            JokeType::Single => {
                reveal_strlit("single");
                assert(plain_to("single"@, 6));
                lemma_plain_to("single"@, 6);
            },
            JokeType::Twopart => {
                reveal_strlit("twopart");
                assert(plain_to("twopart"@, 7));
                lemma_plain_to("twopart"@, 7);
            },
        }
    }

    proof fn lemma_wire_distinct(self, other: Self) {
        reveal_strlit("single");
        reveal_strlit("twopart");
        assert("single"@.len() == 6);
        assert("single"@[0] == 's');
        assert("twopart"@.len() == 7);
        assert("twopart"@[0] == 't');
    }
}

impl JokeType {
    /// The joke type's wire text, as an owned string.
    pub fn to_string(&self) -> (text: String)
        ensures
            text@ == self.wire(),
    {
        String::from_str(self.as_str())
    }
}

impl Category {
    /// The category whose wire text is `text`, if there is one.
    pub open spec fn named(text: Seq<char>) -> Option<Category> {
        if exists|category: Category| category.wire() == text {
            Some(choose|category: Category| category.wire() == text)
        } else {
            None
        }
    }

    /// The category with the given wire text, if there is one. Wire texts are
    /// case-sensitive.
    pub fn from_wire(text: &str) -> (found: Option<Category>)
        ensures
            found == Category::named(text@),
            match found {
                Some(category) => category.wire() == text@,
                None => forall|category: Category| category.wire() != text@,
            },
    {
        let found = if same_text(text, "Any") {
            Some(Category::Any)
        } else if same_text(text, "Misc") {
            Some(Category::Misc)
        } else if same_text(text, "Programming") {
            Some(Category::Programming)
        } else if same_text(text, "Dark") {
            Some(Category::Dark)
        } else if same_text(text, "Pun") {
            Some(Category::Pun)
        } else if same_text(text, "Spooky") {
            Some(Category::Spooky)
        } else if same_text(text, "Christmas") {
            Some(Category::Christmas)
        } else {
            None
        };
        proof {
            match found {
                Some(category) => {
                    assert(category.wire() == text@);
                    category.lemma_wire_distinct(choose|other: Category| other.wire() == text@);
                },
                None => {
                    assert forall|category: Category| category.wire() != text@ by {
                        match category {
                            Category::Any => {},
                            Category::Misc => {},
                            Category::Programming => {},
                            Category::Dark => {},
                            Category::Pun => {},
                            Category::Spooky => {},
                            Category::Christmas => {},
                        }
                    }
                },
            }
        }
        found
    }
}

impl JokeType {
    /// The joke type whose wire text is `text`, if there is one.
    pub open spec fn named(text: Seq<char>) -> Option<JokeType> {
        if exists|joke_type: JokeType| joke_type.wire() == text {
            Some(choose|joke_type: JokeType| joke_type.wire() == text)
        } else {
            None
        }
    }

    /// The joke type with the given wire text, if there is one. Wire texts are
    /// case-sensitive.
    pub fn from_wire(text: &str) -> (found: Option<JokeType>)
        ensures
            found == JokeType::named(text@),
            match found {
                Some(joke_type) => joke_type.wire() == text@,
                None => forall|joke_type: JokeType| joke_type.wire() != text@,
            },
    {
        let found = if same_text(text, "single") {
            Some(JokeType::Single)
        } else if same_text(text, "twopart") {
            Some(JokeType::Twopart)
        } else {
            None
        };
        proof {
            match found {
                Some(joke_type) => {
                    assert(joke_type.wire() == text@);
                    joke_type.lemma_wire_distinct(choose|other: JokeType| other.wire() == text@);
                },
                None => {
                    assert forall|joke_type: JokeType| joke_type.wire() != text@ by {
                        match joke_type {
                            JokeType::Single => {},
                            JokeType::Twopart => {},
                        }
                    }
                },
            }
        }
        found
    }
}

} // verus!
