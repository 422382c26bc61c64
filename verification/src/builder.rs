//! The request builder: the caller's choices, and the URL they make.

use vstd::prelude::*;
use vstd::string::StringExecFns;
use crate::error::Error;
use crate::error::ErrorView;
use crate::joke::Joke;
use crate::joke::JokeView;
use crate::joke::Result;
use crate::joke::agrees;
use crate::joke::parse_joke;
use crate::joke::parsed;
use crate::params::Category;
use crate::params::Flag;
use crate::params::Format;
use crate::params::JokeType;
use crate::params::Param;
use crate::selector::Selector;
use crate::selector::chosen;
use crate::selector::chosen_all;
use crate::selector::exclusive;
use crate::selector::lemma_chosen_all_adds;
use crate::selector::lemma_chosen_all_concat;
use crate::selector::lemma_chosen_all_exclusive;
use crate::selector::lemma_chosen_all_last;
use crate::selector::lemma_chosen_all_one;
use crate::selector::lemma_names_members;
use crate::selector::lemma_names_no_duplicates;
use crate::selector::lemma_rendered_pieces;
use crate::selector::names;
use crate::selector::rendered;
use crate::text::decimal;
use crate::text::decimal_u8;
use crate::text::pieces;

verus! {

/// The choices that a request is made of. The three selections stand in the
/// order in which their values were chosen.
pub struct Request {
    pub categories: Seq<Category>,
    pub flags: Seq<Flag>,
    pub format: Format,
    pub types: Seq<JokeType>,
    pub amount: u8,
}

/// The categories that exclude all others: `Any` alone.
pub open spec fn category_singles() -> Set<Category> {
    set![Category::Any]
}

/// The flags that exclude all others: none, flags only add up.
pub open spec fn flag_singles() -> Set<Flag> {
    Set::empty()
}

/// The joke types that exclude all others: both, so at most one is chosen.
pub open spec fn type_singles() -> Set<JokeType> {
    set![JokeType::Single, JokeType::Twopart]
}

/// The address of the API's joke endpoint, to which the categories are
/// appended.
pub open spec fn base_url() -> Seq<char> {
    "https://v2.jokeapi.dev/joke/"@
}

/// The URL of a request: the base, the categories, and the four query
/// parameters in their fixed order.
pub open spec fn url_of(request: Request) -> Seq<char> {
    base_url() + rendered(request.categories) + "?blacklistFlags="@ + rendered(request.flags)
        + "&format="@ + request.format.wire() + "&type="@ + rendered(request.types) + "&amount="@
        + decimal(request.amount as nat)
}

impl Request {
    /// Each of the three selections satisfies [`exclusive`] for its singleton
    /// group. Every builder's view does.
    pub open spec fn wf(self) -> bool {
        &&& exclusive(category_singles(), self.categories)
        &&& exclusive(flag_singles(), self.flags)
        &&& exclusive(type_singles(), self.types)
    }
}

/// The request that a new builder stands for: any category, no flag
/// excluded, JSON, no restriction on the joke type, one joke.
pub open spec fn initial_request() -> Request {
    Request {
        categories: seq![Category::Any],
        flags: Seq::empty(),
        format: Format::Json,
        types: Seq::empty(),
        amount: 1,
    }
}

/// The request after each of `added` is chosen in turn as a category, as by
/// one call of [`JokeBuilder::add_category`] for each.
pub open spec fn with_categories(request: Request, added: Seq<Category>) -> Request {
    Request { categories: chosen_all(category_singles(), request.categories, added), ..request }
}

/// The request after each of `added` is chosen in turn as a flag to exclude,
/// as by one call of [`JokeBuilder::add_flag`] for each.
pub open spec fn with_flags(request: Request, added: Seq<Flag>) -> Request {
    Request { flags: chosen_all(flag_singles(), request.flags, added), ..request }
}

/// What the outcome of the transport decodes to: a body is parsed in the
/// request's format for the request's amount, and a failure of the transport
/// is passed on with its message.
pub open spec fn received(
    reply: std::result::Result<String, String>,
    request: Request,
) -> std::result::Result<Seq<JokeView>, ErrorView> {
    match reply {
        Ok(body) => parsed(body@, request.format, request.amount),
        Err(message) => Err(ErrorView::Transport(message@)),
    }
}

/// Collects the choices for one request to the API and renders its URL.
pub struct JokeBuilder {
    base_url: String,
    categories: Selector<Category>,
    flags: Selector<Flag>,
    format: Format,
    joke_type: Selector<JokeType>,
    amount: u8,
}

impl View for JokeBuilder {
    type V = Request;

    closed spec fn view(&self) -> Request {
        Request {
            categories: self.categories@,
            flags: self.flags@,
            format: self.format,
            types: self.joke_type@,
            amount: self.amount,
        }
    }
}

impl JokeBuilder {
    #[verifier::type_invariant]
    spec fn inv(&self) -> bool {
        &&& self.base_url@ == base_url()
        &&& self.categories.singles() == category_singles()
        &&& self.flags.singles() == flag_singles()
        &&& self.joke_type.singles() == type_singles()
        &&& self.categories.wf()
        &&& self.flags.wf()
        &&& self.joke_type.wf()
    }

    /// A builder for the default request.
    pub fn new() -> (builder: Self)
        ensures
            builder@ == initial_request(),
            builder@.wf(),
    {
        let any = [Category::Any];
        let mut categories = Selector::new(any.as_slice());
        categories.select(Category::Any);
        let none: [Flag; 0] = [];
        let flags = Selector::new(none.as_slice());
        let both = [JokeType::Single, JokeType::Twopart];
        let joke_type = Selector::new(both.as_slice());
        proof {
            assert(any@.to_set() =~= category_singles()) by {
                assert(any@[0] == Category::Any);
                assert forall|c: Category| any@.to_set().contains(c) <==> category_singles().contains(c) by {
                    if c == Category::Any {
                        assert(any@.contains(any@[0]));
                    }
                }
            }
            assert(none@.to_set() =~= flag_singles());
            assert(both@.to_set() =~= type_singles()) by {
                assert(both@[0] == JokeType::Single);
                assert(both@[1] == JokeType::Twopart);
                assert forall|t: JokeType| both@.to_set().contains(t) <==> type_singles().contains(t) by {
                    if t == JokeType::Single {
                        assert(both@.contains(both@[0]));
                    } else {
                        assert(both@.contains(both@[1]));
                    }
                }
            }
        }
        JokeBuilder {
            base_url: String::from_str("https://v2.jokeapi.dev/joke/"),
            categories,
            flags,
            format: Format::Json,
            joke_type,
            amount: 1,
        }
    }

    /// The URL of the request as it stands.
    pub fn url(&self) -> (address: String)
        ensures
            address@ == url_of(self@),
    {
        proof {
            use_type_invariant(self);
        }
        let mut out = self.base_url.clone();
        out.append(self.categories.to_string().as_str());
        out.append("?blacklistFlags=");
        out.append(self.flags.to_string().as_str());
        out.append("&format=");
        out.append(self.format.as_str());
        out.append("&type=");
        out.append(self.joke_type.to_string().as_str());
        out.append("&amount=");
        out.append(decimal_u8(self.amount).as_str());
        out
    }

    /// Chooses a category. `Any` replaces every category chosen before; any
    /// other category evicts `Any` and stands beside the others.
    pub fn add_category(self, category: Category) -> (builder: Self)
        ensures
            builder@ == (Request {
                categories: chosen(category_singles(), self@.categories, category),
                ..self@
            }),
            builder@ == with_categories(self@, seq![category]),
            builder@.wf(),
    {
        proof {
            use_type_invariant(&self);
            lemma_chosen_all_one(category_singles(), self@.categories, category);
        }
        let JokeBuilder { base_url, categories, flags, format, joke_type, amount } = self;
        let mut categories = categories;
        categories.select(category);
        JokeBuilder { base_url, categories, flags, format, joke_type, amount }
    }

    /// Adds a flag to those excluded. A flag added twice stands once.
    pub fn add_flag(self, flag: Flag) -> (builder: Self)
        ensures
            builder@ == (Request { flags: chosen(flag_singles(), self@.flags, flag), ..self@ }),
            builder@ == with_flags(self@, seq![flag]),
            builder@.wf(),
    {
        proof {
            use_type_invariant(&self);
            lemma_chosen_all_one(flag_singles(), self@.flags, flag);
        }
        let JokeBuilder { base_url, categories, flags, format, joke_type, amount } = self;
        let mut flags = flags;
        flags.select(flag);
        JokeBuilder { base_url, categories, flags, format, joke_type, amount }
    }

    /// Sets the format in which the API is asked to answer.
    pub fn format(self, format: Format) -> (builder: Self)
        ensures
            builder@ == (Request { format: format, ..self@ }),
            builder@.wf(),
    {
        proof {
            use_type_invariant(&self);
        }
        let mut builder = self;
        builder.format = format;
        builder
    }

    /// Restricts the request to one joke type, in place of any chosen before.
    pub fn joke_type(self, joke_type: JokeType) -> (builder: Self)
        ensures
            builder@ == (Request { types: seq![joke_type], ..self@ }),
            builder@.wf(),
    {
        proof {
            use_type_invariant(&self);
        }
        let JokeBuilder { base_url, categories, flags, format, joke_type: types, amount } = self;
        let mut types = types;
        types.select(joke_type);
        JokeBuilder { base_url, categories, flags, format, joke_type: types, amount }
    }

    /// Sets the number of jokes asked for. Any value is taken as it is, zero
    /// too.
    pub fn amount(self, amount: u8) -> (builder: Self)
        ensures
            builder@ == (Request { amount: amount, ..self@ }),
            builder@.wf(),
    {
        proof {
            use_type_invariant(&self);
        }
        let mut builder = self;
        builder.amount = amount;
        builder
    }
}

impl JokeBuilder {
    /// Decodes what the transport brought back for this request: the body of
    /// the response, or the message of the transport's failure.
    pub fn receive(&self, reply: std::result::Result<String, String>) -> (outcome: Result<Vec<Joke>>)
        ensures
            agrees(outcome, received(reply, self@)),
    {
        match reply {
            Ok(body) => parse_joke(body.as_str(), &self.format, self.amount),
            Err(message) => Err(Error::Transport(message)),
        }
    }
}

impl Default for JokeBuilder {
    /// The same builder as [`JokeBuilder::new`].
    fn default() -> (builder: Self)
        ensures
            builder@ == initial_request(),
            builder@.wf(),
    {
        JokeBuilder::new()
    }
}

/// Categories chosen in two turns are the categories of one turn, one after
/// the other; and so are flags.
pub proof fn lemma_turns_concat(
    request: Request,
    categories: Seq<Category>,
    more_categories: Seq<Category>,
    flags: Seq<Flag>,
    more_flags: Seq<Flag>,
)
    ensures
        with_categories(with_categories(request, categories), more_categories) == with_categories(
            request,
            categories + more_categories,
        ),
        with_flags(with_flags(request, flags), more_flags) == with_flags(request, flags + more_flags),
{
    lemma_chosen_all_concat(category_singles(), request.categories, categories, more_categories);
    lemma_chosen_all_concat(flag_singles(), request.flags, flags, more_flags);
}

/// After any categories are chosen in turn, the last one decides what the
/// URL names. Where it is `Any`, the categories are `Any` alone and render as
/// `Any`. Where it is another category, that category is one of the rendered
/// names, each of which stands between commas, and `Any` is none of them.
pub proof fn lemma_categories_after(request: Request, added: Seq<Category>)
    requires
        added.len() > 0,
    ensures
        added.last() == Category::Any ==> with_categories(request, added).categories
            == seq![Category::Any] && rendered(with_categories(request, added).categories)
            == "Any"@,
        added.last() != Category::Any ==> with_categories(request, added).categories.contains(
            added.last(),
        ) && !with_categories(request, added).categories.contains(Category::Any),
        added.last() != Category::Any ==> pieces(
            rendered(with_categories(request, added).categories),
        ).contains(added.last().wire()) && !pieces(
            rendered(with_categories(request, added).categories),
        ).contains("Any"@),
{
    lemma_chosen_all_last(category_singles(), request.categories, added);
    let end = with_categories(request, added).categories;
    if added.last() == Category::Any {
        assert(names(end).len() == 1);
        assert(names(end)[0] == Category::Any.wire());
    } else {
        assert(category_singles().contains(Category::Any));
        assert(end.len() > 0);
        lemma_rendered_pieces(end);
        lemma_names_members(end, added.last());
        lemma_names_members(end, Category::Any);
    }
}

/// After any flags are added in turn, the flags to exclude are those that
/// the request held before and those added, each once, however often it was
/// added. The URL renders them in the order in which each was first added:
/// cut at its commas, the rendering gives the names of exactly these flags,
/// none of them twice.
pub proof fn lemma_flags_after(request: Request, added: Seq<Flag>)
    requires
        request.wf(),
    ensures
        with_flags(request, added).wf(),
        with_flags(request, added).flags.no_duplicates(),
        with_flags(request, added).flags.to_set() == request.flags.to_set().union(added.to_set()),
        request.flags.len() == 0 ==> with_flags(request, added).flags.to_set() == added.to_set(),
        names(with_flags(request, added).flags).no_duplicates(),
        forall|flag: Flag| #[trigger]
            names(with_flags(request, added).flags).contains(flag.wire()) <==> request.flags.contains(
                flag,
            ) || added.contains(flag),
        with_flags(request, added).flags.len() > 0 ==> pieces(
            rendered(with_flags(request, added).flags),
        ) == names(with_flags(request, added).flags),
        with_flags(request, added).flags.len() == 0 <==> rendered(
            with_flags(request, added).flags,
        ).len() == 0,
{
    let end = with_flags(request, added).flags;
    lemma_chosen_all_adds(request.flags, added);
    lemma_chosen_all_exclusive(flag_singles(), request.flags, added);
    if request.flags.len() == 0 {
        assert(request.flags.to_set() =~= Set::<Flag>::empty());
        assert(request.flags.to_set().union(added.to_set()) =~= added.to_set());
    }
    lemma_names_no_duplicates(end);
    lemma_rendered_pieces(end);
    assert forall|flag: Flag| #[trigger]
        names(end).contains(flag.wire()) <==> request.flags.contains(flag) || added.contains(
            flag,
        ) by {
        lemma_names_members(end, flag);
        assert(end.to_set().contains(flag) <==> end.contains(flag));
        assert(request.flags.to_set().contains(flag) <==> request.flags.contains(flag));
        assert(added.to_set().contains(flag) <==> added.contains(flag));
    }
}

} // verus!
