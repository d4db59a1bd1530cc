//! The parse state machine: from a stream of events to a list of episodes.

use vstd::prelude::*;
use vstd::string::StringExecFns;

use crate::decimal::decimal_digits;
use crate::decimal::decimal_is_one_to_one;
use crate::decimal::decimal_string;
use crate::event::Attribute;
use crate::event::AttributeModel;
use crate::event::EventModel;
use crate::event::FeedEvent;
use crate::podcast::Episode;
use crate::podcast::Podcast;

verus! {

/// The element whose end closes an episode.
pub const ITEM: &'static str = "item";

/// The element that announces a title.
pub const TITLE: &'static str = "title";

/// The element that announces a description.
pub const DESCRIPTION: &'static str = "description";

/// The element that carries the audio location.
pub const ENCLOSURE: &'static str = "enclosure";

/// The attribute of an enclosure that holds the audio location.
pub const URL: &'static str = "url";

/// What every synthesized title starts with.
pub const LABEL_PREFIX: &'static str = "episode #";

/// The three elements that the machine acts on at their start are three
/// different names.
pub proof fn lemma_element_names_differ()
    ensures
        TITLE@ != DESCRIPTION@,
        TITLE@ != ENCLOSURE@,
        DESCRIPTION@ != ENCLOSURE@,
{
    reveal_strlit("title");
    reveal_strlit("description");
    reveal_strlit("enclosure");
    assert(TITLE@.len() == 5);
    assert(DESCRIPTION@.len() == 11);
    assert(ENCLOSURE@.len() == 9);
}

/// The title given to the episode whose title text is the `ordinal`-th of
/// the feed.
pub open spec fn episode_label(ordinal: nat) -> Seq<char> {
    LABEL_PREFIX@ + decimal_digits(ordinal)
}

/// Two ordinals with the same label are the same ordinal.
pub proof fn label_is_one_to_one(a: nat, b: nat)
    requires
        episode_label(a) == episode_label(b),
    ensures
        a == b,
{
    let prefix = LABEL_PREFIX@.len() as int;
    assert(episode_label(a).skip(prefix) =~= decimal_digits(a));
    assert(episode_label(b).skip(prefix) =~= decimal_digits(b));
    decimal_is_one_to_one(a, b);
}

/// The value of the first attribute named `url`, if there is one.
pub open spec fn url_attribute(attributes: Seq<AttributeModel>) -> Option<Seq<char>>
    decreases attributes.len(),
{
    if attributes.len() == 0 {
        None
    } else if attributes[0].name == URL@ {
        Some(attributes[0].value)
    } else {
        url_attribute(attributes.drop_first())
    }
}

/// Which text field the machine is about to receive.
#[derive(Clone, Copy, Debug, PartialEq, Eq)]
pub enum ParseState {
    /// None: character data is passed over.
    Neutral,
    /// The title: the next character data makes the title.
    AwaitingTitleText,
    /// The description: the next character data is the description.
    AwaitingDescriptionText,
}

/// The mathematical model of the parser between two events.
#[verifier::ext_equal]
pub struct ParserModel {
    /// The text field that the next character data will fill.
    pub state: ParseState,
    /// The ordinal that the next title will carry.
    pub counter: nat,
    /// The episode under construction.
    pub working: Episode,
    /// The episodes closed so far, in the order in which they were closed.
    pub finished: Seq<Episode>,
}

impl ParserModel {
    /// The parser before the first event.
    pub open spec fn initial() -> ParserModel {
        ParserModel {
            state: ParseState::Neutral,
            counter: 1,
            working: Episode::empty(),
            finished: Seq::empty(),
        }
    }

    /// The parser after one more event.
    pub open spec fn step(self, event: EventModel) -> ParserModel {
        match event {
            EventModel::StartElement { name, attributes } => {
                if name == TITLE@ {
                    ParserModel { state: ParseState::AwaitingTitleText, ..self }
                } else if name == DESCRIPTION@ {
                    ParserModel { state: ParseState::AwaitingDescriptionText, ..self }
                } else if name == ENCLOSURE@ {
                    match url_attribute(attributes) {
                        Some(url) => ParserModel {
                            working: Episode { audio_url: Some(url), ..self.working },
                            ..self
                        },
                        None => self,
                    }
                } else {
                    self
                }
            },
            EventModel::EndElement { name } => {
                if name == ITEM@ {
                    ParserModel {
                        state: ParseState::Neutral,
                        counter: self.counter,
                        working: Episode::empty(),
                        finished: self.finished.push(self.working),
                    }
                } else {
                    self
                }
            },
            EventModel::Characters(text) => self.take_text(text),
            EventModel::CData(text) => self.take_text(text),
            EventModel::Malformed => self,
            EventModel::Other => self,
        }
    }

    /// The parser after character data with the given text.
    pub open spec fn take_text(self, text: Seq<char>) -> ParserModel {
        match self.state {
            ParseState::AwaitingTitleText => ParserModel {
                state: ParseState::Neutral,
                counter: self.counter + 1,
                working: Episode { title: episode_label(self.counter), ..self.working },
                finished: self.finished,
            },
            ParseState::AwaitingDescriptionText => ParserModel {
                state: ParseState::Neutral,
                working: Episode { description: text, ..self.working },
                ..self
            },
            ParseState::Neutral => self,
        }
    }

    /// The parser after a whole sequence of events, taken in order.
    pub open spec fn run(self, events: Seq<EventModel>) -> ParserModel
        decreases events.len(),
    {
        if events.len() == 0 {
            self
        } else {
            self.run(events.drop_last()).step(events.last())
        }
    }
}

/// The episodes that a stream of events describes.
pub open spec fn episodes_of(events: Seq<EventModel>) -> Seq<Episode> {
    ParserModel::initial().run(events).finished
}

/// Whether `name` is the given word.
fn is_named(name: &String, word: &str) -> (same: bool)
    ensures
        same == (name@ == word@),
{
    let word = String::from_str(word);
    *name == word
}

/// Looks for the first attribute named `url` and copies its value.
pub fn find_url(attributes: &Vec<Attribute>) -> (url: Option<String>)
    ensures
        url.deep_view() == url_attribute(attributes.deep_view()),
{
    let mut i: usize = 0;
    assert(attributes.deep_view().skip(0) =~= attributes.deep_view());
    while i < attributes.len()
        invariant
            i <= attributes.len(),
            url_attribute(attributes.deep_view()) == url_attribute(
                attributes.deep_view().skip(i as int),
            ),
        decreases attributes.len() - i,
    {
        let ghost rest = attributes.deep_view().skip(i as int);
        assert(rest[0] == attributes[i as int]@);
        assert(rest.drop_first() =~= attributes.deep_view().skip(i + 1));
        if is_named(&attributes[i].name, URL) {
            return Some(attributes[i].value.clone());
        }
        i += 1;
    }
    None
}

/// Writes the title of the episode with the given ordinal.
pub fn label_string(ordinal: u64) -> (label: String)
    ensures
        label@ == episode_label(ordinal as nat),
{
    let mut label = String::from_str(LABEL_PREFIX);
    let digits = decimal_string(ordinal);
    label.append(digits.as_str());
    label
}

/// The parser: the machine's state, the running ordinal, the episode under
/// construction and the episodes closed so far.
pub struct FeedParser {
    state: ParseState,
    counter: u64,
    working: Podcast,
    finished: Vec<Podcast>,
}

impl View for FeedParser {
    type V = ParserModel;

    closed spec fn view(&self) -> ParserModel {
        ParserModel {
            state: self.state,
            counter: self.counter as nat,
            working: self.working@,
            finished: self.finished.deep_view(),
        }
    }
}

impl FeedParser {
    /// A parser that has seen no event yet.
    pub fn new() -> (parser: FeedParser)
        ensures
            parser@ == ParserModel::initial(),
    {
        let parser = FeedParser {
            state: ParseState::Neutral,
            counter: 1,
            working: Podcast::new(),
            finished: Vec::new(),
        };
        assert(parser@ =~= ParserModel::initial());
        parser
    }

    /// Takes the next event of the stream.
    ///
    /// The ordinal is kept in 64 bits, so it must not have reached the end
    /// of that range; `parse_events` shows that no stream gets it there.
    pub fn feed(&mut self, event: &FeedEvent)
        requires
            old(self)@.counter < u64::MAX,
        ensures
            final(self)@ == old(self)@.step(event@),
    {
        match event {
            FeedEvent::StartElement { name, attributes } => {
                if is_named(name, TITLE) {
                    self.state = ParseState::AwaitingTitleText;
                } else if is_named(name, DESCRIPTION) {
                    self.state = ParseState::AwaitingDescriptionText;
                } else if is_named(name, ENCLOSURE) {
                    let url = find_url(attributes);
                    if url.is_some() {
                        self.working.audio_url = url;
                    }
                }
            },
            FeedEvent::EndElement { name } => {
                if is_named(name, ITEM) {
                    let mut closed = Podcast::new();
                    std::mem::swap(&mut self.working, &mut closed);
                    self.finished.push(closed);
                    self.state = ParseState::Neutral;
                    assert(self.finished.deep_view() =~= old(self).finished.deep_view().push(
                        old(self).working@,
                    ));
                }
            },
            FeedEvent::Characters(text) => {
                self.take_text(text);
            },
            FeedEvent::CData(text) => {
                self.take_text(text);
            },
            FeedEvent::Malformed => {},
            FeedEvent::Other => {},
        }
        assert(self@ =~= old(self)@.step(event@));
    }

    /// Takes character data: the title (replaced by its label), the
    /// description, or nothing, as the state says.
    fn take_text(&mut self, text: &String)
        requires
            old(self)@.counter < u64::MAX,
        ensures
            final(self)@ == old(self)@.take_text(text@),
    {
        match self.state {
            ParseState::AwaitingTitleText => {
                self.working.title = label_string(self.counter);
                self.counter = self.counter + 1;
                self.state = ParseState::Neutral;
            },
            ParseState::AwaitingDescriptionText => {
                self.working.description = text.clone();
                self.state = ParseState::Neutral;
            },
            ParseState::Neutral => {},
        }
        assert(self@ =~= old(self)@.take_text(text@));
    }

    /// The text field that the next character data will fill.
    pub fn state(&self) -> (state: ParseState)
        ensures
            state == self@.state,
    {
        self.state
    }

    /// The ordinal that the next title will carry. `feed` may be called
    /// as long as this is below `u64::MAX`.
    pub fn next_ordinal(&self) -> (ordinal: u64)
        ensures
            ordinal == self@.counter,
    {
        self.counter
    }

    /// Hands out the episodes closed so far. An episode still under
    /// construction is dropped.
    pub fn finish(self) -> (episodes: Vec<Podcast>)
        ensures
            episodes.deep_view() == self@.finished,
    {
        self.finished
    }
}

/// What the state adds to the count of events that a title has used up.
pub open spec fn title_pending(state: ParseState) -> nat {
    if state is AwaitingTitleText {
        1
    } else {
        0
    }
}

/// Every title takes two events, the start of the element and its text, so
/// the ordinal stays below half the length of the stream.
pub proof fn lemma_counter_bounded(events: Seq<EventModel>)
    ensures
        ({
            let parser = ParserModel::initial().run(events);
            parser.counter >= 1 && 2 * (parser.counter - 1) + title_pending(parser.state)
                <= events.len()
        }),
    decreases events.len(),
{
    if events.len() > 0 {
        lemma_counter_bounded(events.drop_last());
    }
}

/// Runs the machine over a whole stream of events and returns the episodes
/// that it describes, in the order in which their items end.
pub fn parse_events(events: &Vec<FeedEvent>) -> (episodes: Vec<Podcast>)
    ensures
        episodes.deep_view() == episodes_of(events.deep_view()),
{
    let mut parser = FeedParser::new();
    let mut i: usize = 0;
    assert(events.deep_view().take(0) =~= Seq::empty());
    while i < events.len()
        invariant
            i <= events.len(),
            parser@ == ParserModel::initial().run(events.deep_view().take(i as int)),
        decreases events.len() - i,
    {
        proof {
            let seen = events.deep_view().take(i as int);
            let next = events.deep_view().take(i + 1);
            lemma_counter_bounded(seen);
            assert(next.drop_last() =~= seen);
            assert(next.last() == events[i as int]@);
        }
        parser.feed(&events[i]);
        i += 1;
    }
    assert(events.deep_view().take(i as int) =~= events.deep_view());
    parser.finish()
}

} // verus!
