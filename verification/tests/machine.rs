use podcast_feed::decimal::decimal_string;
use podcast_feed::event::Attribute;
use podcast_feed::event::FeedEvent;
use podcast_feed::machine::find_url;
use podcast_feed::machine::label_string;
use podcast_feed::machine::parse_events;
use podcast_feed::machine::FeedParser;
use podcast_feed::machine::ParseState;
use podcast_feed::podcast::Podcast;

fn open(name: &str) -> FeedEvent {
    FeedEvent::StartElement { name: name.to_string(), attributes: vec![] }
}

fn close(name: &str) -> FeedEvent {
    FeedEvent::EndElement { name: name.to_string() }
}

fn cdata(text: &str) -> FeedEvent {
    FeedEvent::CData(text.to_string())
}

fn chars(text: &str) -> FeedEvent {
    FeedEvent::Characters(text.to_string())
}

fn attribute(name: &str, value: &str) -> Attribute {
    Attribute { name: name.to_string(), value: value.to_string() }
}

fn open_with(name: &str, attributes: Vec<Attribute>) -> FeedEvent {
    FeedEvent::StartElement { name: name.to_string(), attributes }
}

fn episode(title: &str, description: &str, audio_url: Option<&str>) -> Podcast {
    Podcast {
        title: title.to_string(),
        description: description.to_string(),
        audio_url: audio_url.map(|url| url.to_string()),
    }
}

#[test]
fn decimal_of_small_and_large_numbers() {
    assert_eq!(decimal_string(0), "0");
    assert_eq!(decimal_string(7), "7");
    assert_eq!(decimal_string(9), "9");
    assert_eq!(decimal_string(10), "10");
    assert_eq!(decimal_string(101), "101");
    assert_eq!(decimal_string(12345), "12345");
    assert_eq!(decimal_string(u64::MAX), "18446744073709551615");
}

#[test]
fn label_is_prefix_and_ordinal() {
    assert_eq!(label_string(1), "episode #1");
    assert_eq!(label_string(42), "episode #42");
    assert_eq!(label_string(1000), "episode #1000");
}

#[test]
fn find_url_takes_the_first_attribute_named_url() {
    assert_eq!(find_url(&vec![]), None);
    assert_eq!(find_url(&vec![attribute("type", "audio/mpeg")]), None);
    assert_eq!(
        find_url(&vec![attribute("length", "1"), attribute("url", "http://a"), attribute("url", "http://b")]),
        Some("http://a".to_string())
    );
    assert_eq!(find_url(&vec![attribute("URL", "http://a")]), None);
}

#[test]
fn empty_stream_gives_no_episode() {
    assert_eq!(parse_events(&vec![]), vec![]);
}

#[test]
fn stream_without_item_end_gives_no_episode() {
    let events = vec![
        open("rss"),
        open("channel"),
        open("item"),
        open("title"),
        cdata("Ep A"),
        close("title"),
        open("description"),
        cdata("Desc A"),
        close("description"),
        close("channel"),
        close("rss"),
    ];
    assert_eq!(parse_events(&events), vec![]);
}

#[test]
fn one_episode_per_item_end() {
    let events = vec![close("item"), open("item"), close("item"), close("item"), close("title")];
    assert_eq!(
        parse_events(&events),
        vec![episode("", "", None), episode("", "", None), episode("", "", None)]
    );
}

#[test]
fn titles_are_numbered_through_the_feed() {
    let mut events = vec![];
    for k in 0..12 {
        events.push(open("item"));
        events.push(open("title"));
        events.push(cdata(&format!("Some title {}", 100 - k)));
        events.push(close("title"));
        events.push(close("item"));
    }
    let episodes = parse_events(&events);
    assert_eq!(episodes.len(), 12);
    for k in 0..12 {
        assert_eq!(episodes[k].title, format!("episode #{}", k + 1));
    }
    assert_eq!(episodes[9].title, "episode #10");
}

#[test]
fn title_does_not_depend_on_its_text() {
    let with = |text: &str| vec![open("title"), cdata(text), close("item")];
    assert_eq!(parse_events(&with("Ep A")), parse_events(&with("something else")));
    assert_eq!(parse_events(&with("")), vec![episode("episode #1", "", None)]);
}

#[test]
fn counter_counts_title_texts_not_items() {
    let events = vec![
        open("title"),
        cdata("channel title"),
        close("title"),
        open("item"),
        open("title"),
        cdata("Ep A"),
        close("title"),
        close("item"),
        open("item"),
        close("item"),
        open("item"),
        open("title"),
        cdata("Ep C"),
        close("item"),
    ];
    assert_eq!(
        parse_events(&events),
        vec![episode("episode #2", "", None), episode("", "", None), episode("episode #3", "", None)]
    );
}

#[test]
fn plain_characters_count_as_character_data() {
    let events = vec![
        open("title"),
        chars("Ep A"),
        open("description"),
        chars("Desc A"),
        close("item"),
    ];
    assert_eq!(parse_events(&events), vec![episode("episode #1", "Desc A", None)]);
}

#[test]
fn character_data_outside_a_field_is_ignored() {
    let events = vec![
        cdata("stray"),
        open("title"),
        cdata("Ep A"),
        cdata("not a title any more"),
        open("description"),
        cdata("Desc A"),
        chars("not a description any more"),
        close("description"),
        cdata("stray"),
        close("item"),
    ];
    assert_eq!(parse_events(&events), vec![episode("episode #1", "Desc A", None)]);
}

#[test]
fn last_description_text_wins() {
    let events = vec![
        open("description"),
        cdata("first"),
        open("description"),
        cdata("second"),
        close("item"),
    ];
    assert_eq!(parse_events(&events), vec![episode("", "second", None)]);
}

#[test]
fn item_without_description_has_empty_description() {
    let events = vec![
        open("item"),
        open("title"),
        cdata("Ep B"),
        close("title"),
        open_with("enclosure", vec![attribute("url", "http://b.mp3")]),
        close("item"),
    ];
    let episodes = parse_events(&events);
    assert_eq!(episodes.len(), 1);
    assert_eq!(episodes[0].description, "");
}

#[test]
fn description_element_without_text_leaves_description_empty() {
    let events = vec![open("item"), open("description"), close("description"), close("item")];
    assert_eq!(parse_events(&events), vec![episode("", "", None)]);
}

#[test]
fn last_enclosure_url_wins() {
    let events = vec![
        open_with("enclosure", vec![attribute("url", "http://first.mp3")]),
        close("enclosure"),
        open_with("enclosure", vec![attribute("type", "audio/mpeg"), attribute("url", "http://second.mp3")]),
        close("enclosure"),
        close("item"),
    ];
    assert_eq!(parse_events(&events), vec![episode("", "", Some("http://second.mp3"))]);
}

#[test]
fn enclosure_without_url_changes_nothing() {
    let events = vec![
        open_with("enclosure", vec![attribute("url", "http://a.mp3")]),
        open_with("enclosure", vec![attribute("type", "audio/mpeg")]),
        close("item"),
        open_with("enclosure", vec![]),
        close("item"),
    ];
    assert_eq!(
        parse_events(&events),
        vec![episode("", "", Some("http://a.mp3")), episode("", "", None)]
    );
}

#[test]
fn url_on_another_element_is_not_an_audio_location() {
    let events = vec![open_with("link", vec![attribute("url", "http://a.mp3")]), close("item")];
    assert_eq!(parse_events(&events), vec![episode("", "", None)]);
}

#[test]
fn audio_location_does_not_leak_into_the_next_item() {
    let events = vec![
        open_with("enclosure", vec![attribute("url", "http://a.mp3")]),
        close("item"),
        close("item"),
    ];
    assert_eq!(
        parse_events(&events),
        vec![episode("", "", Some("http://a.mp3")), episode("", "", None)]
    );
}

#[test]
fn item_end_flushes_in_the_middle_of_a_field() {
    let events = vec![
        open("item"),
        open("title"),
        close("item"),
        cdata("arrives too late"),
        open("description"),
        close("item"),
        cdata("too late as well"),
        close("item"),
    ];
    assert_eq!(
        parse_events(&events),
        vec![episode("", "", None), episode("", "", None), episode("", "", None)]
    );
}

#[test]
fn malformed_event_is_skipped() {
    let clean = vec![
        open("item"),
        open("title"),
        cdata("Ep A"),
        open("description"),
        cdata("Desc A"),
        close("item"),
        open("item"),
        open("title"),
        cdata("Ep B"),
        close("item"),
    ];
    for at in 0..=clean.len() {
        let mut events = clean.clone();
        events.insert(at, FeedEvent::Malformed);
        assert_eq!(parse_events(&events), parse_events(&clean));
    }
    assert_eq!(
        parse_events(&clean),
        vec![episode("episode #1", "Desc A", None), episode("episode #2", "", None)]
    );
}

#[test]
fn malformed_event_leaves_closed_episodes_alone() {
    let events = vec![
        open("title"),
        cdata("Ep A"),
        open("description"),
        cdata("Desc A"),
        open_with("enclosure", vec![attribute("url", "http://a.mp3")]),
        close("item"),
        open("item"),
        FeedEvent::Malformed,
        open("description"),
        FeedEvent::Malformed,
        close("item"),
    ];
    let episodes = parse_events(&events);
    assert_eq!(episodes.len(), 2);
    assert_eq!(episodes[0], episode("episode #1", "Desc A", Some("http://a.mp3")));
    assert_eq!(episodes[1], episode("", "", None));
}

#[test]
fn other_events_are_ignored() {
    let events = vec![
        FeedEvent::Other,
        open("title"),
        FeedEvent::Other,
        close("title"),
        open("channel"),
        cdata("Ep A"),
        FeedEvent::Other,
        close("item"),
        FeedEvent::Other,
    ];
    assert_eq!(parse_events(&events), vec![episode("episode #1", "", None)]);
}

#[test]
fn names_are_matched_exactly() {
    let events = vec![
        open("Title"),
        cdata("Ep A"),
        open("descriptions"),
        cdata("Desc A"),
        open_with("Enclosure", vec![attribute("url", "http://a.mp3")]),
        close("items"),
        close("ITEM"),
    ];
    assert_eq!(parse_events(&events), vec![]);
}

#[test]
fn closed_episodes_stay_when_the_stream_goes_on() {
    let mut events = vec![open("title"), cdata("Ep A"), open("description"), cdata("Desc A"), close("item")];
    let short = parse_events(&events);
    events.extend(vec![
        open("title"),
        cdata("Ep B"),
        open("description"),
        cdata("Desc B"),
        open_with("enclosure", vec![attribute("url", "http://b.mp3")]),
        close("item"),
        open("title"),
    ]);
    let long = parse_events(&events);
    assert_eq!(long.len(), 2);
    assert_eq!(long[..1], short[..]);
    assert_eq!(long[1], episode("episode #2", "Desc B", Some("http://b.mp3")));
}

#[test]
fn parser_fed_event_by_event() {
    let mut parser = FeedParser::new();
    parser.feed(&open("title"));
    parser.feed(&cdata("Ep A"));
    parser.feed(&close("item"));
    parser.feed(&open("description"));
    parser.feed(&cdata("left unfinished"));
    assert_eq!(parser.finish(), vec![episode("episode #1", "", None)]);
}

#[test]
fn parser_shows_state_and_ordinal() {
    let mut parser = FeedParser::new();
    assert_eq!(parser.state(), ParseState::Neutral);
    assert_eq!(parser.next_ordinal(), 1);
    parser.feed(&open("description"));
    assert_eq!(parser.state(), ParseState::AwaitingDescriptionText);
    parser.feed(&open("title"));
    assert_eq!(parser.state(), ParseState::AwaitingTitleText);
    assert_eq!(parser.next_ordinal(), 1);
    parser.feed(&chars("Ep A"));
    assert_eq!(parser.state(), ParseState::Neutral);
    assert_eq!(parser.next_ordinal(), 2);
    parser.feed(&open("title"));
    parser.feed(&close("item"));
    assert_eq!(parser.state(), ParseState::Neutral);
    assert_eq!(parser.next_ordinal(), 2);
}

#[test]
fn events_after_the_last_item_end_add_nothing() {
    let mut events = vec![open("title"), cdata("Ep A"), close("item")];
    let closed = parse_events(&events);
    events.extend(vec![
        open("item"),
        open("title"),
        cdata("Ep B"),
        open("description"),
        cdata("Desc B"),
        open_with("enclosure", vec![attribute("url", "http://b.mp3")]),
    ]);
    assert_eq!(parse_events(&events), closed);
    assert_eq!(closed, vec![episode("episode #1", "", None)]);
}

#[test]
fn fresh_parser_has_no_episode() {
    assert_eq!(FeedParser::new().finish(), vec![]);
}

#[test]
fn new_podcast_is_empty() {
    assert_eq!(Podcast::new(), episode("", "", None));
}
