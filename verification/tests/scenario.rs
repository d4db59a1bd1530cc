use podcast_feed::event::Attribute;
use podcast_feed::event::FeedEvent;
use podcast_feed::machine::parse_events;
use podcast_feed::podcast::Podcast;
use podcast_feed::tokenizer::parse_feed;

fn start(name: &str) -> FeedEvent {
    FeedEvent::StartElement { name: name.to_string(), attributes: vec![] }
}

fn end(name: &str) -> FeedEvent {
    FeedEvent::EndElement { name: name.to_string() }
}

fn enclosure(url: &str) -> FeedEvent {
    FeedEvent::StartElement {
        name: "enclosure".to_string(),
        attributes: vec![Attribute { name: "url".to_string(), value: url.to_string() }],
    }
}

fn two_episodes() -> Vec<Podcast> {
    vec![
        Podcast {
            title: "episode #1".to_string(),
            description: "Desc A".to_string(),
            audio_url: Some("http://a.mp3".to_string()),
        },
        Podcast { title: "episode #2".to_string(), description: String::new(), audio_url: None },
    ]
}

#[test]
fn two_items_as_events() {
    let events = vec![
        start("item"),
        start("title"),
        FeedEvent::CData("Ep A".to_string()),
        end("title"),
        start("description"),
        FeedEvent::CData("Desc A".to_string()),
        end("description"),
        enclosure("http://a.mp3"),
        end("enclosure"),
        end("item"),
        start("item"),
        start("title"),
        FeedEvent::CData("Ep B".to_string()),
        end("title"),
        end("item"),
    ];
    assert_eq!(parse_events(&events), two_episodes());
}

#[test]
fn two_items_as_text() {
    let text = "<rss><channel>\
        <item><title><![CDATA[Ep A]]></title>\
        <description><![CDATA[Desc A]]></description>\
        <enclosure url=\"http://a.mp3\"/></item>\
        <item><title><![CDATA[Ep B]]></title></item>\
        </channel></rss>";
    assert_eq!(parse_feed(text), two_episodes());
}
