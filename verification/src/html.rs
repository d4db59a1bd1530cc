//! The pages that show the episodes: one per episode, and the index.

use vstd::prelude::*;
use vstd::string::StringExecFns;

use crate::decimal::decimal_digits;
use crate::decimal::decimal_string;
use crate::podcast::Episode;
use crate::podcast::Podcast;

verus! {

/// An episode's page, up to the title in the head.
pub const PAGE_OPENING: &'static str = r#"
<html>
    <head>
        <title>Nava podcast #"#;

/// An episode's page, from the head to the title in the body.
pub const PAGE_HEADING: &'static str = r#"</title>
        <link rel="stylesheet" href="https://unpkg.com/mvp.css">
        <style>
            .fa-chevron-right {
                display: none;
            }
            .post-more-link {
                margin-left: 0.5rem;
            }
        </style>
    </head>
    <body>
        <main>
            <article>
                <a href="/">&larr; all episodes</a>
                <h1># "#;

/// An episode's page, from the title to the audio source.
pub const PAGE_AUDIO: &'static str = r#"</h1>
                <audio controls src=""#;

/// An episode's page, from the audio source to the description.
pub const PAGE_BODY: &'static str = r#""></audio>
                <h2>## description & transcript</h2>
                <p>"#;

/// The end of an episode's page.
pub const PAGE_CLOSING: &'static str = r#"</p>
            </article>
        </main>
    </body>
</html>
        "#;

/// What stands for the audio source of an episode that has none.
pub const NO_AUDIO: &'static str = "No audio available";

/// What is shown for a number that no episode carries.
pub const NOT_FOUND: &'static str = "No podcast found";

/// The index, up to its entries.
pub const INDEX_OPENING: &'static str = r#"
<html>
    <head>
        <title>Naval podcast feed</title>
        <link rel="stylesheet" href="https://unpkg.com/mvp.css">
    </head>
    <body>
        <main>
            <h1>Naval podcast feed</h1>
            <div>
                <ul>
                    "#;

/// The index, after its entries.
pub const INDEX_CLOSING: &'static str = r#"
                </ul>
            </div>
        </main>
    </body>
</html>
        "#;

/// An entry of the index, up to the episode's number.
pub const ENTRY_OPENING: &'static str = r#"<li><a href="/"#;

/// An entry of the index, between number and title.
pub const ENTRY_LINK: &'static str = r#"">"#;

/// The end of an entry of the index.
pub const ENTRY_CLOSING: &'static str = "</a></li>";

/// What separates two entries of the index.
pub const ENTRY_BREAK: &'static str = "\n";

/// The audio source shown for an episode.
pub open spec fn audio_source(episode: Episode) -> Seq<char> {
    match episode.audio_url {
        Some(url) => url,
        None => NO_AUDIO@,
    }
}

/// The page of one episode: its title twice, its audio source and its
/// description, each copied as it is into the fixed text around it.
pub open spec fn episode_page(episode: Episode) -> Seq<char> {
    PAGE_OPENING@ + episode.title + PAGE_HEADING@ + episode.title + PAGE_AUDIO@ + audio_source(
        episode,
    ) + PAGE_BODY@ + episode.description + PAGE_CLOSING@
}

/// The entry of the index for the episode with the given number: a link to
/// the episode's page, shown as its title.
pub open spec fn index_entry(number: nat, episode: Episode) -> Seq<char> {
    ENTRY_OPENING@ + decimal_digits(number) + ENTRY_LINK@ + episode.title + ENTRY_CLOSING@
}

/// The entries of the index, one line each, numbered from zero.
pub open spec fn index_entries(episodes: Seq<Episode>) -> Seq<char>
    decreases episodes.len(),
{
    if episodes.len() == 0 {
        Seq::empty()
    } else if episodes.len() == 1 {
        index_entry(0, episodes[0])
    } else {
        index_entries(episodes.drop_last()) + ENTRY_BREAK@ + index_entry(
            (episodes.len() - 1) as nat,
            episodes.last(),
        )
    }
}

/// The index of all episodes.
pub open spec fn index_page(episodes: Seq<Episode>) -> Seq<char> {
    INDEX_OPENING@ + index_entries(episodes) + INDEX_CLOSING@
}

/// What is shown under the given number: the episode's page, or a notice
/// that there is no such episode.
pub open spec fn page_for(episodes: Seq<Episode>, number: nat) -> Seq<char> {
    if number < episodes.len() {
        episode_page(episodes[number as int])
    } else {
        NOT_FOUND@
    }
}

impl Podcast {
    /// Renders the episode as a page.
    pub fn to_html(&self) -> (page: String)
        ensures
            page@ == episode_page(self@),
    {
        let mut page = String::from_str(PAGE_OPENING);
        page.append(self.title.as_str());
        page.append(PAGE_HEADING);
        page.append(self.title.as_str());
        page.append(PAGE_AUDIO);
        match &self.audio_url {
            Some(url) => page.append(url.as_str()),
            None => page.append(NO_AUDIO),
        }
        page.append(PAGE_BODY);
        page.append(self.description.as_str());
        page.append(PAGE_CLOSING);
        page
    }
}

/// Appends the index entry of one episode.
fn append_entry(page: &mut String, number: usize, podcast: &Podcast)
    ensures
        final(page)@ == old(page)@ + index_entry(number as nat, podcast@),
{
    let digits = decimal_string(number as u64);
    page.append(ENTRY_OPENING);
    page.append(digits.as_str());
    page.append(ENTRY_LINK);
    page.append(podcast.title.as_str());
    page.append(ENTRY_CLOSING);
    assert(page@ =~= old(page)@ + index_entry(number as nat, podcast@));
}

/// Renders the index of the episodes: one link per episode, in order.
pub fn index_html(podcasts: &Vec<Podcast>) -> (page: String)
    ensures
        page@ == index_page(podcasts.deep_view()),
{
    let mut page = String::from_str(INDEX_OPENING);
    let mut i: usize = 0;
    assert(podcasts.deep_view().take(0) =~= Seq::empty());
    while i < podcasts.len()
        invariant
            i <= podcasts.len(),
            page@ == INDEX_OPENING@ + index_entries(podcasts.deep_view().take(i as int)),
        decreases podcasts.len() - i,
    {
        proof {
            let shown = podcasts.deep_view().take(i as int);
            let next = podcasts.deep_view().take(i + 1);
            assert(next.drop_last() =~= shown);
            assert(next.last() == podcasts[i as int]@);
        }
        if i > 0 {
            page.append(ENTRY_BREAK);
        }
        append_entry(&mut page, i, &podcasts[i]);
        assert(page@ =~= INDEX_OPENING@ + index_entries(podcasts.deep_view().take(i + 1)));
        i += 1;
    }
    assert(podcasts.deep_view().take(i as int) =~= podcasts.deep_view());
    page.append(INDEX_CLOSING);
    page
}

/// Renders what is shown under the given number.
pub fn page_html(podcasts: &Vec<Podcast>, number: usize) -> (page: String)
    ensures
        page@ == page_for(podcasts.deep_view(), number as nat),
{
    if number < podcasts.len() {
        podcasts[number].to_html()
    } else {
        String::from_str(NOT_FOUND)
    }
}

} // verus!
