//! The episode record and its mathematical model.

use vstd::prelude::*;

verus! {

/// The mathematical model of one episode: plain sequences of characters.
#[verifier::ext_equal]
pub struct Episode {
    /// The label under which the episode is listed.
    pub title: Seq<char>,
    /// The free text body; empty when the feed gave none.
    pub description: Seq<char>,
    /// Where the playable media lies, if the feed said so.
    pub audio_url: Option<Seq<char>>,
}

impl Episode {
    /// The episode of which nothing is known yet.
    pub open spec fn empty() -> Episode {
        Episode { title: Seq::empty(), description: Seq::empty(), audio_url: None }
    }
}

/// One episode of the feed.
#[derive(Clone, Debug, PartialEq, Eq)]
pub struct Podcast {
    pub title: String,
    pub description: String,
    pub audio_url: Option<String>,
}

impl View for Podcast {
    type V = Episode;

    open spec fn view(&self) -> Episode {
        Episode {
            title: self.title@,
            description: self.description@,
            audio_url: match self.audio_url {
                Some(url) => Some(url@),
                None => None,
            },
        }
    }
}

impl DeepView for Podcast {
    type V = Episode;

    open spec fn deep_view(&self) -> Episode {
        self@
    }
}

impl Podcast {
    /// An episode with an empty title, an empty description and no audio.
    pub fn new() -> (podcast: Podcast)
        ensures
            podcast@ == Episode::empty(),
    {
        Podcast { title: String::new(), description: String::new(), audio_url: None }
    }
}

} // verus!
