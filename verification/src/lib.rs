//! Turns a syndication feed into an ordered list of podcast episodes.
//!
//! The feed is read as a flat stream of structural events. A small state
//! machine walks the stream once and assembles one [`Podcast`] per `item`
//! element: a title, which is a running label and not the feed's own text,
//! a description and an optional audio location. Every function of the
//! crate is verified against a mathematical model of events, parser states
//! and episodes.
//!
//! - [`event`]: the events and their model;
//! - [`podcast`]: the episode and its model;
//! - [`machine`]: the state machine, as a model and as code;
//! - [`laws`]: what holds of every stream;
//! - [`tokenizer`]: from text to events, through the `xml` crate;
//! - [`html`]: the pages that show the episodes;
//! - [`decimal`]: numbers in decimal notation.

pub mod decimal;
pub mod event;
pub mod html;
pub mod laws;
pub mod machine;
pub mod podcast;
pub mod tokenizer;

pub use crate::event::Attribute;
pub use crate::event::FeedEvent;
pub use crate::html::index_html;
pub use crate::html::page_html;
pub use crate::machine::parse_events;
pub use crate::machine::FeedParser;
pub use crate::machine::ParseState;
pub use crate::podcast::Podcast;
pub use crate::tokenizer::parse_feed;
pub use crate::tokenizer::tokenize;
