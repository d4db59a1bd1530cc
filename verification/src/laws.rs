//! What holds of every stream of events: how many episodes come out, in
//! which order, and where each of their fields comes from.
//!
//! The laws speak of positions in the stream. The events before position
//! `i` are `events.take(i)`. The span of an episode is the stretch of
//! events from the end of the item before it, or from the start of the
//! stream, up to the end of its own item.

use vstd::prelude::*;

use crate::event::EventModel;
use crate::machine::episode_label;
use crate::machine::episodes_of;
use crate::machine::label_is_one_to_one;
use crate::machine::lemma_element_names_differ;
use crate::machine::url_attribute;
use crate::machine::ParseState;
use crate::machine::ParserModel;
use crate::machine::DESCRIPTION;
use crate::machine::ENCLOSURE;
use crate::machine::ITEM;
use crate::machine::TITLE;
use crate::podcast::Episode;

verus! {

/// The parser when it has taken the events before position `i`.
pub open spec fn parser_before(events: Seq<EventModel>, i: int) -> ParserModel {
    ParserModel::initial().run(events.take(i))
}

/// Whether the event ends an item, and with it an episode.
pub open spec fn is_boundary(event: EventModel) -> bool {
    event.closes(ITEM@)
}

/// Whether the event at position `i` is a title text: character data that
/// arrives while a title is awaited.
pub open spec fn is_title_text(events: Seq<EventModel>, i: int) -> bool {
    &&& 0 <= i < events.len()
    &&& events[i].text() is Some
    &&& parser_before(events, i).state is AwaitingTitleText
}

/// Whether the event at position `i` is a description text: character data
/// that arrives while a description is awaited.
pub open spec fn is_description_text(events: Seq<EventModel>, i: int) -> bool {
    &&& 0 <= i < events.len()
    &&& events[i].text() is Some
    &&& parser_before(events, i).state is AwaitingDescriptionText
}

/// The audio location that an event announces: the `url` attribute of an
/// enclosure, where the event opens one and the attribute is there.
pub open spec fn announced_url(event: EventModel) -> Option<Seq<char>> {
    match event {
        EventModel::StartElement { name, attributes } => if name == ENCLOSURE@ {
            url_attribute(attributes)
        } else {
            None
        },
        _ => None,
    }
}

/// How many of the events before position `i` end an item.
pub open spec fn boundaries_before(events: Seq<EventModel>, i: int) -> nat
    decreases i,
{
    if i <= 0 {
        0
    } else if is_boundary(events[i - 1]) {
        boundaries_before(events, i - 1) + 1
    } else {
        boundaries_before(events, i - 1)
    }
}

/// How many of the events before position `i` are title texts.
pub open spec fn titles_before(events: Seq<EventModel>, i: int) -> nat
    decreases i,
{
    if i <= 0 {
        0
    } else if is_title_text(events, i - 1) {
        titles_before(events, i - 1) + 1
    } else {
        titles_before(events, i - 1)
    }
}

/// Whether the positions from `first` up to `end` are the span of one
/// episode: an item ends at `end`, none ends in between, and `first` is the
/// start of the stream or the position right after the end of an item.
pub open spec fn is_span(events: Seq<EventModel>, first: int, end: int) -> bool {
    &&& 0 <= first <= end < events.len()
    &&& is_boundary(events[end])
    &&& first == 0 || is_boundary(events[first - 1])
    &&& forall|i: int| first <= i < end ==> !is_boundary(#[trigger] events[i])
}

/// Whether `shorter` is how `longer` begins.
pub open spec fn is_prefix(shorter: Seq<Episode>, longer: Seq<Episode>) -> bool {
    shorter.len() <= longer.len() && longer.take(shorter.len() as int) == shorter
}

// The number and the order of the episodes.

/// There are as many episodes as items end in the stream.
pub proof fn one_episode_per_boundary(events: Seq<EventModel>)
    ensures
        episodes_of(events).len() == boundaries_before(events, events.len() as int),
{
    lemma_finished_count(events, events.len() as int);
    lemma_whole(events);
}

/// The episodes come in the order in which their items end: the episode
/// that an item's end closes takes the place given by the number of items
/// that ended before it, and it is the episode that was under construction
/// when that end arrived, whatever the machine was waiting for. Every later
/// end of an item has a later place.
pub proof fn episodes_in_boundary_order(events: Seq<EventModel>, end: int)
    requires
        0 <= end < events.len(),
        is_boundary(events[end]),
    ensures
        boundaries_before(events, end) < episodes_of(events).len(),
        episodes_of(events)[boundaries_before(events, end) as int] == parser_before(
            events,
            end,
        ).working,
        forall|later: int|
            end < later <= events.len() ==> boundaries_before(events, end) < boundaries_before(
                events,
                later,
            ),
{
    lemma_closed_at(events, end);
    assert forall|later: int| end < later <= events.len() implies boundaries_before(events, end)
        < boundaries_before(events, later) by {
        lemma_boundaries_grow(events, end + 1, later);
    }
}

/// A stream in which no item ends describes no episode.
pub proof fn no_boundary_no_episode(events: Seq<EventModel>)
    requires
        forall|i: int| 0 <= i < events.len() ==> !is_boundary(#[trigger] events[i]),
    ensures
        episodes_of(events) == Seq::<Episode>::empty(),
{
    one_episode_per_boundary(events);
    lemma_no_boundaries(events, events.len() as int);
    assert(episodes_of(events) =~= Seq::<Episode>::empty());
}

/// At the start of the stream and right after the end of an item the
/// machine is neutral and the episode under construction is empty.
pub proof fn fresh_after_boundary(events: Seq<EventModel>, first: int)
    requires
        0 <= first <= events.len(),
        first == 0 || is_boundary(events[first - 1]),
    ensures
        parser_before(events, first).working == Episode::empty(),
        parser_before(events, first).state is Neutral,
{
    if first == 0 {
        assert(events.take(0) =~= Seq::empty());
    } else {
        lemma_step_at(events, first - 1);
    }
}

/// An episode that is closed stays as it is: whatever follows, the
/// episodes of a stream are the first episodes of the longer stream.
pub proof fn closed_episodes_stay(events: Seq<EventModel>, more: Seq<EventModel>)
    ensures
        is_prefix(episodes_of(events), episodes_of(events + more)),
{
    let all = events + more;
    lemma_finished_grows(all, events.len() as int, all.len() as int);
    assert(all.take(events.len() as int) =~= events);
    lemma_whole(all);
}

/// An episode is handed out only when its item has ended: events after
/// the last end of an item add nothing to the list.
pub proof fn unfinished_episode_is_dropped(events: Seq<EventModel>, more: Seq<EventModel>)
    requires
        forall|i: int| 0 <= i < more.len() ==> !is_boundary(#[trigger] more[i]),
    ensures
        episodes_of(events + more) == episodes_of(events),
{
    let all = events + more;
    closed_episodes_stay(events, more);
    one_episode_per_boundary(events);
    one_episode_per_boundary(all);
    lemma_boundaries_of_prefix(all, events.len() as int, events.len() as int);
    assert(all.take(events.len() as int) =~= events);
    assert forall|t: int| events.len() <= t < all.len() implies !is_boundary(
        #[trigger] all[t],
    ) by {
        assert(all[t] == more[t - events.len()]);
    }
    lemma_boundaries_rest(all, events.len() as int, all.len() as int);
    assert(episodes_of(all).take(episodes_of(all).len() as int) =~= episodes_of(all));
}

// Events that leave no trace.

/// Whether the machine takes no notice of the event, whatever its state:
/// a malformed event, one that is no tag and no character data, a start
/// tag of another element than title, description and enclosure, or an end
/// tag of another element than item.
pub open spec fn is_ignored(event: EventModel) -> bool {
    match event {
        EventModel::StartElement { name, .. } => name != TITLE@ && name != DESCRIPTION@ && name
            != ENCLOSURE@,
        EventModel::EndElement { name } => name != ITEM@,
        EventModel::Characters(_) => false,
        EventModel::CData(_) => false,
        EventModel::Malformed => true,
        EventModel::Other => true,
    }
}

/// An event that the machine takes no notice of changes nothing: the
/// stream describes the same episodes with it as without it.
pub proof fn ignored_event_is_skipped(
    before: Seq<EventModel>,
    event: EventModel,
    after: Seq<EventModel>,
)
    requires
        is_ignored(event),
    ensures
        episodes_of(before.push(event) + after) == episodes_of(before + after),
{
    lemma_run_concat(ParserModel::initial(), before.push(event), after);
    lemma_run_concat(ParserModel::initial(), before, after);
    assert(before.push(event).drop_last() =~= before);
}

/// A malformed event changes nothing: the stream describes the same
/// episodes with it as without it. In particular the episodes closed
/// before it are as they were.
pub proof fn malformed_event_is_skipped(before: Seq<EventModel>, after: Seq<EventModel>)
    ensures
        episodes_of(before.push(EventModel::Malformed) + after) == episodes_of(before + after),
        is_prefix(episodes_of(before), episodes_of(before.push(EventModel::Malformed) + after)),
{
    ignored_event_is_skipped(before, EventModel::Malformed, after);
    closed_episodes_stay(before, after);
}

/// Character data that arrives while no text is awaited changes nothing.
pub proof fn stray_text_is_skipped(
    before: Seq<EventModel>,
    event: EventModel,
    after: Seq<EventModel>,
)
    requires
        event.text() is Some,
        ParserModel::initial().run(before).state is Neutral,
    ensures
        episodes_of(before.push(event) + after) == episodes_of(before + after),
{
    lemma_run_concat(ParserModel::initial(), before.push(event), after);
    lemma_run_concat(ParserModel::initial(), before, after);
    assert(before.push(event).drop_last() =~= before);
}

/// What a title text says is never read: with another text in its place
/// the stream describes the same episodes.
pub proof fn title_text_is_not_read(
    before: Seq<EventModel>,
    text: Seq<char>,
    other: Seq<char>,
    after: Seq<EventModel>,
)
    requires
        ParserModel::initial().run(before).state is AwaitingTitleText,
    ensures
        episodes_of(before.push(EventModel::CData(text)) + after) == episodes_of(
            before.push(EventModel::CData(other)) + after,
        ),
{
    let one = before.push(EventModel::CData(text));
    let two = before.push(EventModel::CData(other));
    lemma_run_concat(ParserModel::initial(), one, after);
    lemma_run_concat(ParserModel::initial(), two, after);
    assert(one.drop_last() =~= before);
    assert(two.drop_last() =~= before);
}

/// Plain character data and a CDATA section with the same text count
/// alike, wherever they stand.
pub proof fn character_data_counts_alike(
    before: Seq<EventModel>,
    text: Seq<char>,
    after: Seq<EventModel>,
)
    ensures
        episodes_of(before.push(EventModel::Characters(text)) + after) == episodes_of(
            before.push(EventModel::CData(text)) + after,
        ),
{
    let one = before.push(EventModel::Characters(text));
    let two = before.push(EventModel::CData(text));
    lemma_run_concat(ParserModel::initial(), one, after);
    lemma_run_concat(ParserModel::initial(), two, after);
    assert(one.drop_last() =~= before);
    assert(two.drop_last() =~= before);
}

// The title.

/// The ordinal counts title texts, not items: after any stream it is one
/// more than the number of title texts in it.
pub proof fn counter_counts_title_texts(events: Seq<EventModel>)
    ensures
        ParserModel::initial().run(events).counter == 1 + titles_before(
            events,
            events.len() as int,
        ),
{
    lemma_counter(events, events.len() as int);
    lemma_whole(events);
}

/// The title of an episode is the label of the last title text in its
/// span, numbered among all title texts of the stream.
pub proof fn title_from_last_title_text(events: Seq<EventModel>, first: int, end: int, at: int)
    requires
        is_span(events, first, end),
        first <= at < end,
        is_title_text(events, at),
        forall|i: int| at < i < end ==> !is_title_text(events, i),
    ensures
        episodes_of(events)[boundaries_before(events, end) as int].title == episode_label(
            titles_before(events, at + 1),
        ),
{
    lemma_closed_at(events, end);
    lemma_title_kept(events, at, end);
}

/// An episode in whose span no title text occurs has an empty title.
pub proof fn no_title_text_no_title(events: Seq<EventModel>, first: int, end: int)
    requires
        is_span(events, first, end),
        forall|i: int| first <= i < end ==> !is_title_text(events, i),
    ensures
        episodes_of(events)[boundaries_before(events, end) as int].title == Seq::<char>::empty(),
{
    lemma_closed_at(events, end);
    fresh_after_boundary(events, first);
    lemma_title_untouched(events, first, end);
}

/// The episode in place `k`, counted from one, is titled `episode #k`
/// whenever a title text occurs in its span and `k` title texts have
/// occurred in the stream by the end of its item. What the title text says
/// plays no part.
pub proof fn title_is_ordinal(events: Seq<EventModel>, first: int, end: int, at: int)
    requires
        is_span(events, first, end),
        first <= at < end,
        is_title_text(events, at),
        titles_before(events, end) == boundaries_before(events, end) + 1,
    ensures
        episodes_of(events)[boundaries_before(events, end) as int].title == episode_label(
            boundaries_before(events, end) + 1,
        ),
{
    lemma_last_title_text(events, first, end);
    let last = last_title_text(events, first, end);
    assert(last >= at);
    lemma_titles_rest(events, last + 1, end);
    title_from_last_title_text(events, first, end, last);
}

/// Those are the only streams on which it is: an episode in place `k`,
/// counted from one, that is titled `episode #k` has a title text in its
/// span, and `k` title texts have occurred by the end of its item.
pub proof fn title_is_ordinal_only_then(events: Seq<EventModel>, first: int, end: int)
    requires
        is_span(events, first, end),
        episodes_of(events)[boundaries_before(events, end) as int].title == episode_label(
            boundaries_before(events, end) + 1,
        ),
    ensures
        exists|at: int| first <= at < end && is_title_text(events, at),
        titles_before(events, end) == boundaries_before(events, end) + 1,
{
    lemma_last_title_text(events, first, end);
    let last = last_title_text(events, first, end);
    let place = boundaries_before(events, end);
    if last < first {
        no_title_text_no_title(events, first, end);
        assert(episode_label(place + 1).len() > 0);
    } else {
        title_from_last_title_text(events, first, end, last);
        label_is_one_to_one(titles_before(events, last + 1), place + 1);
        lemma_titles_rest(events, last + 1, end);
        assert(first <= last < end && is_title_text(events, last));
    }
}

// The description.

/// The description of an episode is the text of the last description text
/// in its span.
pub proof fn description_from_last_text(events: Seq<EventModel>, first: int, end: int, at: int)
    requires
        is_span(events, first, end),
        first <= at < end,
        is_description_text(events, at),
        forall|i: int| at < i < end ==> !is_description_text(events, i),
    ensures
        events[at].text() is Some,
        episodes_of(events)[boundaries_before(events, end) as int].description
            == events[at].text()->0,
{
    lemma_closed_at(events, end);
    lemma_description_kept(events, at, end);
}

/// An episode in whose span no description text occurs has an empty
/// description.
pub proof fn no_description_text_no_description(events: Seq<EventModel>, first: int, end: int)
    requires
        is_span(events, first, end),
        forall|i: int| first <= i < end ==> !is_description_text(events, i),
    ensures
        episodes_of(events)[boundaries_before(events, end) as int].description == Seq::<
            char,
        >::empty(),
{
    lemma_closed_at(events, end);
    fresh_after_boundary(events, first);
    lemma_description_untouched(events, first, end);
}

// The audio location.

/// The audio location of an episode is the one that the last enclosure
/// with a `url` attribute in its span announces.
pub proof fn audio_from_last_announcement(events: Seq<EventModel>, first: int, end: int, at: int)
    requires
        is_span(events, first, end),
        first <= at < end,
        announced_url(events[at]) is Some,
        forall|i: int| at < i < end ==> announced_url(#[trigger] events[i]) is None,
    ensures
        episodes_of(events)[boundaries_before(events, end) as int].audio_url == announced_url(
            events[at],
        ),
{
    lemma_closed_at(events, end);
    lemma_audio_kept(events, at, end);
}

/// The audio location of an episode is the `url` attribute of the last
/// enclosure in its span, there or not there as the attribute is, unless
/// that enclosure has no such attribute and an earlier one in the span
/// has: then the earlier one stands.
pub proof fn audio_from_last_enclosure(events: Seq<EventModel>, first: int, end: int, at: int)
    requires
        is_span(events, first, end),
        first <= at < end,
        events[at].opens(ENCLOSURE@),
        forall|i: int| at < i < end ==> !(#[trigger] events[i]).opens(ENCLOSURE@),
        url_attribute(events[at]->StartElement_attributes) is Some || forall|i: int|
            first <= i < at ==> announced_url(#[trigger] events[i]) is None,
    ensures
        episodes_of(events)[boundaries_before(events, end) as int].audio_url == url_attribute(
            events[at]->StartElement_attributes,
        ),
{
    if url_attribute(events[at]->StartElement_attributes) is Some {
        audio_from_last_announcement(events, first, end, at);
    } else {
        assert forall|i: int| first <= i < end implies announced_url(#[trigger] events[i])
            is None by {
            if i > at {
                assert(!events[i].opens(ENCLOSURE@));
            }
        }
        no_announcement_no_audio(events, first, end);
    }
}

/// An episode in whose span no enclosure has a `url` attribute, and so one
/// in whose span no enclosure occurs at all, has no audio location.
pub proof fn no_announcement_no_audio(events: Seq<EventModel>, first: int, end: int)
    requires
        is_span(events, first, end),
        forall|i: int| first <= i < end ==> announced_url(#[trigger] events[i]) is None,
    ensures
        episodes_of(events)[boundaries_before(events, end) as int].audio_url is None,
{
    lemma_closed_at(events, end);
    fresh_after_boundary(events, first);
    lemma_audio_untouched(events, first, end);
}

// Supporting lemmas.

proof fn lemma_step_at(events: Seq<EventModel>, i: int)
    requires
        0 <= i < events.len(),
    ensures
        parser_before(events, i + 1) == parser_before(events, i).step(events[i]),
{
    assert(events.take(i + 1).drop_last() =~= events.take(i));
    assert(events.take(i + 1).last() == events[i]);
}

proof fn lemma_whole(events: Seq<EventModel>)
    ensures
        parser_before(events, events.len() as int) == ParserModel::initial().run(events),
{
    assert(events.take(events.len() as int) =~= events);
}

proof fn lemma_run_concat(parser: ParserModel, events: Seq<EventModel>, more: Seq<EventModel>)
    ensures
        parser.run(events + more) == parser.run(events).run(more),
    decreases more.len(),
{
    if more.len() == 0 {
        assert(events + more =~= events);
    } else {
        lemma_run_concat(parser, events, more.drop_last());
        assert((events + more).drop_last() =~= events + more.drop_last());
    }
}

proof fn lemma_finished_count(events: Seq<EventModel>, i: int)
    requires
        0 <= i <= events.len(),
    ensures
        parser_before(events, i).finished.len() == boundaries_before(events, i),
    decreases i,
{
    if i == 0 {
        assert(events.take(0) =~= Seq::empty());
    } else {
        lemma_finished_count(events, i - 1);
        lemma_step_at(events, i - 1);
    }
}

proof fn lemma_finished_grows(events: Seq<EventModel>, i: int, n: int)
    requires
        0 <= i <= n <= events.len(),
    ensures
        is_prefix(parser_before(events, i).finished, parser_before(events, n).finished),
    decreases n - i,
{
    let early = parser_before(events, i).finished;
    if i == n {
        assert(early.take(early.len() as int) =~= early);
    } else {
        lemma_finished_grows(events, i, n - 1);
        lemma_step_at(events, n - 1);
        let before = parser_before(events, n - 1).finished;
        let after = parser_before(events, n).finished;
        assert(after.take(early.len() as int) =~= before.take(early.len() as int));
    }
}

proof fn lemma_closed_at(events: Seq<EventModel>, end: int)
    requires
        0 <= end < events.len(),
        is_boundary(events[end]),
    ensures
        boundaries_before(events, end) < episodes_of(events).len(),
        episodes_of(events)[boundaries_before(events, end) as int] == parser_before(
            events,
            end,
        ).working,
{
    let k = boundaries_before(events, end) as int;
    lemma_finished_count(events, end);
    lemma_step_at(events, end);
    lemma_finished_grows(events, end + 1, events.len() as int);
    lemma_whole(events);
    let closed = parser_before(events, end + 1).finished;
    assert(closed[k] == parser_before(events, end).working);
    assert(episodes_of(events).take(closed.len() as int)[k] == episodes_of(events)[k]);
}

proof fn lemma_boundaries_grow(events: Seq<EventModel>, i: int, n: int)
    requires
        0 <= i <= n,
    ensures
        boundaries_before(events, i) <= boundaries_before(events, n),
    decreases n - i,
{
    if i < n {
        lemma_boundaries_grow(events, i, n - 1);
    }
}

proof fn lemma_boundaries_of_prefix(events: Seq<EventModel>, n: int, i: int)
    requires
        0 <= i <= n <= events.len(),
    ensures
        boundaries_before(events.take(n), i) == boundaries_before(events, i),
    decreases i,
{
    if i > 0 {
        lemma_boundaries_of_prefix(events, n, i - 1);
    }
}

proof fn lemma_boundaries_rest(events: Seq<EventModel>, j: int, i: int)
    requires
        0 <= j <= i <= events.len(),
        forall|t: int| j <= t < i ==> !is_boundary(#[trigger] events[t]),
    ensures
        boundaries_before(events, i) == boundaries_before(events, j),
    decreases i - j,
{
    if j < i {
        lemma_boundaries_rest(events, j, i - 1);
    }
}

proof fn lemma_no_boundaries(events: Seq<EventModel>, i: int)
    requires
        0 <= i <= events.len(),
        forall|t: int| 0 <= t < i ==> !is_boundary(#[trigger] events[t]),
    ensures
        boundaries_before(events, i) == 0,
    decreases i,
{
    if i > 0 {
        lemma_no_boundaries(events, i - 1);
    }
}

proof fn lemma_counter(events: Seq<EventModel>, i: int)
    requires
        0 <= i <= events.len(),
    ensures
        parser_before(events, i).counter == 1 + titles_before(events, i),
    decreases i,
{
    if i == 0 {
        assert(events.take(0) =~= Seq::empty());
    } else {
        lemma_counter(events, i - 1);
        lemma_step_at(events, i - 1);
    }
}

proof fn lemma_titles_rest(events: Seq<EventModel>, j: int, i: int)
    requires
        0 <= j <= i <= events.len(),
        forall|t: int| j <= t < i ==> !is_title_text(events, t),
    ensures
        titles_before(events, i) == titles_before(events, j),
    decreases i - j,
{
    if j < i {
        lemma_titles_rest(events, j, i - 1);
    }
}

/// The greatest position in `first..end` that holds a title text, or
/// `first - 1` where there is none.
spec fn last_title_text(events: Seq<EventModel>, first: int, end: int) -> int
    decreases end - first,
{
    if end <= first {
        first - 1
    } else if is_title_text(events, end - 1) {
        end - 1
    } else {
        last_title_text(events, first, end - 1)
    }
}

proof fn lemma_last_title_text(events: Seq<EventModel>, first: int, end: int)
    requires
        first <= end,
    ensures
        first - 1 <= last_title_text(events, first, end) < end,
        last_title_text(events, first, end) >= first ==> is_title_text(
            events,
            last_title_text(events, first, end),
        ),
        forall|t: int| last_title_text(events, first, end) < t < end ==> !is_title_text(events, t),
    decreases end - first,
{
    if first < end && !is_title_text(events, end - 1) {
        lemma_last_title_text(events, first, end - 1);
    }
}

proof fn lemma_title_kept(events: Seq<EventModel>, j: int, i: int)
    requires
        0 <= j < i <= events.len(),
        is_title_text(events, j),
        forall|t: int|
            j < t < i ==> !is_title_text(events, t) && !is_boundary(#[trigger] events[t]),
    ensures
        parser_before(events, i).working.title == episode_label(titles_before(events, j + 1)),
    decreases i - j,
{
    lemma_step_at(events, i - 1);
    if i == j + 1 {
        lemma_counter(events, j);
    } else {
        lemma_title_kept(events, j, i - 1);
    }
}

proof fn lemma_title_untouched(events: Seq<EventModel>, first: int, i: int)
    requires
        0 <= first <= i <= events.len(),
        forall|t: int|
            first <= t < i ==> !is_title_text(events, t) && !is_boundary(#[trigger] events[t]),
    ensures
        parser_before(events, i).working.title == parser_before(events, first).working.title,
    decreases i - first,
{
    if first < i {
        lemma_title_untouched(events, first, i - 1);
        lemma_step_at(events, i - 1);
    }
}

proof fn lemma_description_kept(events: Seq<EventModel>, j: int, i: int)
    requires
        0 <= j < i <= events.len(),
        is_description_text(events, j),
        forall|t: int|
            j < t < i ==> !is_description_text(events, t) && !is_boundary(#[trigger] events[t]),
    ensures
        parser_before(events, i).working.description == events[j].text()->0,
    decreases i - j,
{
    lemma_step_at(events, i - 1);
    if i > j + 1 {
        lemma_description_kept(events, j, i - 1);
    }
}

proof fn lemma_description_untouched(events: Seq<EventModel>, first: int, i: int)
    requires
        0 <= first <= i <= events.len(),
        forall|t: int|
            first <= t < i ==> !is_description_text(events, t) && !is_boundary(
                #[trigger] events[t],
            ),
    ensures
        parser_before(events, i).working.description == parser_before(
            events,
            first,
        ).working.description,
    decreases i - first,
{
    if first < i {
        lemma_description_untouched(events, first, i - 1);
        lemma_step_at(events, i - 1);
    }
}

proof fn lemma_audio_kept(events: Seq<EventModel>, j: int, i: int)
    requires
        0 <= j < i <= events.len(),
        announced_url(events[j]) is Some,
        forall|t: int|
            j < t < i ==> announced_url(#[trigger] events[t]) is None && !is_boundary(events[t]),
    ensures
        parser_before(events, i).working.audio_url == announced_url(events[j]),
    decreases i - j,
{
    lemma_step_at(events, i - 1);
    lemma_element_names_differ();
    if i > j + 1 {
        lemma_audio_kept(events, j, i - 1);
    }
}

proof fn lemma_audio_untouched(events: Seq<EventModel>, first: int, i: int)
    requires
        0 <= first <= i <= events.len(),
        forall|t: int|
            first <= t < i ==> announced_url(#[trigger] events[t]) is None && !is_boundary(
                events[t],
            ),
    ensures
        parser_before(events, i).working.audio_url == parser_before(
            events,
            first,
        ).working.audio_url,
    decreases i - first,
{
    if first < i {
        lemma_audio_untouched(events, first, i - 1);
        lemma_step_at(events, i - 1);
    }
}

} // verus!
