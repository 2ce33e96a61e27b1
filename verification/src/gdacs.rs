//! Hazard alerts from a news feed: walking the events of the feed's XML and
//! collecting one record per item that says where it happened.
//!
//! Coordinates are kept as the feed wrote them. Reading them as numbers is
//! left to the caller, who drops the records whose coordinates are none.

use vstd::prelude::*;
use crate::feeds::{strip_html, without_tags};
use crate::text::{
    chars_of, collapse_whitespace, same_str, string_of, trim_span, trimmed, word_spans, words,
};

verus! {

/// A reader of `quick_xml` over the text of a feed. Nothing of its inside
/// is known here.
#[verifier::external_type_specification]
#[verifier::external_body]
#[verifier::reject_recursive_types(R)]
pub struct ExReader<R>(quick_xml::Reader<R>);

/// One event of the feed's XML, as far as the alerts depend on it.
#[derive(Clone, Debug)]
pub enum XmlEvent {
    /// An element opens; its name.
    Start(String),
    /// Text inside an element, with its entities resolved.
    Text(String),
    /// An element closes; its name.
    End(String),
    /// The feed is at its end.
    Eof,
    /// The feed is not well formed; what the reader says of it.
    Failed(String),
    /// Anything else: comments, declarations, empty elements.
    Other,
}

/// One event, as character sequences.
pub enum XmlEventText {
    Start(Seq<char>),
    Text(Seq<char>),
    End(Seq<char>),
    Eof,
    Failed(Seq<char>),
    Other,
}

impl View for XmlEvent {
    type V = XmlEventText;

    open spec fn view(&self) -> XmlEventText {
        match *self {
            XmlEvent::Start(name) => XmlEventText::Start(name@),
            XmlEvent::Text(text) => XmlEventText::Text(text@),
            XmlEvent::End(name) => XmlEventText::End(name@),
            XmlEvent::Eof => XmlEventText::Eof,
            XmlEvent::Failed(why) => XmlEventText::Failed(why@),
            XmlEvent::Other => XmlEventText::Other,
        }
    }
}

/// What the feed says of one hazard.
#[derive(Clone, Debug)]
pub struct GdacsItem {
    pub title: String,
    pub description: String,
    pub link: String,
    pub pub_date: String,
    pub alert_level: String,
    pub event_type: String,
    pub country: String,
    pub event_id: String,
    pub latitude: Option<String>,
    pub longitude: Option<String>,
}

/// One item, as character sequences.
pub struct GdacsItemText {
    pub title: Seq<char>,
    pub description: Seq<char>,
    pub link: Seq<char>,
    pub pub_date: Seq<char>,
    pub alert_level: Seq<char>,
    pub event_type: Seq<char>,
    pub country: Seq<char>,
    pub event_id: Seq<char>,
    pub latitude: Option<Seq<char>>,
    pub longitude: Option<Seq<char>>,
}

impl View for GdacsItem {
    type V = GdacsItemText;

    open spec fn view(&self) -> GdacsItemText {
        GdacsItemText {
            title: self.title@,
            description: self.description@,
            link: self.link@,
            pub_date: self.pub_date@,
            alert_level: self.alert_level@,
            event_type: self.event_type@,
            country: self.country@,
            event_id: self.event_id@,
            latitude: match self.latitude {
                Some(t) => Some(t@),
                None => None,
            },
            longitude: match self.longitude {
                Some(t) => Some(t@),
                None => None,
            },
        }
    }
}

/// What each item holds.
pub open spec fn items_text(items: Seq<GdacsItem>) -> Seq<GdacsItemText> {
    Seq::new(items.len(), |i: int| items[i]@)
}

/// Where the walk through a feed stands.
pub struct FeedState {
    /// Whether the walk is inside an item.
    pub in_item: bool,
    /// Name of the element that opened last.
    pub current_tag: Seq<char>,
    /// What is known of the item the walk is in, or was in last.
    pub draft: GdacsItemText,
    /// The items collected so far.
    pub items: Seq<GdacsItemText>,
}

/// An item of which nothing is known.
pub open spec fn blank_item() -> GdacsItemText {
    GdacsItemText {
        title: Seq::empty(),
        description: Seq::empty(),
        link: Seq::empty(),
        pub_date: Seq::empty(),
        alert_level: Seq::empty(),
        event_type: Seq::empty(),
        country: Seq::empty(),
        event_id: Seq::empty(),
        latitude: None,
        longitude: None,
    }
}

/// The state before the first event.
pub open spec fn initial_state() -> FeedState {
    FeedState { in_item: false, current_tag: Seq::empty(), draft: blank_item(), items: Seq::empty() }
}

/// The draft after `text` was read inside the element `tag`. A point is
/// written as a latitude and a longitude with white space between them;
/// a point written otherwise leaves the draft as it is, and so does the
/// text of an element that the alerts do not read.
pub open spec fn with_field(draft: GdacsItemText, tag: Seq<char>, text: Seq<char>) -> GdacsItemText {
    if tag == "title"@ {
        GdacsItemText { title: text, ..draft }
    } else if tag == "description"@ {
        GdacsItemText { description: text, ..draft }
    } else if tag == "link"@ {
        GdacsItemText { link: text, ..draft }
    } else if tag == "pubDate"@ {
        GdacsItemText { pub_date: text, ..draft }
    } else if tag == "gdacs:alertlevel"@ {
        GdacsItemText { alert_level: text, ..draft }
    } else if tag == "gdacs:eventtype"@ {
        GdacsItemText { event_type: text, ..draft }
    } else if tag == "gdacs:country"@ {
        GdacsItemText { country: text, ..draft }
    } else if tag == "gdacs:eventid"@ {
        GdacsItemText { event_id: text, ..draft }
    } else if tag == "geo:lat"@ {
        GdacsItemText { latitude: Some(text), ..draft }
    } else if tag == "geo:long"@ {
        GdacsItemText { longitude: Some(text), ..draft }
    } else if tag == "georss:point"@ {
        let parts = words(text);
        if parts.len() == 2 {
            GdacsItemText { latitude: Some(parts[0]), longitude: Some(parts[1]), ..draft }
        } else {
            draft
        }
    } else {
        draft
    }
}

/// The record that is kept of a finished item: the draft, its description
/// freed of markup.
pub open spec fn finished_item(draft: GdacsItemText) -> GdacsItemText {
    GdacsItemText { description: collapse_whitespace(without_tags(draft.description)), ..draft }
}

/// The state after one event.
///
/// An element that opens becomes the current one, and an `item` that opens
/// begins a blank draft. Text counts only inside an item and only where
/// more than white space is left of it after trimming. An `item` that
/// closes is kept if it has a latitude and a longitude.
pub open spec fn next_state(state: FeedState, event: XmlEventText) -> FeedState {
    match event {
        XmlEventText::Start(name) => if name == "item"@ {
            FeedState { in_item: true, current_tag: name, draft: blank_item(), ..state }
        } else {
            FeedState { current_tag: name, ..state }
        },
        XmlEventText::Text(raw) => if state.in_item && trimmed(raw).len() > 0 {
            FeedState { draft: with_field(state.draft, state.current_tag, trimmed(raw)), ..state }
        } else {
            state
        },
        XmlEventText::End(name) => if name == "item"@ && state.in_item {
            FeedState {
                in_item: false,
                items: if state.draft.latitude is Some && state.draft.longitude is Some {
                    state.items.push(finished_item(state.draft))
                } else {
                    state.items
                },
                ..state
            }
        } else {
            state
        },
        _ => state,
    }
}

/// The state after a sequence of events.
pub open spec fn state_after(events: Seq<XmlEventText>) -> FeedState
    decreases events.len(),
{
    if events.len() == 0 {
        initial_state()
    } else {
        next_state(state_after(events.drop_last()), events.last())
    }
}

/// The walk through a feed, fed one event at a time.
pub struct FeedWalk {
    in_item: bool,
    current_tag: String,
    draft: GdacsItem,
    items: Vec<GdacsItem>,
}

impl View for FeedWalk {
    type V = FeedState;

    closed spec fn view(&self) -> FeedState {
        FeedState {
            in_item: self.in_item,
            current_tag: self.current_tag@,
            draft: self.draft@,
            items: items_text(self.items@),
        }
    }
}

fn new_draft() -> (draft: GdacsItem)
    ensures
        draft@ == blank_item(),
{
    GdacsItem {
        title: String::new(),
        description: String::new(),
        link: String::new(),
        pub_date: String::new(),
        alert_level: String::new(),
        event_type: String::new(),
        country: String::new(),
        event_id: String::new(),
        latitude: None,
        longitude: None,
    }
}

fn copy_of(text: &Option<String>) -> (r: Option<String>)
    ensures
        r is Some == text is Some,
        r matches Some(t) ==> t@ == text->0@,
{
    match text {
        Some(t) => Some(t.clone()),
        None => None,
    }
}

fn finish_item(draft: &GdacsItem) -> (item: GdacsItem)
    ensures
        item@ == finished_item(draft@),
{
    GdacsItem {
        title: draft.title.clone(),
        description: strip_html(draft.description.as_str()),
        link: draft.link.clone(),
        pub_date: draft.pub_date.clone(),
        alert_level: draft.alert_level.clone(),
        event_type: draft.event_type.clone(),
        country: draft.country.clone(),
        event_id: draft.event_id.clone(),
        latitude: copy_of(&draft.latitude),
        longitude: copy_of(&draft.longitude),
    }
}

fn set_field(draft: &mut GdacsItem, tag: &str, text: &Vec<char>, from: usize, to: usize)
    requires
        from <= to <= text.len(),
    ensures
        final(draft)@ == with_field(old(draft)@, tag@, text@.subrange(from as int, to as int)),
{
    let ghost part = text@.subrange(from as int, to as int);
    if same_str(tag, "title") {
        draft.title = string_of(text, from, to);
    } else if same_str(tag, "description") {
        draft.description = string_of(text, from, to);
    } else if same_str(tag, "link") {
        draft.link = string_of(text, from, to);
    } else if same_str(tag, "pubDate") {
        draft.pub_date = string_of(text, from, to);
    } else if same_str(tag, "gdacs:alertlevel") {
        draft.alert_level = string_of(text, from, to);
    } else if same_str(tag, "gdacs:eventtype") {
        draft.event_type = string_of(text, from, to);
    } else if same_str(tag, "gdacs:country") {
        draft.country = string_of(text, from, to);
    } else if same_str(tag, "gdacs:eventid") {
        draft.event_id = string_of(text, from, to);
    } else if same_str(tag, "geo:lat") {
        draft.latitude = Some(string_of(text, from, to));
    } else if same_str(tag, "geo:long") {
        draft.longitude = Some(string_of(text, from, to));
    } else if same_str(tag, "georss:point") {
        let mut piece: Vec<char> = Vec::new();
        let mut i: usize = from;
        while i < to
            invariant
                from <= i <= to <= text.len(),
                piece@ == text@.subrange(from as int, i as int),
            decreases to - i,
        {
            piece.push(text[i]);
            proof {
                assert(text@.subrange(from as int, i as int).push(text@[i as int])
                    =~= text@.subrange(from as int, i + 1));
            }
            i += 1;
        }
        let spans = word_spans(&piece);
        if spans.len() == 2 {
            let first = spans[0];
            let second = spans[1];
            assert(words(part)[0] == piece@.subrange(first.start as int, first.end as int));
            assert(words(part)[1] == piece@.subrange(second.start as int, second.end as int));
            draft.latitude = Some(string_of(&piece, first.start, first.end));
            draft.longitude = Some(string_of(&piece, second.start, second.end));
        }
    }
}

impl FeedWalk {
    /// A walk that has seen no event.
    pub fn new() -> (walk: FeedWalk)
        ensures
            walk@ == initial_state(),
    {
        let walk = FeedWalk {
            in_item: false,
            current_tag: String::new(),
            draft: new_draft(),
            items: Vec::new(),
        };
        proof {
            assert(items_text(walk.items@) =~= Seq::<GdacsItemText>::empty());
        }
        walk
    }

    /// Takes the next event.
    pub fn feed(&mut self, event: XmlEvent)
        ensures
            final(self)@ == next_state(old(self)@, event@),
    {
        match event {
            XmlEvent::Start(name) => {
                if same_str(name.as_str(), "item") {
                    self.in_item = true;
                    self.draft = new_draft();
                }
                self.current_tag = name;
            },
            XmlEvent::Text(raw) => {
                if self.in_item {
                    let chars = chars_of(raw.as_str());
                    let span = trim_span(&chars, 0, chars.len());
                    if span.start < span.end {
                        set_field(
                            &mut self.draft,
                            self.current_tag.as_str(),
                            &chars,
                            span.start,
                            span.end,
                        );
                    }
                }
            },
            XmlEvent::End(name) => {
                if self.in_item && same_str(name.as_str(), "item") {
                    self.in_item = false;
                    if self.draft.latitude.is_some() && self.draft.longitude.is_some() {
                        let ghost before = items_text(self.items@);
                        let item = finish_item(&self.draft);
                        self.items.push(item);
                        proof {
                            assert(items_text(self.items@) =~= before.push(
                                finished_item(self.draft@),
                            ));
                        }
                    }
                }
            },
            _ => {},
        }
    }

    /// Ends the walk and hands out the items.
    pub fn finish(self) -> (items: Vec<GdacsItem>)
        ensures
            items_text(items@) == self@.items,
    {
        self.items
    }
}

/// Runs the whole walk over events that are already at hand.
pub fn collect_items(events: Vec<XmlEvent>) -> (items: Vec<GdacsItem>)
    ensures
        items_text(items@) == state_after(Seq::new(events@.len(), |i: int| events@[i]@)).items,
{
    let ghost all = Seq::new(events@.len(), |i: int| events@[i]@);
    let mut walk = FeedWalk::new();
    let mut rest = events;
    let mut reversed: Vec<XmlEvent> = Vec::new();
    while rest.len() > 0
        invariant
            rest@.len() + reversed@.len() == all.len(),
            forall|k: int| 0 <= k < rest@.len() ==> (#[trigger] rest@[k])@ == all[k],
            forall|k: int|
                0 <= k < reversed@.len() ==> (#[trigger] reversed@[k])@ == all[all.len() - 1 - k],
        decreases rest.len(),
    {
        let e = rest.pop().unwrap();
        reversed.push(e);
    }
    let ghost mut done: int = 0;
    while reversed.len() > 0
        invariant
            0 <= done <= all.len(),
            reversed@.len() + done == all.len(),
            forall|k: int|
                0 <= k < reversed@.len() ==> (#[trigger] reversed@[k])@ == all[all.len() - 1 - k],
            walk@ == state_after(all.take(done)),
        decreases reversed.len(),
    {
        let e = reversed.pop().unwrap();
        walk.feed(e);
        proof {
            assert(all.take(done + 1).drop_last() =~= all.take(done));
            done = done + 1;
        }
    }
    proof {
        assert(all.take(done) =~= all);
    }
    walk.finish()
}

/// Opens a `quick_xml::Reader` over a text with `Reader::from_str`.
/// Nothing is claimed of the reader.
#[verifier::external_body]
fn open_reader<'a>(xml: &'a str) -> quick_xml::Reader<&'a [u8]> {
    quick_xml::Reader::from_str(xml)
}

/// Reads the next event with `quick_xml::Reader::read_event` and turns it
/// into an [`XmlEvent`]: names and texts become strings, an error becomes
/// its message. Nothing is claimed of which event comes back.
#[verifier::external_body]
fn next_event(reader: &mut quick_xml::Reader<&[u8]>) -> XmlEvent {
    match reader.read_event() {
        Ok(quick_xml::events::Event::Start(e)) => XmlEvent::Start(String::from_utf8_lossy(e.name().as_ref()).to_string()),
        Ok(quick_xml::events::Event::Text(e)) => XmlEvent::Text(e.unescape().unwrap_or_default().to_string()),
        Ok(quick_xml::events::Event::End(e)) => XmlEvent::End(String::from_utf8_lossy(e.name().as_ref()).to_string()),
        Ok(quick_xml::events::Event::Eof) => XmlEvent::Eof,
        Ok(_) => XmlEvent::Other,
        Err(e) => XmlEvent::Failed(format!("XML parse error: {}", e)),
    }
}

/// Whether `outcome` is what a walk over `events` comes to: the items
/// collected up to the end of the feed, or the failure that stopped it.
pub open spec fn is_outcome(
    outcome: Result<Seq<GdacsItemText>, Seq<char>>,
    events: Seq<XmlEventText>,
) -> bool {
    match outcome {
        Ok(items) => items == state_after(events).items,
        Err(why) => events.len() > 0 && events.last() == XmlEventText::Failed(why),
    }
}

/// What a result holds, as character sequences.
pub open spec fn result_text(r: Result<Vec<GdacsItem>, String>) -> Result<
    Seq<GdacsItemText>,
    Seq<char>,
> {
    match r {
        Ok(items) => Ok(items_text(items@)),
        Err(why) => Err(why@),
    }
}

/// Reads the alerts out of the XML of a feed.
///
/// The events are those the reader gives for the text. Whatever they are,
/// the result is the outcome of the walk over them: every item that closed
/// with a latitude and a longitude, in the order of the feed, or the
/// reader's complaint about a feed that is not well formed. A reader that
/// gives more events than the text has bytes is taken for stuck and its
/// feed for not well formed.
pub fn parse_gdacs_rss(xml: &str) -> (r: Result<Vec<GdacsItem>, String>)
    ensures
        exists|events: Seq<XmlEventText>| #[trigger] is_outcome(result_text(r), events),
{
    let mut reader = open_reader(xml);
    let mut walk = FeedWalk::new();
    let ghost mut seen: Seq<XmlEventText> = Seq::empty();
    let mut budget: usize = xml.as_bytes().len();
    loop
        invariant
            walk@ == state_after(seen),
        decreases budget,
    {
        let event = next_event(&mut reader);
        match event {
            XmlEvent::Eof => {
                let items = walk.finish();
                proof {
                    assert(is_outcome(result_text(Ok(items)), seen));
                }
                return Ok(items);
            },
            XmlEvent::Failed(why) => {
                proof {
                    let all = seen.push(XmlEventText::Failed(why@));
                    assert(is_outcome(result_text(Err(why)), all));
                }
                return Err(why);
            },
            other => {
                if budget == 0 {
                    let why = "XML parse error: no end of input".to_owned();
                    proof {
                        let all = seen.push(XmlEventText::Failed(why@));
                        assert(is_outcome(result_text(Err(why)), all));
                    }
                    return Err(why);
                }
                let ghost step = other@;
                walk.feed(other);
                proof {
                    assert(seen.push(step).drop_last() =~= seen);
                    seen = seen.push(step);
                }
                budget = budget - 1;
            },
        }
    }
}

} // verus!
