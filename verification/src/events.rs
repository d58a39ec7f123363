//! The event stream a markup document is decoded from.
//!
//! A document is a tree of named elements; tokenized, it becomes a flat
//! sequence of events. The decoder only distinguishes start tags (with
//! their attributes) and end tags; every other event (text, comments,
//! document markers) is `Other`: consumed, never interpreted.

use vstd::prelude::*;

verus! {

/// A named string value attached to a start tag.
pub struct Attribute {
    pub name: String,
    pub value: String,
}

/// The mathematical content of an [`Attribute`].
pub ghost struct AttrV {
    pub name: Seq<char>,
    pub value: Seq<char>,
}

impl View for Attribute {
    type V = AttrV;

    open spec fn view(&self) -> AttrV {
        AttrV { name: self.name@, value: self.value@ }
    }
}

impl Clone for Attribute {
    fn clone(&self) -> (res: Self)
        ensures
            res == *self,
    {
        Attribute { name: self.name.clone(), value: self.value.clone() }
    }
}

/// One event of a tokenized markup document.
pub enum Event {
    /// A start tag with its attributes, in document order.
    Start { name: String, attrs: Vec<Attribute> },
    /// An end tag.
    End { name: String },
    /// Anything else: text, whitespace, comments, document markers.
    Other,
}

/// The mathematical content of an [`Event`].
pub ghost enum EventV {
    Start { name: Seq<char>, attrs: Seq<AttrV> },
    End { name: Seq<char> },
    Other,
}

/// The contents of a sequence of attributes.
pub open spec fn attrs_view(attrs: Seq<Attribute>) -> Seq<AttrV> {
    attrs.map_values(|a: Attribute| a@)
}

impl View for Event {
    type V = EventV;

    open spec fn view(&self) -> EventV {
        match self {
            Event::Start { name, attrs } => EventV::Start { name: name@, attrs: attrs_view(attrs@) },
            Event::End { name } => EventV::End { name: name@ },
            Event::Other => EventV::Other,
        }
    }
}

fn clone_attributes(v: &Vec<Attribute>) -> (r: Vec<Attribute>)
    ensures
        r@ == v@,
{
    let mut r: Vec<Attribute> = Vec::new();
    let mut i: usize = 0;
    while i < v.len()
        invariant
            i <= v.len(),
            r@ == v@.subrange(0, i as int),
        decreases v.len() - i,
    {
        r.push(v[i].clone());
        assert(r@ =~= v@.subrange(0, i + 1));
        i += 1;
    }
    assert(v@.subrange(0, v@.len() as int) =~= v@);
    r
}

impl Clone for Event {
    fn clone(&self) -> (res: Self)
        ensures
            res@ == self@,
    {
        match self {
            Event::Start { name, attrs } => Event::Start {
                name: name.clone(),
                attrs: clone_attributes(attrs),
            },
            Event::End { name } => Event::End { name: name.clone() },
            Event::Other => Event::Other,
        }
    }
}

/// The contents of a sequence of events.
pub open spec fn events_view(events: Seq<Event>) -> Seq<EventV> {
    events.map_values(|e: Event| e@)
}

/// A cursor over the events of one document, handed down the decoder's call
/// chain by exclusive borrow; each handler consumes exactly its own subtree.
pub struct EventStream {
    events: Vec<Event>,
    pos: usize,
}

impl EventStream {
    /// All events of the document, from its beginning.
    pub closed spec fn events(&self) -> Seq<EventV> {
        events_view(self.events@)
    }

    /// How many events have been consumed so far.
    pub closed spec fn pos(&self) -> int {
        self.pos as int
    }

    /// A stream positioned at the first of the given events.
    pub fn new(events: Vec<Event>) -> (s: Self)
        ensures
            s.events() == events_view(events@),
            s.pos() == 0,
    {
        EventStream { events, pos: 0 }
    }

    /// The cursor index is machine-bounded.
    pub proof fn lemma_pos_bound(&self)
        ensures
            0 <= self.pos() <= usize::MAX as int,
    {
    }

    /// Consumes and returns the next event, or `None` at the end of the
    /// document.
    pub fn next(&mut self) -> (r: Option<Event>)
        ensures
            final(self).events() == old(self).events(),
            old(self).pos() < old(self).events().len() ==> {
                &&& r matches Some(e) && e@ == old(self).events()[old(self).pos()]
                &&& final(self).pos() == old(self).pos() + 1
            },
            old(self).pos() >= old(self).events().len() ==> r is None && *final(self) == *old(self),
    {
        if self.pos < self.events.len() {
            let e = self.events[self.pos].clone();
            self.pos = self.pos + 1;
            Some(e)
        } else {
            None
        }
    }
}

/// The recognized tag and attribute names are pairwise distinct where a
/// dispatch tells them apart.
pub(crate) proof fn lemma_name_literals()
    ensures
        "repeatx"@ != "repeaty"@,
        "source"@ != "width"@,
        "source"@ != "height"@,
        "width"@ != "height"@,
        "name"@ != "value"@,
        "image"@ != "properties"@,
{
    reveal_strlit("repeatx");
    reveal_strlit("repeaty");
    reveal_strlit("source");
    reveal_strlit("width");
    reveal_strlit("height");
    reveal_strlit("name");
    reveal_strlit("value");
    reveal_strlit("image");
    reveal_strlit("properties");
    assert(("repeatx"@)[6] != ("repeaty"@)[6]);
    assert(("source"@).len() != ("width"@).len());
    assert(("source"@)[0] != ("height"@)[0]);
    assert(("width"@).len() != ("height"@).len());
    assert(("name"@).len() != ("value"@).len());
    assert(("image"@).len() != ("properties"@).len());
}

/// What the markup tokenizer yields for a document's text: a pure function
/// of that text.
pub uninterp spec fn events_of(doc: Seq<char>) -> Seq<EventV>;

/// Relies on xml::reader::EventReader: it tokenizes a document's text into
/// start/end/other events, a function of that text alone. Events past the
/// first tokenizer error are dropped, so a malformed document yields a
/// stream that ends early.
#[verifier::external_body]
pub(crate) fn read_events(doc: &str) -> (r: Vec<Event>)
    ensures
        events_view(r@) == events_of(doc@),
{
    let mut out: Vec<Event> = Vec::new();
    for ev in xml::reader::EventReader::from_str(doc) {
        match ev {
            Ok(xml::reader::XmlEvent::StartElement { name, attributes, .. }) => out.push(Event::Start {
                name: name.local_name,
                attrs: attributes.into_iter().map(|a| Attribute { name: a.name.local_name, value: a.value }).collect(),
            }),
            Ok(xml::reader::XmlEvent::EndElement { name }) => out.push(Event::End { name: name.local_name }),
            Ok(_) => out.push(Event::Other),
            Err(_) => break,
        }
    }
    out
}

} // verus!
