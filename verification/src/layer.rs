//! Decoding of one "imagelayer" element.
//!
//! The element carries two tiling flags as attributes, at most one
//! meaningful "image" child and at most one meaningful "properties" child.
//! Attributes are first-write-wins (the first occurrence of a name decides
//! its slot); child elements are last-write-wins (a second occurrence
//! silently replaces the first).

use vstd::prelude::*;

use crate::coerce::{coerce_repeat_flags, scan_repeat};
use crate::dispatch::{lemma_skip_to_bounds, skip_subtree, skip_to};
use crate::error::{Error, ErrorV};
use crate::events::{
    attrs_view, events_of, lemma_name_literals, read_events, AttrV, Attribute, Event, EventStream,
    EventV,
};
use crate::image::{image_from_attrs, image_of_attrs, Image, ImageV};
use crate::paths::{parent_dir, parent_dir_of};
use crate::properties::{lemma_parse_props_bounds, parse_properties, parse_props_from, Properties};

verus! {

/// The raw data of an image layer. Does not include the common fields an
/// enclosing layer record wraps around every layer kind.
#[derive(Debug, Clone, PartialEq)]
pub struct ImageLayerData {
    /// The single image this layer contains, if it exists.
    pub image: Option<Image>,
    /// Image repeats horizontally.
    pub repeat_x: bool,
    /// Image repeats vertically.
    pub repeat_y: bool,
}

/// The mathematical content of an [`ImageLayerData`].
pub ghost struct ImageLayerDataV {
    pub image: Option<ImageV>,
    pub repeat_x: bool,
    pub repeat_y: bool,
}

/// The contents of a possibly absent picture reference.
pub open spec fn image_slot_view(img: Option<Image>) -> Option<ImageV> {
    match img {
        Some(i) => Some(i@),
        None => None,
    }
}

impl View for ImageLayerData {
    type V = ImageLayerDataV;

    open spec fn view(&self) -> ImageLayerDataV {
        ImageLayerDataV {
            image: image_slot_view(self.image),
            repeat_x: self.repeat_x,
            repeat_y: self.repeat_y,
        }
    }
}

/// The dispatch loop of an "imagelayer" element, read from `pos`, `img` and
/// `props` holding what the children already passed produced. An "image"
/// child resolves its attributes against `base` and replaces `img`, its
/// subtree skipped; a "properties" child parses into a fresh map replacing
/// `props`; any other child is skipped whole; the element's end tag ends
/// the loop. If the events run out first, the document is malformed.
pub open spec fn layer_loop(
    events: Seq<EventV>,
    pos: int,
    base: Seq<char>,
    img: Option<ImageV>,
    props: Map<Seq<char>, Seq<char>>,
) -> Result<(Option<ImageV>, Map<Seq<char>, Seq<char>>, int), ErrorV>
    decreases events.len() - pos,
    via layer_loop_decreases
{
    if pos < 0 || pos >= events.len() {
        Err(ErrorV::StructuralError)
    } else {
        match events[pos] {
            EventV::Other => layer_loop(events, pos + 1, base, img, props),
            EventV::End { name } => if name == "imagelayer"@ {
                Ok((img, props, pos + 1))
            } else {
                layer_loop(events, pos + 1, base, img, props)
            },
            EventV::Start { name, attrs } => {
                if name == "image"@ {
                    match image_of_attrs(attrs, base) {
                        Err(e) => Err(e),
                        Ok(iv) => match skip_to(events, pos + 1, 1) {
                            None => Err(ErrorV::StructuralError),
                            Some(np) => layer_loop(events, np, base, Some(iv), props),
                        },
                    }
                } else if name == "properties"@ {
                    match parse_props_from(events, pos + 1, Map::empty()) {
                        Err(e) => Err(e),
                        Ok(r) => layer_loop(events, r.1, base, img, r.0),
                    }
                } else {
                    match skip_to(events, pos + 1, 1) {
                        None => Err(ErrorV::StructuralError),
                        Some(np) => layer_loop(events, np, base, img, props),
                    }
                }
            },
        }
    }
}

#[via_fn]
proof fn layer_loop_decreases(
    events: Seq<EventV>,
    pos: int,
    base: Seq<char>,
    img: Option<ImageV>,
    props: Map<Seq<char>, Seq<char>>,
) {
    lemma_skip_to_bounds(events, pos + 1, 1);
    lemma_parse_props_bounds(events, pos + 1, Map::empty());
}

/// The record, property map and end position an "imagelayer" element
/// denotes: `pos` stands just after the element's start tag, whose
/// attributes are `attrs`, and `path` is the document's own path. The base
/// directory is the parent of `path`; the tiling flags come from the
/// `repeatx` and `repeaty` attributes, absent slots defaulting to false.
pub open spec fn layer_of(
    events: Seq<EventV>,
    pos: int,
    attrs: Seq<AttrV>,
    path: Seq<char>,
) -> Result<(ImageLayerDataV, Map<Seq<char>, Seq<char>>, int), ErrorV> {
    match parent_dir_of(path) {
        None => Err(ErrorV::PathIsNotFile),
        Some(base) => match scan_repeat(attrs, 0, None, None) {
            Err(e) => Err(e),
            Ok(slots) => match layer_loop(events, pos, base, None, Map::empty()) {
                Err(e) => Err(e),
                Ok(r) => Ok(
                    (
                        ImageLayerDataV {
                            image: r.0,
                            repeat_x: match slots.0 {
                                Some(b) => b,
                                None => false,
                            },
                            repeat_y: match slots.1 {
                                Some(b) => b,
                                None => false,
                            },
                        },
                        r.1,
                        r.2,
                    ),
                ),
            },
        },
    }
}

impl ImageLayerData {
    /// Decodes one "imagelayer" element. The stream stands just after the
    /// element's start tag, whose attributes are `attrs`; `map_path` is the
    /// path of the document itself, whose parent directory resolves the
    /// image's source. On success the stream stands just past the
    /// element's end tag.
    pub fn new(parser: &mut EventStream, attrs: Vec<Attribute>, map_path: &str) -> (r: Result<
        (ImageLayerData, Properties),
        Error,
    >)
        ensures
            final(parser).events() == old(parser).events(),
            match r {
                Ok(dp) => dp.1.wf() && layer_of(
                    old(parser).events(),
                    old(parser).pos(),
                    attrs_view(attrs@),
                    map_path@,
                ) == Ok::<_, ErrorV>((dp.0@, dp.1@, final(parser).pos())),
                Err(e) => layer_of(
                    old(parser).events(),
                    old(parser).pos(),
                    attrs_view(attrs@),
                    map_path@,
                ) == Err::<(ImageLayerDataV, Map<Seq<char>, Seq<char>>, int), _>(e@),
            },
            parent_dir_of(map_path@) is None ==> *final(parser) == *old(parser),
    {
        let base = match parent_dir(map_path) {
            None => {
                return Err(Error::PathIsNotFile);
            },
            Some(b) => b,
        };
        let slots = match coerce_repeat_flags(&attrs) {
            Err(e) => {
                return Err(e);
            },
            Ok(s) => s,
        };
        proof {
            lemma_name_literals();
            parser.lemma_pos_bound();
        }
        let image_name: String = "image".to_owned();
        let properties_name: String = "properties".to_owned();
        let imagelayer_name: String = "imagelayer".to_owned();
        let mut image: Option<Image> = None;
        let mut props = Properties::new();
        loop
            invariant
                parser.events() == old(parser).events(),
                0 <= old(parser).pos(),
                props.wf(),
                image_name@ == "image"@,
                properties_name@ == "properties"@,
                imagelayer_name@ == "imagelayer"@,
                "image"@ != "properties"@,
                base@ == parent_dir_of(map_path@)->Some_0,
                parent_dir_of(map_path@) is Some,
                layer_loop(
                    old(parser).events(),
                    old(parser).pos(),
                    base@,
                    None,
                    Map::empty(),
                ) == layer_loop(
                    old(parser).events(),
                    parser.pos(),
                    base@,
                    image_slot_view(image),
                    props@,
                ),
                scan_repeat(attrs_view(attrs@), 0, None, None) == Ok::<_, ErrorV>(slots),
            decreases parser.events().len() - parser.pos(),
        {
            proof {
                parser.lemma_pos_bound();
            }
            let ghost pos_top = parser.pos();
            match parser.next() {
                None => {
                    return Err(Error::StructuralError);
                },
                Some(e) => match e {
                    Event::Other => {},
                    Event::End { name } => {
                        if name == imagelayer_name {
                            return Ok(
                                (
                                    ImageLayerData {
                                        image,
                                        repeat_x: match slots.0 {
                                            Some(b) => b,
                                            None => false,
                                        },
                                        repeat_y: match slots.1 {
                                            Some(b) => b,
                                            None => false,
                                        },
                                    },
                                    props,
                                ),
                            );
                        }
                    },
                    Event::Start { name, attrs: child_attrs } => {
                        proof {
                            lemma_skip_to_bounds(old(parser).events(), pos_top + 1, 1);
                        }
                        if name == image_name {
                            match image_from_attrs(&child_attrs, base.as_str()) {
                                Err(er) => {
                                    return Err(er);
                                },
                                Ok(img) => match skip_subtree(parser) {
                                    Err(er) => {
                                        return Err(er);
                                    },
                                    Ok(()) => {
                                        image = Some(img);
                                    },
                                },
                            }
                        } else if name == properties_name {
                            proof {
                                lemma_parse_props_bounds(
                                    old(parser).events(),
                                    pos_top + 1,
                                    Map::empty(),
                                );
                            }
                            match parse_properties(parser) {
                                Err(er) => {
                                    return Err(er);
                                },
                                Ok(p) => {
                                    props = p;
                                },
                            }
                        } else {
                            match skip_subtree(parser) {
                                Err(er) => {
                                    return Err(er);
                                },
                                Ok(()) => {},
                            }
                        }
                    },
                },
            }
        }
    }
}

/// The position just after the first "imagelayer" start tag at or after
/// `pos`, with that tag's attributes.
pub open spec fn find_layer_start(events: Seq<EventV>, pos: int) -> Option<(Seq<AttrV>, int)>
    decreases events.len() - pos,
{
    if pos < 0 || pos >= events.len() {
        None
    } else {
        match events[pos] {
            EventV::Start { name, attrs } => if name == "imagelayer"@ {
                Some((attrs, pos + 1))
            } else {
                find_layer_start(events, pos + 1)
            },
            _ => find_layer_start(events, pos + 1),
        }
    }
}

/// The record and property map a whole document's text decodes to: its
/// first "imagelayer" element, decoded against the document path `path`.
/// A document with no "imagelayer" start tag is malformed.
pub open spec fn document_of(events: Seq<EventV>, path: Seq<char>) -> Result<
    (ImageLayerDataV, Map<Seq<char>, Seq<char>>),
    ErrorV,
> {
    match find_layer_start(events, 0) {
        None => Err(ErrorV::StructuralError),
        Some(s) => match layer_of(events, s.1, s.0, path) {
            Err(e) => Err(e),
            Ok(r) => Ok((r.0, r.1)),
        },
    }
}

/// Decodes the first "imagelayer" element of the document text `doc`,
/// parsed with document path `map_path`.
pub fn decode_image_layer_document(doc: &str, map_path: &str) -> (r: Result<
    (ImageLayerData, Properties),
    Error,
>)
    ensures
        match r {
            Ok(dp) => dp.1.wf() && document_of(events_of(doc@), map_path@) == Ok::<_, ErrorV>(
                (dp.0@, dp.1@),
            ),
            Err(e) => document_of(events_of(doc@), map_path@) == Err::<
                (ImageLayerDataV, Map<Seq<char>, Seq<char>>),
                _,
            >(e@),
        },
{
    proof {
        lemma_name_literals();
    }
    let events = read_events(doc);
    let mut parser = EventStream::new(events);
    let imagelayer_name: String = "imagelayer".to_owned();
    loop
        invariant
            parser.events() == events_of(doc@),
            imagelayer_name@ == "imagelayer"@,
            find_layer_start(events_of(doc@), 0) == find_layer_start(
                events_of(doc@),
                parser.pos(),
            ),
        decreases parser.events().len() - parser.pos(),
    {
        proof {
            parser.lemma_pos_bound();
        }
        let ghost pos_top = parser.pos();
        match parser.next() {
            None => {
                return Err(Error::StructuralError);
            },
            Some(e) => match e {
                Event::Start { name, attrs } => {
                    if name == imagelayer_name {
                        return ImageLayerData::new(&mut parser, attrs, map_path);
                    }
                },
                _ => {},
            },
        }
    }
}

} // verus!
