//! Decoding from hand-built event streams, for inputs the tokenizer cannot
//! produce (duplicate attributes) and for stream-level behavior.

use tiled::{Attribute, Error, Event, EventStream, ImageLayerData};

fn attr(name: &str, value: &str) -> Attribute {
    Attribute { name: name.to_string(), value: value.to_string() }
}

fn closed_layer() -> EventStream {
    EventStream::new(vec![Event::End { name: "imagelayer".to_string() }])
}

#[test]
fn first_repeatx_attribute_wins() {
    let attrs = vec![attr("repeatx", "1"), attr("repeatx", "0")];
    let (data, _) = ImageLayerData::new(&mut closed_layer(), attrs, "/maps/a.tmx").unwrap();
    assert!(data.repeat_x);
}

#[test]
fn later_duplicate_attribute_is_not_reprocessed() {
    // The slot is already filled, so the invalid second value is never
    // looked at and the decode still succeeds.
    let attrs = vec![attr("repeatx", "1"), attr("repeatx", "abc")];
    let (data, _) = ImageLayerData::new(&mut closed_layer(), attrs, "/maps/a.tmx").unwrap();
    assert!(data.repeat_x);
}

#[test]
fn first_invalid_occurrence_fails() {
    let attrs = vec![attr("repeatx", "abc"), attr("repeatx", "1")];
    let r = ImageLayerData::new(&mut closed_layer(), attrs, "/maps/a.tmx");
    match r {
        Err(Error::AttributeCoercionFailure { name, value }) => {
            assert_eq!(name, "repeatx");
            assert_eq!(value, "abc");
        },
        _ => panic!("expected a coercion failure"),
    }
}

#[test]
fn unrecognized_attributes_are_ignored() {
    let attrs = vec![attr("opacity", "0.5"), attr("repeaty", "1"), attr("name", "bg")];
    let (data, _) = ImageLayerData::new(&mut closed_layer(), attrs, "/maps/a.tmx").unwrap();
    assert!(!data.repeat_x);
    assert!(data.repeat_y);
}

#[test]
fn rootless_path_fails_before_any_event_is_read() {
    let mut stream = closed_layer();
    let r = ImageLayerData::new(&mut stream, vec![], "/");
    assert!(matches!(r, Err(Error::PathIsNotFile)));
    // The end tag is still there: nothing was consumed.
    assert!(matches!(stream.next(), Some(Event::End { .. })));
}

#[test]
fn exhausted_stream_is_structural_error() {
    let mut stream = EventStream::new(vec![Event::Other]);
    let r = ImageLayerData::new(&mut stream, vec![], "/maps/a.tmx");
    assert!(matches!(r, Err(Error::StructuralError)));
}

#[test]
fn second_image_child_wins() {
    let events = vec![
        Event::Start {
            name: "image".to_string(),
            attrs: vec![attr("source", "a.png"), attr("width", "8"), attr("height", "8")],
        },
        Event::End { name: "image".to_string() },
        Event::Start {
            name: "image".to_string(),
            attrs: vec![attr("source", "b.png"), attr("width", "16"), attr("height", "16")],
        },
        Event::End { name: "image".to_string() },
        Event::End { name: "imagelayer".to_string() },
    ];
    let (data, _) = ImageLayerData::new(&mut EventStream::new(events), vec![], "/maps/a.tmx").unwrap();
    let image = data.image.unwrap();
    assert_eq!(image.source, "/maps/b.png");
    assert_eq!(image.width, 16);
    assert_eq!(image.height, 16);
}

#[test]
fn stray_end_tags_are_ignored() {
    let events = vec![
        Event::End { name: "unrelated".to_string() },
        Event::End { name: "imagelayer".to_string() },
    ];
    let r = ImageLayerData::new(&mut EventStream::new(events), vec![], "/maps/a.tmx");
    assert!(r.is_ok());
}
