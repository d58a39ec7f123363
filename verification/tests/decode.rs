//! End-to-end decoding of documents through the markup tokenizer.

use tiled::{decode_image_layer_document, Error};

fn decode_flags(doc: &str) -> (bool, bool) {
    let (data, _) = decode_image_layer_document(doc, "/maps/level1.tmx").unwrap();
    (data.repeat_x, data.repeat_y)
}

#[test]
fn repeat_one_is_true() {
    assert_eq!(decode_flags(r#"<imagelayer repeatx="1" repeaty="1"></imagelayer>"#), (true, true));
}

#[test]
fn repeat_zero_is_false() {
    assert_eq!(decode_flags(r#"<imagelayer repeatx="0" repeaty="0"></imagelayer>"#), (false, false));
}

#[test]
fn repeat_two_is_false() {
    assert_eq!(decode_flags(r#"<imagelayer repeatx="2"></imagelayer>"#), (false, false));
}

#[test]
fn repeat_negative_is_false() {
    assert_eq!(decode_flags(r#"<imagelayer repeatx="-1" repeaty="-7"></imagelayer>"#), (false, false));
}

#[test]
fn non_integer_repeat_fails_coercion() {
    let r = decode_image_layer_document(
        r#"<imagelayer repeatx="abc"></imagelayer>"#,
        "/maps/level1.tmx",
    );
    match r {
        Err(Error::AttributeCoercionFailure { name, value }) => {
            assert_eq!(name, "repeatx");
            assert_eq!(value, "abc");
        },
        _ => panic!("expected a coercion failure"),
    }
}

#[test]
fn absent_repeat_attributes_default_to_false() {
    let (data, _) = decode_image_layer_document(
        r#"<imagelayer></imagelayer>"#,
        "/maps/level1.tmx",
    )
    .unwrap();
    assert!(!data.repeat_x);
    assert!(!data.repeat_y);
}

#[test]
fn no_image_child_is_not_an_error() {
    let (data, _) = decode_image_layer_document(
        r#"<imagelayer repeatx="1"></imagelayer>"#,
        "/maps/level1.tmx",
    )
    .unwrap();
    assert!(data.image.is_none());
    assert!(data.repeat_x);
}

#[test]
fn second_properties_child_wins() {
    let doc = r#"<imagelayer>
        <properties><property name="a" value="1"/></properties>
        <properties><property name="b" value="2"/></properties>
    </imagelayer>"#;
    let (_, props) = decode_image_layer_document(doc, "/maps/level1.tmx").unwrap();
    assert!(props.get("a").is_none());
    assert_eq!(props.get("b").unwrap(), "2");
}

#[test]
fn rootless_path_fails_before_decoding() {
    let r = decode_image_layer_document(r#"<imagelayer></imagelayer>"#, "/");
    assert!(matches!(r, Err(Error::PathIsNotFile)));
    let r = decode_image_layer_document(r#"<imagelayer></imagelayer>"#, "");
    assert!(matches!(r, Err(Error::PathIsNotFile)));
}

#[test]
fn unrecognized_child_is_skipped() {
    let doc = r#"<imagelayer repeaty="1"><foo><bar/>text<imagelayer/></foo></imagelayer>"#;
    let (data, props) = decode_image_layer_document(doc, "/maps/level1.tmx").unwrap();
    assert!(data.image.is_none());
    assert!(!data.repeat_x);
    assert!(data.repeat_y);
    assert!(props.get("a").is_none());
}

#[test]
fn truncated_document_is_structural_error() {
    let doc = r#"<imagelayer><image source="a.png" width="1" height="1">"#;
    let r = decode_image_layer_document(doc, "/maps/level1.tmx");
    assert!(matches!(r, Err(Error::StructuralError)));
}

#[test]
fn document_without_image_layer_is_structural_error() {
    let r = decode_image_layer_document(r#"<map></map>"#, "/maps/level1.tmx");
    assert!(matches!(r, Err(Error::StructuralError)));
}

#[test]
fn image_without_source_is_missing_attribute() {
    let doc = r#"<imagelayer><image width="1" height="1"/></imagelayer>"#;
    match decode_image_layer_document(doc, "/maps/level1.tmx") {
        Err(Error::MissingAttribute { name }) => assert_eq!(name, "source"),
        _ => panic!("expected a missing attribute"),
    }
}

#[test]
fn image_without_height_is_missing_attribute() {
    let doc = r#"<imagelayer><image source="a.png" width="1"/></imagelayer>"#;
    match decode_image_layer_document(doc, "/maps/level1.tmx") {
        Err(Error::MissingAttribute { name }) => assert_eq!(name, "height"),
        _ => panic!("expected a missing attribute"),
    }
}

#[test]
fn image_with_bad_width_fails_coercion() {
    let doc = r#"<imagelayer><image source="a.png" width="wide" height="1"/></imagelayer>"#;
    match decode_image_layer_document(doc, "/maps/level1.tmx") {
        Err(Error::AttributeCoercionFailure { name, value }) => {
            assert_eq!(name, "width");
            assert_eq!(value, "wide");
        },
        _ => panic!("expected a coercion failure"),
    }
}

#[test]
fn property_without_value_is_missing_attribute() {
    let doc = r#"<imagelayer><properties><property name="z"/></properties></imagelayer>"#;
    match decode_image_layer_document(doc, "/maps/level1.tmx") {
        Err(Error::MissingAttribute { name }) => assert_eq!(name, "value"),
        _ => panic!("expected a missing attribute"),
    }
}

#[test]
fn end_to_end_image_layer() {
    let doc = r#"<imagelayer repeatx="1" repeaty="0"><image source="tile.png" width="32" height="32"/><properties><property name="z" value="1"/></properties></imagelayer>"#;
    let (data, props) = decode_image_layer_document(doc, "/maps/level1.tmx").unwrap();
    assert!(data.repeat_x);
    assert!(!data.repeat_y);
    let image = data.image.unwrap();
    assert_eq!(image.source, "/maps/tile.png");
    assert_eq!(image.width, 32);
    assert_eq!(image.height, 32);
    assert_eq!(props.get("z").unwrap(), "1");
}
