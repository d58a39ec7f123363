//! The picture reference an image layer carries.
//!
//! An "image" child element names the picture by a path relative to the
//! document and gives its pixel size; resolving it rebases the path onto
//! the document's directory.

use vstd::prelude::*;

use crate::error::{Error, ErrorV};
use crate::events::{attrs_view, lemma_name_literals, AttrV, Attribute};
use crate::numbers::{i32_of_str, parse_i32};
use crate::paths::{join_of, join_path};

verus! {

/// A decoded picture reference: where the picture lives, relative paths
/// already rebased onto the document's directory, and its pixel size.
#[derive(Debug, Clone, PartialEq)]
pub struct Image {
    pub source: String,
    pub width: i32,
    pub height: i32,
}

/// The mathematical content of an [`Image`].
pub ghost struct ImageV {
    pub source: Seq<char>,
    pub width: int,
    pub height: int,
}

impl View for Image {
    type V = ImageV;

    open spec fn view(&self) -> ImageV {
        ImageV { source: self.source@, width: self.width as int, height: self.height as int }
    }
}

/// The scan of an "image" start tag's attributes for the `source`, `width`
/// and `height` slots, the first attribute of each name winning.
pub open spec fn scan_image(
    attrs: Seq<AttrV>,
    i: int,
    src: Option<Seq<char>>,
    w: Option<int>,
    h: Option<int>,
) -> Result<(Option<Seq<char>>, Option<int>, Option<int>), ErrorV>
    decreases attrs.len() - i,
{
    if i < 0 || i >= attrs.len() {
        Ok((src, w, h))
    } else {
        let a = attrs[i];
        if a.name == "source"@ && src is None {
            scan_image(attrs, i + 1, Some(a.value), w, h)
        } else if a.name == "width"@ && w is None {
            match i32_of_str(a.value) {
                Some(n) => scan_image(attrs, i + 1, src, Some(n), h),
                None => Err(ErrorV::AttributeCoercionFailure { name: a.name, value: a.value }),
            }
        } else if a.name == "height"@ && h is None {
            match i32_of_str(a.value) {
                Some(n) => scan_image(attrs, i + 1, src, w, Some(n)),
                None => Err(ErrorV::AttributeCoercionFailure { name: a.name, value: a.value }),
            }
        } else {
            scan_image(attrs, i + 1, src, w, h)
        }
    }
}

/// The picture reference an "image" start tag's attributes denote, its
/// source rebased onto `base`. The `source` attribute is required, as are
/// integer `width` and `height`.
pub open spec fn image_of_attrs(attrs: Seq<AttrV>, base: Seq<char>) -> Result<ImageV, ErrorV> {
    match scan_image(attrs, 0, None, None, None) {
        Err(e) => Err(e),
        Ok((src, w, h)) => match (src, w, h) {
            (None, _, _) => Err(ErrorV::MissingAttribute { name: "source"@ }),
            (Some(_), None, _) => Err(ErrorV::MissingAttribute { name: "width"@ }),
            (Some(_), Some(_), None) => Err(ErrorV::MissingAttribute { name: "height"@ }),
            (Some(s), Some(wv), Some(hv)) => Ok(
                ImageV { source: join_of(base, s), width: wv, height: hv },
            ),
        },
    }
}

/// Resolves an "image" start tag's attributes into a picture reference
/// against the base directory `base`.
pub fn image_from_attrs(attrs: &Vec<Attribute>, base: &str) -> (r: Result<Image, Error>)
    ensures
        match r {
            Ok(img) => image_of_attrs(attrs_view(attrs@), base@) == Ok::<_, ErrorV>(img@),
            Err(e) => image_of_attrs(attrs_view(attrs@), base@) == Err::<ImageV, _>(e@),
        },
{
    proof {
        lemma_name_literals();
    }
    let ghost av = attrs_view(attrs@);
    let source_name: String = "source".to_owned();
    let width_name: String = "width".to_owned();
    let height_name: String = "height".to_owned();
    let mut src: Option<String> = None;
    let mut w: Option<i32> = None;
    let mut h: Option<i32> = None;
    let mut i: usize = 0;
    while i < attrs.len()
        invariant
            i <= attrs@.len(),
            av == attrs_view(attrs@),
            av.len() == attrs@.len(),
            source_name@ == "source"@,
            width_name@ == "width"@,
            height_name@ == "height"@,
            "source"@ != "width"@,
            "source"@ != "height"@,
            "width"@ != "height"@,
            scan_image(av, 0, None, None, None) == scan_image(
                av,
                i as int,
                match src {
                    Some(ref s) => Some(s@),
                    None => None,
                },
                match w {
                    Some(n) => Some(n as int),
                    None => None,
                },
                match h {
                    Some(n) => Some(n as int),
                    None => None,
                },
            ),
        decreases attrs@.len() - i,
    {
        let a = &attrs[i];
        assert(av[i as int] == attrs@[i as int]@);
        if a.name == source_name {
            if src.is_none() {
                src = Some(a.value.clone());
            }
        } else if a.name == width_name {
            if w.is_none() {
                match parse_i32(a.value.as_str()) {
                    Some(n) => {
                        w = Some(n);
                    },
                    None => {
                        return Err(Error::AttributeCoercionFailure {
                            name: a.name.clone(),
                            value: a.value.clone(),
                        });
                    },
                }
            }
        } else if a.name == height_name {
            if h.is_none() {
                match parse_i32(a.value.as_str()) {
                    Some(n) => {
                        h = Some(n);
                    },
                    None => {
                        return Err(Error::AttributeCoercionFailure {
                            name: a.name.clone(),
                            value: a.value.clone(),
                        });
                    },
                }
            }
        }
        i += 1;
    }
    match src {
        None => Err(Error::MissingAttribute { name: source_name }),
        Some(s) => match w {
            None => Err(Error::MissingAttribute { name: width_name }),
            Some(wv) => match h {
                None => Err(Error::MissingAttribute { name: height_name }),
                Some(hv) => Ok(Image { source: join_path(base, s.as_str()), width: wv, height: hv }),
            },
        },
    }
}

} // verus!
