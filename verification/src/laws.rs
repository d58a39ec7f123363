//! What holds of the decoder as a whole, beyond each function's own
//! contract: the first-write-wins rule for attributes, the last-write-wins
//! rule for child elements, the defaults for absent data, and how a decode
//! fails.

use vstd::prelude::*;

use crate::coerce::{repeat_flag_of, scan_repeat};
use crate::dispatch::{lemma_skip_to_bounds, skip_to};
use crate::error::ErrorV;
use crate::events::{lemma_name_literals, AttrV, EventV};
use crate::layer::{layer_loop, layer_of};
use crate::numbers::i32_of_str;
use crate::paths::parent_dir_of;
use crate::properties::{lemma_parse_props_bounds, parse_props_from};

verus! {

/// A tiling-flag value that is a valid integer coerces to true exactly when
/// that integer is 1; any other integer, zero and negatives included,
/// coerces to false.
pub proof fn lemma_repeat_flag_true_iff_one(v: Seq<char>, n: int)
    requires
        i32_of_str(v) == Some(n),
    ensures
        repeat_flag_of(v) == Some(n == 1),
{
}

proof fn lemma_scan_failure_from(attrs: Seq<AttrV>, j: int, i: int)
    requires
        0 <= j <= i < attrs.len(),
        attrs[i].name == "repeatx"@,
        i32_of_str(attrs[i].value) is None,
        forall|k: int|
            j <= k < i ==> attrs[k].name != "repeatx"@ && attrs[k].name != "repeaty"@,
    ensures
        scan_repeat(attrs, j, None, None) == Err::<(Option<bool>, Option<bool>), _>(
            ErrorV::AttributeCoercionFailure { name: attrs[i].name, value: attrs[i].value },
        ),
    decreases i - j,
{
    if j < i {
        lemma_scan_failure_from(attrs, j + 1, i);
    }
}

/// A `repeatx` attribute whose value is not a valid integer fails the whole
/// coercion with the failing name and value, when no recognized attribute
/// stands before it; no flags come out of such a scan.
pub proof fn lemma_coercion_failure_aborts(attrs: Seq<AttrV>, i: int)
    requires
        0 <= i < attrs.len(),
        attrs[i].name == "repeatx"@,
        i32_of_str(attrs[i].value) is None,
        forall|k: int|
            0 <= k < i ==> attrs[k].name != "repeatx"@ && attrs[k].name != "repeaty"@,
    ensures
        scan_repeat(attrs, 0, None, None) == Err::<(Option<bool>, Option<bool>), _>(
            ErrorV::AttributeCoercionFailure { name: attrs[i].name, value: attrs[i].value },
        ),
{
    lemma_scan_failure_from(attrs, 0, i);
}

/// A coercion failure aborts the whole decode: with a valid document path,
/// a `repeatx` attribute whose value is not a valid integer (and no
/// recognized attribute before it) fails the decode itself, so no record is
/// populated, partially or otherwise.
pub proof fn lemma_coercion_failure_fails_decode(
    events: Seq<EventV>,
    pos: int,
    attrs: Seq<AttrV>,
    path: Seq<char>,
    i: int,
)
    requires
        parent_dir_of(path) is Some,
        0 <= i < attrs.len(),
        attrs[i].name == "repeatx"@,
        i32_of_str(attrs[i].value) is None,
        forall|k: int|
            0 <= k < i ==> attrs[k].name != "repeatx"@ && attrs[k].name != "repeaty"@,
    ensures
        layer_of(events, pos, attrs, path) == Err::<
            (crate::layer::ImageLayerDataV, Map<Seq<char>, Seq<char>>, int),
            _,
        >(ErrorV::AttributeCoercionFailure { name: attrs[i].name, value: attrs[i].value }),
{
    lemma_coercion_failure_aborts(attrs, i);
}

proof fn lemma_scan_absent_from(attrs: Seq<AttrV>, j: int)
    requires
        0 <= j,
        forall|k: int|
            0 <= k < attrs.len() ==> attrs[k].name != "repeatx"@ && attrs[k].name != "repeaty"@,
    ensures
        scan_repeat(attrs, j, None, None) == Ok::<_, ErrorV>(
            (None::<bool>, None::<bool>),
        ),
    decreases attrs.len() - j,
{
    if j < attrs.len() {
        lemma_scan_absent_from(attrs, j + 1);
    }
}

/// With neither a `repeatx` nor a `repeaty` attribute on the start tag, a
/// successful decode leaves both tiling flags false.
pub proof fn lemma_absent_flags_default(
    events: Seq<EventV>,
    pos: int,
    attrs: Seq<AttrV>,
    path: Seq<char>,
)
    requires
        forall|k: int|
            0 <= k < attrs.len() ==> attrs[k].name != "repeatx"@ && attrs[k].name != "repeaty"@,
    ensures
        layer_of(events, pos, attrs, path) matches Ok(r) ==> r.0.repeat_x == false
            && r.0.repeat_y == false,
{
    lemma_scan_absent_from(attrs, 0);
}

/// Whether an event is the start tag of an "image" element.
pub open spec fn is_image_start(e: EventV) -> bool {
    e matches EventV::Start { name, .. } && name == "image"@
}

/// The dispatch loop leaves the image slot as it found it when no "image"
/// start tag occurs among the remaining events; in particular, an element
/// with no "image" child decodes to a record with no image.
pub proof fn lemma_no_image_child_leaves_slot(
    events: Seq<EventV>,
    pos: int,
    base: Seq<char>,
    img: Option<crate::image::ImageV>,
    props: Map<Seq<char>, Seq<char>>,
)
    requires
        forall|j: int| pos <= j < events.len() ==> !is_image_start(#[trigger] events[j]),
    ensures
        layer_loop(events, pos, base, img, props) matches Ok(r) ==> r.0 == img,
    decreases events.len() - pos,
{
    if 0 <= pos < events.len() {
        match events[pos] {
            EventV::Other => {
                lemma_no_image_child_leaves_slot(events, pos + 1, base, img, props);
            },
            EventV::End { .. } => {
                lemma_no_image_child_leaves_slot(events, pos + 1, base, img, props);
            },
            EventV::Start { name, attrs } => {
                assert(!is_image_start(events[pos]));
                lemma_skip_to_bounds(events, pos + 1, 1);
                lemma_parse_props_bounds(events, pos + 1, Map::empty());
                if name == "properties"@ {
                    match parse_props_from(events, pos + 1, Map::empty()) {
                        Err(_) => {},
                        Ok(r) => {
                            lemma_no_image_child_leaves_slot(events, r.1, base, img, r.0);
                        },
                    }
                } else {
                    match skip_to(events, pos + 1, 1) {
                        None => {},
                        Some(np) => {
                            lemma_no_image_child_leaves_slot(events, np, base, img, props);
                        },
                    }
                }
            },
        }
    }
}

/// A record with no "image" child among its events decodes, when it
/// decodes at all, to a record whose image is absent.
pub proof fn lemma_no_image_child(events: Seq<EventV>, pos: int, attrs: Seq<AttrV>, path: Seq<char>)
    requires
        forall|j: int| pos <= j < events.len() ==> !is_image_start(#[trigger] events[j]),
    ensures
        layer_of(events, pos, attrs, path) matches Ok(r) ==> r.0.image is None,
{
    if parent_dir_of(path) is Some {
        let base = parent_dir_of(path)->Some_0;
        lemma_no_image_child_leaves_slot(events, pos, base, None, Map::empty());
    }
}

/// A "properties" child replaces the property map wholesale: whatever map
/// earlier children produced, the loop goes on from the bag this child
/// parses to, so of two "properties" children in sequence only the later
/// one shows in the result.
pub proof fn lemma_later_properties_child_wins(
    events: Seq<EventV>,
    pos: int,
    cattrs: Seq<AttrV>,
    base: Seq<char>,
    img: Option<crate::image::ImageV>,
    props: Map<Seq<char>, Seq<char>>,
)
    requires
        0 <= pos < events.len(),
        events[pos] == (EventV::Start { name: "properties"@, attrs: cattrs }),
    ensures
        parse_props_from(events, pos + 1, Map::empty()) matches Ok(r) ==> layer_loop(
            events,
            pos,
            base,
            img,
            props,
        ) == layer_loop(events, r.1, base, img, r.0),
{
    lemma_name_literals();
}

proof fn lemma_scan_x_sticky(attrs: Seq<AttrV>, j: int, b: bool, y: Option<bool>)
    ensures
        scan_repeat(attrs, j, Some(b), y) matches Ok(s) ==> s.0 == Some(b),
    decreases attrs.len() - j,
{
    if 0 <= j < attrs.len() {
        lemma_scan_x_sticky(attrs, j + 1, b, y);
        lemma_scan_x_sticky(attrs, j + 1, b, Some(!b));
        let a = attrs[j];
        if a.name == "repeaty"@ && y is None {
            match repeat_flag_of(a.value) {
                Some(b2) => {
                    lemma_scan_x_sticky(attrs, j + 1, b, Some(b2));
                },
                None => {},
            }
        }
    }
}

proof fn lemma_scan_first_x(attrs: Seq<AttrV>, j: int, i: int, b: bool, y: Option<bool>)
    requires
        0 <= j <= i < attrs.len(),
        attrs[i].name == "repeatx"@,
        repeat_flag_of(attrs[i].value) == Some(b),
        forall|k: int| j <= k < i ==> attrs[k].name != "repeatx"@,
    ensures
        scan_repeat(attrs, j, None, y) matches Ok(s) ==> s.0 == Some(b),
    decreases i - j,
{
    if j == i {
        lemma_scan_x_sticky(attrs, j + 1, b, y);
    } else {
        let a = attrs[j];
        if a.name == "repeaty"@ && y is None {
            match repeat_flag_of(a.value) {
                Some(b2) => {
                    lemma_scan_first_x(attrs, j + 1, i, b, Some(b2));
                },
                None => {},
            }
        } else {
            lemma_scan_first_x(attrs, j + 1, i, b, y);
        }
    }
}

/// Of several `repeatx` attributes on one start tag, the first decides: if
/// it coerces to `b`, a successful scan yields `b` for the horizontal flag,
/// whatever later attributes of that name hold. Child elements behave the
/// other way around; see `lemma_later_properties_child_wins`.
pub proof fn lemma_first_repeatx_wins(attrs: Seq<AttrV>, i: int, b: bool)
    requires
        0 <= i < attrs.len(),
        attrs[i].name == "repeatx"@,
        repeat_flag_of(attrs[i].value) == Some(b),
        forall|k: int| 0 <= k < i ==> attrs[k].name != "repeatx"@,
    ensures
        scan_repeat(attrs, 0, None, None) matches Ok(s) ==> s.0 == Some(b),
{
    lemma_scan_first_x(attrs, 0, i, b, None);
}

/// A document path with no parent directory fails the decode with
/// `PathIsNotFile`, whatever the events hold.
pub proof fn lemma_rootless_path_fails(
    events: Seq<EventV>,
    pos: int,
    attrs: Seq<AttrV>,
    path: Seq<char>,
)
    requires
        parent_dir_of(path) is None,
    ensures
        layer_of(events, pos, attrs, path) == Err::<
            (crate::layer::ImageLayerDataV, Map<Seq<char>, Seq<char>>, int),
            _,
        >(ErrorV::PathIsNotFile),
{
}

/// An unrecognized child element is skipped whole and changes nothing: the
/// loop's outcome from its start tag is its outcome from just past its
/// subtree, with record and map untouched.
pub proof fn lemma_unrecognized_child_skipped(
    events: Seq<EventV>,
    pos: int,
    name: Seq<char>,
    cattrs: Seq<AttrV>,
    base: Seq<char>,
    img: Option<crate::image::ImageV>,
    props: Map<Seq<char>, Seq<char>>,
)
    requires
        0 <= pos < events.len(),
        events[pos] == (EventV::Start { name: name, attrs: cattrs }),
        name != "image"@,
        name != "properties"@,
    ensures
        skip_to(events, pos + 1, 1) matches Some(np) ==> layer_loop(events, pos, base, img, props)
            == layer_loop(events, np, base, img, props),
{
}

/// A truncated document fails: when nothing but plain content remains — in
/// particular when no events remain at all — the enclosing element's end
/// tag can never come, and the loop ends in `StructuralError`.
pub proof fn lemma_truncated_fails(
    events: Seq<EventV>,
    pos: int,
    base: Seq<char>,
    img: Option<crate::image::ImageV>,
    props: Map<Seq<char>, Seq<char>>,
)
    requires
        forall|j: int| pos <= j < events.len() ==> #[trigger] events[j] is Other,
    ensures
        layer_loop(events, pos, base, img, props) == Err::<
            (Option<crate::image::ImageV>, Map<Seq<char>, Seq<char>>, int),
            _,
        >(ErrorV::StructuralError),
    decreases events.len() - pos,
{
    if 0 <= pos < events.len() {
        lemma_truncated_fails(events, pos + 1, base, img, props);
    }
}

} // verus!
