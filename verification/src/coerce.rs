//! The attribute coercion engine.
//!
//! The attributes of a start tag are scanned in document order for a small
//! set of recognized names. The first attribute carrying a recognized name
//! decides that name's slot: if its raw value converts to the target type
//! the slot is filled, and later attributes of the same name are not looked
//! at again; if it does not convert, the whole decode fails. Attributes
//! with unrecognized names are ignored.

use vstd::prelude::*;

use crate::error::{Error, ErrorV};
use crate::events::{attrs_view, lemma_name_literals, AttrV, Attribute};
use crate::numbers::{i32_of_str, parse_i32};

verus! {

/// The boolean a raw tiling-flag value coerces to: the value parsed as a
/// signed 32-bit decimal and tested for equality with 1; nothing when the
/// value is not such an integer.
pub open spec fn repeat_flag_of(v: Seq<char>) -> Option<bool> {
    match i32_of_str(v) {
        Some(n) => Some(n == 1),
        None => None,
    }
}

/// The scan of `attrs` from `i` on for the `repeatx` and `repeaty` slots,
/// the slots holding `x` and `y` from the attributes already passed.
pub open spec fn scan_repeat(attrs: Seq<AttrV>, i: int, x: Option<bool>, y: Option<bool>) -> Result<
    (Option<bool>, Option<bool>),
    ErrorV,
>
    decreases attrs.len() - i,
{
    if i < 0 || i >= attrs.len() {
        Ok((x, y))
    } else {
        let a = attrs[i];
        if a.name == "repeatx"@ && x is None {
            match repeat_flag_of(a.value) {
                Some(b) => scan_repeat(attrs, i + 1, Some(b), y),
                None => Err(ErrorV::AttributeCoercionFailure { name: a.name, value: a.value }),
            }
        } else if a.name == "repeaty"@ && y is None {
            match repeat_flag_of(a.value) {
                Some(b) => scan_repeat(attrs, i + 1, x, Some(b)),
                None => Err(ErrorV::AttributeCoercionFailure { name: a.name, value: a.value }),
            }
        } else {
            scan_repeat(attrs, i + 1, x, y)
        }
    }
}

/// Extracts the two tiling flags from a start tag's attributes; a slot is
/// `None` when no attribute of its name occurred.
pub fn coerce_repeat_flags(attrs: &Vec<Attribute>) -> (r: Result<
    (Option<bool>, Option<bool>),
    Error,
>)
    ensures
        match r {
            Ok(slots) => scan_repeat(attrs_view(attrs@), 0, None, None) == Ok::<_, ErrorV>(slots),
            Err(e) => scan_repeat(attrs_view(attrs@), 0, None, None) == Err::<
                (Option<bool>, Option<bool>),
                _,
            >(e@),
        },
{
    proof {
        lemma_name_literals();
    }
    let ghost av = attrs_view(attrs@);
    let repeatx: String = "repeatx".to_owned();
    let repeaty: String = "repeaty".to_owned();
    let mut x: Option<bool> = None;
    let mut y: Option<bool> = None;
    let mut i: usize = 0;
    while i < attrs.len()
        invariant
            i <= attrs@.len(),
            av == attrs_view(attrs@),
            av.len() == attrs@.len(),
            repeatx@ == "repeatx"@,
            repeaty@ == "repeaty"@,
            "repeatx"@ != "repeaty"@,
            scan_repeat(av, 0, None, None) == scan_repeat(av, i as int, x, y),
        decreases attrs@.len() - i,
    {
        let a = &attrs[i];
        assert(av[i as int] == attrs@[i as int]@);
        if a.name == repeatx {
            if x.is_none() {
                match parse_i32(a.value.as_str()) {
                    Some(n) => {
                        x = Some(n == 1);
                    },
                    None => {
                        return Err(Error::AttributeCoercionFailure {
                            name: a.name.clone(),
                            value: a.value.clone(),
                        });
                    },
                }
            }
        } else if a.name == repeaty {
            if y.is_none() {
                match parse_i32(a.value.as_str()) {
                    Some(n) => {
                        y = Some(n == 1);
                    },
                    None => {
                        return Err(Error::AttributeCoercionFailure {
                            name: a.name.clone(),
                            value: a.value.clone(),
                        });
                    },
                }
            }
        }
        i += 1;
    }
    Ok((x, y))
}

} // verus!
