//! Profile updates: every field given is validated, in a fixed order.

use vstd::prelude::*;
use vstd::utf8::encode_utf8;

use crate::error::{ApiError, ErrorKind};
use crate::validation::{
    colormap_outcome, portrait_outcome, stats_outcome, tagline_outcome, theme_color_outcome,
    validate_colormap, validate_portrait, validate_stats, validate_tagline, validate_theme_color,
};

verus! {

/// A partial profile update: absent fields stay as they are.
#[derive(Debug, Clone)]
pub struct UpdateProfile {
    pub tagline: Option<String>,
    pub self_portrait: Option<String>,
    pub colormap: Option<String>,
    pub theme_color: Option<String>,
    pub stats: Option<String>,
}

/// The first failure of `a`, else `b`.
pub open spec fn and_then(a: Result<(), Seq<char>>, b: Result<(), Seq<char>>) -> Result<(), Seq<char>> {
    match a {
        Err(m) => Err(m),
        Ok(_) => b,
    }
}

/// The check of an optional field: none when absent.
pub open spec fn if_given(field: Option<String>, check: spec_fn(Seq<char>) -> Result<(), Seq<char>>) -> Result<
    (),
    Seq<char>,
> {
    match field {
        Some(v) => check(v@),
        None => Ok(()),
    }
}

/// What validating an update gives: the tagline, the portrait, the
/// colormap, the theme color and the stats, in this order, each if given.
pub open spec fn update_outcome(req: UpdateProfile) -> Result<(), Seq<char>> {
    and_then(
        if_given(req.tagline, |v: Seq<char>| tagline_outcome(v)),
        and_then(
            if_given(req.self_portrait, |v: Seq<char>| portrait_outcome(encode_utf8(v))),
            and_then(
                if_given(req.colormap, |v: Seq<char>| colormap_outcome(encode_utf8(v))),
                and_then(
                    if_given(req.theme_color, |v: Seq<char>| theme_color_outcome(encode_utf8(v))),
                    if_given(req.stats, |v: Seq<char>| stats_outcome(encode_utf8(v).len(), v)),
                ),
            ),
        ),
    )
}

/// Validates a profile update; a failure is a 400 with the validator's
/// message.
pub fn validate_profile_update(req: &UpdateProfile) -> (r: Result<(), ApiError>)
    ensures
        match r {
            Ok(_) => update_outcome(*req) is Ok,
            Err(e) => e.kind == ErrorKind::BadRequest && update_outcome(*req) == Err::<(), Seq<char>>(
                e.message@,
            ),
        },
{
    if let Some(t) = &req.tagline {
        if let Err(m) = validate_tagline(t.as_str()) {
            return Err(ApiError::bad_request(m));
        }
    }
    if let Some(p) = &req.self_portrait {
        if let Err(m) = validate_portrait(p.as_str()) {
            return Err(ApiError::bad_request(m));
        }
    }
    if let Some(c) = &req.colormap {
        if let Err(m) = validate_colormap(c.as_str()) {
            return Err(ApiError::bad_request(m));
        }
    }
    if let Some(tc) = &req.theme_color {
        if let Err(m) = validate_theme_color(tc.as_str()) {
            return Err(ApiError::bad_request(m));
        }
    }
    if let Some(s) = &req.stats {
        if let Err(m) = validate_stats(s.as_str()) {
            return Err(ApiError::bad_request(m));
        }
    }
    Ok(())
}

} // verus!
