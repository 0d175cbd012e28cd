//! Registration: validation with defaults, a fresh API key, and what is
//! stored and announced.

use vstd::prelude::*;
use vstd::utf8::encode_utf8;

use crate::api::auth::{hash_api_key, hex_lower, sha256_digest};
use crate::api::live::LiveEvent;
use crate::api::profile::and_then;
use crate::error::{ApiError, ErrorKind};
use crate::validation::{
    colormap_outcome, name_outcome, portrait_outcome, stats_outcome, tagline_outcome,
    theme_color_outcome, validate_colormap, validate_name, validate_portrait, validate_stats,
    validate_tagline, validate_theme_color,
};

verus! {

/// A registration request.
#[derive(Debug, Clone)]
pub struct RegisterRequest {
    pub name: String,
    pub tagline: Option<String>,
    pub self_portrait: String,
    pub colormap: String,
    pub theme_color: Option<String>,
    pub stats: Option<String>,
}

/// An agent ready to be stored, with the API key handed back once.
#[derive(Debug)]
pub struct NewAgent {
    pub name: String,
    pub api_key: String,
    pub api_key_hash: String,
    pub tagline: String,
    pub self_portrait: String,
    pub colormap: String,
    pub theme_color: String,
    pub stats: String,
}

/// An optional field's text, or its default.
pub open spec fn text_or(field: Option<String>, default: Seq<char>) -> Seq<char> {
    match field {
        Some(v) => v@,
        None => default,
    }
}

/// The tagline stored when none is given.
pub open spec fn default_tagline() -> Seq<char> {
    ""@
}

/// The theme color stored when none is given.
pub open spec fn default_theme_color() -> Seq<char> {
    "#ff6b6b"@
}

/// The stats stored when none are given.
pub open spec fn default_stats() -> Seq<char> {
    "{}"@
}

/// What validating a registration gives: the name, the portrait, the
/// colormap, the tagline, the theme color and the stats, in this order,
/// absent optional fields taking their defaults.
pub open spec fn registration_outcome(req: RegisterRequest) -> Result<(), Seq<char>> {
    let tagline = text_or(req.tagline, default_tagline());
    let theme = text_or(req.theme_color, default_theme_color());
    let stats = text_or(req.stats, default_stats());
    and_then(
        name_outcome(encode_utf8(req.name@)),
        and_then(
            portrait_outcome(encode_utf8(req.self_portrait@)),
            and_then(
                colormap_outcome(encode_utf8(req.colormap@)),
                and_then(
                    tagline_outcome(tagline),
                    and_then(
                        theme_color_outcome(encode_utf8(theme)),
                        stats_outcome(encode_utf8(stats).len(), stats),
                    ),
                ),
            ),
        ),
    )
}

/// A registration passes exactly when each of its fields passes its own
/// check (the tagline, theme color and stats with their defaults filled in),
/// and a refused registration reports the first failing field, in the
/// order name, portrait, colormap, tagline, theme color, stats.
pub proof fn lemma_registration_rules(req: RegisterRequest)
    ensures
        ({
            let name = name_outcome(encode_utf8(req.name@));
            let portrait = portrait_outcome(encode_utf8(req.self_portrait@));
            let colormap = colormap_outcome(encode_utf8(req.colormap@));
            let tagline = tagline_outcome(text_or(req.tagline, ""@));
            let theme = theme_color_outcome(encode_utf8(text_or(req.theme_color, "#ff6b6b"@)));
            let stats = stats_outcome(
                encode_utf8(text_or(req.stats, "{}"@)).len(),
                text_or(req.stats, "{}"@),
            );
            &&& registration_outcome(req) is Ok <==> name is Ok && portrait is Ok && colormap is Ok
                && tagline is Ok && theme is Ok && stats is Ok
            &&& name is Err ==> registration_outcome(req) == name
            &&& name is Ok && portrait is Err ==> registration_outcome(req) == portrait
            &&& name is Ok && portrait is Ok && colormap is Err ==> registration_outcome(req)
                == colormap
            &&& name is Ok && portrait is Ok && colormap is Ok && tagline is Err
                ==> registration_outcome(req) == tagline
            &&& name is Ok && portrait is Ok && colormap is Ok && tagline is Ok && theme is Err
                ==> registration_outcome(req) == theme
            &&& name is Ok && portrait is Ok && colormap is Ok && tagline is Ok && theme is Ok
                ==> registration_outcome(req) == stats
        }),
{
}

/// Lower-case hexadecimal digits.
pub open spec fn is_lower_hex_char(c: char) -> bool {
    ('0' <= c <= '9') || ('a' <= c <= 'f')
}

/// The hyphenated lower-case text of a version-4 UUID:
/// `xxxxxxxx-xxxx-4xxx-Nxxx-xxxxxxxxxxxx` with `N` one of `8 9 a b`.
pub open spec fn is_uuid_v4_text(s: Seq<char>) -> bool {
    &&& s.len() == 36
    &&& forall|i: int|
        0 <= i < 36 ==> if i == 8 || i == 13 || i == 18 || i == 23 {
            s[i] == '-'
        } else {
            is_lower_hex_char(#[trigger] s[i])
        }
    &&& s[14] == '4'
    &&& (s[19] == '8' || s[19] == '9' || s[19] == 'a' || s[19] == 'b')
}

/// A fresh random API key: `uuid::Uuid::new_v4().to_string()`, the
/// hyphenated lower-case text of a random version-4 UUID. Which UUID is
/// left open.
#[verifier::external_body]
fn random_uuid() -> (s: String)
    ensures
        is_uuid_v4_text(s@),
{
    uuid::Uuid::new_v4().to_string()
}

fn text_or_default<'a>(field: &'a Option<String>, default: &'a str) -> (t: &'a str)
    ensures
        t@ == text_or(*field, default@),
{
    match field {
        Some(v) => v.as_str(),
        None => default,
    }
}

/// Validates a registration and prepares the agent to store: a 400 with
/// the first failing rule's message, else the request's fields with the
/// defaults filled in, a fresh random API key and its hash.
pub fn prepare_registration(req: &RegisterRequest) -> (r: Result<NewAgent, ApiError>)
    ensures
        match r {
            Err(e) => e.kind == ErrorKind::BadRequest && registration_outcome(*req) == Err::<
                (),
                Seq<char>,
            >(e.message@),
            Ok(a) => {
                &&& registration_outcome(*req) is Ok
                &&& a.name@ == req.name@
                &&& a.tagline@ == text_or(req.tagline, default_tagline())
                &&& a.self_portrait@ == req.self_portrait@
                &&& a.colormap@ == req.colormap@
                &&& a.theme_color@ == text_or(req.theme_color, default_theme_color())
                &&& a.stats@ == text_or(req.stats, default_stats())
                &&& is_uuid_v4_text(a.api_key@)
                &&& a.api_key_hash@ == hex_lower(sha256_digest(encode_utf8(a.api_key@)))
            },
        },
{
    if let Err(m) = validate_name(req.name.as_str()) {
        return Err(ApiError::bad_request(m));
    }
    if let Err(m) = validate_portrait(req.self_portrait.as_str()) {
        return Err(ApiError::bad_request(m));
    }
    if let Err(m) = validate_colormap(req.colormap.as_str()) {
        return Err(ApiError::bad_request(m));
    }
    let tagline = text_or_default(&req.tagline, "");
    if let Err(m) = validate_tagline(tagline) {
        return Err(ApiError::bad_request(m));
    }
    let theme_color = text_or_default(&req.theme_color, "#ff6b6b");
    if let Err(m) = validate_theme_color(theme_color) {
        return Err(ApiError::bad_request(m));
    }
    let stats = text_or_default(&req.stats, "{}");
    if let Err(m) = validate_stats(stats) {
        return Err(ApiError::bad_request(m));
    }
    let api_key = random_uuid();
    let api_key_hash = hash_api_key(api_key.as_str());
    Ok(
        NewAgent {
            name: req.name.clone(),
            api_key,
            api_key_hash,
            tagline: String::from_str(tagline),
            self_portrait: req.self_portrait.clone(),
            colormap: req.colormap.clone(),
            theme_color: String::from_str(theme_color),
            stats: String::from_str(stats),
        },
    )
}

/// The 409 answered when the name is already registered.
pub fn name_taken(name: &str) -> (e: ApiError)
    ensures
        e@ == (ErrorKind::Conflict, "Agent name '"@ + name@ + "' is already taken"@),
{
    let mut m = String::from_str("Agent name '");
    m.append(name);
    m.append("' is already taken");
    ApiError::conflict(m)
}

/// The announcement of a new agent: its name and tagline.
pub fn new_agent_event(agent: &NewAgent) -> (e: LiveEvent)
    ensures
        e == (LiveEvent::NewAgent { name: agent.name, tagline: agent.tagline }),
{
    LiveEvent::NewAgent { name: agent.name.clone(), tagline: agent.tagline.clone() }
}

} // verus!
