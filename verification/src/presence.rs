//! Presence events of the Arda scene: the closed vocabularies an event
//! may use, the named scene anchor it points at, its UTC timestamp, and
//! its deterministic id.

use vstd::prelude::*;
use crate::digest_ids::{deterministic_presence_event_id, hex_text, presence_seed, sha1_of_text};
use crate::missions::view_opt;
use crate::text::{ascii_alnum, chars_to_string, is_ascii_alnum, owned, push_str, str_chars, str_eq};

verus! {

/// A field of a presence event with a closed vocabulary.
#[derive(Debug, Clone, Copy, PartialEq, Eq, Structural)]
pub enum PresenceField {
    Agent,
    Mode,
    Attention,
    Accent,
}

/// The value is in the field's vocabulary.
pub open spec fn token_ok(f: PresenceField, v: Seq<char>) -> bool {
    match f {
        PresenceField::Agent => v == "arandur"@ || v == "prometheus"@ || v == "athena"@ || v == "manwe"@
            || v == "citadel"@,
        PresenceField::Mode => v == "observing"@ || v == "advising"@ || v == "coordinating"@
            || v == "escalating"@ || v == "executing"@ || v == "offline"@,
        PresenceField::Attention => v == "idle"@ || v == "focused"@ || v == "elevated"@ || v == "critical"@,
        PresenceField::Accent => v == "cyan"@ || v == "gold"@ || v == "amber"@ || v == "red"@ || v == "violet"@
            || v == "green"@,
    }
}

/// The field's name.
pub open spec fn field_name(f: PresenceField) -> Seq<char> {
    match f {
        PresenceField::Agent => "agent"@,
        PresenceField::Mode => "mode"@,
        PresenceField::Attention => "attention"@,
        PresenceField::Accent => "accent"@,
    }
}

/// The field's vocabulary as the error message lists it.
pub open spec fn vocabulary_text(f: PresenceField) -> Seq<char> {
    match f {
        PresenceField::Agent => "arandur, prometheus, athena, manwe, citadel"@,
        PresenceField::Mode => "observing, advising, coordinating, escalating, executing, offline"@,
        PresenceField::Attention => "idle, focused, elevated, critical"@,
        PresenceField::Accent => "cyan, gold, amber, red, violet, green"@,
    }
}

/// Whether the value is in the field's vocabulary.
pub fn token_allowed(f: PresenceField, v: &str) -> (b: bool)
    ensures
        b == token_ok(f, v@),
{
    match f {
        PresenceField::Agent => str_eq(v, "arandur") || str_eq(v, "prometheus") || str_eq(v, "athena")
            || str_eq(v, "manwe") || str_eq(v, "citadel"),
        PresenceField::Mode => str_eq(v, "observing") || str_eq(v, "advising") || str_eq(v, "coordinating")
            || str_eq(v, "escalating") || str_eq(v, "executing") || str_eq(v, "offline"),
        PresenceField::Attention => str_eq(v, "idle") || str_eq(v, "focused") || str_eq(v, "elevated")
            || str_eq(v, "critical"),
        PresenceField::Accent => str_eq(v, "cyan") || str_eq(v, "gold") || str_eq(v, "amber") || str_eq(v, "red")
            || str_eq(v, "violet") || str_eq(v, "green"),
    }
}

/// The message refusing a value outside the field's vocabulary.
pub fn invalid_token_message(f: PresenceField, v: &str) -> (s: String)
    ensures
        s@ == "invalid "@ + field_name(f) + " '"@ + v@ + "'; allowed values: "@ + vocabulary_text(f),
{
    let mut out: Vec<char> = Vec::new();
    push_str(&mut out, "invalid ");
    match f {
        PresenceField::Agent => push_str(&mut out, "agent"),
        PresenceField::Mode => push_str(&mut out, "mode"),
        PresenceField::Attention => push_str(&mut out, "attention"),
        PresenceField::Accent => push_str(&mut out, "accent"),
    }
    push_str(&mut out, " '");
    push_str(&mut out, v);
    push_str(&mut out, "'; allowed values: ");
    match f {
        PresenceField::Agent => push_str(&mut out, "arandur, prometheus, athena, manwe, citadel"),
        PresenceField::Mode => push_str(&mut out, "observing, advising, coordinating, escalating, executing, offline"),
        PresenceField::Attention => push_str(&mut out, "idle, focused, elevated, critical"),
        PresenceField::Accent => push_str(&mut out, "cyan, gold, amber, red, violet, green"),
    }
    chars_to_string(out.as_slice())
}

/// A character a scene anchor may use: ASCII letters, digits, `_`, `-`, `.`.
pub open spec fn anchor_char(c: char) -> bool {
    is_ascii_alnum(c) || c == '_' || c == '-' || c == '.'
}

/// A named scene anchor: one to ninety-six anchor characters.
pub open spec fn anchor_ok(a: Seq<char>) -> bool {
    0 < a.len() <= 96 && forall|i: int| 0 <= i < a.len() ==> #[trigger] anchor_char(a[i])
}

/// Whether the anchor names a scene anchor.
pub fn anchor_valid(anchor: &str) -> (b: bool)
    ensures
        b == anchor_ok(anchor@),
{
    let v = str_chars(anchor);
    let mut i: usize = 0;
    while i < v.len()
        invariant
            i <= v.len(),
            v@ == anchor@,
            forall|j: int| 0 <= j < i ==> #[trigger] anchor_char(v@[j]),
        decreases v.len() - i,
    {
        let c = v[i];
        if !(ascii_alnum(c) || c == '_' || c == '-' || c == '.') {
            proof {
                assert(!anchor_char(v@[i as int]));
            }
            return false;
        }
        i += 1;
    }
    v.len() > 0 && v.len() <= 96
}

/// The message refusing an anchor.
pub fn invalid_anchor_message(anchor: &str) -> (s: String)
    ensures
        s@ == "invalid anchor_target '"@ + anchor@
            + "'; use a non-empty named scene anchor containing only [A-Za-z0-9_.-] and <= 96 chars"@,
{
    let mut out: Vec<char> = Vec::new();
    push_str(&mut out, "invalid anchor_target '");
    push_str(&mut out, anchor);
    push_str(&mut out, "'; use a non-empty named scene anchor containing only [A-Za-z0-9_.-] and <= 96 chars");
    chars_to_string(out.as_slice())
}

/// The RFC 3339 timestamp read and written back in UTC with whole
/// seconds and a `Z`; `None` when the text is not RFC 3339.
pub uninterp spec fn rfc3339_utc_seconds(value: Seq<char>) -> Option<Seq<char>>;

/// `chrono::DateTime::parse_from_rfc3339`, then `with_timezone(&Utc)` and
/// `to_rfc3339_opts(SecondsFormat::Secs, true)`. The result is named, not
/// stated: it depends on the text alone.
#[verifier::external_body]
fn utc_seconds(value: &str) -> (r: Option<String>)
    ensures
        view_opt(r) == rfc3339_utc_seconds(value@),
{
    match chrono::DateTime::parse_from_rfc3339(value) {
        Ok(t) => Some(t.with_timezone(&chrono::Utc).to_rfc3339_opts(chrono::SecondsFormat::Secs, true)),
        Err(_) => None,
    }
}

/// Why a presence event is refused.
#[derive(Debug, Clone, Copy, PartialEq, Eq, Structural)]
pub enum PresenceError {
    InvalidToken(PresenceField),
    InvalidAnchor,
    /// The given timestamp is not RFC 3339.
    InvalidTimestamp,
}

/// A presence event ready to append.
pub struct PresencePlan {
    pub id: String,
    pub timestamp: String,
    pub correlation_id: String,
}

/// What a presence event should be: the first field outside its
/// vocabulary (agent, mode, attention, accent, in that order), then a bad
/// anchor, then a bad timestamp refuse it; otherwise the timestamp is the
/// given one in UTC seconds (or `now`), the correlation id defaults to
/// `presence-event`, and the id is the given one or the deterministic id.
pub open spec fn presence_outcome(
    event_id: Option<Seq<char>>,
    agent: Seq<char>,
    mode: Seq<char>,
    attention: Seq<char>,
    accent: Seq<char>,
    anchor: Seq<char>,
    correlation_id: Option<Seq<char>>,
    timestamp_utc: Option<Seq<char>>,
    now: Seq<char>,
) -> Result<(Seq<char>, Seq<char>, Seq<char>), PresenceError> {
    if !token_ok(PresenceField::Agent, agent) {
        Err(PresenceError::InvalidToken(PresenceField::Agent))
    } else if !token_ok(PresenceField::Mode, mode) {
        Err(PresenceError::InvalidToken(PresenceField::Mode))
    } else if !token_ok(PresenceField::Attention, attention) {
        Err(PresenceError::InvalidToken(PresenceField::Attention))
    } else if !token_ok(PresenceField::Accent, accent) {
        Err(PresenceError::InvalidToken(PresenceField::Accent))
    } else if !anchor_ok(anchor) {
        Err(PresenceError::InvalidAnchor)
    } else {
        let ts = match timestamp_utc {
            Some(t) => rfc3339_utc_seconds(t),
            None => Some(now),
        };
        match ts {
            None => Err(PresenceError::InvalidTimestamp),
            Some(t) => {
                let corr = match correlation_id {
                    Some(c) => c,
                    None => "presence-event"@,
                };
                let id = match event_id {
                    Some(e) => e,
                    None => "presence_"@ + hex_text(sha1_of_text(presence_seed(agent, mode, attention, t, corr)), 24),
                };
                Ok((id, t, corr))
            },
        }
    }
}

/// Plans a presence event (see `presence_outcome`); `now` is the current
/// UTC time in whole seconds.
pub fn plan_presence_event(
    event_id: &Option<String>,
    agent: &str,
    mode: &str,
    attention: &str,
    accent: &str,
    anchor: &str,
    correlation_id: &Option<String>,
    timestamp_utc: &Option<String>,
    now: &str,
) -> (r: Result<PresencePlan, PresenceError>)
    ensures
        match (r, presence_outcome(view_opt(*event_id), agent@, mode@, attention@, accent@, anchor@,
            view_opt(*correlation_id), view_opt(*timestamp_utc), now@)) {
            (Ok(p), Ok((id, t, c))) => p.id@ == id && p.timestamp@ == t && p.correlation_id@ == c,
            (Err(e), Err(f)) => e == f,
            _ => false,
        },
{
    if !token_allowed(PresenceField::Agent, agent) {
        return Err(PresenceError::InvalidToken(PresenceField::Agent));
    }
    if !token_allowed(PresenceField::Mode, mode) {
        return Err(PresenceError::InvalidToken(PresenceField::Mode));
    }
    if !token_allowed(PresenceField::Attention, attention) {
        return Err(PresenceError::InvalidToken(PresenceField::Attention));
    }
    if !token_allowed(PresenceField::Accent, accent) {
        return Err(PresenceError::InvalidToken(PresenceField::Accent));
    }
    if !anchor_valid(anchor) {
        return Err(PresenceError::InvalidAnchor);
    }
    let ts = match timestamp_utc {
        Some(t) => utc_seconds(t.as_str()),
        None => Some(owned(now)),
    };
    match ts {
        None => Err(PresenceError::InvalidTimestamp),
        Some(t) => {
            let corr = match correlation_id {
                Some(c) => c.clone(),
                None => owned("presence-event"),
            };
            let id = match event_id {
                Some(e) => e.clone(),
                None => deterministic_presence_event_id(agent, mode, attention, t.as_str(), corr.as_str()),
            };
            Ok(PresencePlan { id, timestamp: t, correlation_id: corr })
        },
    }
}

/// The message refusing a timestamp that is not RFC 3339.
pub fn invalid_timestamp_message(value: &str) -> (s: String)
    ensures
        s@ == "timestamp_utc must be RFC3339: "@ + value@,
{
    let mut out: Vec<char> = Vec::new();
    push_str(&mut out, "timestamp_utc must be RFC3339: ");
    push_str(&mut out, value);
    chars_to_string(out.as_slice())
}

/// Law (presence vocabularies): the agents are arandur, prometheus,
/// athena, manwe and citadel; the modes observing, advising, coordinating,
/// escalating, executing and offline; the attention levels idle, focused,
/// elevated and critical; the accents cyan, gold, amber, red, violet and
/// green. Nothing else is accepted.
pub proof fn law_presence_vocabularies()
    ensures
        Set::new(|v: Seq<char>| token_ok(PresenceField::Agent, v))
            == set!["arandur"@, "prometheus"@, "athena"@, "manwe"@, "citadel"@],
        Set::new(|v: Seq<char>| token_ok(PresenceField::Mode, v))
            == set!["observing"@, "advising"@, "coordinating"@, "escalating"@, "executing"@, "offline"@],
        Set::new(|v: Seq<char>| token_ok(PresenceField::Attention, v))
            == set!["idle"@, "focused"@, "elevated"@, "critical"@],
        Set::new(|v: Seq<char>| token_ok(PresenceField::Accent, v))
            == set!["cyan"@, "gold"@, "amber"@, "red"@, "violet"@, "green"@],
{
    assert(Set::new(|v: Seq<char>| token_ok(PresenceField::Agent, v))
        =~= set!["arandur"@, "prometheus"@, "athena"@, "manwe"@, "citadel"@]);
    assert(Set::new(|v: Seq<char>| token_ok(PresenceField::Mode, v))
        =~= set!["observing"@, "advising"@, "coordinating"@, "escalating"@, "executing"@, "offline"@]);
    assert(Set::new(|v: Seq<char>| token_ok(PresenceField::Attention, v))
        =~= set!["idle"@, "focused"@, "elevated"@, "critical"@]);
    assert(Set::new(|v: Seq<char>| token_ok(PresenceField::Accent, v))
        =~= set!["cyan"@, "gold"@, "amber"@, "red"@, "violet"@, "green"@]);
}

/// Law (presence outcome): once every token is in its vocabulary and the
/// anchor is a named scene anchor, an event without a timestamp is planned
/// at `now`, with the correlation id "presence-event" unless one is given,
/// and with the given id when there is one; an anchor longer than 96
/// characters is refused after the tokens pass.
pub proof fn law_presence_defaults(
    event_id: Option<Seq<char>>,
    agent: Seq<char>,
    mode: Seq<char>,
    attention: Seq<char>,
    accent: Seq<char>,
    anchor: Seq<char>,
    correlation_id: Option<Seq<char>>,
    now: Seq<char>,
)
    requires
        token_ok(PresenceField::Agent, agent),
        token_ok(PresenceField::Mode, mode),
        token_ok(PresenceField::Attention, attention),
        token_ok(PresenceField::Accent, accent),
    ensures
        anchor_ok(anchor) ==> (presence_outcome(event_id, agent, mode, attention, accent, anchor, correlation_id, None, now)
            matches Ok((id, t, c)) && t == now
                && c == (if correlation_id is Some { correlation_id.unwrap() } else { "presence-event"@ })
                && (event_id is Some ==> id == event_id.unwrap())),
        anchor.len() > 96 ==> presence_outcome(event_id, agent, mode, attention, accent, anchor, correlation_id, None, now)
            == Err::<(Seq<char>, Seq<char>, Seq<char>), PresenceError>(PresenceError::InvalidAnchor),
{
}

} // verus!
