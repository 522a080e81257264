//! Mapping between JSON documents and the event model.
//!
//! Decoding is structural: the `type` discriminant selects the union
//! variant, unknown discriminants fail, optional fields tolerate absence
//! (or `null`), and any field that the model does not list is ignored.
//! Encoding writes exactly the fields that are present, in declaration
//! order, so presence and absence survive a round trip.

use vstd::prelude::*;
use crate::json::Json;
use crate::json::JsonV;
use crate::json::obj_get;
use crate::json::view_fields;
use crate::json::view_items;
use crate::json::lemma_view_fields;
use crate::json::lemma_view_items;
use crate::json::parse_json;
use crate::json::parse_text;
use crate::model::Edited;
use crate::model::EditedV;
use crate::model::EventCallback;
use crate::model::EventCallbackV;
use crate::model::InternalEvent;
use crate::model::InternalEventV;
use crate::model::Message;
use crate::model::MessageV;
use crate::model::Reaction;
use crate::model::ReactionV;
use crate::model::SlackEvent;
use crate::model::SlackEventV;
use crate::model::PostMessage;
use crate::model::PostMessageV;
use crate::model::view_opt_string;
use crate::model::view_strings;
use crate::model::view_reactions;
use crate::model::lemma_view_strings;
use crate::model::lemma_view_reactions;

verus! {

// ---------------------------------------------------------------------------
// Reading one field of an object, in specification terms. The outer `Option`
// is the decode outcome: `None` rejects the document. The inner value is the
// field itself; for optional fields an absent or `null` entry reads as
// `None`.
// ---------------------------------------------------------------------------

/// An optional string field.
pub open spec fn str_field(fields: Seq<(Seq<char>, JsonV)>, key: Seq<char>) -> Option<
    Option<Seq<char>>,
> {
    match obj_get(fields, key) {
        None => Some(None),
        Some(JsonV::Null) => Some(None),
        Some(JsonV::Str(s)) => Some(Some(s)),
        Some(_) => None,
    }
}

/// An optional boolean field.
pub open spec fn bool_field(fields: Seq<(Seq<char>, JsonV)>, key: Seq<char>) -> Option<
    Option<bool>,
> {
    match obj_get(fields, key) {
        None => Some(None),
        Some(JsonV::Null) => Some(None),
        Some(JsonV::Bool(b)) => Some(Some(b)),
        Some(_) => None,
    }
}

/// A required string field.
pub open spec fn req_str_field(fields: Seq<(Seq<char>, JsonV)>, key: Seq<char>) -> Option<
    Seq<char>,
> {
    match obj_get(fields, key) {
        Some(JsonV::Str(s)) => Some(s),
        _ => None,
    }
}

/// A required unsigned integer field.
pub open spec fn req_u64_field(fields: Seq<(Seq<char>, JsonV)>, key: Seq<char>) -> Option<u64> {
    match obj_get(fields, key) {
        Some(JsonV::UInt(n)) => Some(n),
        _ => None,
    }
}

/// The strings of an array whose elements must all be strings.
pub open spec fn strings_of(items: Seq<JsonV>) -> Option<Seq<Seq<char>>>
    decreases items,
{
    if items.len() == 0 {
        Some(Seq::empty())
    } else {
        match items[0] {
            JsonV::Str(s) => match strings_of(items.drop_first()) {
                None => None,
                Some(rest) => Some(seq![s] + rest),
            },
            _ => None,
        }
    }
}

/// An optional field holding an array of strings.
pub open spec fn strings_field(fields: Seq<(Seq<char>, JsonV)>, key: Seq<char>) -> Option<
    Option<Seq<Seq<char>>>,
> {
    match obj_get(fields, key) {
        None => Some(None),
        Some(JsonV::Null) => Some(None),
        Some(JsonV::Arr(items)) => match strings_of(items) {
            None => None,
            Some(ss) => Some(Some(ss)),
        },
        Some(_) => None,
    }
}

/// A required field holding an array of strings.
pub open spec fn req_strings_field(fields: Seq<(Seq<char>, JsonV)>, key: Seq<char>) -> Option<
    Seq<Seq<char>>,
> {
    match obj_get(fields, key) {
        Some(JsonV::Arr(items)) => strings_of(items),
        _ => None,
    }
}

/// Edit metadata: an object with required `user` and `ts`.
pub open spec fn spec_edited_from(j: JsonV) -> Option<EditedV> {
    match j {
        JsonV::Obj(f) => match (req_str_field(f, "user"@), req_str_field(f, "ts"@)) {
            (Some(u), Some(t)) => Some(EditedV { user: u, ts: t }),
            _ => None,
        },
        _ => None,
    }
}

/// An optional field holding edit metadata.
pub open spec fn edited_field(fields: Seq<(Seq<char>, JsonV)>, key: Seq<char>) -> Option<
    Option<EditedV>,
> {
    match obj_get(fields, key) {
        None => Some(None),
        Some(JsonV::Null) => Some(None),
        Some(v) => match spec_edited_from(v) {
            None => None,
            Some(e) => Some(Some(e)),
        },
    }
}

/// A reaction: an object with required `name`, `count` and `users`.
pub open spec fn spec_reaction_from(j: JsonV) -> Option<ReactionV> {
    match j {
        JsonV::Obj(f) => match (
            req_str_field(f, "name"@),
            req_u64_field(f, "count"@),
            req_strings_field(f, "users"@),
        ) {
            (Some(n), Some(c), Some(u)) => Some(ReactionV { name: n, count: c, users: u }),
            _ => None,
        },
        _ => None,
    }
}

/// The reactions of an array whose elements must all decode as reactions.
pub open spec fn reactions_of(items: Seq<JsonV>) -> Option<Seq<ReactionV>>
    decreases items,
{
    if items.len() == 0 {
        Some(Seq::empty())
    } else {
        match spec_reaction_from(items[0]) {
            None => None,
            Some(r) => match reactions_of(items.drop_first()) {
                None => None,
                Some(rest) => Some(seq![r] + rest),
            },
        }
    }
}

/// An optional field holding an array of reactions.
pub open spec fn reactions_field(fields: Seq<(Seq<char>, JsonV)>, key: Seq<char>) -> Option<
    Option<Seq<ReactionV>>,
> {
    match obj_get(fields, key) {
        None => Some(None),
        Some(JsonV::Null) => Some(None),
        Some(JsonV::Arr(items)) => match reactions_of(items) {
            None => None,
            Some(rs) => Some(Some(rs)),
        },
        Some(_) => None,
    }
}

/// An optional field holding a nested message. Walks the field list
/// directly, so that the mutual recursion with [`spec_message_from`]
/// descends through the list's own structure.
pub open spec fn msg_field(fields: Seq<(Seq<char>, JsonV)>, key: Seq<char>) -> Option<
    Option<Box<MessageV>>,
>
    decreases fields,
{
    if fields.len() == 0 {
        Some(None)
    } else if fields[0].0 == key {
        match fields[0].1 {
            JsonV::Null => Some(None),
            _ => match spec_message_from(fields[0].1) {
                None => None,
                Some(m) => Some(Some(Box::new(m))),
            },
        }
    } else {
        msg_field(fields.drop_first(), key)
    }
}

/// A message: an object with a required `ts` and the optional fields of the
/// model; any other field is ignored.
pub open spec fn spec_message_from(j: JsonV) -> Option<MessageV>
    decreases j,
{
    match j {
        JsonV::Obj(f) => if req_str_field(f, "ts"@) is None || str_field(f, "channel"@) is None
            || str_field(f, "channel_type"@) is None || str_field(f, "client_msg_id"@) is None
            || str_field(f, "deleted_ts"@) is None || edited_field(f, "edited"@) is None
            || str_field(f, "event_ts"@) is None || bool_field(f, "hidden"@) is None || bool_field(
            f,
            "is_starred"@,
        ) is None || msg_field(f, "message"@) is None || strings_field(f, "pinned_to"@) is None
            || msg_field(f, "previous_message"@) is None || reactions_field(f, "reactions"@) is None
            || str_field(f, "source_team"@) is None || str_field(f, "subtype"@) is None
            || str_field(f, "team"@) is None || str_field(f, "text"@) is None || str_field(
            f,
            "user"@,
        ) is None || str_field(f, "user_team"@) is None {
            None
        } else {
            Some(
                MessageV {
                    ts: req_str_field(f, "ts"@)->0,
                    channel: str_field(f, "channel"@)->0,
                    channel_type: str_field(f, "channel_type"@)->0,
                    client_msg_id: str_field(f, "client_msg_id"@)->0,
                    deleted_ts: str_field(f, "deleted_ts"@)->0,
                    edited: edited_field(f, "edited"@)->0,
                    event_ts: str_field(f, "event_ts"@)->0,
                    hidden: bool_field(f, "hidden"@)->0,
                    is_starred: bool_field(f, "is_starred"@)->0,
                    message: msg_field(f, "message"@)->0,
                    pinned_to: strings_field(f, "pinned_to"@)->0,
                    previous_message: msg_field(f, "previous_message"@)->0,
                    reactions: reactions_field(f, "reactions"@)->0,
                    source_team: str_field(f, "source_team"@)->0,
                    subtype: str_field(f, "subtype"@)->0,
                    team: str_field(f, "team"@)->0,
                    text: str_field(f, "text"@)->0,
                    user: str_field(f, "user"@)->0,
                    user_team: str_field(f, "user_team"@)->0,
                },
            )
        },
        _ => None,
    }
}

/// An inner event: the `type` discriminant selects the variant; `message`
/// is the one known kind, read from the same object.
pub open spec fn spec_internal_event_from(j: JsonV) -> Option<InternalEventV> {
    match j {
        JsonV::Obj(f) => if req_str_field(f, "type"@) == Some("message"@) {
            match spec_message_from(j) {
                None => None,
                Some(m) => Some(InternalEventV::Message(m)),
            }
        } else {
            None
        },
        _ => None,
    }
}

/// An event callback envelope: all fields of the model are required.
pub open spec fn spec_event_callback_from(j: JsonV) -> Option<EventCallbackV> {
    match j {
        JsonV::Obj(f) => {
            let ev = match obj_get(f, "event"@) {
                None => None,
                Some(v) => spec_internal_event_from(v),
            };
            if req_str_field(f, "token"@) is None || req_str_field(f, "team_id"@) is None
                || req_str_field(f, "api_app_id"@) is None || ev is None || req_str_field(
                f,
                "event_id"@,
            ) is None || req_u64_field(f, "event_time"@) is None || req_strings_field(
                f,
                "authed_users"@,
            ) is None {
                None
            } else {
                Some(
                    EventCallbackV {
                        token: req_str_field(f, "token"@)->0,
                        team_id: req_str_field(f, "team_id"@)->0,
                        api_app_id: req_str_field(f, "api_app_id"@)->0,
                        event: ev->0,
                        event_id: req_str_field(f, "event_id"@)->0,
                        event_time: req_u64_field(f, "event_time"@)->0,
                        authed_users: req_strings_field(f, "authed_users"@)->0,
                    },
                )
            }
        },
        _ => None,
    }
}

/// A top-level event: the `type` discriminant selects the union variant;
/// unknown discriminants fail.
pub open spec fn spec_slack_event_from(j: JsonV) -> Option<SlackEventV> {
    match j {
        JsonV::Obj(f) => match req_str_field(f, "type"@) {
            None => None,
            Some(t) => if t == "url_verification"@ {
                match (req_str_field(f, "token"@), req_str_field(f, "challenge"@)) {
                    (Some(tok), Some(ch)) => Some(
                        SlackEventV::UrlVerification { token: tok, challenge: ch },
                    ),
                    _ => None,
                }
            } else if t == "event_callback"@ {
                match spec_event_callback_from(j) {
                    None => None,
                    Some(cb) => Some(SlackEventV::EventCallback(cb)),
                }
            } else {
                None
            },
        },
        _ => None,
    }
}

/// The decoding of a whole request body: parse the text, then read the
/// event from the document.
pub open spec fn spec_decode(s: Seq<char>) -> Option<SlackEventV> {
    match parse_json(s) {
        None => None,
        Some(j) => spec_slack_event_from(j),
    }
}


// ---------------------------------------------------------------------------
// Executable decoding.
// ---------------------------------------------------------------------------

/// Relies on `str`'s `==`: equality of the character sequences.
#[verifier::external_body]
pub(crate) fn str_eq(a: &str, b: &str) -> (r: bool)
    ensures
        r == (a@ == b@),
{
    a == b
}

/// Finds the first field named `key`, as an index into the field list.
fn find_key(fields: &Vec<(String, Json)>, key: &str) -> (r: Option<usize>)
    ensures
        match r {
            Some(idx) => idx < fields@.len() && fields@[idx as int].0@ == key@ && obj_get(
                view_fields(fields@),
                key@,
            ) == Some(fields@[idx as int].1@),
            None => obj_get(view_fields(fields@), key@) is None,
        },
{
    let ghost vf = view_fields(fields@);
    proof {
        lemma_view_fields(fields@);
        assert(vf.skip(0) =~= vf);
    }
    let mut i: usize = 0;
    while i < fields.len()
        invariant
            i <= fields@.len(),
            vf == view_fields(fields@),
            vf.len() == fields@.len(),
            forall|k: int| 0 <= k < fields@.len() ==> vf[k] == (fields@[k].0@, fields@[k].1@),
            obj_get(vf, key@) == obj_get(vf.skip(i as int), key@),
        decreases fields@.len() - i,
    {
        proof {
            assert(vf.skip(i as int).len() == vf.len() - i);
            assert(vf.skip(i as int)[0] == vf[i as int]);
        }
        if str_eq(fields[i].0.as_str(), key) {
            return Some(i);
        }
        proof {
            assert(vf.skip(i as int).drop_first() =~= vf.skip(i as int + 1));
        }
        i = i + 1;
    }
    proof {
        assert(vf.skip(fields@.len() as int).len() == 0);
    }
    None
}

/// Reads an optional string field.
fn get_opt_str(fields: &Vec<(String, Json)>, key: &str) -> (r: Option<Option<String>>)
    ensures
        match r {
            Some(o) => str_field(view_fields(fields@), key@) == Some(view_opt_string(o)),
            None => str_field(view_fields(fields@), key@) is None,
        },
{
    match find_key(fields, key) {
        None => Some(None),
        Some(idx) => match &fields[idx].1 {
            Json::Null => Some(None),
            Json::Str(s) => Some(Some(s.clone())),
            _ => None,
        },
    }
}

/// Reads an optional boolean field.
fn get_opt_bool(fields: &Vec<(String, Json)>, key: &str) -> (r: Option<Option<bool>>)
    ensures
        match r {
            Some(o) => bool_field(view_fields(fields@), key@) == Some(o),
            None => bool_field(view_fields(fields@), key@) is None,
        },
{
    match find_key(fields, key) {
        None => Some(None),
        Some(idx) => match &fields[idx].1 {
            Json::Null => Some(None),
            Json::Bool(b) => Some(Some(*b)),
            _ => None,
        },
    }
}

/// Reads a required string field.
fn get_req_str(fields: &Vec<(String, Json)>, key: &str) -> (r: Option<String>)
    ensures
        match r {
            Some(s) => req_str_field(view_fields(fields@), key@) == Some(s@),
            None => req_str_field(view_fields(fields@), key@) is None,
        },
{
    match find_key(fields, key) {
        None => None,
        Some(idx) => match &fields[idx].1 {
            Json::Str(s) => Some(s.clone()),
            _ => None,
        },
    }
}

/// Reads a required unsigned integer field.
fn get_req_u64(fields: &Vec<(String, Json)>, key: &str) -> (r: Option<u64>)
    ensures
        match r {
            Some(n) => req_u64_field(view_fields(fields@), key@) == Some(n),
            None => req_u64_field(view_fields(fields@), key@) is None,
        },
{
    match find_key(fields, key) {
        None => None,
        Some(idx) => match &fields[idx].1 {
            Json::UInt(n) => Some(*n),
            _ => None,
        },
    }
}

/// Decodes an array whose elements must all be strings.
fn strings_of_x(items: &Vec<Json>) -> (r: Option<Vec<String>>)
    ensures
        match r {
            Some(v) => strings_of(view_items(items@)) == Some(view_strings(v@)),
            None => strings_of(view_items(items@)) is None,
        },
{
    let ghost iv = view_items(items@);
    proof {
        lemma_view_items(items@);
        assert(iv.skip(0) =~= iv);
    }
    let mut out: Vec<String> = Vec::new();
    let mut i: usize = 0;
    proof {
        assert(view_strings(out@) == Seq::<Seq<char>>::empty());
    }
    while i < items.len()
        invariant
            i <= items@.len(),
            iv == view_items(items@),
            iv.len() == items@.len(),
            forall|k: int| 0 <= k < items@.len() ==> iv[k] == items@[k]@,
            match strings_of(iv.skip(i as int)) {
                None => strings_of(iv) is None,
                Some(rest) => strings_of(iv) == Some(view_strings(out@) + rest),
            },
        decreases items@.len() - i,
    {
        proof {
            assert(iv.skip(i as int).len() == iv.len() - i);
            assert(iv.skip(i as int)[0] == iv[i as int]);
            assert(iv.skip(i as int).drop_first() =~= iv.skip(i as int + 1));
        }
        match &items[i] {
            Json::Str(s) => {
                let ghost out_old = out@;
                out.push(s.clone());
                proof {
                    lemma_view_strings(out_old);
                    lemma_view_strings(out@);
                    assert(view_strings(out@) =~= view_strings(out_old) + seq![items@[i as int]@->Str_0]);
                    assert forall|rest2: Seq<Seq<char>>|
                        true implies view_strings(out_old) + (seq![iv[i as int]->Str_0] + rest2)
                        =~= view_strings(out@) + rest2 by {}
                }
            },
            _ => {
                return None;
            },
        }
        i = i + 1;
    }
    proof {
        assert(iv.skip(iv.len() as int).len() == 0);
        assert(view_strings(out@) + Seq::<Seq<char>>::empty() =~= view_strings(out@));
    }
    Some(out)
}

/// Reads an optional field holding an array of strings.
fn get_opt_strings(fields: &Vec<(String, Json)>, key: &str) -> (r: Option<Option<Vec<String>>>)
    ensures
        match r {
            Some(o) => strings_field(view_fields(fields@), key@) == Some(
                match o {
                    None => None,
                    Some(v) => Some(view_strings(v@)),
                },
            ),
            None => strings_field(view_fields(fields@), key@) is None,
        },
{
    match find_key(fields, key) {
        None => Some(None),
        Some(idx) => match &fields[idx].1 {
            Json::Null => Some(None),
            Json::Arr(items) => match strings_of_x(items) {
                None => None,
                Some(v) => Some(Some(v)),
            },
            _ => None,
        },
    }
}

/// Reads a required field holding an array of strings.
fn get_req_strings(fields: &Vec<(String, Json)>, key: &str) -> (r: Option<Vec<String>>)
    ensures
        match r {
            Some(v) => req_strings_field(view_fields(fields@), key@) == Some(view_strings(v@)),
            None => req_strings_field(view_fields(fields@), key@) is None,
        },
{
    match find_key(fields, key) {
        None => None,
        Some(idx) => match &fields[idx].1 {
            Json::Arr(items) => strings_of_x(items),
            _ => None,
        },
    }
}

/// Decodes edit metadata.
fn edited_from_json(j: &Json) -> (r: Option<Edited>)
    ensures
        match r {
            Some(e) => spec_edited_from(j@) == Some(e@),
            None => spec_edited_from(j@) is None,
        },
{
    match j {
        Json::Obj(fields) => {
            let user = match get_req_str(fields, "user") {
                None => {
                    return None;
                },
                Some(u) => u,
            };
            let ts = match get_req_str(fields, "ts") {
                None => {
                    return None;
                },
                Some(t) => t,
            };
            Some(Edited { user, ts })
        },
        _ => None,
    }
}

/// Reads an optional field holding edit metadata.
fn get_opt_edited(fields: &Vec<(String, Json)>, key: &str) -> (r: Option<Option<Edited>>)
    ensures
        match r {
            Some(o) => edited_field(view_fields(fields@), key@) == Some(
                match o {
                    None => None,
                    Some(e) => Some(e@),
                },
            ),
            None => edited_field(view_fields(fields@), key@) is None,
        },
{
    match find_key(fields, key) {
        None => Some(None),
        Some(idx) => match &fields[idx].1 {
            Json::Null => Some(None),
            sub => match edited_from_json(sub) {
                None => None,
                Some(e) => Some(Some(e)),
            },
        },
    }
}

/// Decodes one reaction.
fn reaction_from_json(j: &Json) -> (r: Option<Reaction>)
    ensures
        match r {
            Some(x) => spec_reaction_from(j@) == Some(x@),
            None => spec_reaction_from(j@) is None,
        },
{
    match j {
        Json::Obj(fields) => {
            let name = match get_req_str(fields, "name") {
                None => {
                    return None;
                },
                Some(n) => n,
            };
            let count = match get_req_u64(fields, "count") {
                None => {
                    return None;
                },
                Some(c) => c,
            };
            let users = match get_req_strings(fields, "users") {
                None => {
                    return None;
                },
                Some(u) => u,
            };
            Some(Reaction { name, count, users })
        },
        _ => None,
    }
}

/// Decodes an array whose elements must all be reactions.
fn reactions_of_x(items: &Vec<Json>) -> (r: Option<Vec<Reaction>>)
    ensures
        match r {
            Some(v) => reactions_of(view_items(items@)) == Some(view_reactions(v@)),
            None => reactions_of(view_items(items@)) is None,
        },
{
    let ghost iv = view_items(items@);
    proof {
        lemma_view_items(items@);
        assert(iv.skip(0) =~= iv);
    }
    let mut out: Vec<Reaction> = Vec::new();
    let mut i: usize = 0;
    proof {
        assert(view_reactions(out@) == Seq::<ReactionV>::empty());
    }
    while i < items.len()
        invariant
            i <= items@.len(),
            iv == view_items(items@),
            iv.len() == items@.len(),
            forall|k: int| 0 <= k < items@.len() ==> iv[k] == items@[k]@,
            match reactions_of(iv.skip(i as int)) {
                None => reactions_of(iv) is None,
                Some(rest) => reactions_of(iv) == Some(view_reactions(out@) + rest),
            },
        decreases items@.len() - i,
    {
        proof {
            assert(iv.skip(i as int).len() == iv.len() - i);
            assert(iv.skip(i as int)[0] == iv[i as int]);
            assert(iv.skip(i as int).drop_first() =~= iv.skip(i as int + 1));
        }
        match reaction_from_json(&items[i]) {
            None => {
                return None;
            },
            Some(x) => {
                let ghost xv = x@;
                let ghost out_old = out@;
                out.push(x);
                proof {
                    lemma_view_reactions(out_old);
                    lemma_view_reactions(out@);
                    assert(view_reactions(out@) =~= view_reactions(out_old) + seq![xv]);
                    assert forall|rest2: Seq<ReactionV>|
                        true implies view_reactions(out_old) + (seq![xv] + rest2)
                        =~= view_reactions(out@) + rest2 by {}
                }
            },
        }
        i = i + 1;
    }
    proof {
        assert(iv.skip(iv.len() as int).len() == 0);
        assert(view_reactions(out@) + Seq::<ReactionV>::empty() =~= view_reactions(out@));
    }
    Some(out)
}

/// Reads an optional field holding an array of reactions.
fn get_opt_reactions(fields: &Vec<(String, Json)>, key: &str) -> (r: Option<Option<Vec<Reaction>>>)
    ensures
        match r {
            Some(o) => reactions_field(view_fields(fields@), key@) == Some(
                match o {
                    None => None,
                    Some(v) => Some(view_reactions(v@)),
                },
            ),
            None => reactions_field(view_fields(fields@), key@) is None,
        },
{
    match find_key(fields, key) {
        None => Some(None),
        Some(idx) => match &fields[idx].1 {
            Json::Null => Some(None),
            Json::Arr(items) => match reactions_of_x(items) {
                None => None,
                Some(v) => Some(Some(v)),
            },
            _ => None,
        },
    }
}


/// The walker [`msg_field`] reads the same value that a lookup would.
pub proof fn lemma_msg_field(fields: Seq<(Seq<char>, JsonV)>, key: Seq<char>)
    ensures
        msg_field(fields, key) == (match obj_get(fields, key) {
            None => Some(None::<Box<MessageV>>),
            Some(JsonV::Null) => Some(None::<Box<MessageV>>),
            Some(v) => match spec_message_from(v) {
                None => None::<Option<Box<MessageV>>>,
                Some(m) => Some(Some(Box::new(m))),
            },
        }),
    decreases fields,
{
    if fields.len() != 0 && fields[0].0 != key {
        lemma_msg_field(fields.drop_first(), key);
    }
}

/// Reads an optional field holding a nested message.
fn get_opt_msg(fields: &Vec<(String, Json)>, key: &str) -> (r: Option<Option<Box<Message>>>)
    ensures
        match r {
            Some(o) => msg_field(view_fields(fields@), key@) == Some(
                match o {
                    None => None,
                    Some(b) => Some(Box::new((*b)@)),
                },
            ),
            None => msg_field(view_fields(fields@), key@) is None,
        },
    decreases fields@,
{
    proof {
        lemma_msg_field(view_fields(fields@), key@);
    }
    match find_key(fields, key) {
        None => Some(None),
        Some(idx) => match &fields[idx].1 {
            Json::Null => Some(None),
            sub => {
                proof {
                    assert(decreases_to!(fields@ => fields@[idx as int]));
                    assert(decreases_to!(fields@[idx as int] => fields@[idx as int].1));
                    assert(decreases_to!(fields@ => fields@[idx as int].1));
                }
                match message_from_json(sub) {
                    None => None,
                    Some(m) => Some(Some(Box::new(m))),
                }
            },
        },
    }
}

/// Decodes a message.
#[verifier::rlimit(100)]
pub fn message_from_json(j: &Json) -> (r: Option<Message>)
    ensures
        match r {
            Some(m) => spec_message_from(j@) == Some(m@),
            None => spec_message_from(j@) is None,
        },
    decreases j,
{
    match j {
        Json::Obj(fields) => {
            proof {
                assert(decreases_to!(*j => j->Obj_0));
                assert(decreases_to!(j->Obj_0 => fields@));
            }
            let ts = match get_req_str(fields, "ts") {
                None => {
                    return None;
                },
                Some(x) => x,
            };
            let channel = match get_opt_str(fields, "channel") {
                None => {
                    return None;
                },
                Some(x) => x,
            };
            let channel_type = match get_opt_str(fields, "channel_type") {
                None => {
                    return None;
                },
                Some(x) => x,
            };
            let client_msg_id = match get_opt_str(fields, "client_msg_id") {
                None => {
                    return None;
                },
                Some(x) => x,
            };
            let deleted_ts = match get_opt_str(fields, "deleted_ts") {
                None => {
                    return None;
                },
                Some(x) => x,
            };
            let edited = match get_opt_edited(fields, "edited") {
                None => {
                    return None;
                },
                Some(x) => x,
            };
            let event_ts = match get_opt_str(fields, "event_ts") {
                None => {
                    return None;
                },
                Some(x) => x,
            };
            let hidden = match get_opt_bool(fields, "hidden") {
                None => {
                    return None;
                },
                Some(x) => x,
            };
            let is_starred = match get_opt_bool(fields, "is_starred") {
                None => {
                    return None;
                },
                Some(x) => x,
            };
            let message = match get_opt_msg(fields, "message") {
                None => {
                    return None;
                },
                Some(x) => x,
            };
            let pinned_to = match get_opt_strings(fields, "pinned_to") {
                None => {
                    return None;
                },
                Some(x) => x,
            };
            let previous_message = match get_opt_msg(fields, "previous_message") {
                None => {
                    return None;
                },
                Some(x) => x,
            };
            let reactions = match get_opt_reactions(fields, "reactions") {
                None => {
                    return None;
                },
                Some(x) => x,
            };
            let source_team = match get_opt_str(fields, "source_team") {
                None => {
                    return None;
                },
                Some(x) => x,
            };
            let subtype = match get_opt_str(fields, "subtype") {
                None => {
                    return None;
                },
                Some(x) => x,
            };
            let team = match get_opt_str(fields, "team") {
                None => {
                    return None;
                },
                Some(x) => x,
            };
            let text = match get_opt_str(fields, "text") {
                None => {
                    return None;
                },
                Some(x) => x,
            };
            let user = match get_opt_str(fields, "user") {
                None => {
                    return None;
                },
                Some(x) => x,
            };
            let user_team = match get_opt_str(fields, "user_team") {
                None => {
                    return None;
                },
                Some(x) => x,
            };
            Some(
                Message {
                    ts,
                    channel,
                    channel_type,
                    client_msg_id,
                    deleted_ts,
                    edited,
                    event_ts,
                    hidden,
                    is_starred,
                    message,
                    pinned_to,
                    previous_message,
                    reactions,
                    source_team,
                    subtype,
                    team,
                    text,
                    user,
                    user_team,
                },
            )
        },
        _ => None,
    }
}

/// Decodes an inner event.
pub fn internal_event_from_json(j: &Json) -> (r: Option<InternalEvent>)
    ensures
        match r {
            Some(e) => spec_internal_event_from(j@) == Some(e@),
            None => spec_internal_event_from(j@) is None,
        },
{
    match j {
        Json::Obj(fields) => match get_req_str(fields, "type") {
            None => None,
            Some(t) => if str_eq(t.as_str(), "message") {
                match message_from_json(j) {
                    None => None,
                    Some(m) => Some(InternalEvent::Message(m)),
                }
            } else {
                None
            },
        },
        _ => None,
    }
}

/// Decodes an event callback envelope.
pub fn event_callback_from_json(j: &Json) -> (r: Option<EventCallback>)
    ensures
        match r {
            Some(cb) => spec_event_callback_from(j@) == Some(cb@),
            None => spec_event_callback_from(j@) is None,
        },
{
    match j {
        Json::Obj(fields) => {
            let token = match get_req_str(fields, "token") {
                None => {
                    return None;
                },
                Some(x) => x,
            };
            let team_id = match get_req_str(fields, "team_id") {
                None => {
                    return None;
                },
                Some(x) => x,
            };
            let api_app_id = match get_req_str(fields, "api_app_id") {
                None => {
                    return None;
                },
                Some(x) => x,
            };
            let event = match find_key(fields, "event") {
                None => {
                    return None;
                },
                Some(idx) => match internal_event_from_json(&fields[idx].1) {
                    None => {
                        return None;
                    },
                    Some(e) => e,
                },
            };
            let event_id = match get_req_str(fields, "event_id") {
                None => {
                    return None;
                },
                Some(x) => x,
            };
            let event_time = match get_req_u64(fields, "event_time") {
                None => {
                    return None;
                },
                Some(x) => x,
            };
            let authed_users = match get_req_strings(fields, "authed_users") {
                None => {
                    return None;
                },
                Some(x) => x,
            };
            Some(EventCallback { token, team_id, api_app_id, event, event_id, event_time, authed_users })
        },
        _ => None,
    }
}

/// Decodes a top-level event.
pub fn slack_event_from_json(j: &Json) -> (r: Option<SlackEvent>)
    ensures
        match r {
            Some(e) => spec_slack_event_from(j@) == Some(e@),
            None => spec_slack_event_from(j@) is None,
        },
{
    match j {
        Json::Obj(fields) => match get_req_str(fields, "type") {
            None => None,
            Some(t) => if str_eq(t.as_str(), "url_verification") {
                let token = match get_req_str(fields, "token") {
                    None => {
                        return None;
                    },
                    Some(x) => x,
                };
                let challenge = match get_req_str(fields, "challenge") {
                    None => {
                        return None;
                    },
                    Some(x) => x,
                };
                Some(SlackEvent::UrlVerification { token, challenge })
            } else if str_eq(t.as_str(), "event_callback") {
                match event_callback_from_json(j) {
                    None => None,
                    Some(cb) => Some(SlackEvent::EventCallback(cb)),
                }
            } else {
                None
            },
        },
        _ => None,
    }
}

/// Decodes a whole request body: parses the text, then reads the event.
pub fn decode_event(s: &str) -> (r: Option<SlackEvent>)
    ensures
        match r {
            Some(e) => spec_decode(s@) == Some(e@),
            None => spec_decode(s@) is None,
        },
{
    match parse_text(s) {
        None => None,
        Some(j) => slack_event_from_json(&j),
    }
}


// ---------------------------------------------------------------------------
// Encoding. Exactly the fields that are present are written, in declaration
// order, so presence and absence survive a round trip.
// ---------------------------------------------------------------------------

/// The entry an optional string field contributes: nothing, or one pair.
pub open spec fn opt_str_entry(key: Seq<char>, o: Option<Seq<char>>) -> Seq<(Seq<char>, JsonV)> {
    match o {
        None => Seq::empty(),
        Some(s) => seq![(key, JsonV::Str(s))],
    }
}

/// The entry an optional boolean field contributes.
pub open spec fn opt_bool_entry(key: Seq<char>, o: Option<bool>) -> Seq<(Seq<char>, JsonV)> {
    match o {
        None => Seq::empty(),
        Some(b) => seq![(key, JsonV::Bool(b))],
    }
}

/// An array of strings as a JSON array of strings.
pub open spec fn strings_json(ss: Seq<Seq<char>>) -> Seq<JsonV> {
    Seq::new(ss.len(), |i: int| JsonV::Str(ss[i]))
}

/// The entry an optional string-array field contributes.
pub open spec fn opt_strings_entry(key: Seq<char>, o: Option<Seq<Seq<char>>>) -> Seq<
    (Seq<char>, JsonV),
> {
    match o {
        None => Seq::empty(),
        Some(ss) => seq![(key, JsonV::Arr(strings_json(ss)))],
    }
}

/// Edit metadata as a JSON object.
pub open spec fn edited_to_json(e: EditedV) -> JsonV {
    JsonV::Obj(seq![("user"@, JsonV::Str(e.user)), ("ts"@, JsonV::Str(e.ts))])
}

/// The entry an optional edit-metadata field contributes.
pub open spec fn opt_edited_entry(key: Seq<char>, o: Option<EditedV>) -> Seq<(Seq<char>, JsonV)> {
    match o {
        None => Seq::empty(),
        Some(e) => seq![(key, edited_to_json(e))],
    }
}

/// One reaction as a JSON object.
pub open spec fn reaction_to_json(r: ReactionV) -> JsonV {
    JsonV::Obj(
        seq![
            ("name"@, JsonV::Str(r.name)),
            ("count"@, JsonV::UInt(r.count)),
            ("users"@, JsonV::Arr(strings_json(r.users))),
        ],
    )
}

/// An array of reactions as a JSON array.
pub open spec fn reactions_json(rs: Seq<ReactionV>) -> Seq<JsonV> {
    Seq::new(rs.len(), |i: int| reaction_to_json(rs[i]))
}

/// The entry an optional reaction-array field contributes.
pub open spec fn opt_reactions_entry(key: Seq<char>, o: Option<Seq<ReactionV>>) -> Seq<
    (Seq<char>, JsonV),
> {
    match o {
        None => Seq::empty(),
        Some(rs) => seq![(key, JsonV::Arr(reactions_json(rs)))],
    }
}

/// The field list of an encoded message: the required `ts`, then every
/// present optional field, in declaration order.
pub open spec fn msg_fields_a(m: MessageV) -> Seq<(Seq<char>, JsonV)> {
    seq![("ts"@, JsonV::Str(m.ts))] + (opt_str_entry("channel"@, m.channel) + (opt_str_entry(
        "channel_type"@,
        m.channel_type,
    ) + (opt_str_entry("client_msg_id"@, m.client_msg_id) + (opt_str_entry(
        "deleted_ts"@,
        m.deleted_ts,
    ) + (opt_edited_entry("edited"@, m.edited) + opt_str_entry("event_ts"@, m.event_ts))))))
}

pub open spec fn msg_fields_b(m: MessageV) -> Seq<(Seq<char>, JsonV)>
    decreases m, 0int,
{
    opt_bool_entry("hidden"@, m.hidden) + (opt_bool_entry("is_starred"@, m.is_starred) + ((match m.message {
        None => Seq::empty(),
        Some(b) => seq![("message"@, spec_message_to(*b))],
    }) + (opt_strings_entry("pinned_to"@, m.pinned_to) + ((match m.previous_message {
        None => Seq::empty(),
        Some(b) => seq![("previous_message"@, spec_message_to(*b))],
    }) + opt_reactions_entry("reactions"@, m.reactions)))))
}

pub open spec fn msg_fields_c(m: MessageV) -> Seq<(Seq<char>, JsonV)> {
    opt_str_entry("source_team"@, m.source_team) + (opt_str_entry("subtype"@, m.subtype) + (
    opt_str_entry("team"@, m.team) + (opt_str_entry("text"@, m.text) + (opt_str_entry(
        "user"@,
        m.user,
    ) + opt_str_entry("user_team"@, m.user_team)))))
}

/// The field list of an encoded message: the required `ts`, then every
/// present optional field, in declaration order.
pub open spec fn message_fields(m: MessageV) -> Seq<(Seq<char>, JsonV)>
    decreases m, 1int,
{
    msg_fields_a(m) + (msg_fields_b(m) + msg_fields_c(m))
}

/// A message as a JSON object.
pub open spec fn spec_message_to(m: MessageV) -> JsonV
    decreases m, 2int,
{
    JsonV::Obj(message_fields(m))
}

/// The outbound reply as a JSON object.
pub open spec fn spec_post_message_to(pm: PostMessageV) -> JsonV {
    JsonV::Obj(seq![("channel"@, JsonV::Str(pm.channel)), ("text"@, JsonV::Str(pm.text))])
}


/// `view_fields` of a push appends one viewed pair.
proof fn lemma_view_fields_push(s: Seq<(String, Json)>, k: String, v: Json)
    ensures
        view_fields(s.push((k, v))) =~= view_fields(s) + seq![(k@, v@)],
{
    lemma_view_fields(s);
    lemma_view_fields(s.push((k, v)));
}

/// Appends the entry of an optional string field.
fn push_opt_str(fields: &mut Vec<(String, Json)>, key: &str, o: &Option<String>)
    ensures
        view_fields(final(fields)@) == view_fields(old(fields)@) + opt_str_entry(
            key@,
            view_opt_string(*o),
        ),
{
    match o {
        None => {
            proof {
                assert(view_fields(fields@) + opt_str_entry(key@, view_opt_string(*o))
                    =~= view_fields(fields@));
            }
        },
        Some(s) => {
            let ghost old_fields = fields@;
            fields.push((String::from_str(key), Json::Str(s.clone())));
            proof {
                lemma_view_fields_push(old_fields, fields@[old_fields.len() as int].0, fields@[old_fields.len() as int].1);
                assert(view_fields(fields@) =~= view_fields(old_fields) + opt_str_entry(
                    key@,
                    view_opt_string(*o),
                ));
            }
        },
    }
}

/// Appends the entry of an optional boolean field.
fn push_opt_bool(fields: &mut Vec<(String, Json)>, key: &str, o: &Option<bool>)
    ensures
        view_fields(final(fields)@) == view_fields(old(fields)@) + opt_bool_entry(key@, *o),
{
    match o {
        None => {
            proof {
                assert(view_fields(fields@) + opt_bool_entry(key@, *o) =~= view_fields(fields@));
            }
        },
        Some(b) => {
            let ghost old_fields = fields@;
            fields.push((String::from_str(key), Json::Bool(*b)));
            proof {
                lemma_view_fields_push(old_fields, fields@[old_fields.len() as int].0, fields@[old_fields.len() as int].1);
                assert(view_fields(fields@) =~= view_fields(old_fields) + opt_bool_entry(key@, *o));
            }
        },
    }
}

/// An array of strings as a JSON array value.
fn strings_to_json(ss: &Vec<String>) -> (r: Json)
    ensures
        r@ == JsonV::Arr(strings_json(view_strings(ss@))),
{
    let mut items: Vec<Json> = Vec::new();
    let mut i: usize = 0;
    proof {
        lemma_view_strings(ss@);
    }
    while i < ss.len()
        invariant
            i <= ss@.len(),
            view_strings(ss@).len() == ss@.len(),
            forall|k: int| 0 <= k < ss@.len() ==> view_strings(ss@)[k] == ss@[k]@,
            view_items(items@) == strings_json(view_strings(ss@).take(i as int)),
        decreases ss@.len() - i,
    {
        let ghost old_items = items@;
        items.push(Json::Str(ss[i].clone()));
        proof {
            lemma_view_items(old_items);
            lemma_view_items(items@);
            assert(view_items(items@) =~= view_items(old_items) + seq![JsonV::Str(ss@[i as int]@)]);
            assert(view_items(items@) =~= strings_json(view_strings(ss@).take(i as int + 1)));
        }
        i = i + 1;
    }
    proof {
        assert(view_strings(ss@).take(ss@.len() as int) =~= view_strings(ss@));
    }
    Json::Arr(items)
}

/// Appends the entry of an optional string-array field.
fn push_opt_strings(fields: &mut Vec<(String, Json)>, key: &str, o: &Option<Vec<String>>)
    ensures
        view_fields(final(fields)@) == view_fields(old(fields)@) + opt_strings_entry(
            key@,
            match *o {
                None => None,
                Some(v) => Some(view_strings(v@)),
            },
        ),
{
    match o {
        None => {
            proof {
                assert(view_fields(fields@) + Seq::<(Seq<char>, JsonV)>::empty() =~= view_fields(
                    fields@,
                ));
            }
        },
        Some(v) => {
            let arr = strings_to_json(v);
            let ghost old_fields = fields@;
            fields.push((String::from_str(key), arr));
            proof {
                lemma_view_fields_push(old_fields, fields@[old_fields.len() as int].0, fields@[old_fields.len() as int].1);
                assert(view_fields(fields@) =~= view_fields(old_fields) + opt_strings_entry(
                    key@,
                    Some(view_strings(v@)),
                ));
            }
        },
    }
}

/// Edit metadata as a JSON object value.
fn edited_to_json_x(e: &Edited) -> (r: Json)
    ensures
        r@ == edited_to_json(e@),
{
    let mut fields: Vec<(String, Json)> = Vec::new();
    fields.push((String::from_str("user"), Json::Str(e.user.clone())));
    fields.push((String::from_str("ts"), Json::Str(e.ts.clone())));
    proof {
        lemma_view_fields(fields@);
        assert(view_fields(fields@) =~= seq![("user"@, JsonV::Str(e.user@)), ("ts"@, JsonV::Str(e.ts@))]);
    }
    Json::Obj(fields)
}

/// Appends the entry of an optional edit-metadata field.
fn push_opt_edited(fields: &mut Vec<(String, Json)>, key: &str, o: &Option<Edited>)
    ensures
        view_fields(final(fields)@) == view_fields(old(fields)@) + opt_edited_entry(
            key@,
            match *o {
                None => None,
                Some(e) => Some(e@),
            },
        ),
{
    match o {
        None => {
            proof {
                assert(view_fields(fields@) + Seq::<(Seq<char>, JsonV)>::empty() =~= view_fields(
                    fields@,
                ));
            }
        },
        Some(e) => {
            let v = edited_to_json_x(e);
            let ghost old_fields = fields@;
            fields.push((String::from_str(key), v));
            proof {
                lemma_view_fields_push(old_fields, fields@[old_fields.len() as int].0, fields@[old_fields.len() as int].1);
                assert(view_fields(fields@) =~= view_fields(old_fields) + opt_edited_entry(
                    key@,
                    Some(e@),
                ));
            }
        },
    }
}

/// One reaction as a JSON object value.
fn reaction_to_json_x(x: &Reaction) -> (r: Json)
    ensures
        r@ == reaction_to_json(x@),
{
    let users = strings_to_json(&x.users);
    let mut fields: Vec<(String, Json)> = Vec::new();
    fields.push((String::from_str("name"), Json::Str(x.name.clone())));
    fields.push((String::from_str("count"), Json::UInt(x.count)));
    fields.push((String::from_str("users"), users));
    proof {
        lemma_view_fields(fields@);
        assert(view_fields(fields@) =~= seq![
            ("name"@, JsonV::Str(x.name@)),
            ("count"@, JsonV::UInt(x.count)),
            ("users"@, JsonV::Arr(strings_json(view_strings(x.users@)))),
        ]);
    }
    Json::Obj(fields)
}

/// Appends the entry of an optional reaction-array field.
fn push_opt_reactions(fields: &mut Vec<(String, Json)>, key: &str, o: &Option<Vec<Reaction>>)
    ensures
        view_fields(final(fields)@) == view_fields(old(fields)@) + opt_reactions_entry(
            key@,
            match *o {
                None => None,
                Some(v) => Some(view_reactions(v@)),
            },
        ),
{
    match o {
        None => {
            proof {
                assert(view_fields(fields@) + Seq::<(Seq<char>, JsonV)>::empty() =~= view_fields(
                    fields@,
                ));
            }
        },
        Some(v) => {
            let mut items: Vec<Json> = Vec::new();
            let mut i: usize = 0;
            proof {
                lemma_view_reactions(v@);
            }
            while i < v.len()
                invariant
                    i <= v@.len(),
                    view_reactions(v@).len() == v@.len(),
                    forall|k: int| 0 <= k < v@.len() ==> view_reactions(v@)[k] == v@[k]@,
                    view_items(items@) == reactions_json(view_reactions(v@).take(i as int)),
                decreases v@.len() - i,
            {
                let rj = reaction_to_json_x(&v[i]);
                let ghost old_items = items@;
                items.push(rj);
                proof {
                    lemma_view_items(old_items);
                    lemma_view_items(items@);
                    assert(view_items(items@) =~= view_items(old_items) + seq![reaction_to_json(
                        v@[i as int]@,
                    )]);
                    assert(view_items(items@) =~= reactions_json(view_reactions(v@).take(
                        i as int + 1,
                    )));
                }
                i = i + 1;
            }
            proof {
                assert(view_reactions(v@).take(v@.len() as int) =~= view_reactions(v@));
            }
            let arr = Json::Arr(items);
            let ghost old_fields = fields@;
            fields.push((String::from_str(key), arr));
            proof {
                lemma_view_fields_push(old_fields, fields@[old_fields.len() as int].0, fields@[old_fields.len() as int].1);
                assert(view_fields(fields@) =~= view_fields(old_fields) + opt_reactions_entry(
                    key@,
                    Some(view_reactions(v@)),
                ));
            }
        },
    }
}

/// Appends the entry of an optional nested message, already encoded.
fn push_opt_msg_json(fields: &mut Vec<(String, Json)>, key: &str, sub: Option<Json>, Ghost(entry): Ghost<Seq<(Seq<char>, JsonV)>>)
    requires
        match sub {
            None => entry == Seq::<(Seq<char>, JsonV)>::empty(),
            Some(j) => entry == seq![(key@, j@)],
        },
    ensures
        view_fields(final(fields)@) == view_fields(old(fields)@) + entry,
{
    match sub {
        None => {
            proof {
                assert(view_fields(fields@) + entry =~= view_fields(fields@));
            }
        },
        Some(j) => {
            let ghost old_fields = fields@;
            fields.push((String::from_str(key), j));
            proof {
                lemma_view_fields_push(old_fields, fields@[old_fields.len() as int].0, fields@[old_fields.len() as int].1);
                assert(view_fields(fields@) =~= view_fields(old_fields) + entry);
            }
        },
    }
}

/// Appends the first group of an encoded message's fields.
#[verifier::rlimit(100)]
fn push_fields_a(m: &Message, fields: &mut Vec<(String, Json)>)
    ensures
        view_fields(final(fields)@) == view_fields(old(fields)@) + msg_fields_a(m@),
{
    let ghost g0 = view_fields(fields@);
    let ghost old_fields = fields@;
    fields.push((String::from_str("ts"), Json::Str(m.ts.clone())));
    proof {
        lemma_view_fields_push(old_fields, fields@[old_fields.len() as int].0, fields@[old_fields.len() as int].1);
    }
    push_opt_str(fields, "channel", &m.channel);
    push_opt_str(fields, "channel_type", &m.channel_type);
    push_opt_str(fields, "client_msg_id", &m.client_msg_id);
    push_opt_str(fields, "deleted_ts", &m.deleted_ts);
    push_opt_edited(fields, "edited", &m.edited);
    push_opt_str(fields, "event_ts", &m.event_ts);
    proof {
        assert(view_fields(fields@) =~= g0 + msg_fields_a(m@));
    }
}

/// Appends the middle group of an encoded message's fields.
#[verifier::rlimit(100)]
fn push_fields_b(m: &Message, fields: &mut Vec<(String, Json)>)
    ensures
        view_fields(final(fields)@) == view_fields(old(fields)@) + msg_fields_b(m@),
    decreases m, 0int,
{
    let ghost g0 = view_fields(fields@);
    push_opt_bool(fields, "hidden", &m.hidden);
    push_opt_bool(fields, "is_starred", &m.is_starred);
    let sub_message = match &m.message {
        None => None,
        Some(b) => {
            proof {
                assert(decreases_to!(*m => m.message));
                assert(decreases_to!(m.message => m.message->0));
                assert(decreases_to!(*m => *m.message->0));
            }
            Some(message_to_json(b))
        },
    };
    push_opt_msg_json(
        fields,
        "message",
        sub_message,
        Ghost(
            match m@.message {
                None => Seq::empty(),
                Some(b) => seq![("message"@, spec_message_to(*b))],
            },
        ),
    );
    push_opt_strings(fields, "pinned_to", &m.pinned_to);
    let sub_previous = match &m.previous_message {
        None => None,
        Some(b) => {
            proof {
                assert(decreases_to!(*m => m.previous_message));
                assert(decreases_to!(m.previous_message => m.previous_message->0));
                assert(decreases_to!(*m => *m.previous_message->0));
            }
            Some(message_to_json(b))
        },
    };
    push_opt_msg_json(
        fields,
        "previous_message",
        sub_previous,
        Ghost(
            match m@.previous_message {
                None => Seq::empty(),
                Some(b) => seq![("previous_message"@, spec_message_to(*b))],
            },
        ),
    );
    push_opt_reactions(fields, "reactions", &m.reactions);
    proof {
        assert(view_fields(fields@) =~= g0 + msg_fields_b(m@));
    }
}

/// Appends the last group of an encoded message's fields.
#[verifier::rlimit(100)]
fn push_fields_c(m: &Message, fields: &mut Vec<(String, Json)>)
    ensures
        view_fields(final(fields)@) == view_fields(old(fields)@) + msg_fields_c(m@),
{
    let ghost g0 = view_fields(fields@);
    push_opt_str(fields, "source_team", &m.source_team);
    push_opt_str(fields, "subtype", &m.subtype);
    push_opt_str(fields, "team", &m.team);
    push_opt_str(fields, "text", &m.text);
    push_opt_str(fields, "user", &m.user);
    push_opt_str(fields, "user_team", &m.user_team);
    proof {
        assert(view_fields(fields@) =~= g0 + msg_fields_c(m@));
    }
}

/// Encodes a message: the required `ts`, then every present optional field,
/// in declaration order.
pub fn message_to_json(m: &Message) -> (r: Json)
    ensures
        r@ == spec_message_to(m@),
    decreases m, 1int,
{
    let mut fields: Vec<(String, Json)> = Vec::new();
    proof {
        assert(view_fields(fields@) =~= Seq::<(Seq<char>, JsonV)>::empty());
    }
    push_fields_a(m, &mut fields);
    push_fields_b(m, &mut fields);
    push_fields_c(m, &mut fields);
    proof {
        assert(view_fields(fields@) =~= msg_fields_a(m@) + (msg_fields_b(m@) + msg_fields_c(m@)));
    }
    Json::Obj(fields)
}

/// Encodes the outbound reply.
pub fn post_message_to_json(pm: &PostMessage) -> (r: Json)
    ensures
        r@ == spec_post_message_to(pm@),
{
    let mut fields: Vec<(String, Json)> = Vec::new();
    fields.push((String::from_str("channel"), Json::Str(pm.channel.clone())));
    fields.push((String::from_str("text"), Json::Str(pm.text.clone())));
    proof {
        lemma_view_fields(fields@);
        assert(view_fields(fields@) =~= seq![
            ("channel"@, JsonV::Str(pm.channel@)),
            ("text"@, JsonV::Str(pm.text@)),
        ]);
    }
    Json::Obj(fields)
}


// ---------------------------------------------------------------------------
// Round trip: encoding writes exactly what decoding reads back.
// ---------------------------------------------------------------------------

/// Looking a key up in a concatenation reads the left part first.
pub broadcast proof fn lemma_obj_get_append(
    a: Seq<(Seq<char>, JsonV)>,
    b: Seq<(Seq<char>, JsonV)>,
    key: Seq<char>,
)
    ensures
        #[trigger] obj_get(a + b, key) == (match obj_get(a, key) {
            Some(v) => Some(v),
            None => obj_get(b, key),
        }),
    decreases a,
{
    if a.len() == 0 {
        assert(a + b =~= b);
    } else {
        lemma_obj_get_append(a.drop_first(), b, key);
        assert((a + b).drop_first() =~= a.drop_first() + b);
        assert((a + b)[0] == a[0]);
    }
}

/// An encoded string array decodes back to the same strings.
proof fn lemma_strings_round_trip(ss: Seq<Seq<char>>)
    ensures
        strings_of(strings_json(ss)) == Some(ss),
    decreases ss.len(),
{
    if ss.len() == 0 {
        assert(strings_json(ss).len() == 0);
    } else {
        lemma_strings_round_trip(ss.drop_first());
        assert(strings_json(ss)[0] == JsonV::Str(ss[0]));
        assert(strings_json(ss).drop_first() =~= strings_json(ss.drop_first()));
        assert(seq![ss[0]] + ss.drop_first() =~= ss);
    }
}

/// Encoded edit metadata decodes back to the same value.
proof fn lemma_edited_round_trip(e: EditedV)
    ensures
        spec_edited_from(edited_to_json(e)) == Some(e),
{
    reveal_with_fuel(obj_get, 4);
    reveal_strlit("user");
    reveal_strlit("ts");
    assert("user"@.len() == 4);
    assert("ts"@.len() == 2);
    let f = seq![("user"@, JsonV::Str(e.user)), ("ts"@, JsonV::Str(e.ts))];
    assert(f.drop_first() =~= seq![("ts"@, JsonV::Str(e.ts))]);
    assert(obj_get(f, "user"@) == Some(JsonV::Str(e.user)));
    assert(obj_get(f, "ts"@) == Some(JsonV::Str(e.ts)));
}

/// An encoded reaction decodes back to the same value.
proof fn lemma_reaction_round_trip(x: ReactionV)
    ensures
        spec_reaction_from(reaction_to_json(x)) == Some(x),
{
    reveal_with_fuel(obj_get, 5);
    reveal_strlit("name");
    reveal_strlit("count");
    reveal_strlit("users");
    assert("name"@.len() == 4);
    assert("count"@.len() == 5);
    assert("users"@.len() == 5);
    assert("count"@[0] == 'c' && "users"@[0] == 'u');
    lemma_strings_round_trip(x.users);
    let f = seq![
        ("name"@, JsonV::Str(x.name)),
        ("count"@, JsonV::UInt(x.count)),
        ("users"@, JsonV::Arr(strings_json(x.users))),
    ];
    assert(f.drop_first() =~= seq![
        ("count"@, JsonV::UInt(x.count)),
        ("users"@, JsonV::Arr(strings_json(x.users))),
    ]);
    assert(f.drop_first().drop_first() =~= seq![("users"@, JsonV::Arr(strings_json(x.users)))]);
    assert(obj_get(f, "name"@) == Some(JsonV::Str(x.name)));
    assert(obj_get(f, "count"@) == Some(JsonV::UInt(x.count)));
    assert(obj_get(f, "users"@) == Some(JsonV::Arr(strings_json(x.users))));
}

/// An encoded reaction array decodes back to the same reactions.
proof fn lemma_reactions_round_trip(rs: Seq<ReactionV>)
    ensures
        reactions_of(reactions_json(rs)) == Some(rs),
    decreases rs.len(),
{
    if rs.len() == 0 {
        assert(reactions_json(rs).len() == 0);
    } else {
        lemma_reaction_round_trip(rs[0]);
        lemma_reactions_round_trip(rs.drop_first());
        assert(reactions_json(rs)[0] == reaction_to_json(rs[0]));
        assert(reactions_json(rs).drop_first() =~= reactions_json(rs.drop_first()));
        assert(seq![rs[0]] + rs.drop_first() =~= rs);
    }
}

/// The lengths of the nineteen field names of an encoded message, and one
/// telling character for each pair of names that share a length.
proof fn lemma_message_keys_distinct()
    ensures
        "ts"@.len() == 2,
        "channel"@.len() == 7,
        "channel_type"@.len() == 12,
        "client_msg_id"@.len() == 13,
        "deleted_ts"@.len() == 10,
        "edited"@.len() == 6,
        "event_ts"@.len() == 8,
        "hidden"@.len() == 6,
        "is_starred"@.len() == 10,
        "message"@.len() == 7,
        "pinned_to"@.len() == 9,
        "previous_message"@.len() == 16,
        "reactions"@.len() == 9,
        "source_team"@.len() == 11,
        "subtype"@.len() == 7,
        "team"@.len() == 4,
        "text"@.len() == 4,
        "user"@.len() == 4,
        "user_team"@.len() == 9,
        "edited"@ != "hidden"@,
        "channel"@ != "message"@,
        "channel"@ != "subtype"@,
        "message"@ != "subtype"@,
        "deleted_ts"@ != "is_starred"@,
        "pinned_to"@ != "reactions"@,
        "pinned_to"@ != "user_team"@,
        "reactions"@ != "user_team"@,
        "team"@ != "text"@,
        "team"@ != "user"@,
        "text"@ != "user"@,
{
    reveal_strlit("ts");
    reveal_strlit("channel");
    reveal_strlit("channel_type");
    reveal_strlit("client_msg_id");
    reveal_strlit("deleted_ts");
    reveal_strlit("edited");
    reveal_strlit("event_ts");
    reveal_strlit("hidden");
    reveal_strlit("is_starred");
    reveal_strlit("message");
    reveal_strlit("pinned_to");
    reveal_strlit("previous_message");
    reveal_strlit("reactions");
    reveal_strlit("source_team");
    reveal_strlit("subtype");
    reveal_strlit("team");
    reveal_strlit("text");
    reveal_strlit("user");
    reveal_strlit("user_team");
    assert("edited"@[0] == 'e' && "hidden"@[0] == 'h');
    assert("channel"@[0] == 'c' && "message"@[0] == 'm' && "subtype"@[0] == 's');
    assert("deleted_ts"@[0] == 'd' && "is_starred"@[0] == 'i');
    assert("pinned_to"@[0] == 'p' && "reactions"@[0] == 'r' && "user_team"@[0] == 'u');
    assert("team"@[1] == 'e' && "text"@[1] == 'e' && "user"@[1] == 's');
    assert("team"@[2] == 'a' && "text"@[2] == 'x');
}

/// Looking a key up in an empty field list finds nothing.
proof fn lemma_obj_get_empty(key: Seq<char>)
    ensures
        obj_get(Seq::<(Seq<char>, JsonV)>::empty(), key) is None,
{
}

/// Looking a key up in a one-entry field list.
proof fn lemma_obj_get_single(k: Seq<char>, v: JsonV, key: Seq<char>)
    ensures
        obj_get(seq![(k, v)], key) == (if k == key {
            Some(v)
        } else {
            None
        }),
{
    assert(seq![(k, v)].drop_first() =~= Seq::<(Seq<char>, JsonV)>::empty());
    lemma_obj_get_empty(key);
}

/// Looking a key up in the entry of an optional string field.
proof fn lemma_obj_get_opt_str(k: Seq<char>, o: Option<Seq<char>>, key: Seq<char>)
    ensures
        obj_get(opt_str_entry(k, o), key) == (match o {
            None => None,
            Some(s) => if k == key {
                Some(JsonV::Str(s))
            } else {
                None
            },
        }),
{
    match o {
        None => lemma_obj_get_empty(key),
        Some(s) => lemma_obj_get_single(k, JsonV::Str(s), key),
    }
}

/// Looking a key up in the entry of an optional boolean field.
proof fn lemma_obj_get_opt_bool(k: Seq<char>, o: Option<bool>, key: Seq<char>)
    ensures
        obj_get(opt_bool_entry(k, o), key) == (match o {
            None => None,
            Some(b) => if k == key {
                Some(JsonV::Bool(b))
            } else {
                None
            },
        }),
{
    match o {
        None => lemma_obj_get_empty(key),
        Some(b) => lemma_obj_get_single(k, JsonV::Bool(b), key),
    }
}

/// Looking a key up in the entry of an optional edit-metadata field.
proof fn lemma_obj_get_opt_edited(k: Seq<char>, o: Option<EditedV>, key: Seq<char>)
    ensures
        obj_get(opt_edited_entry(k, o), key) == (match o {
            None => None,
            Some(e) => if k == key {
                Some(edited_to_json(e))
            } else {
                None
            },
        }),
{
    match o {
        None => lemma_obj_get_empty(key),
        Some(e) => lemma_obj_get_single(k, edited_to_json(e), key),
    }
}

/// Looking a key up in the entry of an optional string-array field.
proof fn lemma_obj_get_opt_strings(k: Seq<char>, o: Option<Seq<Seq<char>>>, key: Seq<char>)
    ensures
        obj_get(opt_strings_entry(k, o), key) == (match o {
            None => None,
            Some(ss) => if k == key {
                Some(JsonV::Arr(strings_json(ss)))
            } else {
                None
            },
        }),
{
    match o {
        None => lemma_obj_get_empty(key),
        Some(ss) => lemma_obj_get_single(k, JsonV::Arr(strings_json(ss)), key),
    }
}

/// Looking a key up in the entry of an optional reaction-array field.
proof fn lemma_obj_get_opt_reactions(k: Seq<char>, o: Option<Seq<ReactionV>>, key: Seq<char>)
    ensures
        obj_get(opt_reactions_entry(k, o), key) == (match o {
            None => None,
            Some(rs) => if k == key {
                Some(JsonV::Arr(reactions_json(rs)))
            } else {
                None
            },
        }),
{
    match o {
        None => lemma_obj_get_empty(key),
        Some(rs) => lemma_obj_get_single(k, JsonV::Arr(reactions_json(rs)), key),
    }
}

/// Looking a key up in the entry of an optional nested message.
proof fn lemma_obj_get_opt_msg(k: Seq<char>, o: Option<Box<MessageV>>, key: Seq<char>)
    ensures
        obj_get(
            match o {
                None => Seq::empty(),
                Some(b) => seq![(k, spec_message_to(*b))],
            },
            key,
        ) == (match o {
            None => None,
            Some(b) => if k == key {
                Some(spec_message_to(*b))
            } else {
                None
            },
        }),
{
    match o {
        None => lemma_obj_get_empty(key),
        Some(b) => lemma_obj_get_single(k, spec_message_to(*b), key),
    }
}

/// Looking any key up in the first group of an encoded message's fields.
proof fn lemma_obj_get_fields_a(m: MessageV, key: Seq<char>)
    ensures
        obj_get(msg_fields_a(m), key) == (if "ts"@ == key {
            Some(JsonV::Str(m.ts))
        } else if m.channel is Some && "channel"@ == key {
            Some(JsonV::Str(m.channel->0))
        } else if m.channel_type is Some && "channel_type"@ == key {
            Some(JsonV::Str(m.channel_type->0))
        } else if m.client_msg_id is Some && "client_msg_id"@ == key {
            Some(JsonV::Str(m.client_msg_id->0))
        } else if m.deleted_ts is Some && "deleted_ts"@ == key {
            Some(JsonV::Str(m.deleted_ts->0))
        } else if m.edited is Some && "edited"@ == key {
            Some(edited_to_json(m.edited->0))
        } else if m.event_ts is Some && "event_ts"@ == key {
            Some(JsonV::Str(m.event_ts->0))
        } else {
            None
        }),
{
    let e7 = opt_str_entry("event_ts"@, m.event_ts);
    let t6 = opt_edited_entry("edited"@, m.edited) + e7;
    let t5 = opt_str_entry("deleted_ts"@, m.deleted_ts) + t6;
    let t4 = opt_str_entry("client_msg_id"@, m.client_msg_id) + t5;
    let t3 = opt_str_entry("channel_type"@, m.channel_type) + t4;
    let t2 = opt_str_entry("channel"@, m.channel) + t3;
    let e1 = seq![("ts"@, JsonV::Str(m.ts))];
    assert(msg_fields_a(m) == e1 + t2);
    lemma_obj_get_append(e1, t2, key);
    lemma_obj_get_append(opt_str_entry("channel"@, m.channel), t3, key);
    lemma_obj_get_append(opt_str_entry("channel_type"@, m.channel_type), t4, key);
    lemma_obj_get_append(opt_str_entry("client_msg_id"@, m.client_msg_id), t5, key);
    lemma_obj_get_append(opt_str_entry("deleted_ts"@, m.deleted_ts), t6, key);
    lemma_obj_get_append(opt_edited_entry("edited"@, m.edited), e7, key);
    lemma_obj_get_single("ts"@, JsonV::Str(m.ts), key);
    lemma_obj_get_opt_str("channel"@, m.channel, key);
    lemma_obj_get_opt_str("channel_type"@, m.channel_type, key);
    lemma_obj_get_opt_str("client_msg_id"@, m.client_msg_id, key);
    lemma_obj_get_opt_str("deleted_ts"@, m.deleted_ts, key);
    lemma_obj_get_opt_edited("edited"@, m.edited, key);
    lemma_obj_get_opt_str("event_ts"@, m.event_ts, key);
}

/// Looking any key up in the middle group of an encoded message's fields.
proof fn lemma_obj_get_fields_b(m: MessageV, key: Seq<char>)
    ensures
        obj_get(msg_fields_b(m), key) == (if m.hidden is Some && "hidden"@ == key {
            Some(JsonV::Bool(m.hidden->0))
        } else if m.is_starred is Some && "is_starred"@ == key {
            Some(JsonV::Bool(m.is_starred->0))
        } else if m.message is Some && "message"@ == key {
            Some(spec_message_to(*m.message->0))
        } else if m.pinned_to is Some && "pinned_to"@ == key {
            Some(JsonV::Arr(strings_json(m.pinned_to->0)))
        } else if m.previous_message is Some && "previous_message"@ == key {
            Some(spec_message_to(*m.previous_message->0))
        } else if m.reactions is Some && "reactions"@ == key {
            Some(JsonV::Arr(reactions_json(m.reactions->0)))
        } else {
            None
        }),
{
    let e6 = opt_reactions_entry("reactions"@, m.reactions);
    let ep = (match m.previous_message {
        None => Seq::empty(),
        Some(b) => seq![("previous_message"@, spec_message_to(*b))],
    });
    let t5 = ep + e6;
    let t4 = opt_strings_entry("pinned_to"@, m.pinned_to) + t5;
    let em = (match m.message {
        None => Seq::empty(),
        Some(b) => seq![("message"@, spec_message_to(*b))],
    });
    let t3 = em + t4;
    let t2 = opt_bool_entry("is_starred"@, m.is_starred) + t3;
    let e1 = opt_bool_entry("hidden"@, m.hidden);
    assert(msg_fields_b(m) == e1 + t2);
    lemma_obj_get_append(e1, t2, key);
    lemma_obj_get_append(opt_bool_entry("is_starred"@, m.is_starred), t3, key);
    lemma_obj_get_append(em, t4, key);
    lemma_obj_get_append(opt_strings_entry("pinned_to"@, m.pinned_to), t5, key);
    lemma_obj_get_append(ep, e6, key);
    lemma_obj_get_opt_bool("hidden"@, m.hidden, key);
    lemma_obj_get_opt_bool("is_starred"@, m.is_starred, key);
    lemma_obj_get_opt_msg("message"@, m.message, key);
    lemma_obj_get_opt_strings("pinned_to"@, m.pinned_to, key);
    lemma_obj_get_opt_msg("previous_message"@, m.previous_message, key);
    lemma_obj_get_opt_reactions("reactions"@, m.reactions, key);
}

/// Looking any key up in the last group of an encoded message's fields.
proof fn lemma_obj_get_fields_c(m: MessageV, key: Seq<char>)
    ensures
        obj_get(msg_fields_c(m), key) == (if m.source_team is Some && "source_team"@ == key {
            Some(JsonV::Str(m.source_team->0))
        } else if m.subtype is Some && "subtype"@ == key {
            Some(JsonV::Str(m.subtype->0))
        } else if m.team is Some && "team"@ == key {
            Some(JsonV::Str(m.team->0))
        } else if m.text is Some && "text"@ == key {
            Some(JsonV::Str(m.text->0))
        } else if m.user is Some && "user"@ == key {
            Some(JsonV::Str(m.user->0))
        } else if m.user_team is Some && "user_team"@ == key {
            Some(JsonV::Str(m.user_team->0))
        } else {
            None
        }),
{
    let e6 = opt_str_entry("user_team"@, m.user_team);
    let t5 = opt_str_entry("user"@, m.user) + e6;
    let t4 = opt_str_entry("text"@, m.text) + t5;
    let t3 = opt_str_entry("team"@, m.team) + t4;
    let t2 = opt_str_entry("subtype"@, m.subtype) + t3;
    let e1 = opt_str_entry("source_team"@, m.source_team);
    assert(msg_fields_c(m) == e1 + t2);
    lemma_obj_get_append(e1, t2, key);
    lemma_obj_get_append(opt_str_entry("subtype"@, m.subtype), t3, key);
    lemma_obj_get_append(opt_str_entry("team"@, m.team), t4, key);
    lemma_obj_get_append(opt_str_entry("text"@, m.text), t5, key);
    lemma_obj_get_append(opt_str_entry("user"@, m.user), e6, key);
    lemma_obj_get_opt_str("source_team"@, m.source_team, key);
    lemma_obj_get_opt_str("subtype"@, m.subtype, key);
    lemma_obj_get_opt_str("team"@, m.team, key);
    lemma_obj_get_opt_str("text"@, m.text, key);
    lemma_obj_get_opt_str("user"@, m.user, key);
    lemma_obj_get_opt_str("user_team"@, m.user_team, key);
}

/// Looking part of the field names up in an encoded message's field list.
#[verifier::rlimit(100)]
proof fn lemma_message_lookup_a(m: MessageV)
    ensures
        obj_get(message_fields(m), "ts"@) == Some(JsonV::Str(m.ts)),
        obj_get(message_fields(m), "channel"@) == (match m.channel { None => None, Some(s) => Some(JsonV::Str(s)) }),
        obj_get(message_fields(m), "channel_type"@) == (match m.channel_type { None => None, Some(s) => Some(JsonV::Str(s)) }),
        obj_get(message_fields(m), "client_msg_id"@) == (match m.client_msg_id { None => None, Some(s) => Some(JsonV::Str(s)) }),
        obj_get(message_fields(m), "deleted_ts"@) == (match m.deleted_ts { None => None, Some(s) => Some(JsonV::Str(s)) }),
        obj_get(message_fields(m), "edited"@) == (match m.edited { None => None, Some(e) => Some(edited_to_json(e)) }),
        obj_get(message_fields(m), "event_ts"@) == (match m.event_ts { None => None, Some(s) => Some(JsonV::Str(s)) }),
    decreases m,
{
    lemma_message_keys_distinct();
    lemma_obj_get_append(msg_fields_a(m), msg_fields_b(m) + msg_fields_c(m), "ts"@);
    lemma_obj_get_append(msg_fields_b(m), msg_fields_c(m), "ts"@);
    lemma_obj_get_fields_a(m, "ts"@);
    lemma_obj_get_fields_b(m, "ts"@);
    lemma_obj_get_fields_c(m, "ts"@);
    lemma_obj_get_append(msg_fields_a(m), msg_fields_b(m) + msg_fields_c(m), "channel"@);
    lemma_obj_get_append(msg_fields_b(m), msg_fields_c(m), "channel"@);
    lemma_obj_get_fields_a(m, "channel"@);
    lemma_obj_get_fields_b(m, "channel"@);
    lemma_obj_get_fields_c(m, "channel"@);
    lemma_obj_get_append(msg_fields_a(m), msg_fields_b(m) + msg_fields_c(m), "channel_type"@);
    lemma_obj_get_append(msg_fields_b(m), msg_fields_c(m), "channel_type"@);
    lemma_obj_get_fields_a(m, "channel_type"@);
    lemma_obj_get_fields_b(m, "channel_type"@);
    lemma_obj_get_fields_c(m, "channel_type"@);
    lemma_obj_get_append(msg_fields_a(m), msg_fields_b(m) + msg_fields_c(m), "client_msg_id"@);
    lemma_obj_get_append(msg_fields_b(m), msg_fields_c(m), "client_msg_id"@);
    lemma_obj_get_fields_a(m, "client_msg_id"@);
    lemma_obj_get_fields_b(m, "client_msg_id"@);
    lemma_obj_get_fields_c(m, "client_msg_id"@);
    lemma_obj_get_append(msg_fields_a(m), msg_fields_b(m) + msg_fields_c(m), "deleted_ts"@);
    lemma_obj_get_append(msg_fields_b(m), msg_fields_c(m), "deleted_ts"@);
    lemma_obj_get_fields_a(m, "deleted_ts"@);
    lemma_obj_get_fields_b(m, "deleted_ts"@);
    lemma_obj_get_fields_c(m, "deleted_ts"@);
    lemma_obj_get_append(msg_fields_a(m), msg_fields_b(m) + msg_fields_c(m), "edited"@);
    lemma_obj_get_append(msg_fields_b(m), msg_fields_c(m), "edited"@);
    lemma_obj_get_fields_a(m, "edited"@);
    lemma_obj_get_fields_b(m, "edited"@);
    lemma_obj_get_fields_c(m, "edited"@);
    lemma_obj_get_append(msg_fields_a(m), msg_fields_b(m) + msg_fields_c(m), "event_ts"@);
    lemma_obj_get_append(msg_fields_b(m), msg_fields_c(m), "event_ts"@);
    lemma_obj_get_fields_a(m, "event_ts"@);
    lemma_obj_get_fields_b(m, "event_ts"@);
    lemma_obj_get_fields_c(m, "event_ts"@);
}

/// Looking part of the field names up in an encoded message's field list.
#[verifier::rlimit(100)]
proof fn lemma_message_lookup_b(m: MessageV)
    ensures
        obj_get(message_fields(m), "hidden"@) == (match m.hidden { None => None, Some(b) => Some(JsonV::Bool(b)) }),
        obj_get(message_fields(m), "is_starred"@) == (match m.is_starred { None => None, Some(b) => Some(JsonV::Bool(b)) }),
        obj_get(message_fields(m), "message"@) == (match m.message { None => None, Some(b) => Some(spec_message_to(*b)) }),
        obj_get(message_fields(m), "pinned_to"@) == (match m.pinned_to { None => None, Some(ss) => Some(JsonV::Arr(strings_json(ss))) }),
        obj_get(message_fields(m), "previous_message"@) == (match m.previous_message { None => None, Some(b) => Some(spec_message_to(*b)) }),
        obj_get(message_fields(m), "reactions"@) == (match m.reactions { None => None, Some(rs) => Some(JsonV::Arr(reactions_json(rs))) }),
    decreases m,
{
    lemma_message_keys_distinct();
    lemma_obj_get_append(msg_fields_a(m), msg_fields_b(m) + msg_fields_c(m), "hidden"@);
    lemma_obj_get_append(msg_fields_b(m), msg_fields_c(m), "hidden"@);
    lemma_obj_get_fields_a(m, "hidden"@);
    lemma_obj_get_fields_b(m, "hidden"@);
    lemma_obj_get_fields_c(m, "hidden"@);
    lemma_obj_get_append(msg_fields_a(m), msg_fields_b(m) + msg_fields_c(m), "is_starred"@);
    lemma_obj_get_append(msg_fields_b(m), msg_fields_c(m), "is_starred"@);
    lemma_obj_get_fields_a(m, "is_starred"@);
    lemma_obj_get_fields_b(m, "is_starred"@);
    lemma_obj_get_fields_c(m, "is_starred"@);
    lemma_obj_get_append(msg_fields_a(m), msg_fields_b(m) + msg_fields_c(m), "message"@);
    lemma_obj_get_append(msg_fields_b(m), msg_fields_c(m), "message"@);
    lemma_obj_get_fields_a(m, "message"@);
    lemma_obj_get_fields_b(m, "message"@);
    lemma_obj_get_fields_c(m, "message"@);
    lemma_obj_get_append(msg_fields_a(m), msg_fields_b(m) + msg_fields_c(m), "pinned_to"@);
    lemma_obj_get_append(msg_fields_b(m), msg_fields_c(m), "pinned_to"@);
    lemma_obj_get_fields_a(m, "pinned_to"@);
    lemma_obj_get_fields_b(m, "pinned_to"@);
    lemma_obj_get_fields_c(m, "pinned_to"@);
    lemma_obj_get_append(msg_fields_a(m), msg_fields_b(m) + msg_fields_c(m), "previous_message"@);
    lemma_obj_get_append(msg_fields_b(m), msg_fields_c(m), "previous_message"@);
    lemma_obj_get_fields_a(m, "previous_message"@);
    lemma_obj_get_fields_b(m, "previous_message"@);
    lemma_obj_get_fields_c(m, "previous_message"@);
    lemma_obj_get_append(msg_fields_a(m), msg_fields_b(m) + msg_fields_c(m), "reactions"@);
    lemma_obj_get_append(msg_fields_b(m), msg_fields_c(m), "reactions"@);
    lemma_obj_get_fields_a(m, "reactions"@);
    lemma_obj_get_fields_b(m, "reactions"@);
    lemma_obj_get_fields_c(m, "reactions"@);
}

/// Looking part of the field names up in an encoded message's field list.
#[verifier::rlimit(100)]
proof fn lemma_message_lookup_c(m: MessageV)
    ensures
        obj_get(message_fields(m), "source_team"@) == (match m.source_team { None => None, Some(s) => Some(JsonV::Str(s)) }),
        obj_get(message_fields(m), "subtype"@) == (match m.subtype { None => None, Some(s) => Some(JsonV::Str(s)) }),
        obj_get(message_fields(m), "team"@) == (match m.team { None => None, Some(s) => Some(JsonV::Str(s)) }),
        obj_get(message_fields(m), "text"@) == (match m.text { None => None, Some(s) => Some(JsonV::Str(s)) }),
        obj_get(message_fields(m), "user"@) == (match m.user { None => None, Some(s) => Some(JsonV::Str(s)) }),
        obj_get(message_fields(m), "user_team"@) == (match m.user_team { None => None, Some(s) => Some(JsonV::Str(s)) }),
    decreases m,
{
    lemma_message_keys_distinct();
    lemma_obj_get_append(msg_fields_a(m), msg_fields_b(m) + msg_fields_c(m), "source_team"@);
    lemma_obj_get_append(msg_fields_b(m), msg_fields_c(m), "source_team"@);
    lemma_obj_get_fields_a(m, "source_team"@);
    lemma_obj_get_fields_b(m, "source_team"@);
    lemma_obj_get_fields_c(m, "source_team"@);
    lemma_obj_get_append(msg_fields_a(m), msg_fields_b(m) + msg_fields_c(m), "subtype"@);
    lemma_obj_get_append(msg_fields_b(m), msg_fields_c(m), "subtype"@);
    lemma_obj_get_fields_a(m, "subtype"@);
    lemma_obj_get_fields_b(m, "subtype"@);
    lemma_obj_get_fields_c(m, "subtype"@);
    lemma_obj_get_append(msg_fields_a(m), msg_fields_b(m) + msg_fields_c(m), "team"@);
    lemma_obj_get_append(msg_fields_b(m), msg_fields_c(m), "team"@);
    lemma_obj_get_fields_a(m, "team"@);
    lemma_obj_get_fields_b(m, "team"@);
    lemma_obj_get_fields_c(m, "team"@);
    lemma_obj_get_append(msg_fields_a(m), msg_fields_b(m) + msg_fields_c(m), "text"@);
    lemma_obj_get_append(msg_fields_b(m), msg_fields_c(m), "text"@);
    lemma_obj_get_fields_a(m, "text"@);
    lemma_obj_get_fields_b(m, "text"@);
    lemma_obj_get_fields_c(m, "text"@);
    lemma_obj_get_append(msg_fields_a(m), msg_fields_b(m) + msg_fields_c(m), "user"@);
    lemma_obj_get_append(msg_fields_b(m), msg_fields_c(m), "user"@);
    lemma_obj_get_fields_a(m, "user"@);
    lemma_obj_get_fields_b(m, "user"@);
    lemma_obj_get_fields_c(m, "user"@);
    lemma_obj_get_append(msg_fields_a(m), msg_fields_b(m) + msg_fields_c(m), "user_team"@);
    lemma_obj_get_append(msg_fields_b(m), msg_fields_c(m), "user_team"@);
    lemma_obj_get_fields_a(m, "user_team"@);
    lemma_obj_get_fields_b(m, "user_team"@);
    lemma_obj_get_fields_c(m, "user_team"@);
}

/// Law: an encoded message decodes back to exactly the same value — every
/// optional field keeps its presence or absence, nothing flips to a
/// default.
#[verifier::rlimit(100)]
pub proof fn lemma_message_round_trip(m: MessageV)
    ensures
        spec_message_from(spec_message_to(m)) == Some(m),
    decreases m,
{
    lemma_message_keys_distinct();
    lemma_message_lookup_a(m);
    lemma_message_lookup_b(m);
    lemma_message_lookup_c(m);
    match m.edited {
        Some(e) => lemma_edited_round_trip(e),
        None => {},
    }
    match m.pinned_to {
        Some(ss) => lemma_strings_round_trip(ss),
        None => {},
    }
    match m.reactions {
        Some(rs) => lemma_reactions_round_trip(rs),
        None => {},
    }
    match m.message {
        Some(b) => lemma_message_round_trip(*b),
        None => {},
    }
    match m.previous_message {
        Some(b) => lemma_message_round_trip(*b),
        None => {},
    }
    let f = message_fields(m);
    assert(spec_message_to(m) == JsonV::Obj(f));
    lemma_msg_field(f, "message"@);
    lemma_msg_field(f, "previous_message"@);
    assert(req_str_field(f, "ts"@) == Some(m.ts));
    assert(str_field(f, "channel"@) == Some(m.channel));
    assert(str_field(f, "channel_type"@) == Some(m.channel_type));
    assert(str_field(f, "client_msg_id"@) == Some(m.client_msg_id));
    assert(str_field(f, "deleted_ts"@) == Some(m.deleted_ts));
    assert(edited_field(f, "edited"@) == Some(m.edited));
    assert(str_field(f, "event_ts"@) == Some(m.event_ts));
    assert(bool_field(f, "hidden"@) == Some(m.hidden));
    assert(bool_field(f, "is_starred"@) == Some(m.is_starred));
    assert(msg_field(f, "message"@) == Some(m.message));
    assert(strings_field(f, "pinned_to"@) == Some(m.pinned_to));
    assert(msg_field(f, "previous_message"@) == Some(m.previous_message));
    assert(reactions_field(f, "reactions"@) == Some(m.reactions));
    assert(str_field(f, "source_team"@) == Some(m.source_team));
    assert(str_field(f, "subtype"@) == Some(m.subtype));
    assert(str_field(f, "team"@) == Some(m.team));
    assert(str_field(f, "text"@) == Some(m.text));
    assert(str_field(f, "user"@) == Some(m.user));
    assert(str_field(f, "user_team"@) == Some(m.user_team));
    assert(spec_message_from(JsonV::Obj(f)) == Some(m));
}

} // verus!
