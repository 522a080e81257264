//! The HTTP boundary: how each inbound request is answered, and which
//! requests hand an event callback to the dispatch queue.

use vstd::prelude::*;
use vstd::string::*;
use crate::codec::spec_decode;
use crate::codec::decode_event;
use crate::model::SlackEvent;
use crate::model::SlackEventV;
use crate::queue::DispatchQueue;

verus! {

/// What the boundary answers: a status code, a content type, and a body.
pub struct HttpResponse {
    pub status: u16,
    pub content_type: String,
    pub body: String,
}

/// Whether `needle` occurs as a contiguous run inside `hay`.
pub open spec fn contains_seq(hay: Seq<char>, needle: Seq<char>) -> bool {
    exists|i: int|
        0 <= i <= hay.len() - needle.len() && #[trigger] hay.subrange(i, i + needle.len() as int)
            == needle
}

/// Substring search.
fn contains_sub(hay: &str, needle: &str) -> (r: bool)
    ensures
        r == contains_seq(hay@, needle@),
{
    let hn = hay.unicode_len();
    let nn = needle.unicode_len();
    if nn > hn {
        return false;
    }
    if nn == 0 {
        proof {
            assert(hay@.subrange(0, 0 + needle@.len() as int) =~= needle@);
        }
        return true;
    }
    let mut i: usize = 0;
    while i <= hn - nn
        invariant
            1 <= nn <= hn,
            hn == hay@.len(),
            nn == needle@.len(),
            i <= hn - nn + 1,
            forall|k: int|
                0 <= k < i ==> #[trigger] hay@.subrange(k, k + needle@.len() as int) != needle@,
        decreases hn - nn - i + 1,
    {
        let mut j: usize = 0;
        let mut ok = true;
        while j < nn
            invariant
                nn <= hn,
                hn == hay@.len(),
                nn == needle@.len(),
                i + nn <= hn,
                j <= nn,
                ok ==> forall|k: int| 0 <= k < j ==> hay@[i + k] == needle@[k],
                !ok ==> hay@.subrange(i as int, i as int + nn as int) != needle@,
            decreases nn - j,
        {
            if hay.get_char(i + j) == needle.get_char(j) {
                j = j + 1;
            } else {
                proof {
                    assert(hay@.subrange(i as int, i as int + nn as int)[j as int] == hay@[i + j]);
                }
                ok = false;
                j = nn;
            }
        }
        if ok {
            proof {
                assert(hay@.subrange(i as int, i as int + needle@.len() as int) =~= needle@);
            }
            return true;
        }
        i = i + 1;
    }
    false
}

/// Answers one inbound request.
///
/// A request whose content type is absent or does not mention `json` is
/// answered `400` with its own body echoed back; so is one whose body does
/// not decode as an event. A verification challenge is answered `200` with
/// the challenge echoed exactly. An event callback is pushed onto the
/// dispatch queue and answered `200` at once, with the body echoed back;
/// nothing waits for the worker.
pub fn handle_request(content_type: Option<&str>, body: String, queue: &mut DispatchQueue) -> (r:
    HttpResponse)
    ensures
        ({
            let ct_json = match content_type {
                None => false,
                Some(h) => contains_seq(h@, "json"@),
            };
            if !ct_json {
                r.status == 400 && r.content_type@ == "text/html; charset=utf-8"@ && r.body@
                    == body@ && final(queue)@ == old(queue)@
            } else {
                match spec_decode(body@) {
                    None => r.status == 400 && r.content_type@ == "text/html; charset=utf-8"@
                        && r.body@ == body@ && final(queue)@ == old(queue)@,
                    Some(SlackEventV::UrlVerification { token, challenge }) => r.status == 200
                        && r.content_type@ == "application/x-www-form-urlencoded"@ && r.body@
                        == challenge && final(queue)@ == old(queue)@,
                    Some(SlackEventV::EventCallback(cb)) => r.status == 200 && r.content_type@
                        == "text/html; charset=utf-8"@ && r.body@ == body@ && final(queue)@
                        == old(queue)@.push(cb),
                }
            }
        }),
{
    let is_json = match content_type {
        None => false,
        Some(h) => contains_sub(h, "json"),
    };
    if !is_json {
        return HttpResponse {
            status: 400,
            content_type: String::from_str("text/html; charset=utf-8"),
            body,
        };
    }
    match decode_event(body.as_str()) {
        None => HttpResponse {
            status: 400,
            content_type: String::from_str("text/html; charset=utf-8"),
            body,
        },
        Some(SlackEvent::UrlVerification { token: _, challenge }) => HttpResponse {
            status: 200,
            content_type: String::from_str("application/x-www-form-urlencoded"),
            body: challenge,
        },
        Some(SlackEvent::EventCallback(cb)) => {
            queue.push(cb);
            HttpResponse {
                status: 200,
                content_type: String::from_str("text/html; charset=utf-8"),
                body,
            }
        },
    }
}

} // verus!
