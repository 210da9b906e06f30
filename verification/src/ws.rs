//! The Home Assistant WebSocket session: its URL, and what the daemon does
//! with each message it receives.
use vstd::prelude::*;
use vstd::string::*;
use crate::daemon::ServiceData;
use crate::text::{replace_all, replaced, same_text, starts_with};

verus! {

/// The WebSocket URL for a Home Assistant base URL: `https://` becomes
/// `wss://`, then `http://` becomes `ws://`, and `/api/websocket` is appended.
pub open spec fn ws_url_of(base_url: Seq<char>) -> Seq<char> {
    replaced(replaced(base_url, "https://"@, "wss://"@), "http://"@, "ws://"@)
        + "/api/websocket"@
}

/// The WebSocket URL for a Home Assistant base URL.
pub fn ws_url(base_url: &str) -> (r: String)
    ensures
        r@ == ws_url_of(base_url@),
{
    proof {
        reveal_strlit("https://");
        reveal_strlit("http://");
    }
    let secure = replace_all(base_url, "https://", "wss://");
    let mut r = replace_all(secure.as_str(), "http://", "ws://");
    r.append("/api/websocket");
    r
}

/// The entity ids field of a call: one id, a list whose string entries are
/// ids, or something else.
pub enum IdsField {
    Text(String),
    List(Vec<Option<String>>),
    Other,
}

/// The ids among the entries of a list field, in order.
pub open spec fn present_ids(a: Seq<Option<String>>) -> Seq<Seq<char>>
    decreases a.len(),
{
    if a.len() == 0 {
        seq![]
    } else {
        let rest = present_ids(a.drop_last());
        match a.last() {
            Some(s) => rest.push(s@),
            None => rest,
        }
    }
}

/// The entity ids of an event: those under `target` where it has the field,
/// else those in the service data.
pub open spec fn event_ids(target: Option<IdsField>, data: Option<IdsField>) -> Seq<Seq<char>> {
    let field = match target {
        Some(f) => Some(f),
        None => data,
    };
    match field {
        Some(IdsField::Text(s)) => seq![s@],
        Some(IdsField::List(a)) => present_ids(a@),
        _ => seq![],
    }
}

/// A text message from Home Assistant, by its `type`.
pub enum WsPayload {
    /// Not JSON.
    Unparsable,
    AuthRequired,
    AuthOk,
    AuthInvalid,
    /// A `call_service` event: domain and service (empty where missing), the
    /// entity ids fields, and the service data.
    Event {
        domain: String,
        service: String,
        target_ids: Option<IdsField>,
        data_ids: Option<IdsField>,
        data: ServiceData,
    },
    /// A command result with `success: false`.
    ResultFailed,
    /// Anything else.
    Other,
}

/// What the stream delivered.
pub enum WsMessage {
    Text(WsPayload),
    Close,
    Failed,
    Other,
}

/// What to do with a message.
pub enum WsAction {
    Ignore,
    /// Log that a message was not JSON and go on.
    WarnUnparsable,
    /// Log that a command failed and go on.
    WarnCommandFailed,
    /// Send the access token.
    SendAuth,
    /// Subscribe to `call_service` events with this message id.
    Subscribe { id: u64 },
    /// The token was refused: close and reconnect later.
    AuthRejected,
    /// The server closed the stream.
    Closed,
    /// The stream failed.
    Failed,
    /// Handle this service call for these entities.
    Dispatch { domain: String, service: String, entity_ids: Vec<String>, data: ServiceData },
}

/// The ids of a `Dispatch`, as text.
pub open spec fn ids_view(v: Seq<String>) -> Seq<Seq<char>> {
    Seq::new(v.len(), |i: int| v[i]@)
}

/// One connection's state: the id of the last command sent.
pub struct WsSession {
    pub msg_id: u64,
}

impl WsSession {
    /// A new connection; the first command gets id 2.
    pub fn new() -> (r: WsSession)
        ensures
            r.msg_id == 1,
    {
        WsSession { msg_id: 1 }
    }

    /// The entity ids an event names.
    pub fn event_entity_ids(target: Option<IdsField>, data: Option<IdsField>) -> (r: Vec<String>)
        ensures
            ids_view(r@) == event_ids(target, data),
    {
        let field = match target {
            Some(f) => Some(f),
            None => data,
        };
        match field {
            Some(IdsField::Text(s)) => {
                let mut v: Vec<String> = Vec::new();
                v.push(s);
                assert(ids_view(v@) =~= seq![s@]);
                v
            },
            Some(IdsField::List(a)) => {
                let ghost all = a@;
                let mut v: Vec<String> = Vec::new();
                let mut a = a;
                let n = a.len();
                let mut i: usize = 0;
                while i < n
                    invariant
                        n == all.len(),
                        i <= n,
                        a@.len() == n,
                        forall|j: int| i <= j < n ==> a@[j] == all[j],
                        ids_view(v@) == present_ids(all.subrange(0, i as int)),
                    decreases n - i,
                {
                    let mut item: Option<String> = None;
                    std::mem::swap(&mut item, &mut a[i]);
                    assert(item == all[i as int]);
                    assert(all.subrange(0, i + 1).drop_last() =~= all.subrange(0, i as int));
                    match item {
                        Some(s) => {
                            v.push(s);
                            assert(ids_view(v@) =~= present_ids(all.subrange(0, i as int)).push(
                                all[i as int]->0@,
                            ));
                        },
                        None => {},
                    }
                    i = i + 1;
                }
                assert(all.subrange(0, n as int) =~= all);
                v
            },
            _ => {
                let v: Vec<String> = Vec::new();
                assert(ids_view(v@) =~= Seq::<Seq<char>>::empty());
                v
            },
        }
    }

    /// Decide what to do with a message, and count the commands sent.
    pub fn step(&mut self, msg: WsMessage) -> (r: WsAction)
        requires
            msg matches WsMessage::Text(WsPayload::AuthOk) ==> old(self).msg_id < u64::MAX,
        ensures
            match msg {
                WsMessage::Text(WsPayload::Unparsable) => r is WarnUnparsable,
                WsMessage::Text(WsPayload::AuthRequired) => r is SendAuth,
                WsMessage::Text(WsPayload::AuthOk) => r == (WsAction::Subscribe {
                    id: final(self).msg_id,
                }) && final(self).msg_id == old(self).msg_id + 1,
                WsMessage::Text(WsPayload::AuthInvalid) => r is AuthRejected,
                WsMessage::Text(
                    WsPayload::Event { domain, service, target_ids, data_ids, data },
                ) => {
                    let ids = event_ids(target_ids, data_ids);
                    if (domain@ == "fan"@ || domain@ == "light"@) && ids.len() > 0 {
                        r matches WsAction::Dispatch { domain: d, service: s, entity_ids: e, data: sd }
                            && d@ == domain@ && s@ == service@ && ids_view(e@) == ids && sd
                            == data
                    } else {
                        r is Ignore
                    }
                },
                WsMessage::Text(WsPayload::ResultFailed) => r is WarnCommandFailed,
                WsMessage::Text(WsPayload::Other) => r is Ignore,
                WsMessage::Close => r is Closed,
                WsMessage::Failed => r is Failed,
                WsMessage::Other => r is Ignore,
            },
            !(msg matches WsMessage::Text(WsPayload::AuthOk)) ==> final(self).msg_id == old(
                self,
            ).msg_id,
    {
        match msg {
            WsMessage::Text(payload) => match payload {
                WsPayload::Unparsable => WsAction::WarnUnparsable,
                WsPayload::AuthRequired => WsAction::SendAuth,
                WsPayload::AuthOk => {
                    self.msg_id = self.msg_id + 1;
                    WsAction::Subscribe { id: self.msg_id }
                },
                WsPayload::AuthInvalid => WsAction::AuthRejected,
                WsPayload::Event { domain, service, target_ids, data_ids, data } => {
                    let ids = Self::event_entity_ids(target_ids, data_ids);
                    if (same_text(domain.as_str(), "fan") || same_text(domain.as_str(), "light"))
                        && ids.len() > 0 {
                        WsAction::Dispatch { domain, service, entity_ids: ids, data }
                    } else {
                        WsAction::Ignore
                    }
                },
                WsPayload::ResultFailed => WsAction::WarnCommandFailed,
                WsPayload::Other => WsAction::Ignore,
            },
            WsMessage::Close => WsAction::Closed,
            WsMessage::Failed => WsAction::Failed,
            WsMessage::Other => WsAction::Ignore,
        }
    }
}

/// No `/` in `s`.
pub open spec fn slash_free(s: Seq<char>) -> bool {
    forall|i: int| 0 <= i < s.len() ==> s[i] != '/'
}

proof fn lemma_replaced_unchanged(s: Seq<char>, p: Seq<char>, to: Seq<char>)
    requires
        p.len() > 0,
        forall|i: int| 0 <= i < s.len() ==> !starts_with(#[trigger] s.skip(i), p),
    ensures
        replaced(s, p, to) == s,
    decreases s.len(),
{
    if s.len() > 0 {
        assert(s.skip(0) =~= s);
        let t = s.skip(1);
        assert forall|i: int| 0 <= i < t.len() implies !starts_with(#[trigger] t.skip(i), p) by {
            assert(t.skip(i) =~= s.skip(i + 1));
        }
        lemma_replaced_unchanged(t, p, to);
        assert(seq![s[0]] + t =~= s);
    }
}

proof fn lemma_no_match_in_slash_free(rest: Seq<char>, p: Seq<char>, k: int, i: int)
    requires
        slash_free(rest),
        0 <= k < p.len(),
        p[k] == '/',
        0 <= i <= rest.len(),
    ensures
        !starts_with(rest.skip(i), p),
{
    if starts_with(rest.skip(i), p) {
        assert(rest.skip(i).subrange(0, p.len() as int)[k] == p[k]);
        assert(rest[i + k] == '/');
    }
}

/// A base URL made of `http://` or `https://` and a host part without `/`
/// (such as `10.0.0.5:8123`) gives the WebSocket URL with `ws://` or
/// `wss://` in front of the same host part.
pub proof fn lemma_ws_url_scheme(rest: Seq<char>)
    requires
        slash_free(rest),
    ensures
        ws_url_of("http://"@ + rest) == "ws://"@ + rest + "/api/websocket"@,
        ws_url_of("https://"@ + rest) == "wss://"@ + rest + "/api/websocket"@,
{
    reveal_strlit("http://");
    reveal_strlit("https://");
    reveal_strlit("ws://");
    reveal_strlit("wss://");
    let http = "http://"@;
    let https = "https://"@;
    let ws = "ws://"@;
    let wss = "wss://"@;
    assert(http[6] == '/' && https[7] == '/');
    // Neither pattern occurs in the host part.
    assert forall|i: int| 0 <= i < rest.len() implies !starts_with(#[trigger] rest.skip(i), http)
        && !starts_with(rest.skip(i), https) by {
        lemma_no_match_in_slash_free(rest, http, 6, i);
        lemma_no_match_in_slash_free(rest, https, 7, i);
    }
    lemma_replaced_unchanged(rest, http, ws);
    lemma_replaced_unchanged(rest, https, wss);
    // `http://` + rest: no `https://` anywhere, one `http://` at the front.
    let a = http + rest;
    assert forall|i: int| 0 <= i < a.len() implies !starts_with(#[trigger] a.skip(i), https) by {
        if i >= 7 {
            assert(a.skip(i) =~= rest.skip(i - 7));
            lemma_no_match_in_slash_free(rest, https, 7, i - 7);
        } else if i == 0 {
            if starts_with(a.skip(i), https) {
                assert(a.skip(i).subrange(0, 8)[4] == https[4]);
            }
        } else {
            if starts_with(a.skip(i), https) {
                assert(a.skip(i).subrange(0, 8)[0] == https[0]);
            }
        }
    }
    lemma_replaced_unchanged(a, https, wss);
    assert(starts_with(a, http)) by {
        assert(a.subrange(0, 7) =~= http);
    }
    assert(a.skip(7) =~= rest);
    assert(replaced(a, http, ws) == ws + replaced(rest, http, ws));
    // `https://` + rest: one `https://` at the front, then no `http://`.
    let b = https + rest;
    assert(starts_with(b, https)) by {
        assert(b.subrange(0, 8) =~= https);
    }
    assert(b.skip(8) =~= rest);
    assert(replaced(b, https, wss) == wss + replaced(rest, https, wss));
    let c = wss + rest;
    assert forall|i: int| 0 <= i < c.len() implies !starts_with(#[trigger] c.skip(i), http) by {
        if i >= 6 {
            assert(c.skip(i) =~= rest.skip(i - 6));
            lemma_no_match_in_slash_free(rest, http, 6, i - 6);
        } else {
            if starts_with(c.skip(i), http) {
                assert(c.skip(i).subrange(0, 7)[0] == http[0]);
            }
        }
    }
    lemma_replaced_unchanged(c, http, ws);
}

} // verus!
