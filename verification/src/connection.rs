//! The per-browser-process connection state machine.
//!
//! A [`Connection`] owns the monotonically increasing message-id generator,
//! the table of pending calls, and the routing table of event subscribers.
//! It decides everything about a call or an inbound frame that does not need
//! the outside world: which id a call gets, which wire frame it sends, which
//! pending call a reply resolves, which subscribers an event reaches, and
//! what happens to outstanding calls when the connection dies.  The socket,
//! the reader thread and the per-call completion slots live outside; they
//! perform exactly what these methods return.

use vstd::prelude::*;
use vstd::string::StringSliceAdditionalSpecFns;

use crate::errors::CdpError;
use crate::frame::Frame;
use crate::frame::FrameView;
use crate::frame::ResponsePayload;
use crate::wire;

verus! {

/// One registered event subscriber: a caller-visible token and the session
/// scope it listens to (`None` listens at browser level).
pub struct Subscriber {
    pub token: u64,
    pub scope: Option<String>,
}

/// The tokens of a subscriber list, in registration order.
pub open spec fn tokens_of(subs: Seq<Subscriber>) -> Seq<u64> {
    subs.map_values(|s: Subscriber| s.token)
}

/// The attached session ids, as character sequences.
pub open spec fn attached_ids(att: Seq<String>) -> Seq<Seq<char>> {
    att.map_values(|s: String| s@)
}

/// Whether a subscriber with the given scope hears an event tagged with the
/// given session id: scopes match exactly, and an untagged event meets only
/// browser-level subscribers.
pub open spec fn scope_matches(scope: Option<String>, sid: Option<Seq<char>>) -> bool {
    match (scope, sid) {
        (Option::None, Option::None) => true,
        (Option::Some(a), Option::Some(b)) => a@ == b,
        _ => false,
    }
}

/// The tokens of every subscriber that hears an event tagged `sid`, in
/// registration order.
pub open spec fn matching_tokens(subs: Seq<Subscriber>, sid: Option<Seq<char>>) -> Seq<u64>
    decreases subs.len(),
{
    if subs.len() == 0 {
        Seq::empty()
    } else {
        let pre = matching_tokens(subs.drop_last(), sid);
        if scope_matches(subs.last().scope, sid) {
            pre.push(subs.last().token)
        } else {
            pre
        }
    }
}

/// The view of an optional borrowed session id.
pub open spec fn sid_view(sid: Option<&String>) -> Option<Seq<char>> {
    match sid {
        Option::None => Option::None,
        Option::Some(s) => Option::Some(s@),
    }
}

/// The reply owed to exactly one blocked caller: the id of its call and what
/// the browser answered.
pub struct Resolution {
    pub id: u64,
    pub payload: ResponsePayload,
}

/// What the owner of the connection must do with one inbound frame.
pub enum Dispatch {
    /// Fulfil the completion slot of the pending call bearing `id`.
    Resolve { resolution: Resolution },
    /// A reply whose id matches no pending call: a stale or duplicate reply,
    /// tolerated and dropped.
    Stale { id: u64 },
    /// Forward the event to every subscriber whose token is listed, in
    /// order.
    Deliver { method: String, session_id: Option<String>, params: String, tokens: Vec<u64> },
}

/// One live connection to a browser process: id generator, pending-call
/// table, subscriber routing table, attached sessions and the liveness flag.
pub struct Connection {
    pub next_id: u64,
    pub pending: Vec<u64>,
    pub subscribers: Vec<Subscriber>,
    pub next_token: u64,
    pub attached: Vec<String>,
    pub live: bool,
}

impl Connection {
    /// The connection's internal invariant: pending ids are distinct and
    /// below the id counter, subscriber tokens are distinct and below the
    /// token counter, and no session id is attached twice.
    pub open spec fn wf(self) -> bool {
        &&& self.pending@.no_duplicates()
        &&& (forall|k: int|
            0 <= k < self.pending@.len() ==> #[trigger] self.pending@[k] < self.next_id)
        &&& tokens_of(self.subscribers@).no_duplicates()
        &&& (forall|k: int|
            0 <= k < self.subscribers@.len() ==> (#[trigger] self.subscribers@[k]).token
                < self.next_token)
        &&& attached_ids(self.attached@).no_duplicates()
    }

    /// A fresh connection, created when the WebSocket handshake completes:
    /// live, with no pending call, no subscriber and no attached session.
    pub fn new() -> (c: Connection)
        ensures
            c.wf(),
            c.live,
            c.next_id == 1,
            c.next_token == 0,
            c.pending@ == Seq::<u64>::empty(),
            c.subscribers@ == Seq::<Subscriber>::empty(),
            c.attached@ == Seq::<String>::empty(),
    {
        Connection {
            next_id: 1,
            pending: Vec::new(),
            subscribers: Vec::new(),
            next_token: 0,
            attached: Vec::new(),
            live: true,
        }
    }

    /// Whether the connection is still live.  The flag flips to `false`
    /// exactly once, in [`Connection::close`], and never back.
    pub fn is_live(&self) -> (r: bool)
        ensures
            r == self.live,
    {
        self.live
    }

    /// Issue one call: allocate the next message id, register it as pending
    /// and produce the exact wire frame to send.  On a connection already
    /// closed, fails immediately with `ConnectionClosed`, leaves the state
    /// untouched and produces no frame, so nothing is ever written to the
    /// transport for it.
    pub fn issue_call(&mut self, method: &str, params_json: &str, session_id: Option<&str>) -> (r:
        Result<(u64, Vec<u8>), CdpError>)
        requires
            old(self).wf(),
            old(self).next_id < u64::MAX,
        ensures
            final(self).wf(),
            final(self).live == old(self).live,
            final(self).subscribers == old(self).subscribers,
            final(self).attached == old(self).attached,
            final(self).next_token == old(self).next_token,
            old(self).live ==> ({
                &&& r matches Ok((id, frame)) && id == old(self).next_id && frame@
                    == wire::call_frame(
                    id,
                    method.spec_bytes(),
                    params_json.spec_bytes(),
                    wire::session_bytes(session_id),
                )
                &&& !old(self).pending@.contains(old(self).next_id)
                &&& final(self).pending@ == old(self).pending@.push(old(self).next_id)
                &&& final(self).next_id == old(self).next_id + 1
            }),
            !old(self).live ==> (r matches Err(e) && e is ConnectionClosed && *final(self) == *old(
                self,
            )),
    {
        if !self.live {
            return Err(CdpError::ConnectionClosed);
        }
        let id = self.next_id;
        proof {
            assert forall|k: int| 0 <= k < self.pending@.len() implies self.pending@[k] != id by {}
            assert(!self.pending@.contains(id));
        }
        self.next_id = self.next_id + 1;
        self.pending.push(id);
        let frame = wire::encode_call(id, method, params_json, session_id);
        Ok((id, frame))
    }

    /// The index of the pending call bearing `id`, if any.
    fn find_pending(&self, id: u64) -> (r: Option<usize>)
        ensures
            r matches Some(i) ==> i < self.pending@.len() && self.pending@[i as int] == id && (
            forall|k: int| 0 <= k < i ==> self.pending@[k] != id),
            r is None ==> !self.pending@.contains(id),
    {
        let len = self.pending.len();
        let mut i: usize = 0;
        while i < len
            invariant
                len == self.pending@.len(),
                i <= len,
                forall|k: int| 0 <= k < i ==> self.pending@[k] != id,
            decreases len - i,
        {
            if self.pending[i] == id {
                return Some(i);
            }
            i += 1;
        }
        proof {
            assert forall|k: int| 0 <= k < self.pending@.len() implies self.pending@[k] != id by {}
            assert(!self.pending@.contains(id));
        }
        None
    }

    /// Take delivery of the reply bearing `id`.  If a call with that id is
    /// pending, it is removed — exactly it, no other — and the reply is
    /// handed back addressed to it.  A reply for an unknown or already
    /// resolved id is tolerated: nothing changes and `None` says it was
    /// stale.
    pub fn handle_response(&mut self, id: u64, payload: ResponsePayload) -> (r: Option<Resolution>)
        requires
            old(self).wf(),
        ensures
            final(self).wf(),
            final(self).live == old(self).live,
            final(self).next_id == old(self).next_id,
            final(self).subscribers == old(self).subscribers,
            final(self).attached == old(self).attached,
            final(self).next_token == old(self).next_token,
            old(self).pending@.contains(id) ==> ({
                &&& r matches Some(res) && res.id == id && res.payload == payload
                &&& final(self).pending@ == old(self).pending@.remove_value(id)
            }),
            !old(self).pending@.contains(id) ==> r is None && *final(self) == *old(self),
    {
        match self.find_pending(id) {
            Option::Some(i) => {
                proof {
                    self.pending@.index_of_first_ensures(id);
                    assert(self.pending@.index_of_first(id) == Some(i as int));
                    assert(self.pending@.remove_value(id) == self.pending@.remove(i as int));
                    assert(self.pending@.remove(i as int).no_duplicates());
                }
                self.pending.remove(i);
                Some(Resolution { id, payload })
            },
            Option::None => None,
        }
    }

    /// The tokens of every subscriber that must receive an event tagged with
    /// `session_id`, in registration order.  An event tagged for session A
    /// reaches no subscriber registered for any other scope; an untagged
    /// event reaches only browser-level subscribers.
    pub fn route_event(&self, session_id: Option<&String>) -> (tokens: Vec<u64>)
        ensures
            tokens@ == matching_tokens(self.subscribers@, sid_view(session_id)),
    {
        let ghost sid = sid_view(session_id);
        let len = self.subscribers.len();
        let mut tokens: Vec<u64> = Vec::new();
        let mut i: usize = 0;
        while i < len
            invariant
                len == self.subscribers@.len(),
                i <= len,
                sid == sid_view(session_id),
                tokens@ == matching_tokens(self.subscribers@.subrange(0, i as int), sid),
            decreases len - i,
        {
            let sub = &self.subscribers[i];
            let hit = match (&sub.scope, session_id) {
                (Option::None, Option::None) => true,
                (Option::Some(a), Option::Some(b)) => *a == *b,
                _ => false,
            };
            if hit {
                tokens.push(sub.token);
            }
            proof {
                let pre = self.subscribers@.subrange(0, i as int);
                let post = self.subscribers@.subrange(0, i as int + 1);
                assert(post.drop_last() =~= pre);
                assert(post.last() == self.subscribers@[i as int]);
                assert(hit == scope_matches(self.subscribers@[i as int].scope, sid));
            }
            i += 1;
        }
        assert(self.subscribers@.subrange(0, self.subscribers@.len() as int)
            =~= self.subscribers@);
        tokens
    }

    /// Register an event subscriber for the given scope and hand back its
    /// token.  The token is fresh: no earlier subscriber carries it.
    pub fn subscribe(&mut self, scope: Option<String>) -> (token: u64)
        requires
            old(self).wf(),
            old(self).next_token < u64::MAX,
        ensures
            final(self).wf(),
            token == old(self).next_token,
            final(self).next_token == old(self).next_token + 1,
            final(self).subscribers@ == old(self).subscribers@.push(
                Subscriber { token, scope: scope },
            ),
            !tokens_of(old(self).subscribers@).contains(token),
            final(self).live == old(self).live,
            final(self).next_id == old(self).next_id,
            final(self).pending == old(self).pending,
            final(self).attached == old(self).attached,
    {
        let token = self.next_token;
        proof {
            assert forall|k: int| 0 <= k < self.subscribers@.len() implies tokens_of(
                self.subscribers@,
            )[k] != token by {
                assert(tokens_of(self.subscribers@)[k] == self.subscribers@[k].token);
            }
            assert(!tokens_of(self.subscribers@).contains(token));
        }
        self.next_token = self.next_token + 1;
        self.subscribers.push(Subscriber { token, scope });
        proof {
            let now = self.subscribers@;
            let was = old(self).subscribers@;
            assert(tokens_of(now) =~= tokens_of(was).push(token));
            assert(tokens_of(now).drop_last() =~= tokens_of(was));
            assert(tokens_of(now).no_duplicates());
        }
        token
    }

    /// Remove the subscriber bearing `token`, if any; every other subscriber
    /// stays, in order.
    pub fn unsubscribe(&mut self, token: u64)
        requires
            old(self).wf(),
        ensures
            final(self).wf(),
            tokens_of(old(self).subscribers@).contains(token) ==> exists|k: int|
                0 <= k < old(self).subscribers@.len() && (#[trigger] old(
                    self,
                ).subscribers@[k]).token == token && final(self).subscribers@ == old(
                    self,
                ).subscribers@.remove(k),
            !tokens_of(old(self).subscribers@).contains(token) ==> *final(self) == *old(self),
            final(self).live == old(self).live,
            final(self).next_id == old(self).next_id,
            final(self).pending == old(self).pending,
            final(self).attached == old(self).attached,
            final(self).next_token == old(self).next_token,
    {
        let len = self.subscribers.len();
        let mut i: usize = 0;
        while i < len
            invariant
                old(self).wf(),
                len == self.subscribers@.len(),
                i <= len,
                forall|k: int| 0 <= k < i ==> (#[trigger] self.subscribers@[k]).token != token,
                *self == *old(self),
            decreases len - i,
        {
            if self.subscribers[i].token == token {
                proof {
                    assert(tokens_of(self.subscribers@)[i as int] == token);
                    assert(tokens_of(self.subscribers@).contains(token));
                }
                self.subscribers.remove(i);
                proof {
                    let was = old(self).subscribers@;
                    let now = self.subscribers@;
                    assert(now == was.remove(i as int));
                    assert forall|k: int|
                        0 <= k < now.len() implies (#[trigger] now[k]).token
                        < self.next_token by {
                        if k < i {
                            assert(now[k] == was[k]);
                        } else {
                            assert(now[k] == was[k + 1]);
                        }
                    }
                    assert(tokens_of(was).no_duplicates());
                    lemma_remove_keeps_no_duplicates(was, i as int);
                }
                return ;
            }
            i += 1;
        }
        proof {
            assert forall|k: int| 0 <= k < tokens_of(self.subscribers@).len() implies tokens_of(
                self.subscribers@,
            )[k] != token by {
                assert(tokens_of(self.subscribers@)[k] == self.subscribers@[k].token);
            }
            assert(!tokens_of(self.subscribers@).contains(token));
        }
    }

    /// Tear the connection down: flip the liveness flag — irreversibly — and
    /// drain the pending-call table.  The returned ids are exactly the calls
    /// that were still outstanding, each exactly once; the owner must
    /// resolve every one of them with `ConnectionClosed` so that no caller
    /// stays blocked.  Closing an already closed connection drains nothing.
    pub fn close(&mut self) -> (drained: Vec<u64>)
        requires
            old(self).wf(),
        ensures
            final(self).wf(),
            !final(self).live,
            final(self).pending@ == Seq::<u64>::empty(),
            drained@ == old(self).pending@,
            drained@.no_duplicates(),
            final(self).next_id == old(self).next_id,
            final(self).subscribers == old(self).subscribers,
            final(self).attached == old(self).attached,
            final(self).next_token == old(self).next_token,
    {
        self.live = false;
        let drained = self.pending.split_off(0);
        assert(drained@ =~= old(self).pending@);
        assert(self.pending@ =~= Seq::<u64>::empty());
        drained
    }

    /// What dispatching a frame viewed as `fv` against the connection state
    /// `pre` leaves behind (`post`) and hands to the owner (`d`): a response
    /// resolves (or is found stale against) the pending-call table; an event
    /// is routed, unchanged and in receipt order, to the subscribers of
    /// exactly its session.
    pub open spec fn dispatch_post(pre: Connection, post: Connection, fv: FrameView, d: Dispatch) -> bool {
        &&& post.wf()
        &&& post.live == pre.live
        &&& post.next_id == pre.next_id
        &&& post.subscribers == pre.subscribers
        &&& post.attached == pre.attached
        &&& post.next_token == pre.next_token
        &&& match fv {
            FrameView::Response { id, payload } => {
                &&& pre.pending@.contains(id) ==> ({
                    &&& d matches Dispatch::Resolve { resolution } && resolution.id == id
                        && resolution.payload@ == payload
                    &&& post.pending@ == pre.pending@.remove_value(id)
                })
                &&& !pre.pending@.contains(id) ==> (d matches Dispatch::Stale { id: sid } && sid
                    == id && post == pre)
            },
            FrameView::Event { method, session_id, params } => {
                &&& d matches Dispatch::Deliver {
                    method: m,
                    session_id: s,
                    params: p,
                    tokens,
                } && m@ == method && crate::frame::opt_view(s) == session_id && p@ == params
                    && tokens@ == matching_tokens(pre.subscribers@, session_id)
                &&& post == pre
            },
        }
    }

    /// Dispatch one decoded inbound frame.  See [`Connection::dispatch_post`]
    /// for everything this promises.
    pub fn dispatch(&mut self, frame: Frame) -> (d: Dispatch)
        requires
            old(self).wf(),
        ensures
            Connection::dispatch_post(*old(self), *final(self), frame@, d),
    {
        match frame {
            Frame::Response { id, payload } => match self.handle_response(id, payload) {
                Option::Some(resolution) => Dispatch::Resolve { resolution },
                Option::None => Dispatch::Stale { id },
            },
            Frame::Event { method, session_id, params } => {
                let tokens = self.route_event(session_id.as_ref());
                Dispatch::Deliver { method, session_id, params, tokens }
            },
        }
    }

    /// The reader loop's entry point: decode one inbound frame text and
    /// dispatch it.  A malformed frame is reported as `Protocol` and changes
    /// nothing — one bad frame never terminates the reader loop or the
    /// connection.
    pub fn handle_text(&mut self, text: &str) -> (r: Result<Dispatch, CdpError>)
        requires
            old(self).wf(),
        ensures
            final(self).wf(),
            r matches Ok(d) ==> (crate::frame::frame_fields_of(text@) matches Some(f)
                && crate::frame::decoded(f) matches Some(fv) && Connection::dispatch_post(
                *old(self),
                *final(self),
                fv,
                d,
            )),
            r matches Err(e) ==> (e is Protocol && *final(self) == *old(self) && (
            crate::frame::frame_fields_of(text@) matches Some(f) ==> crate::frame::decoded(
                f,
            ) is None)),
    {
        match crate::frame::decode_frame(text) {
            Ok(frame) => Ok(self.dispatch(frame)),
            Err(e) => Err(CdpError::Protocol),
        }
    }
}

/// Law: responses are matched strictly by id.  Resolving the reply bearing
/// one pending id leaves every other pending call pending, and leaves the
/// resolved id no longer pending — so each caller receives the reply
/// matching its own id, never another's, regardless of arrival
/// interleaving, and no id is resolved twice.
pub proof fn lemma_reply_matches_only_its_caller(pending: Seq<u64>, id: u64, other: u64)
    requires
        pending.no_duplicates(),
        pending.contains(id),
        pending.contains(other),
        other != id,
    ensures
        pending.remove_value(id).contains(other),
        !pending.remove_value(id).contains(id),
{
    pending.index_of_first_ensures(id);
    let k = pending.index_of_first(id).unwrap();
    let r = pending.remove_value(id);
    assert(r == pending.remove(k));
    let j = choose|j: int| 0 <= j < pending.len() && pending[j] == other;
    if j < k {
        assert(r[j] == pending[j]);
        assert(r.contains(other));
    } else {
        assert(r[j - 1] == pending[j]);
        assert(r.contains(other));
    }
    assert forall|m: int| 0 <= m < r.len() implies r[m] != id by {
        if m < k {
            assert(r[m] == pending[m]);
        } else {
            assert(r[m] == pending[m + 1]);
        }
    }
    if r.contains(id) {
        let m = choose|m: int| 0 <= m < r.len() && r[m] == id;
        assert(false);
    }
}

/// Every token an event is routed to belongs to a subscriber whose scope
/// matches the event's session tag.
pub proof fn lemma_delivered_token_is_subscribed(
    subs: Seq<Subscriber>,
    sid: Option<Seq<char>>,
    t: u64,
)
    requires
        matching_tokens(subs, sid).contains(t),
    ensures
        exists|k: int|
            0 <= k < subs.len() && (#[trigger] subs[k]).token == t && scope_matches(
                subs[k].scope,
                sid,
            ),
    decreases subs.len(),
{
    if subs.len() == 0 {
        assert(false);
    } else {
        let pre = matching_tokens(subs.drop_last(), sid);
        if scope_matches(subs.last().scope, sid) {
            if subs.last().token == t {
                assert((subs[subs.len() - 1]).token == t && scope_matches(
                    subs[subs.len() - 1].scope,
                    sid,
                ));
            } else {
                let idx = choose|j: int|
                    0 <= j < pre.push(subs.last().token).len() && pre.push(subs.last().token)[j]
                        == t;
                assert(pre[idx] == t);
                assert(pre.contains(t));
                lemma_delivered_token_is_subscribed(subs.drop_last(), sid, t);
                let k = choose|k: int|
                    0 <= k < subs.drop_last().len() && (#[trigger] subs.drop_last()[k]).token == t
                        && scope_matches(subs.drop_last()[k].scope, sid);
                assert(subs[k] == subs.drop_last()[k]);
            }
        } else {
            lemma_delivered_token_is_subscribed(subs.drop_last(), sid, t);
            let k = choose|k: int|
                0 <= k < subs.drop_last().len() && (#[trigger] subs.drop_last()[k]).token == t
                    && scope_matches(subs.drop_last()[k].scope, sid);
            assert(subs[k] == subs.drop_last()[k]);
        }
    }
}

/// Law: events stay in their session.  A token registered only for one
/// session id is never among the tokens an event tagged with any other id —
/// or with no id — is routed to.
pub proof fn lemma_event_not_delivered_across_sessions(
    subs: Seq<Subscriber>,
    t: u64,
    only: Seq<char>,
    sid: Option<Seq<char>>,
)
    requires
        forall|k: int|
            0 <= k < subs.len() && (#[trigger] subs[k]).token == t ==> scope_matches(
                subs[k].scope,
                Some(only),
            ),
        sid != Some(only),
    ensures
        !matching_tokens(subs, sid).contains(t),
{
    if matching_tokens(subs, sid).contains(t) {
        lemma_delivered_token_is_subscribed(subs, sid, t);
        let k = choose|k: int|
            0 <= k < subs.len() && (#[trigger] subs[k]).token == t && scope_matches(
                subs[k].scope,
                sid,
            );
        assert(scope_matches(subs[k].scope, Some(only)));
        assert(false);
    }
}

/// Law: an event carrying no session tag is delivered only to
/// browser-level subscribers.
pub proof fn lemma_unscoped_event_stays_browser_level(subs: Seq<Subscriber>, t: u64)
    requires
        matching_tokens(subs, Option::None).contains(t),
    ensures
        exists|k: int|
            0 <= k < subs.len() && (#[trigger] subs[k]).token == t && subs[k].scope is None,
{
    lemma_delivered_token_is_subscribed(subs, Option::None, t);
    let k = choose|k: int|
        0 <= k < subs.len() && (#[trigger] subs[k]).token == t && scope_matches(
            subs[k].scope,
            Option::None,
        );
    assert(subs[k].scope is None);
}

/// Removing one element keeps a duplicate-free sequence duplicate-free.
proof fn lemma_remove_keeps_no_duplicates(s: Seq<Subscriber>, i: int)
    requires
        0 <= i < s.len(),
        tokens_of(s).no_duplicates(),
    ensures
        tokens_of(s.remove(i)).no_duplicates(),
{
    let r = s.remove(i);
    assert forall|a: int, b: int| 0 <= a < b < r.len() implies tokens_of(r)[a] != tokens_of(
        r,
    )[b] by {
        let a0 = if a < i {
            a
        } else {
            a + 1
        };
        let b0 = if b < i {
            b
        } else {
            b + 1
        };
        assert(r[a] == s[a0]);
        assert(r[b] == s[b0]);
        assert(tokens_of(s)[a0] == s[a0].token);
        assert(tokens_of(s)[b0] == s[b0].token);
    }
}

} // verus!
