//! Sessions: one attached target (a tab, or the browser itself).
//!
//! A [`Session`] is a thin context object: it carries the session tag the
//! browser assigned on attach, and every call issued through it carries that
//! tag.  It references its [`Connection`] rather than owning it — several
//! sessions share one connection, and a call through a session on a closed
//! connection fails cleanly like any other.  At most one live session exists
//! per session id: registration refuses a tag that is already attached.

use vstd::prelude::*;
use vstd::string::StringSliceAdditionalSpecFns;

use crate::connection::attached_ids;
use crate::connection::scope_matches;
use crate::connection::Connection;
use crate::errors::CdpError;
use crate::wire;

verus! {

/// One attached target: its session tag and the token of the event
/// subscriber that registration created for it.
pub struct Session {
    pub session_id: String,
    pub token: u64,
}

impl Connection {
    /// Whether a session with this id is currently attached.
    fn is_attached(&self, session_id: &String) -> (r: bool)
        ensures
            r == attached_ids(self.attached@).contains(session_id@),
    {
        let len = self.attached.len();
        let mut i: usize = 0;
        while i < len
            invariant
                len == self.attached@.len(),
                i <= len,
                forall|k: int| 0 <= k < i ==> attached_ids(self.attached@)[k] != session_id@,
            decreases len - i,
        {
            if self.attached[i] == *session_id {
                proof {
                    assert(attached_ids(self.attached@)[i as int] == session_id@);
                }
                return true;
            }
            proof {
                assert(attached_ids(self.attached@)[i as int] == self.attached@[i as int]@);
            }
            i += 1;
        }
        proof {
            assert forall|k: int| 0 <= k < attached_ids(self.attached@).len() implies attached_ids(
                self.attached@,
            )[k] != session_id@ by {}
            assert(!attached_ids(self.attached@).contains(session_id@));
        }
        false
    }

    /// Register a freshly attached target and hand back its session.  The
    /// session id enters the routing table with a new subscriber scoped to
    /// it.  Refused — `None`, with nothing changed — on a closed connection,
    /// and for an id that is already attached, which keeps at most one live
    /// session per session id.
    pub fn register_session(&mut self, session_id: String) -> (r: Option<Session>)
        requires
            old(self).wf(),
            old(self).next_token < u64::MAX,
        ensures
            final(self).wf(),
            final(self).live == old(self).live,
            final(self).next_id == old(self).next_id,
            final(self).pending == old(self).pending,
            r matches Some(session) ==> ({
                &&& old(self).live
                &&& !attached_ids(old(self).attached@).contains(session_id@)
                &&& session.session_id@ == session_id@
                &&& session.token == old(self).next_token
                &&& final(self).next_token == old(self).next_token + 1
                &&& attached_ids(final(self).attached@) == attached_ids(
                    old(self).attached@,
                ).push(session_id@)
                &&& final(self).subscribers@.len() == old(self).subscribers@.len() + 1
                &&& final(self).subscribers@.drop_last() == old(self).subscribers@
                &&& final(self).subscribers@.last().token == session.token
                &&& scope_matches(final(self).subscribers@.last().scope, Some(session_id@))
            }),
            r is None ==> (*final(self) == *old(self) && (!old(self).live || attached_ids(
                old(self).attached@,
            ).contains(session_id@))),
    {
        if !self.is_live() {
            return None;
        }
        if self.is_attached(&session_id) {
            return None;
        }
        let scope = session_id.clone();
        let token = self.subscribe(Some(scope));
        self.attached.push(session_id.clone());
        proof {
            let was = old(self).attached@;
            let now = self.attached@;
            assert(attached_ids(now) =~= attached_ids(was).push(session_id@));
            assert(attached_ids(now).drop_last() =~= attached_ids(was));
            assert(attached_ids(now).no_duplicates());
        }
        Some(Session { session_id, token })
    }

    /// Detach a session: drop its id from the attached set and its
    /// subscriber from the routing table.  Detach is advisory — telling the
    /// browser is the owner's business, and a session of an already closed
    /// connection detaches the same way.
    pub fn detach_session(&mut self, session: Session)
        requires
            old(self).wf(),
        ensures
            final(self).wf(),
            final(self).live == old(self).live,
            final(self).next_id == old(self).next_id,
            final(self).pending == old(self).pending,
            final(self).next_token == old(self).next_token,
            attached_ids(old(self).attached@).contains(session.session_id@) ==> exists|k: int|
                0 <= k < old(self).attached@.len() && attached_ids(old(self).attached@)[k]
                    == session.session_id@ && final(self).attached@ == old(self).attached@.remove(
                    k,
                ),
            !attached_ids(old(self).attached@).contains(session.session_id@)
                ==> final(self).attached == old(self).attached,
            crate::connection::tokens_of(old(self).subscribers@).contains(session.token)
                ==> exists|k: int|
                0 <= k < old(self).subscribers@.len() && (#[trigger] old(
                    self,
                ).subscribers@[k]).token == session.token && final(self).subscribers@ == old(
                    self,
                ).subscribers@.remove(k),
            !crate::connection::tokens_of(old(self).subscribers@).contains(session.token)
                ==> final(self).subscribers == old(self).subscribers,
    {
        let len = self.attached.len();
        let mut i: usize = 0;
        while i < len
            invariant
                old(self).wf(),
                len == self.attached@.len(),
                i <= len,
                forall|k: int|
                    0 <= k < i ==> attached_ids(self.attached@)[k] != session.session_id@,
                *self == *old(self),
            decreases len - i,
        {
            if self.attached[i] == session.session_id {
                proof {
                    assert(attached_ids(self.attached@)[i as int] == session.session_id@);
                }
                self.attached.remove(i);
                proof {
                    let was = old(self).attached@;
                    let now = self.attached@;
                    assert(attached_ids(now) =~= attached_ids(was).remove(i as int));
                    lemma_remove_keeps_ids_distinct(was, i as int);
                }
                self.unsubscribe(session.token);
                return ;
            }
            proof {
                assert(attached_ids(self.attached@)[i as int] == self.attached@[i as int]@);
            }
            i += 1;
        }
        proof {
            assert forall|k: int| 0 <= k < attached_ids(self.attached@).len() implies attached_ids(
                self.attached@,
            )[k] != session.session_id@ by {}
            assert(!attached_ids(self.attached@).contains(session.session_id@));
        }
        self.unsubscribe(session.token);
    }
}

impl Session {
    /// Issue one call scoped to this session: the wire frame carries this
    /// session's tag, and the call is otherwise the connection's own
    /// [`Connection::issue_call`] — including failing immediately with
    /// `ConnectionClosed`, with no frame produced, once the connection is
    /// closed.
    pub fn call(&self, conn: &mut Connection, method: &str, params_json: &str) -> (r: Result<
        (u64, Vec<u8>),
        CdpError,
    >)
        requires
            old(conn).wf(),
            old(conn).next_id < u64::MAX,
        ensures
            final(conn).wf(),
            final(conn).live == old(conn).live,
            final(conn).subscribers == old(conn).subscribers,
            final(conn).attached == old(conn).attached,
            final(conn).next_token == old(conn).next_token,
            old(conn).live ==> ({
                &&& r matches Ok((id, frame)) && id == old(conn).next_id && frame@
                    == wire::call_frame(
                    id,
                    method.spec_bytes(),
                    params_json.spec_bytes(),
                    Some(vstd::utf8::encode_utf8(self.session_id@)),
                )
                &&& final(conn).pending@ == old(conn).pending@.push(old(conn).next_id)
                &&& final(conn).next_id == old(conn).next_id + 1
            }),
            !old(conn).live ==> (r matches Err(e) && e is ConnectionClosed && *final(conn) == *old(
                conn,
            )),
    {
        conn.issue_call(method, params_json, Some(self.session_id.as_str()))
    }

    /// The session tag, for the owner to match events or issue a detach
    /// notification with.
    pub fn id(&self) -> (r: &String)
        ensures
            r@ == self.session_id@,
    {
        &self.session_id
    }
}

/// Removing one element keeps the attached ids duplicate-free.
proof fn lemma_remove_keeps_ids_distinct(s: Seq<String>, i: int)
    requires
        0 <= i < s.len(),
        attached_ids(s).no_duplicates(),
    ensures
        attached_ids(s.remove(i)).no_duplicates(),
{
    let r = s.remove(i);
    assert forall|a: int, b: int| 0 <= a < b < r.len() implies attached_ids(r)[a] != attached_ids(
        r,
    )[b] by {
        let a0 = if a < i {
            a
        } else {
            a + 1
        };
        let b0 = if b < i {
            b
        } else {
            b + 1
        };
        assert(r[a] == s[a0]);
        assert(r[b] == s[b0]);
        assert(attached_ids(s)[a0] == s[a0]@);
        assert(attached_ids(s)[b0] == s[b0]@);
    }
}

} // verus!
