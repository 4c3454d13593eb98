//! Conversations that go on, by the session they belong to.

use std::collections::HashMap;
use vstd::prelude::*;
use crate::conversation::ConversationContext;
use crate::thread::{copy_messages, message_views, MessageView, TruncationStrategy};
use crate::time::Timestamp;

verus! {

pub type AgentSessionId = u128;

/// A conversation that goes on.
#[derive(Debug)]
pub struct AgentSessionState {
    pub id: AgentSessionId,
    pub conversation: ConversationContext,
    pub created_at: Timestamp,
    pub updated_at: Timestamp,
}

/// What a conversation holds.
#[verifier::ext_equal]
pub struct ConversationView {
    pub messages: Seq<MessageView>,
    pub token_budget: u32,
    pub token_used: u32,
    pub truncation_strategy: TruncationStrategy,
}

impl View for ConversationContext {
    type V = ConversationView;

    open spec fn view(&self) -> ConversationView {
        ConversationView {
            messages: message_views(self.messages@),
            token_budget: self.token_budget,
            token_used: self.token_used,
            truncation_strategy: self.truncation_strategy,
        }
    }
}

/// What a session holds.
#[verifier::ext_equal]
pub struct SessionView {
    pub id: AgentSessionId,
    pub conversation: ConversationView,
    pub created_at: Timestamp,
    pub updated_at: Timestamp,
}

impl View for AgentSessionState {
    type V = SessionView;

    open spec fn view(&self) -> SessionView {
        SessionView {
            id: self.id,
            conversation: self.conversation@,
            created_at: self.created_at,
            updated_at: self.updated_at,
        }
    }
}

impl ConversationContext {
    /// A copy of the conversation.
    pub fn copy(&self) -> (r: ConversationContext)
        ensures
            r@ == self@,
    {
        ConversationContext {
            messages: copy_messages(&self.messages),
            token_budget: self.token_budget,
            token_used: self.token_used,
            truncation_strategy: self.truncation_strategy.copy(),
        }
    }
}

impl AgentSessionState {
    /// A copy of the session.
    pub fn copy(&self) -> (r: AgentSessionState)
        ensures
            r@ == self@,
    {
        AgentSessionState {
            id: self.id,
            conversation: self.conversation.copy(),
            created_at: self.created_at,
            updated_at: self.updated_at,
        }
    }
}

/// Sessions that are kept as long as the process lives.
#[derive(Debug)]
pub struct InMemorySessionStore {
    pub sessions: HashMap<AgentSessionId, AgentSessionState>,
}

/// The sessions once a conversation was saved for one of them.
pub open spec fn saved(
    held: Map<AgentSessionId, SessionView>,
    session_id: AgentSessionId,
    conversation: ConversationView,
    now: Timestamp,
) -> Map<AgentSessionId, SessionView> {
    let known = held.dom().contains(session_id);
    held.insert(
        session_id,
        SessionView {
            id: if known {
                held[session_id].id
            } else {
                session_id
            },
            conversation,
            created_at: if known {
                held[session_id].created_at
            } else {
                now
            },
            updated_at: now,
        },
    )
}

impl InMemorySessionStore {
    /// What each session holds.
    pub open spec fn held(self) -> Map<AgentSessionId, SessionView> {
        self.sessions@.map_values(|s: AgentSessionState| s@)
    }

    pub fn new() -> (r: InMemorySessionStore)
        ensures
            r.held() == Map::<AgentSessionId, SessionView>::empty(),
    {
        let r = InMemorySessionStore { sessions: HashMap::new() };
        assert(r.held() =~= Map::<AgentSessionId, SessionView>::empty());
        r
    }

    /// A session, which begins with the given conversation if it is new.
    pub fn load_or_create(
        &mut self,
        session_id: AgentSessionId,
        default_conversation: ConversationContext,
        now: Timestamp,
    ) -> (r: AgentSessionState)
        ensures
            old(self).held().dom().contains(session_id) ==> final(self).held() == old(self).held(),
            !old(self).held().dom().contains(session_id) ==> final(self).held() == old(
                self,
            ).held().insert(
                session_id,
                SessionView {
                    id: session_id,
                    conversation: default_conversation@,
                    created_at: now,
                    updated_at: now,
                },
            ),
            final(self).held().dom().contains(session_id),
            r@ == final(self).held()[session_id],
    {
        broadcast use vstd::std_specs::hash::group_hash_axioms;

        if let Some(session) = self.sessions.get(&session_id) {
            return session.copy();
        }
        let session = AgentSessionState {
            id: session_id,
            conversation: default_conversation,
            created_at: now,
            updated_at: now,
        };
        let r = session.copy();
        self.sessions.insert(session_id, session);
        assert(self.held() =~= old(self).held().insert(session_id, session@));
        r
    }

    /// Puts a conversation in place of the one that a session had.
    pub fn save_conversation(
        &mut self,
        session_id: AgentSessionId,
        conversation: ConversationContext,
        now: Timestamp,
    )
        ensures
            final(self).held() == saved(old(self).held(), session_id, conversation@, now),
    {
        broadcast use vstd::std_specs::hash::group_hash_axioms;

        let (id, created_at) = match self.sessions.get(&session_id) {
            Some(session) => (session.id, session.created_at),
            None => (session_id, now),
        };
        let session = AgentSessionState { id, conversation, created_at, updated_at: now };
        self.sessions.insert(session_id, session);
        assert(self.held() =~= old(self).held().insert(session_id, session@));
    }

    /// A session, if there is one.
    pub fn get(&self, session_id: AgentSessionId) -> (r: Option<AgentSessionState>)
        ensures
            match r {
                Some(session) => self.held().dom().contains(session_id) && session@
                    == self.held()[session_id],
                None => !self.held().dom().contains(session_id),
            },
    {
        broadcast use vstd::std_specs::hash::group_hash_axioms;

        match self.sessions.get(&session_id) {
            Some(session) => Some(session.copy()),
            None => None,
        }
    }
}

/// What was saved for a session is what is found in it, and other sessions are as they were.
pub proof fn saved_sessions_are_found(
    held: Map<AgentSessionId, SessionView>,
    session_id: AgentSessionId,
    conversation: ConversationView,
    now: Timestamp,
    other: AgentSessionId,
)
    ensures
        ({
            let after = saved(held, session_id, conversation, now);
            &&& after.dom().contains(session_id)
            &&& after[session_id].conversation == conversation
            &&& after[session_id].updated_at == now
            &&& held.dom().contains(session_id) ==> after[session_id].created_at
                == held[session_id].created_at
            &&& other != session_id ==> (after.dom().contains(other) <==> held.dom().contains(
                other,
            ))
            &&& other != session_id && held.dom().contains(other) ==> after[other] == held[other]
        }),
{
}

/// A session that is saved for the first time has its identifier and begins when it is saved.
pub proof fn new_sessions_begin_now(
    held: Map<AgentSessionId, SessionView>,
    session_id: AgentSessionId,
    conversation: ConversationView,
    now: Timestamp,
)
    ensures
        ({
            let after = saved(held, session_id, conversation, now)[session_id];
            &&& !held.dom().contains(session_id) ==> after.id == session_id && after.created_at == now
            &&& held.dom().contains(session_id) ==> after.id == held[session_id].id
        }),
{
}

/// Sessions that are told alike are the same in all that they hold.
pub proof fn sessions_are_told_whole(a: AgentSessionState, b: AgentSessionState, i: int)
    requires
        a@ == b@,
    ensures
        a.id == b.id,
        a.created_at == b.created_at,
        a.updated_at == b.updated_at,
        a.conversation.token_budget == b.conversation.token_budget,
        a.conversation.token_used == b.conversation.token_used,
        a.conversation.truncation_strategy == b.conversation.truncation_strategy,
        a.conversation.messages@.len() == b.conversation.messages@.len(),
        0 <= i < a.conversation.messages@.len() ==> a.conversation.messages@[i]@
            == b.conversation.messages@[i]@,
{
    let x = message_views(a.conversation.messages@);
    let y = message_views(b.conversation.messages@);
    assert(x == y);
    assert(x.len() == y.len());
    if 0 <= i < a.conversation.messages@.len() {
        assert(x[i] == y[i]);
    }
}

} // verus!
