//! Conversations that last over several requests.
use vstd::prelude::*;
use vstd::string::*;

use crate::text::same_text;

verus! {

/// `c` is a hexadecimal digit in lower case.
pub open spec fn lower_hex(c: char) -> bool {
    '0' <= c <= '9' || 'a' <= c <= 'f'
}

/// The text of a random UUID: five groups of hexadecimal digits with hyphens between them, the
/// third of which begins with the version, 4.
pub open spec fn uuid_text(s: Seq<char>) -> bool {
    &&& s.len() == 36
    &&& forall|i: int|
        0 <= i < 36 ==> if i == 8 || i == 13 || i == 18 || i == 23 {
            #[trigger] s[i] == '-'
        } else {
            lower_hex(s[i])
        }
    &&& s[14] == '4'
}

/// The text of a random UUID without hyphens.
pub open spec fn simple_uuid_text(s: Seq<char>) -> bool {
    &&& s.len() == 32
    &&& forall|i: int| 0 <= i < 32 ==> lower_hex(#[trigger] s[i])
    &&& s[12] == '4'
}

/// `Uuid::new_v4` of the crate `uuid`, as `Display` writes it: 36 characters, hyphenated, in
/// lower case, of version 4. Which one it is depends on chance.
#[verifier::external_body]
pub(crate) fn fresh_uuid() -> (id: String)
    ensures
        uuid_text(id@),
{
    uuid::Uuid::new_v4().to_string()
}

/// `Uuid::new_v4` of the crate `uuid`, as its `simple` form is written: 32 characters in lower
/// case, of version 4. Which one it is depends on chance.
#[verifier::external_body]
pub(crate) fn fresh_simple_uuid() -> (id: String)
    ensures
        simple_uuid_text(id@),
{
    uuid::Uuid::new_v4().simple().to_string()
}

/// One exchange with Copilot.
#[derive(Debug, Clone)]
pub struct CopilotTurn {
    pub conversation_id: String,
    pub client_session_id: String,
    pub is_start_of_session: bool,
}

impl CopilotTurn {
    /// The only turn of a conversation that does not last.
    pub fn single() -> (turn: Self)
        ensures
            uuid_text(turn.conversation_id@),
            uuid_text(turn.client_session_id@),
            turn.is_start_of_session,
    {
        CopilotTurn {
            conversation_id: fresh_uuid(),
            client_session_id: fresh_uuid(),
            is_start_of_session: true,
        }
    }
}

/// A conversation: its two names, and how many turns it has had.
pub struct PersistentSession {
    pub conversation_id: String,
    pub client_session_id: String,
    pub turn_count: u32,
}

/// `turn` is the next turn of the conversation `before`, which is `after` from then on: it goes
/// under the conversation's names, and the first one starts the session.
pub open spec fn reserves(
    before: PersistentSession,
    turn: CopilotTurn,
    after: PersistentSession,
) -> bool {
    &&& turn.conversation_id@ == before.conversation_id@
    &&& turn.client_session_id@ == before.client_session_id@
    &&& turn.is_start_of_session == (before.turns() == 0)
    &&& after.conversation_id == before.conversation_id
    &&& after.client_session_id == before.client_session_id
    &&& after.turns() == before.turns() + 1
}

impl PersistentSession {
    /// How many turns were reserved.
    pub open spec fn turns(self) -> int {
        self.turn_count as int
    }

    /// A conversation without turns, under the given names.
    pub fn with_ids(conversation_id: String, client_session_id: String) -> (session: Self)
        ensures
            session.conversation_id == conversation_id,
            session.client_session_id == client_session_id,
            session.turns() == 0,
    {
        PersistentSession { conversation_id, client_session_id, turn_count: 0 }
    }

    /// A conversation without turns, under new names.
    pub fn new() -> (session: Self)
        ensures
            uuid_text(session.conversation_id@),
            uuid_text(session.client_session_id@),
            session.turns() == 0,
    {
        let conversation_id = fresh_uuid();
        let client_session_id = fresh_uuid();
        Self::with_ids(conversation_id, client_session_id)
    }

    /// Whether the count of turns has room for one more.
    pub fn can_reserve(&self) -> (b: bool)
        ensures
            b == (self.turns() < u32::MAX),
    {
        self.turn_count < u32::MAX
    }

    /// The next turn; the first one starts the session.
    pub fn reserve_turn(&mut self) -> (turn: CopilotTurn)
        requires
            old(self).turns() < u32::MAX,
        ensures
            reserves(*old(self), turn, *final(self)),
    {
        let turn = CopilotTurn {
            conversation_id: self.conversation_id.clone(),
            client_session_id: self.client_session_id.clone(),
            is_start_of_session: self.turn_count == 0,
        };
        self.turn_count = self.turn_count + 1;
        turn
    }
}

/// The conversation that the first pair under a key names.
pub open spec fn sessions_by_key(pairs: Seq<(String, PersistentSession)>) -> Map<
    Seq<char>,
    PersistentSession,
>
    decreases pairs.len(),
{
    if pairs.len() == 0 {
        Map::empty()
    } else {
        let rest = sessions_by_key(pairs.drop_last());
        if rest.contains_key(pairs.last().0@) {
            rest
        } else {
            rest.insert(pairs.last().0@, pairs.last().1)
        }
    }
}

/// The conversations, each under a key.
pub struct PersistentSessionStore {
    sessions: Vec<(String, PersistentSession)>,
}

/// A key that no pair names is no key of the map.
proof fn lemma_no_session(pairs: Seq<(String, PersistentSession)>, key: Seq<char>)
    requires
        forall|i: int| 0 <= i < pairs.len() ==> (#[trigger] pairs[i]).0@ != key,
    ensures
        !sessions_by_key(pairs).contains_key(key),
    decreases pairs.len(),
{
    if pairs.len() > 0 {
        assert(pairs[pairs.len() - 1].0@ != key);
        let rest = pairs.drop_last();
        assert forall|i: int| 0 <= i < rest.len() implies (#[trigger] rest[i]).0@ != key by {
            assert(pairs[i].0@ != key);
        }
        lemma_no_session(rest, key);
    }
}

/// The first pair under a key gives its conversation, and replacing that pair's conversation
/// replaces it in the map.
proof fn lemma_first_session(pairs: Seq<(String, PersistentSession)>, key: Seq<char>, at: int)
    requires
        0 <= at < pairs.len(),
        pairs[at].0@ == key,
        forall|i: int| 0 <= i < at ==> (#[trigger] pairs[i]).0@ != key,
    ensures
        sessions_by_key(pairs).contains_key(key),
        sessions_by_key(pairs)[key] == pairs[at].1,
        forall|session: PersistentSession|
            #[trigger] sessions_by_key(pairs.update(at, (pairs[at].0, session)))
                == sessions_by_key(pairs).insert(key, session),
    decreases pairs.len(),
{
    let rest = pairs.drop_last();
    if at == pairs.len() - 1 {
        assert forall|i: int| 0 <= i < rest.len() implies (#[trigger] rest[i]).0@ != key by {
            assert(pairs[i].0@ != key);
        }
        lemma_no_session(rest, key);
        assert forall|session: PersistentSession|
            #[trigger] sessions_by_key(pairs.update(at, (pairs[at].0, session)))
                == sessions_by_key(pairs).insert(key, session) by {
            assert(pairs.update(at, (pairs[at].0, session)).drop_last() =~= rest);
            assert(sessions_by_key(pairs.update(at, (pairs[at].0, session)))
                =~= sessions_by_key(pairs).insert(key, session));
        }
    } else {
        lemma_first_session(rest, key, at);
        assert forall|session: PersistentSession|
            #[trigger] sessions_by_key(pairs.update(at, (pairs[at].0, session)))
                == sessions_by_key(pairs).insert(key, session) by {
            let new = pairs.update(at, (pairs[at].0, session));
            let new_rest = rest.update(at, (rest[at].0, session));
            assert(new.drop_last() =~= new_rest);
            assert(new.last() == pairs.last());
            assert(sessions_by_key(new_rest) == sessions_by_key(rest).insert(key, session));
            assert(sessions_by_key(new) =~= sessions_by_key(pairs).insert(key, session));
        }
    }
}

/// `session` is the conversation that is handed out for `key`: the one under that key, or a new
/// one without turns where there is none.
pub open spec fn hands_out(
    sessions: Map<Seq<char>, PersistentSession>,
    key: Seq<char>,
    session: PersistentSession,
) -> bool {
    if sessions.contains_key(key) {
        session == sessions[key]
    } else {
        &&& session.turns() == 0
        &&& uuid_text(session.conversation_id@)
        &&& uuid_text(session.client_session_id@)
    }
}

impl PersistentSessionStore {
    /// The conversations by key.
    pub closed spec fn view(self) -> Map<Seq<char>, PersistentSession> {
        sessions_by_key(self.sessions@)
    }

    /// The conversation under `key`, a new one where there was none.
    pub fn get(&mut self, key: &str) -> (session: &mut PersistentSession)
        ensures
            hands_out(old(self)@, key@, *session),
            final(self)@ == old(self)@.insert(key@, *final(session)),
    {
        let ghost before = self.sessions@;
        let mut at: usize = 0;
        while at < self.sessions.len() && !same_text(self.sessions[at].0.as_str(), key)
            invariant
                self.sessions@ == before,
                at <= self.sessions.len(),
                forall|i: int| 0 <= i < at ==> (#[trigger] before[i]).0@ != key@,
            decreases self.sessions.len() - at,
        {
            at = at + 1;
        }
        if at == self.sessions.len() {
            proof {
                lemma_no_session(before, key@);
            }
            self.sessions.push((key.to_owned(), PersistentSession::new()));
            proof {
                assert(self.sessions@.drop_last() =~= before);
                lemma_first_session(self.sessions@, key@, at as int);
                assert forall|session: PersistentSession|
                    #[trigger] sessions_by_key(self.sessions@).insert(key@, session)
                        == sessions_by_key(before).insert(key@, session) by {
                    assert(sessions_by_key(self.sessions@).insert(key@, session)
                        =~= sessions_by_key(before).insert(key@, session));
                }
            }
        } else {
            proof {
                lemma_first_session(before, key@, at as int);
            }
        }
        &mut self.sessions[at].1
    }
}

impl Default for PersistentSessionStore {
    /// No conversations.
    fn default() -> (store: Self)
        ensures
            store@ == Map::<Seq<char>, PersistentSession>::empty(),
    {
        PersistentSessionStore { sessions: Vec::new() }
    }
}

// ---------------------------------------------------------------------------------------------
// Laws
// ---------------------------------------------------------------------------------------------

/// A conversation lasts: two turns taken one after the other under the same key go to the same
/// conversation, and the later one does not start a session. The earlier one does where the key
/// was new.
pub proof fn law_conversation_lasts(
    sessions: Map<Seq<char>, PersistentSession>,
    key: Seq<char>,
    first: (PersistentSession, CopilotTurn, PersistentSession),
    second: (PersistentSession, CopilotTurn, PersistentSession),
)
    requires
        hands_out(sessions, key, first.0),
        reserves(first.0, first.1, first.2),
        hands_out(sessions.insert(key, first.2), key, second.0),
        reserves(second.0, second.1, second.2),
    ensures
        second.1.conversation_id@ == first.1.conversation_id@,
        second.1.client_session_id@ == first.1.client_session_id@,
        !second.1.is_start_of_session,
        !sessions.contains_key(key) ==> first.1.is_start_of_session,
{
}

/// Conversations under different keys do not touch each other: a turn under one key leaves what
/// is handed out for another as it was.
pub proof fn law_conversations_are_apart(
    sessions: Map<Seq<char>, PersistentSession>,
    key: Seq<char>,
    after: PersistentSession,
    other: Seq<char>,
    session: PersistentSession,
)
    requires
        key != other,
    ensures
        hands_out(sessions.insert(key, after), other, session) <==> hands_out(
            sessions,
            other,
            session,
        ),
{
}

/// A turn goes under the names of its conversation, which keeps them; it is counted, and starts
/// the session exactly where none was counted before.
pub proof fn law_turns_go_under_the_conversations_names(
    before: PersistentSession,
    turn: CopilotTurn,
    after: PersistentSession,
)
    requires
        reserves(before, turn, after),
    ensures
        turn.conversation_id@ == before.conversation_id@,
        turn.client_session_id@ == before.client_session_id@,
        after.conversation_id@ == before.conversation_id@,
        after.client_session_id@ == before.client_session_id@,
        after.turn_count == before.turn_count + 1,
        turn.is_start_of_session <==> before.turn_count == 0,
{
}

/// A conversation that is there is handed out as it is, whatever was handed out under other keys;
/// under a new key a conversation without turns is handed out.
pub proof fn law_conversations_are_found_by_key(
    sessions: Map<Seq<char>, PersistentSession>,
    key: Seq<char>,
    kept: PersistentSession,
    session: PersistentSession,
)
    ensures
        hands_out(sessions.insert(key, kept), key, session) <==> session == kept,
        !sessions.contains_key(key) ==> hands_out(sessions, key, session) ==> session.turn_count
            == 0,
{
}

/// Of two pairs under one key the first counts, and pairs under other keys do not matter to it.
pub proof fn law_first_pair_under_a_key_counts(
    pairs: Seq<(String, PersistentSession)>,
    pair: (String, PersistentSession),
)
    ensures
        sessions_by_key(Seq::<(String, PersistentSession)>::empty()) == Map::<
            Seq<char>,
            PersistentSession,
        >::empty(),
        sessions_by_key(pairs).contains_key(pair.0@) ==> sessions_by_key(pairs.push(pair))
            == sessions_by_key(pairs),
        !sessions_by_key(pairs).contains_key(pair.0@) ==> sessions_by_key(pairs.push(pair))
            == sessions_by_key(pairs).insert(pair.0@, pair.1),
{
    assert(pairs.push(pair).drop_last() =~= pairs);
}

} // verus!
