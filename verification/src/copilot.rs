//! A stand-in for the chat hub that keeps what it was asked.
use vstd::prelude::*;
use vstd::string::*;

use crate::session_store::PersistentSession;
use crate::substrate_client::{self, SubstrateCopilotError};
use crate::text;

verus! {

/// A call: the prompt, its context, and the conversation it was made in.
pub type FakeCopilotCall = (String, Vec<String>, Option<String>);

/// A call.
pub struct CallView {
    pub prompt: Seq<char>,
    pub context: Seq<Seq<char>>,
    pub conversation_id: Option<Seq<char>>,
}

/// A call.
pub open spec fn call_view(call: FakeCopilotCall) -> CallView {
    CallView {
        prompt: call.0@,
        context: text::views(call.1@),
        conversation_id: match call.2 {
            Some(id) => Some(id@),
            None => None,
        },
    }
}

/// The calls that were made.
pub open spec fn call_views(calls: Seq<FakeCopilotCall>) -> Seq<CallView> {
    Seq::new(calls.len(), |i: int| call_view(calls[i]))
}

/// The texts of a list.
pub open spec fn str_views(strs: Seq<&str>) -> Seq<Seq<char>> {
    Seq::new(strs.len(), |i: int| strs[i]@)
}

/// The call that a prompt makes.
pub open spec fn call_of(
    prompt: Seq<char>,
    context: Seq<Seq<char>>,
    session: Option<&PersistentSession>,
) -> CallView {
    CallView {
        prompt,
        context,
        conversation_id: match session {
            Some(session) => Some(session.conversation_id@),
            None => None,
        },
    }
}

/// A client that gives a fixed reply and keeps the calls that were made.
pub struct FakeCopilotClient {
    pub reply: String,
    pub stream_chunks: Vec<String>,
    pub fail_stream: bool,
    pub calls: Vec<FakeCopilotCall>,
}

/// A copy of a list of texts.
fn copy_texts(texts: &[String]) -> (copies: Vec<String>)
    ensures
        text::views(copies@) == text::views(texts@),
{
    let mut copies: Vec<String> = Vec::new();
    for i in 0..texts.len()
        invariant
            copies@.len() == i,
            forall|j: int| 0 <= j < i ==> (#[trigger] copies@[j])@ == texts@[j]@,
    {
        copies.push(texts[i].clone());
    }
    assert(text::views(copies@) =~= text::views(texts@));
    copies
}

impl FakeCopilotClient {
    /// A client that replies in one chunk.
    pub fn simple(reply: &str) -> (client: Self)
        ensures
            client.reply@ == reply@,
            text::views(client.stream_chunks@) == seq![reply@],
            !client.fail_stream,
            client.calls@.len() == 0,
    {
        let mut stream_chunks: Vec<String> = Vec::new();
        stream_chunks.push(reply.to_owned());
        assert(text::views(stream_chunks@) =~= seq![reply@]);
        FakeCopilotClient {
            reply: reply.to_owned(),
            stream_chunks,
            fail_stream: false,
            calls: Vec::new(),
        }
    }

    /// A client that replies in the given chunks.
    pub fn streaming(chunks: &[&str]) -> (client: Self)
        ensures
            client.reply@ == text::joined(str_views(chunks@), Seq::empty()),
            text::views(client.stream_chunks@) == str_views(chunks@),
            !client.fail_stream,
            client.calls@.len() == 0,
    {
        let mut stream_chunks: Vec<String> = Vec::new();
        let mut reply = String::new();
        let ghost all = str_views(chunks@);
        assert(all.take(0) =~= Seq::empty());
        for i in 0..chunks.len()
            invariant
                all == str_views(chunks@),
                reply@ == text::joined(all.take(i as int), Seq::empty()),
                text::views(stream_chunks@) == all.take(i as int),
        {
            proof {
                text::lemma_joined_push(all.take(i as int), all[i as int], Seq::empty());
                assert(all.take(i + 1) =~= all.take(i as int).push(all[i as int]));
                assert(text::joined(all.take(i as int), Seq::empty()) + Seq::<char>::empty()
                    =~= text::joined(all.take(i as int), Seq::empty()));
                if i == 0 {
                    assert(reply@ + all[0] =~= all[0]);
                }
            }
            let ghost before = text::views(stream_chunks@);
            reply.append(chunks[i]);
            stream_chunks.push(chunks[i].to_owned());
            assert(text::views(stream_chunks@) =~= before.push(all[i as int]));
        }
        assert(all.take(all.len() as int) =~= all);
        FakeCopilotClient { reply, stream_chunks, fail_stream: false, calls: Vec::new() }
    }

    /// A client whose stream fails.
    pub fn failing_stream() -> (client: Self)
        ensures
            client.reply@ == Seq::<char>::empty(),
            client.stream_chunks@.len() == 0,
            client.fail_stream,
            client.calls@.len() == 0,
    {
        FakeCopilotClient {
            reply: String::new(),
            stream_chunks: Vec::new(),
            fail_stream: true,
            calls: Vec::new(),
        }
    }

    /// Keeps a call.
    fn record(&mut self, prompt: &str, ctx: &[String], session: Option<&PersistentSession>)
        ensures
            call_views(final(self).calls@) == call_views(old(self).calls@).push(
                call_of(prompt@, text::views(ctx@), session),
            ),
            final(self).reply == old(self).reply,
            final(self).stream_chunks == old(self).stream_chunks,
            final(self).fail_stream == old(self).fail_stream,
    {
        let key = match session {
            Some(session) => Some(session.conversation_id.clone()),
            None => None,
        };
        let ghost before = call_views(self.calls@);
        self.calls.push((prompt.to_owned(), copy_texts(ctx), key));
        assert(call_views(self.calls@) =~= before.push(
            call_of(prompt@, text::views(ctx@), session),
        ));
    }

    /// The reply; the call is kept.
    pub fn chat(
        &mut self,
        prompt: &str,
        additional_context: &[String],
        session: Option<&PersistentSession>,
    ) -> (reply: Result<String, SubstrateCopilotError>)
        ensures
            reply matches Ok(text) && text@ == old(self).reply@,
            call_views(final(self).calls@) == call_views(old(self).calls@).push(
                call_of(prompt@, text::views(additional_context@), session),
            ),
            final(self).reply == old(self).reply,
            final(self).stream_chunks == old(self).stream_chunks,
            final(self).fail_stream == old(self).fail_stream,
    {
        self.record(prompt, additional_context, session);
        Ok(self.reply.clone())
    }

    /// The chunks of the reply, or a failure where the client is made to fail; the call is kept
    /// either way.
    pub fn chat_stream(
        &mut self,
        prompt: &str,
        additional_context: &[String],
        session: Option<&PersistentSession>,
    ) -> (stream: Result<Vec<Result<String, SubstrateCopilotError>>, SubstrateCopilotError>)
        ensures
            match stream {
                Ok(items) => !old(self).fail_stream && substrate_client::item_views(items@)
                    == substrate_client::outcome_items(Ok(text::views(old(self).stream_chunks@))),
                Err(e) => old(self).fail_stream && e.0@ == "upstream broke"@,
            },
            call_views(final(self).calls@) == call_views(old(self).calls@).push(
                call_of(prompt@, text::views(additional_context@), session),
            ),
            final(self).reply == old(self).reply,
            final(self).stream_chunks == old(self).stream_chunks,
            final(self).fail_stream == old(self).fail_stream,
    {
        self.record(prompt, additional_context, session);
        if self.fail_stream {
            return Err(SubstrateCopilotError("upstream broke".to_owned()));
        }
        Ok(substrate_client::stream_items(Ok(copy_texts(self.stream_chunks.as_slice()))))
    }
}

/// A call is kept as it was made: with its prompt, its context and the conversation it belongs to.
pub proof fn law_calls_are_kept_as_made(
    prompt: Seq<char>,
    context: Seq<Seq<char>>,
    session: PersistentSession,
    calls: Seq<FakeCopilotCall>,
    i: int,
)
    requires
        0 <= i < calls.len(),
    ensures
        call_of(prompt, context, Some(&session)).prompt == prompt,
        call_of(prompt, context, Some(&session)).context == context,
        call_of(prompt, context, Some(&session)).conversation_id == Some(session.conversation_id@),
        call_of(prompt, context, None).prompt == prompt,
        call_of(prompt, context, None).context == context,
        call_of(prompt, context, None).conversation_id is None,
        call_views(calls).len() == calls.len(),
        call_views(calls)[i].prompt == calls[i].0@,
        call_views(calls)[i].context == text::views(calls[i].1@),
        call_views(calls)[i].conversation_id is Some <==> calls[i].2 is Some,
        calls[i].2 matches Some(id) ==> call_views(calls)[i].conversation_id == Some(id@),
{
}

} // verus!
