//! Responses sent to commands, remembered so that a response is deleted
//! when the command message it answers is deleted.

use vstd::prelude::*;
use std::collections::HashMap;
use crate::ids::MessageId;

verus! {

broadcast use vstd::std_specs::hash::group_hash_axioms;

/// For each command message, the message sent in response to it.
pub struct CommandResponseMap {
    responses: HashMap<u64, u64>,
}

impl CommandResponseMap {
    /// Command message IDs mapped to their response message IDs.
    pub closed spec fn view(&self) -> Map<u64, u64> {
        self.responses@
    }

    /// An empty map.
    pub fn new() -> (r: CommandResponseMap)
        ensures
            r.view() == Map::<u64, u64>::empty(),
    {
        CommandResponseMap { responses: HashMap::new() }
    }

    /// Records `response` as the response to `original`.
    pub fn insert_command_response(&mut self, original: MessageId, response: MessageId)
        ensures
            final(self).view() == old(self).view().insert(original.0, response.0),
    {
        self.responses.insert(original.0, response.0);
    }

    /// Forgets the response to `message`, returning it if there was one.
    pub fn delete_command_response(&mut self, message: MessageId) -> (r: Option<MessageId>)
        ensures
            final(self).view() == old(self).view().remove(message.0),
            old(self).view().contains_key(message.0) ==> r == Some(
                MessageId(old(self).view()[message.0]),
            ),
            !old(self).view().contains_key(message.0) ==> r is None,
    {
        match self.responses.remove(&message.0) {
            Some(response) => Some(MessageId(response)),
            None => None,
        }
    }
}

/// Recording a response and then deleting its command gives back that
/// response and forgets it.
pub proof fn lemma_insert_then_delete(m: Map<u64, u64>, original: u64, response: u64)
    ensures
        m.insert(original, response).contains_key(original),
        m.insert(original, response)[original] == response,
        m.insert(original, response).remove(original) == m.remove(original),
{
    assert(m.insert(original, response).remove(original) =~= m.remove(original));
}

} // verus!
