//! The append-only log of `(role, text)` entries of one chat session.
use vstd::prelude::*;

verus! {

pub struct ConversationState {
    messages: Vec<(String, String)>,
}

impl View for ConversationState {
    type V = Seq<(Seq<char>, Seq<char>)>;

    closed spec fn view(&self) -> Seq<(Seq<char>, Seq<char>)> {
        self.messages@.map_values(|m: (String, String)| (m.0@, m.1@))
    }
}

impl ConversationState {
    /// An empty log.
    pub fn new() -> (r: Self)
        ensures
            r@ == Seq::<(Seq<char>, Seq<char>)>::empty(),
    {
        let r = ConversationState { messages: Vec::new() };
        assert(r@ =~= Seq::<(Seq<char>, Seq<char>)>::empty());
        r
    }

    /// Appends `message` with the role `user`.
    pub fn add_user_message(&mut self, message: &str)
        ensures
            final(self)@ == old(self)@.push(("user"@, message@)),
    {
        self.messages.push(("user".to_string(), message.to_string()));
        assert(self@ =~= old(self)@.push(("user"@, message@)));
    }

    /// Appends `message` with the role `assistant`.
    pub fn add_assistant_message(&mut self, message: &str)
        ensures
            final(self)@ == old(self)@.push(("assistant"@, message@)),
    {
        self.messages.push(("assistant".to_string(), message.to_string()));
        assert(self@ =~= old(self)@.push(("assistant"@, message@)));
    }

    /// All entries, oldest first.
    pub fn get_messages(&self) -> (r: &[(String, String)])
        ensures
            r@.len() == self@.len(),
            forall|i: int|
                0 <= i < r@.len() ==> (#[trigger] r@[i]).0@ == self@[i].0 && r@[i].1@ == self@[i].1,
    {
        self.messages.as_slice()
    }

    /// Discards every entry.
    pub fn clear(&mut self)
        ensures
            final(self)@ == Seq::<(Seq<char>, Seq<char>)>::empty(),
    {
        self.messages.clear();
        assert(self@ =~= Seq::<(Seq<char>, Seq<char>)>::empty());
    }
}

} // verus!
