//! The conversation transcript: an append-only, ordered sequence of turns,
//! each a role (user or assistant) paired with its text as bytes.

use vstd::prelude::*;

verus! {

/// The speaker of one turn.
#[derive(Clone, Copy, PartialEq, Eq, Structural, Debug)]
pub enum Role {
    User,
    Assistant,
}

/// One message of the conversation, tagged with its speaker.
pub struct Turn {
    pub role: Role,
    pub content: Vec<u8>,
}

/// The mathematical value of a `Turn`.
pub struct TurnView {
    pub role: Role,
    pub content: Seq<u8>,
}

impl View for Turn {
    type V = TurnView;

    open spec fn view(&self) -> TurnView {
        TurnView { role: self.role, content: self.content@ }
    }
}

/// A turn as the user speaks it.
pub open spec fn user_turn(content: Seq<u8>) -> TurnView {
    TurnView { role: Role::User, content: content }
}

/// A turn as the assistant answers it.
pub open spec fn assistant_turn(content: Seq<u8>) -> TurnView {
    TurnView { role: Role::Assistant, content: content }
}

/// The in-memory transcript of one run: turns in the order they were spoken,
/// only ever appended to.
pub struct Conversation {
    turns: Vec<Turn>,
}

impl View for Conversation {
    type V = Seq<TurnView>;

    closed spec fn view(&self) -> Seq<TurnView> {
        self.turns@.map_values(|t: Turn| t@)
    }
}

impl Conversation {
    /// A fresh transcript holds no turns.
    pub fn new() -> (c: Conversation)
        ensures
            c@ == Seq::<TurnView>::empty(),
    {
        let c = Conversation { turns: Vec::new() };
        proof {
            assert(c@ =~= Seq::<TurnView>::empty());
        }
        c
    }

    /// How many turns have been spoken.
    pub fn len(&self) -> (n: usize)
        ensures
            n == self@.len(),
    {
        self.turns.len()
    }

    /// The `i`th turn, oldest first.
    pub fn turn(&self, i: usize) -> (t: &Turn)
        requires
            i < self@.len(),
        ensures
            t@ == self@[i as int],
    {
        &self.turns[i]
    }

    /// Append what the user typed.
    pub fn push_user(&mut self, content: Vec<u8>)
        ensures
            final(self)@ == old(self)@.push(user_turn(content@)),
    {
        let ghost prev = self@;
        self.turns.push(Turn { role: Role::User, content });
        proof {
            assert(self@ =~= prev.push(user_turn(self.turns@.last().content@)));
        }
    }

    /// Append what the assistant answered.
    pub fn push_assistant(&mut self, content: Vec<u8>)
        ensures
            final(self)@ == old(self)@.push(assistant_turn(content@)),
    {
        let ghost prev = self@;
        self.turns.push(Turn { role: Role::Assistant, content });
        proof {
            assert(self@ =~= prev.push(assistant_turn(self.turns@.last().content@)));
        }
    }

    /// Record a reply given as its content blocks, of which only the first is
    /// consumed: append it as an assistant turn and return it, or leave the
    /// transcript unchanged when there is no block at all.
    pub fn record_reply(&mut self, blocks: &Vec<Vec<u8>>) -> (reply: Option<Vec<u8>>)
        ensures
            blocks@.len() == 0 ==> reply is None && final(self)@ == old(self)@,
            blocks@.len() > 0 ==> {
                &&& reply matches Some(r) && r@ == blocks@[0]@
                &&& final(self)@ == old(self)@.push(assistant_turn(blocks@[0]@))
            },
    {
        if blocks.len() > 0 {
            let text = blocks[0].clone();
            let echo = text.clone();
            proof {
                assert(text@ =~= blocks@[0]@);
                assert(echo@ =~= text@);
            }
            self.push_assistant(text);
            Some(echo)
        } else {
            None
        }
    }
}

/// One successful round appends exactly two turns to the transcript — the
/// user's, then the assistant's — and disturbs nothing that was already there.
pub proof fn lemma_round_appends_two(t: Seq<TurnView>, input: Seq<u8>, reply: Seq<u8>)
    ensures
        t.push(user_turn(input)).push(assistant_turn(reply)).len() == t.len() + 2,
        t.push(user_turn(input)).push(assistant_turn(reply))[t.len() as int] == user_turn(input),
        t.push(user_turn(input)).push(assistant_turn(reply))[t.len() as int + 1] == assistant_turn(reply),
        forall|i: int|
            0 <= i < t.len() ==> t.push(user_turn(input)).push(assistant_turn(reply))[i] == t[i],
{
}

} // verus!
