//! One round of the conversation loop, as decisions on plain values: what a
//! typed line leads to (quitting, or a request body to send), and what a
//! reply does to the transcript. The loop around these — reading the line,
//! sending the request, receiving the reply — stays outside this crate.

use vstd::prelude::*;
use crate::chat::{user_turn, Conversation};
use crate::input::{is_quit, is_quit_line, trim_whitespace, trimmed};
use crate::json::{encode_request, request_json};

verus! {

/// What the loop does with a typed line.
pub enum Action {
    /// End the conversation.
    Quit,
    /// Send this request body and await the reply.
    Send(Vec<u8>),
}

/// Take one typed line: trim it, and either recognise the quit sentinel and
/// leave the transcript alone, or append the line as the user's turn and
/// encode the request body that carries the whole transcript.
pub fn user_step(conv: &mut Conversation, line: &Vec<u8>, model: &Vec<u8>, max_tokens: u32) -> (a:
    Action)
    ensures
        is_quit_line(trimmed(line@)) ==> a is Quit && final(conv)@ == old(conv)@,
        !is_quit_line(trimmed(line@)) ==> {
            &&& final(conv)@ == old(conv)@.push(user_turn(trimmed(line@)))
            &&& a matches Action::Send(body) && body@ == request_json(
                model@,
                max_tokens,
                final(conv)@,
            )
        },
{
    let text = trim_whitespace(line);
    if is_quit(&text) {
        Action::Quit
    } else {
        conv.push_user(text);
        let body = encode_request(model, max_tokens, conv);
        Action::Send(body)
    }
}

/// `Bot: `
pub open spec fn bot_prefix() -> Seq<u8> {
    seq![66u8, 111u8, 116u8, 58u8, 32u8]
}

/// The line printed for a reply: the `Bot: ` prefix, the reply's text, and
/// the newline that ends it.
pub open spec fn reply_line_bytes(text: Seq<u8>) -> Seq<u8> {
    bot_prefix() + text + seq![10u8]
}

/// The exact bytes printed for a reply; writing them out, and the pacing
/// between characters, stay outside this crate.
#[verifier::loop_isolation(false)]
pub fn reply_line(text: &Vec<u8>) -> (r: Vec<u8>)
    ensures
        r@ == reply_line_bytes(text@),
{
    let mut out: Vec<u8> = Vec::new();
    out.push(66);
    out.push(111);
    out.push(116);
    out.push(58);
    out.push(32);
    proof {
        assert(out@ =~= bot_prefix());
        assert(out@ =~= bot_prefix() + text@.subrange(0, 0));
    }
    let n = text.len();
    let mut i: usize = 0;
    while i < n
        invariant
            i <= n,
            out@ == bot_prefix() + text@.subrange(0, i as int),
        decreases n - i,
    {
        out.push(text[i]);
        proof {
            assert(out@ =~= bot_prefix() + text@.subrange(0, i as int + 1));
        }
        i = i + 1;
    }
    out.push(10);
    proof {
        assert(text@.subrange(0, n as int) =~= text@);
        assert(out@ =~= reply_line_bytes(text@));
    }
    out
}

} // verus!
