//! The wire format of a request: the transcript and the fixed model
//! parameters encoded as the JSON body `{"model":..., "max_tokens":...,
//! "messages":[{"role":...,"content":...}, ...]}`, built byte by byte and
//! proved equal to its specification.

use vstd::prelude::*;
use crate::chat::{Conversation, Role, Turn, TurnView};

verus! {

/// The lower-case hex digit of a value below sixteen.
pub open spec fn hex_digit(n: u8) -> u8 {
    if n < 10 {
        (48 + n) as u8  // '0'..'9'
    } else {
        (87 + n) as u8  // 'a'..'f'
    }
}

/// How one byte of a string appears inside a JSON string literal: the quote,
/// the backslash and the control bytes are escaped, every other byte stands
/// as it is.
pub open spec fn escaped_byte(b: u8) -> Seq<u8> {
    if b == 34 {  // '"'
        seq![92u8, 34u8]
    } else if b == 92 {  // '\'
        seq![92u8, 92u8]
    } else if b == 10 {  // line feed
        seq![92u8, 110u8]
    } else if b == 13 {  // carriage return
        seq![92u8, 114u8]
    } else if b == 9 {  // tab
        seq![92u8, 116u8]
    } else if b < 32 {  // other control bytes: \u00XX
        seq![92u8, 117u8, 48u8, 48u8, hex_digit(b / 16), hex_digit(b % 16)]
    } else {
        seq![b]
    }
}

/// A whole string escaped for a JSON string literal.
pub open spec fn escaped(s: Seq<u8>) -> Seq<u8>
    decreases s.len(),
{
    if s.len() == 0 {
        Seq::<u8>::empty()
    } else {
        escaped_byte(s[0]) + escaped(s.drop_first())
    }
}

/// The decimal digits of a number, most significant first.
pub open spec fn decimal(n: nat) -> Seq<u8>
    decreases n,
{
    if n < 10 {
        seq![(48 + n) as u8]
    } else {
        decimal(n / 10).push((48 + n % 10) as u8)
    }
}

/// The JSON name of a role.
pub open spec fn role_name(r: Role) -> Seq<u8> {
    match r {
        Role::User => seq![117u8, 115u8, 101u8, 114u8],  // user
        Role::Assistant => seq![
            97u8,
            115u8,
            115u8,
            105u8,
            115u8,
            116u8,
            97u8,
            110u8,
            116u8,
        ],  // assistant
    }
}

/// `{"role":"`
pub open spec fn turn_open() -> Seq<u8> {
    seq![123u8, 34u8, 114u8, 111u8, 108u8, 101u8, 34u8, 58u8, 34u8]
}

/// `","content":"`
pub open spec fn turn_mid() -> Seq<u8> {
    seq![34u8, 44u8, 34u8, 99u8, 111u8, 110u8, 116u8, 101u8, 110u8, 116u8, 34u8, 58u8, 34u8]
}

/// `"}`
pub open spec fn turn_close() -> Seq<u8> {
    seq![34u8, 125u8]
}

/// One turn as a JSON object with its role and its escaped content.
pub open spec fn turn_json(t: TurnView) -> Seq<u8> {
    turn_open() + role_name(t.role) + turn_mid() + escaped(t.content) + turn_close()
}

/// The turns as the comma-separated elements of a JSON array.
pub open spec fn turns_json(ts: Seq<TurnView>) -> Seq<u8>
    decreases ts.len(),
{
    if ts.len() == 0 {
        Seq::<u8>::empty()
    } else if ts.len() == 1 {
        turn_json(ts[0])
    } else {
        turn_json(ts[0]) + seq![44u8] + turns_json(ts.drop_first())
    }
}

/// `{"model":"`
pub open spec fn req_open() -> Seq<u8> {
    seq![123u8, 34u8, 109u8, 111u8, 100u8, 101u8, 108u8, 34u8, 58u8, 34u8]
}

/// `","max_tokens":`
pub open spec fn req_mid_tokens() -> Seq<u8> {
    seq![
        34u8,
        44u8,
        34u8,
        109u8,
        97u8,
        120u8,
        95u8,
        116u8,
        111u8,
        107u8,
        101u8,
        110u8,
        115u8,
        34u8,
        58u8,
    ]
}

/// `,"messages":[`
pub open spec fn req_mid_messages() -> Seq<u8> {
    seq![44u8, 34u8, 109u8, 101u8, 115u8, 115u8, 97u8, 103u8, 101u8, 115u8, 34u8, 58u8, 91u8]
}

/// `]}`
pub open spec fn req_close() -> Seq<u8> {
    seq![93u8, 125u8]
}

/// The whole request body: model identifier, token budget and the transcript,
/// in one JSON object.
pub open spec fn request_json(model: Seq<u8>, max_tokens: u32, turns: Seq<TurnView>) -> Seq<u8> {
    req_open() + escaped(model) + req_mid_tokens() + decimal(max_tokens as nat) + req_mid_messages()
        + turns_json(turns) + req_close()
}

/// Escaping a string is escaping each of its bytes in order.
pub proof fn lemma_escaped_push(s: Seq<u8>, b: u8)
    ensures
        escaped(s.push(b)) == escaped(s) + escaped_byte(b),
    decreases s.len(),
{
    if s.len() == 0 {
        assert(s.push(b).drop_first() =~= Seq::<u8>::empty());
        assert(s.push(b)[0] == b);
        assert(escaped(Seq::<u8>::empty()) == Seq::<u8>::empty());
        assert(escaped(s.push(b)) == escaped_byte(b) + escaped(Seq::<u8>::empty()));
        assert(escaped(s) == Seq::<u8>::empty());
        assert(escaped_byte(b) + Seq::<u8>::empty() =~= escaped_byte(b));
        assert(Seq::<u8>::empty() + escaped_byte(b) =~= escaped_byte(b));
    } else {
        assert(s.push(b).drop_first() =~= s.drop_first().push(b));
        assert(s.push(b)[0] == s[0]);
        assert(escaped(s.push(b)) == escaped_byte(s[0]) + escaped(s.drop_first().push(b)));
        lemma_escaped_push(s.drop_first(), b);
        assert(escaped(s) == escaped_byte(s[0]) + escaped(s.drop_first()));
        assert(escaped_byte(s[0]) + (escaped(s.drop_first()) + escaped_byte(b)) =~= (escaped_byte(
            s[0],
        ) + escaped(s.drop_first())) + escaped_byte(b));
    }
}

/// Appending a turn extends the array encoding by a comma (past the first
/// element) and the new turn's object.
pub proof fn lemma_turns_json_push(ts: Seq<TurnView>, t: TurnView)
    ensures
        ts.len() == 0 ==> turns_json(ts.push(t)) == turn_json(t),
        ts.len() > 0 ==> turns_json(ts.push(t)) == turns_json(ts) + seq![44u8] + turn_json(t),
    decreases ts.len(),
{
    if ts.len() == 0 {
        assert(ts.push(t)[0] == t);
    } else {
        assert(ts.push(t).drop_first() =~= ts.drop_first().push(t));
        lemma_turns_json_push(ts.drop_first(), t);
        if ts.len() == 1 {
            assert(turns_json(ts.push(t)) =~= turns_json(ts) + seq![44u8] + turn_json(t));
        } else {
            assert(turn_json(ts[0]) + seq![44u8] + (turns_json(ts.drop_first()) + seq![44u8]
                + turn_json(t)) =~= (turn_json(ts[0]) + seq![44u8] + turns_json(ts.drop_first()))
                + seq![44u8] + turn_json(t));
        }
    }
}

fn hex_digit_byte(n: u8) -> (r: u8)
    requires
        n < 16,
    ensures
        r == hex_digit(n),
{
    if n < 10 {
        48 + n
    } else {
        87 + n
    }
}

fn append_escaped_byte(out: &mut Vec<u8>, b: u8)
    ensures
        final(out)@ == old(out)@ + escaped_byte(b),
{
    if b == 34 {
        out.push(92);
        out.push(34);
    } else if b == 92 {
        out.push(92);
        out.push(92);
    } else if b == 10 {
        out.push(92);
        out.push(110);
    } else if b == 13 {
        out.push(92);
        out.push(114);
    } else if b == 9 {
        out.push(92);
        out.push(116);
    } else if b < 32 {
        out.push(92);
        out.push(117);
        out.push(48);
        out.push(48);
        out.push(hex_digit_byte(b / 16));
        out.push(hex_digit_byte(b % 16));
    } else {
        out.push(b);
    }
    proof {
        assert(out@ =~= old(out)@ + escaped_byte(b));
    }
}

/// Append a string's bytes escaped for a JSON string literal.
#[verifier::loop_isolation(false)]
pub fn append_escaped(out: &mut Vec<u8>, s: &Vec<u8>)
    ensures
        final(out)@ == old(out)@ + escaped(s@),
{
    let ghost base = out@;
    proof {
        assert(s@.subrange(0, 0) =~= Seq::<u8>::empty());
        assert(base + escaped(s@.subrange(0, 0)) =~= base);
    }
    let n = s.len();
    let mut i: usize = 0;
    while i < n
        invariant
            i <= n,
            out@ == base + escaped(s@.subrange(0, i as int)),
        decreases n - i,
    {
        append_escaped_byte(out, s[i]);
        proof {
            assert(s@.subrange(0, i as int + 1) =~= s@.subrange(0, i as int).push(s@[i as int]));
            lemma_escaped_push(s@.subrange(0, i as int), s@[i as int]);
            assert(out@ =~= base + escaped(s@.subrange(0, i as int + 1)));
        }
        i = i + 1;
    }
    proof {
        assert(s@.subrange(0, n as int) =~= s@);
    }
}

/// Append a number's decimal digits.
pub fn append_decimal(out: &mut Vec<u8>, n: u32)
    ensures
        final(out)@ == old(out)@ + decimal(n as nat),
    decreases n,
{
    if n < 10 {
        out.push(48 + n as u8);
        proof {
            assert(out@ =~= old(out)@ + decimal(n as nat));
        }
    } else {
        append_decimal(out, n / 10);
        out.push(48 + (n % 10) as u8);
        proof {
            assert(out@ =~= old(out)@ + decimal(n as nat));
        }
    }
}

fn append_turn(out: &mut Vec<u8>, t: &Turn)
    ensures
        final(out)@ == old(out)@ + turn_json(t@),
{
    let ghost base = out@;
    out.push(123);
    out.push(34);
    out.push(114);
    out.push(111);
    out.push(108);
    out.push(101);
    out.push(34);
    out.push(58);
    out.push(34);
    proof {
        assert(out@ =~= base + turn_open());
    }
    match t.role {
        Role::User => {
            out.push(117);
            out.push(115);
            out.push(101);
            out.push(114);
        },
        Role::Assistant => {
            out.push(97);
            out.push(115);
            out.push(115);
            out.push(105);
            out.push(115);
            out.push(116);
            out.push(97);
            out.push(110);
            out.push(116);
        },
    }
    proof {
        assert(out@ =~= base + turn_open() + role_name(t@.role));
    }
    out.push(34);
    out.push(44);
    out.push(34);
    out.push(99);
    out.push(111);
    out.push(110);
    out.push(116);
    out.push(101);
    out.push(110);
    out.push(116);
    out.push(34);
    out.push(58);
    out.push(34);
    proof {
        assert(out@ =~= base + turn_open() + role_name(t@.role) + turn_mid());
    }
    append_escaped(out, &t.content);
    out.push(34);
    out.push(125);
    proof {
        assert(out@ =~= base + turn_json(t@));
    }
}

fn append_req_open(out: &mut Vec<u8>)
    ensures
        final(out)@ == old(out)@ + req_open(),
{
    let ghost base = out@;
    out.push(123);
    out.push(34);
    out.push(109);
    out.push(111);
    out.push(100);
    out.push(101);
    out.push(108);
    out.push(34);
    out.push(58);
    out.push(34);
    proof {
        assert(out@ =~= base + req_open());
    }
}

fn append_req_mid_tokens(out: &mut Vec<u8>)
    ensures
        final(out)@ == old(out)@ + req_mid_tokens(),
{
    let ghost base = out@;
    out.push(34);
    out.push(44);
    out.push(34);
    out.push(109);
    out.push(97);
    out.push(120);
    out.push(95);
    out.push(116);
    out.push(111);
    out.push(107);
    out.push(101);
    out.push(110);
    out.push(115);
    out.push(34);
    out.push(58);
    proof {
        assert(out@ =~= base + req_mid_tokens());
    }
}

fn append_req_mid_messages(out: &mut Vec<u8>)
    ensures
        final(out)@ == old(out)@ + req_mid_messages(),
{
    let ghost base = out@;
    out.push(44);
    out.push(34);
    out.push(109);
    out.push(101);
    out.push(115);
    out.push(115);
    out.push(97);
    out.push(103);
    out.push(101);
    out.push(115);
    out.push(34);
    out.push(58);
    out.push(91);
    proof {
        assert(out@ =~= base + req_mid_messages());
    }
}

/// The request body sent for one round: the model identifier, the output
/// token budget and the whole transcript, encoded as the JSON object
/// `{"model":...,"max_tokens":...,"messages":[...]}`.
#[verifier::loop_isolation(false)]
pub fn encode_request(model: &Vec<u8>, max_tokens: u32, conv: &Conversation) -> (r: Vec<u8>)
    ensures
        r@ == request_json(model@, max_tokens, conv@),
{
    let mut out: Vec<u8> = Vec::new();
    append_req_open(&mut out);
    proof {
        assert(out@ =~= req_open());
    }
    append_escaped(&mut out, model);
    append_req_mid_tokens(&mut out);
    append_decimal(&mut out, max_tokens);
    append_req_mid_messages(&mut out);
    let ghost pre = out@;
    proof {
        assert(pre =~= req_open() + escaped(model@) + req_mid_tokens() + decimal(
            max_tokens as nat,
        ) + req_mid_messages());
        assert(out@ =~= pre + turns_json(conv@.subrange(0, 0)));
    }
    let n = conv.len();
    let mut i: usize = 0;
    while i < n
        invariant
            i <= n,
            out@ == pre + turns_json(conv@.subrange(0, i as int)),
        decreases n - i,
    {
        if i > 0 {
            out.push(44);
        }
        append_turn(&mut out, conv.turn(i));
        proof {
            assert(conv@.subrange(0, i as int + 1) =~= conv@.subrange(0, i as int).push(
                conv@[i as int],
            ));
            lemma_turns_json_push(conv@.subrange(0, i as int), conv@[i as int]);
            assert(out@ =~= pre + turns_json(conv@.subrange(0, i as int + 1)));
        }
        i = i + 1;
    }
    out.push(93);
    out.push(125);
    proof {
        assert(conv@.subrange(0, n as int) =~= conv@);
        assert(out@ =~= request_json(model@, max_tokens, conv@));
    }
    out
}

} // verus!
