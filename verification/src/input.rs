//! What is done with a line the user typed before it enters the transcript:
//! surrounding whitespace is trimmed away, and the quit sentinel is
//! recognised case-insensitively.

use vstd::prelude::*;

verus! {

/// ASCII whitespace: space, and the control characters tab through carriage
/// return.
pub open spec fn is_ascii_ws(b: u8) -> bool {
    b == 32 || (9 <= b && b <= 13)
}

/// The three-byte UTF-8 encodings of the wide Unicode white-space code
/// points: U+1680, U+2000 through U+200A, U+2028, U+2029, U+202F, U+205F and
/// U+3000.
pub open spec fn is_wide_ws(a: u8, b: u8, c: u8) -> bool {
    ||| (a == 0xE1 && b == 0x9A && c == 0x80)
    ||| (a == 0xE2 && b == 0x80 && (0x80 <= c && c <= 0x8A))
    ||| (a == 0xE2 && b == 0x80 && (c == 0xA8 || c == 0xA9 || c == 0xAF))
    ||| (a == 0xE2 && b == 0x81 && c == 0x9F)
    ||| (a == 0xE3 && b == 0x80 && c == 0x80)
}

/// The byte length of the white-space character that begins the sequence:
/// one ASCII byte, the two-byte encodings of U+0085 and U+00A0, or a
/// three-byte encoding; zero when the sequence begins with none.
pub open spec fn front_ws_len(s: Seq<u8>) -> nat {
    if s.len() >= 1 && is_ascii_ws(s[0]) {
        1
    } else if s.len() >= 2 && s[0] == 0xC2 && (s[1] == 0x85 || s[1] == 0xA0) {
        2
    } else if s.len() >= 3 && is_wide_ws(s[0], s[1], s[2]) {
        3
    } else {
        0
    }
}

/// The byte length of the white-space character that ends the sequence, zero
/// when none does.
pub open spec fn back_ws_len(s: Seq<u8>) -> nat {
    let n = s.len() as int;
    if s.len() >= 3 && is_wide_ws(s[n - 3], s[n - 2], s[n - 1]) {
        3
    } else if s.len() >= 2 && s[n - 2] == 0xC2 && (s[n - 1] == 0x85 || s[n - 1] == 0xA0) {
        2
    } else if s.len() >= 1 && is_ascii_ws(s[n - 1]) {
        1
    } else {
        0
    }
}

/// The sequence with every leading white-space character removed.
pub open spec fn trim_front(s: Seq<u8>) -> Seq<u8>
    decreases s.len(),
{
    if front_ws_len(s) > 0 {
        trim_front(s.subrange(front_ws_len(s) as int, s.len() as int))
    } else {
        s
    }
}

/// The sequence with every trailing white-space character removed.
pub open spec fn trim_back(s: Seq<u8>) -> Seq<u8>
    decreases s.len(),
{
    if back_ws_len(s) > 0 {
        trim_back(s.subrange(0, s.len() - back_ws_len(s)))
    } else {
        s
    }
}

/// The sequence with white space removed from both ends: the UTF-8 encodings
/// of the Unicode white-space code points, which is what `str::trim` removes
/// from the decoded string.
pub open spec fn trimmed(s: Seq<u8>) -> Seq<u8> {
    trim_back(trim_front(s))
}

/// An ASCII upper-case letter mapped to lower case; any other byte unchanged.
pub open spec fn lower(b: u8) -> u8 {
    if 65 <= b && b <= 90 {
        (b + 32) as u8
    } else {
        b
    }
}

/// Whether a line reads "quit" up to ASCII case.
pub open spec fn is_quit_line(s: Seq<u8>) -> bool {
    s.len() == 4 && lower(s[0]) == 113 && lower(s[1]) == 117 && lower(s[2]) == 105 && lower(s[3])
        == 116
}

fn lower_byte(b: u8) -> (r: u8)
    ensures
        r == lower(b),
{
    if 65 <= b && b <= 90 {
        b + 32
    } else {
        b
    }
}

/// Whether the line asks to end the conversation: it spells "quit" in any
/// mixture of ASCII case, and nothing else.
pub fn is_quit(line: &Vec<u8>) -> (r: bool)
    ensures
        r == is_quit_line(line@),
{
    if line.len() != 4 {
        return false;
    }
    let a = lower_byte(line[0]);
    let b = lower_byte(line[1]);
    let c = lower_byte(line[2]);
    let d = lower_byte(line[3]);
    a == 113 && b == 117 && c == 105 && d == 116
}

fn is_ws(b: u8) -> (r: bool)
    ensures
        r == is_ascii_ws(b),
{
    b == 32 || (9 <= b && b <= 13)
}

fn wide_ws(a: u8, b: u8, c: u8) -> (r: bool)
    ensures
        r == is_wide_ws(a, b, c),
{
    (a == 0xE1 && b == 0x9A && c == 0x80) || (a == 0xE2 && b == 0x80 && (0x80 <= c && c <= 0x8A))
        || (a == 0xE2 && b == 0x80 && (c == 0xA8 || c == 0xA9 || c == 0xAF)) || (a == 0xE2 && b
        == 0x81 && c == 0x9F) || (a == 0xE3 && b == 0x80 && c == 0x80)
}

fn front_token(line: &Vec<u8>, i: usize) -> (k: usize)
    requires
        i <= line@.len(),
    ensures
        k as nat == front_ws_len(line@.subrange(i as int, line@.len() as int)),
        i + k <= line@.len(),
{
    let n = line.len();
    let ghost tail = line@.subrange(i as int, n as int);
    proof {
        if tail.len() >= 1 {
            assert(tail[0] == line@[i as int]);
        }
        if tail.len() >= 2 {
            assert(tail[1] == line@[i as int + 1]);
        }
        if tail.len() >= 3 {
            assert(tail[2] == line@[i as int + 2]);
        }
    }
    if n - i >= 1 && is_ws(line[i]) {
        1
    } else if n - i >= 2 && line[i] == 0xC2 && (line[i + 1] == 0x85 || line[i + 1] == 0xA0) {
        2
    } else if n - i >= 3 && wide_ws(line[i], line[i + 1], line[i + 2]) {
        3
    } else {
        0
    }
}

fn back_token(line: &Vec<u8>, i: usize, j: usize) -> (k: usize)
    requires
        i <= j <= line@.len(),
    ensures
        k as nat == back_ws_len(line@.subrange(i as int, j as int)),
        k <= j - i,
{
    let ghost part = line@.subrange(i as int, j as int);
    proof {
        if part.len() >= 1 {
            assert(part[part.len() - 1] == line@[j as int - 1]);
        }
        if part.len() >= 2 {
            assert(part[part.len() - 2] == line@[j as int - 2]);
        }
        if part.len() >= 3 {
            assert(part[part.len() - 3] == line@[j as int - 3]);
        }
    }
    if j - i >= 3 && wide_ws(line[j - 3], line[j - 2], line[j - 1]) {
        3
    } else if j - i >= 2 && line[j - 2] == 0xC2 && (line[j - 1] == 0x85 || line[j - 1] == 0xA0) {
        2
    } else if j - i >= 1 && is_ws(line[j - 1]) {
        1
    } else {
        0
    }
}

proof fn lemma_trim_front_step(s: Seq<u8>, i: int, k: int)
    requires
        0 <= i <= s.len(),
        k == front_ws_len(s.subrange(i, s.len() as int)),
        k > 0,
    ensures
        i + k <= s.len(),
        trim_front(s.subrange(i, s.len() as int)) == trim_front(s.subrange(i + k, s.len() as int)),
{
    let tail = s.subrange(i, s.len() as int);
    assert(tail.subrange(k, tail.len() as int) =~= s.subrange(i + k, s.len() as int));
}

proof fn lemma_trim_back_step(s: Seq<u8>, i: int, j: int, k: int)
    requires
        0 <= i <= j <= s.len(),
        k == back_ws_len(s.subrange(i, j)),
        k > 0,
    ensures
        k <= j - i,
        trim_back(s.subrange(i, j)) == trim_back(s.subrange(i, j - k)),
{
    let part = s.subrange(i, j);
    assert(part.subrange(0, part.len() - k) =~= s.subrange(i, j - k));
}

/// The line with white space removed from both ends — the Unicode white-space
/// code points in their UTF-8 encodings, as `str::trim` removes them from a
/// line read from the terminal.
#[verifier::loop_isolation(false)]
pub fn trim_whitespace(line: &Vec<u8>) -> (r: Vec<u8>)
    ensures
        r@ == trimmed(line@),
{
    let n = line.len();
    proof {
        assert(line@ =~= line@.subrange(0, n as int));
    }
    let mut i: usize = 0;
    let mut k = front_token(line, 0);
    while k > 0
        invariant
            i + k <= n,
            trim_front(line@) == trim_front(line@.subrange(i as int, n as int)),
            k as nat == front_ws_len(line@.subrange(i as int, n as int)),
        decreases n - i,
    {
        proof {
            lemma_trim_front_step(line@, i as int, k as int);
        }
        i = i + k;
        k = front_token(line, i);
    }
    proof {
        assert(trim_front(line@.subrange(i as int, n as int)) == line@.subrange(i as int, n as int));
    }
    let mut j: usize = n;
    let mut m = back_token(line, i, n);
    while m > 0
        invariant
            i <= j <= n,
            m <= j - i,
            trim_back(line@.subrange(i as int, n as int)) == trim_back(
                line@.subrange(i as int, j as int),
            ),
            m as nat == back_ws_len(line@.subrange(i as int, j as int)),
        decreases j,
    {
        proof {
            lemma_trim_back_step(line@, i as int, j as int, m as int);
        }
        j = j - m;
        m = back_token(line, i, j);
    }
    proof {
        assert(trim_back(line@.subrange(i as int, j as int)) == line@.subrange(i as int, j as int));
    }
    let mut out: Vec<u8> = Vec::new();
    let mut p: usize = i;
    while p < j
        invariant
            i <= p <= j,
            out@ == line@.subrange(i as int, p as int),
        decreases j - p,
    {
        out.push(line[p]);
        proof {
            assert(out@ =~= line@.subrange(i as int, p as int + 1));
        }
        p = p + 1;
    }
    out
}

} // verus!
