//! The wire encoding of packets.
//!
//! A packet travels as one JSON text frame `{"packet":<tag>}` or
//! `{"packet":<tag>,"content":<value>}`. The encoder always produces the
//! canonical form spelled out by [`spec_encode`]: no whitespace, keys in the
//! order above, strings escaped with `\"`, `\\`, `\n`, `\r`, `\t`, `\b`,
//! `\f` and `\u00XX` for the remaining control characters, and the exit code
//! as a plain decimal numeral — the compact rendering the common JSON
//! serializers emit. The decoder accepts exactly the canonical form and
//! answers `None` on everything else, so decoding inverts encoding; a frame
//! in any other spelling is dropped by [`Transport::route`] as carrying no
//! packet, never fatal.

use vstd::prelude::*;
use vstd::string::*;

use crate::ws::message::Message;
use crate::ws::packet::{Packet, PacketModel};

verus! {

// ---------- the canonical text form, as a mathematical function ----------

/// The lowercase hexadecimal digit for a value below sixteen.
pub open spec fn hex_digit(d: int) -> char {
    if d == 0 {
        '0'
    } else if d == 1 {
        '1'
    } else if d == 2 {
        '2'
    } else if d == 3 {
        '3'
    } else if d == 4 {
        '4'
    } else if d == 5 {
        '5'
    } else if d == 6 {
        '6'
    } else if d == 7 {
        '7'
    } else if d == 8 {
        '8'
    } else if d == 9 {
        '9'
    } else if d == 10 {
        'a'
    } else if d == 11 {
        'b'
    } else if d == 12 {
        'c'
    } else if d == 13 {
        'd'
    } else if d == 14 {
        'e'
    } else {
        'f'
    }
}

/// How one character appears inside an encoded JSON string: quote, backslash
/// and control characters are escaped, everything else stands as itself.
pub open spec fn esc_char(c: char) -> Seq<char> {
    if c == '"' {
        seq!['\\', '"']
    } else if c == '\\' {
        seq!['\\', '\\']
    } else if c == '\n' {
        seq!['\\', 'n']
    } else if c == '\r' {
        seq!['\\', 'r']
    } else if c == '\t' {
        seq!['\\', 't']
    } else if c == '\u{8}' {
        seq!['\\', 'b']
    } else if c == '\u{c}' {
        seq!['\\', 'f']
    } else if (c as u32) < 32 {
        seq!['\\', 'u', '0', '0', hex_digit((c as u32) as int / 16), hex_digit(
            (c as u32) as int % 16,
        )]
    } else {
        seq![c]
    }
}

/// A whole string, escaped character by character.
pub open spec fn esc(w: Seq<char>) -> Seq<char>
    decreases w.len(),
{
    if w.len() == 0 {
        Seq::empty()
    } else {
        esc_char(w[0]) + esc(w.skip(1))
    }
}

/// The decimal digit for a value below ten.
pub open spec fn dec_digit(d: int) -> char {
    if d == 0 {
        '0'
    } else if d == 1 {
        '1'
    } else if d == 2 {
        '2'
    } else if d == 3 {
        '3'
    } else if d == 4 {
        '4'
    } else if d == 5 {
        '5'
    } else if d == 6 {
        '6'
    } else if d == 7 {
        '7'
    } else if d == 8 {
        '8'
    } else {
        '9'
    }
}

/// The decimal numeral of a non-negative number, most significant digit
/// first and without leading zeros.
pub open spec fn dec(n: int) -> Seq<char>
    decreases n,
{
    if n < 10 {
        seq![dec_digit(n)]
    } else {
        dec(n / 10) + seq![dec_digit(n % 10)]
    }
}

/// The canonical text encoding of a packet.
pub open spec fn spec_encode(p: PacketModel) -> Seq<char> {
    "{\"packet\":\""@ + match p {
        PacketModel::Ping => "ping\""@ + "}"@,
        PacketModel::Pong => "pong\""@ + "}"@,
        PacketModel::Authenticate(token) => "authenticate\""@ + ",\"content\":\""@ + esc(token)
            + "\""@ + "}"@,
        PacketModel::AuthenticationSuccessful => "authentication_successful\""@ + "}"@,
        PacketModel::AuthenticationFailed(reason) => "authentication_failed\""@
            + ",\"content\":\""@ + esc(reason) + "\""@ + "}"@,
        PacketModel::CommandOutput { stream, message } => "command_output\""@
            + ",\"content\":{\"stream\":\""@ + esc(stream) + "\""@ + ",\"message\":\""@ + esc(
            message,
        ) + "\""@ + "}}"@,
        PacketModel::CommandTerminated(code) => "command_terminated\""@ + ",\"content\":"@ + dec(
            code as int,
        ) + "}"@,
        PacketModel::CommandTerminate => "command_terminate\""@ + "}"@,
        PacketModel::CommandLaunched => "command_launched\""@ + "}"@,
    }
}

// ---------- facts about the text form ----------

/// Escaping distributes over concatenation.
pub proof fn lemma_esc_append(a: Seq<char>, b: Seq<char>)
    ensures
        esc(a + b) == esc(a) + esc(b),
    decreases a.len(),
{
    if a.len() == 0 {
        assert(a + b =~= b);
        assert(esc(a) + esc(b) =~= esc(b));
    } else {
        assert((a + b).skip(1) =~= a.skip(1) + b);
        lemma_esc_append(a.skip(1), b);
        assert(esc_char((a + b)[0]) + (esc(a.skip(1)) + esc(b)) =~= (esc_char(a[0]) + esc(
            a.skip(1),
        )) + esc(b));
    }
}

/// Escaping one more character appends its escape.
pub proof fn lemma_esc_take_step(w: Seq<char>, k: int)
    requires
        0 <= k < w.len(),
    ensures
        esc(w.take(k + 1)) == esc(w.take(k)) + esc_char(w[k]),
{
    assert(w.take(k + 1) =~= w.take(k) + seq![w[k]]);
    lemma_esc_append(w.take(k), seq![w[k]]);
    let single = seq![w[k]];
    assert(single.skip(1) =~= Seq::<char>::empty());
    assert(esc(single) == esc_char(single[0]) + esc(single.skip(1)));
    assert(esc(single.skip(1)) == Seq::<char>::empty());
    assert(esc_char(w[k]) + Seq::<char>::empty() =~= esc_char(w[k]));
}

// ---------- the encoder ----------

/// Appends the characters of a string slice to a character buffer.
fn push_str_chars(out: &mut Vec<char>, piece: &str)
    ensures
        final(out)@ == old(out)@ + piece@,
{
    let n = piece.unicode_len();
    let mut k: usize = 0;
    while k < n
        invariant
            n == piece@.len(),
            k <= n,
            out@ == old(out)@ + piece@.take(k as int),
        decreases n - k,
    {
        out.push(piece.get_char(k));
        k = k + 1;
        assert(piece@.take(k as int) =~= piece@.take(k - 1) + seq![piece@[k - 1]]);
    }
    assert(piece@.take(n as int) =~= piece@);
}

/// The lowercase hexadecimal digit of a value below sixteen.
fn hex_char(d: u32) -> (c: char)
    requires
        d < 16,
    ensures
        c == hex_digit(d as int),
{
    if d == 0 {
        '0'
    } else if d == 1 {
        '1'
    } else if d == 2 {
        '2'
    } else if d == 3 {
        '3'
    } else if d == 4 {
        '4'
    } else if d == 5 {
        '5'
    } else if d == 6 {
        '6'
    } else if d == 7 {
        '7'
    } else if d == 8 {
        '8'
    } else if d == 9 {
        '9'
    } else if d == 10 {
        'a'
    } else if d == 11 {
        'b'
    } else if d == 12 {
        'c'
    } else if d == 13 {
        'd'
    } else if d == 14 {
        'e'
    } else {
        'f'
    }
}

/// The decimal digit of a value below ten.
fn dec_digit_char(d: u32) -> (c: char)
    requires
        d < 10,
    ensures
        c == dec_digit(d as int),
{
    if d == 0 {
        '0'
    } else if d == 1 {
        '1'
    } else if d == 2 {
        '2'
    } else if d == 3 {
        '3'
    } else if d == 4 {
        '4'
    } else if d == 5 {
        '5'
    } else if d == 6 {
        '6'
    } else if d == 7 {
        '7'
    } else if d == 8 {
        '8'
    } else {
        '9'
    }
}

/// Appends the escaped form of a string slice to a character buffer.
fn push_escaped(out: &mut Vec<char>, piece: &str)
    ensures
        final(out)@ == old(out)@ + esc(piece@),
{
    let n = piece.unicode_len();
    let mut k: usize = 0;
    while k < n
        invariant
            n == piece@.len(),
            k <= n,
            out@ == old(out)@ + esc(piece@.take(k as int)),
        decreases n - k,
    {
        let c = piece.get_char(k);
        if c == '"' {
            out.push('\\');
            out.push('"');
        } else if c == '\\' {
            out.push('\\');
            out.push('\\');
        } else if c == '\n' {
            out.push('\\');
            out.push('n');
        } else if c == '\r' {
            out.push('\\');
            out.push('r');
        } else if c == '\t' {
            out.push('\\');
            out.push('t');
        } else if c == '\u{8}' {
            out.push('\\');
            out.push('b');
        } else if c == '\u{c}' {
            out.push('\\');
            out.push('f');
        } else if (c as u32) < 32 {
            out.push('\\');
            out.push('u');
            out.push('0');
            out.push('0');
            out.push(hex_char((c as u32) / 16));
            out.push(hex_char((c as u32) % 16));
        } else {
            out.push(c);
        }
        proof {
            lemma_esc_take_step(piece@, k as int);
            assert(out@ =~= old(out)@ + esc(piece@.take(k + 1)));
        }
        k = k + 1;
    }
    assert(piece@.take(n as int) =~= piece@);
}

/// Appends the decimal numeral of a number to a character buffer.
fn push_dec(out: &mut Vec<char>, n: u32)
    ensures
        final(out)@ == old(out)@ + dec(n as int),
    decreases n,
{
    if n < 10 {
        out.push(dec_digit_char(n));
        assert(out@ =~= old(out)@ + dec(n as int));
    } else {
        push_dec(out, n / 10);
        out.push(dec_digit_char(n % 10));
        assert(out@ =~= old(out)@ + dec(n as int));
    }
}

/// Relies on `String::from_iter`: builds the string holding exactly the
/// given characters in order.
#[verifier::external_body]
fn chars_to_string(chars: Vec<char>) -> (text: String)
    ensures
        text@ == chars@,
{
    String::from_iter(chars)
}

/// The decimal numeral of a number, as a string.
pub fn u32_string(n: u32) -> (text: String)
    ensures
        text@ == dec(n as int),
{
    let mut out: Vec<char> = Vec::new();
    push_dec(&mut out, n);
    chars_to_string(out)
}

/// Renders a packet into its canonical character sequence.
fn render(packet: &Packet) -> (chars: Vec<char>)
    ensures
        chars@ == spec_encode(packet@),
{
    let mut out: Vec<char> = Vec::new();
    push_str_chars(&mut out, "{\"packet\":\"");
    match packet {
        Packet::Ping => {
            push_str_chars(&mut out, "ping\"");
            push_str_chars(&mut out, "}");
        },
        Packet::Pong => {
            push_str_chars(&mut out, "pong\"");
            push_str_chars(&mut out, "}");
        },
        Packet::Authenticate(token) => {
            push_str_chars(&mut out, "authenticate\"");
            push_str_chars(&mut out, ",\"content\":\"");
            push_escaped(&mut out, token.as_str());
            push_str_chars(&mut out, "\"");
            push_str_chars(&mut out, "}");
        },
        Packet::AuthenticationSuccessful => {
            push_str_chars(&mut out, "authentication_successful\"");
            push_str_chars(&mut out, "}");
        },
        Packet::AuthenticationFailed(reason) => {
            push_str_chars(&mut out, "authentication_failed\"");
            push_str_chars(&mut out, ",\"content\":\"");
            push_escaped(&mut out, reason.as_str());
            push_str_chars(&mut out, "\"");
            push_str_chars(&mut out, "}");
        },
        Packet::CommandOutput { stream, message } => {
            push_str_chars(&mut out, "command_output\"");
            push_str_chars(&mut out, ",\"content\":{\"stream\":\"");
            push_escaped(&mut out, stream.as_str());
            push_str_chars(&mut out, "\"");
            push_str_chars(&mut out, ",\"message\":\"");
            push_escaped(&mut out, message.as_str());
            push_str_chars(&mut out, "\"");
            push_str_chars(&mut out, "}}");
        },
        Packet::CommandTerminated(code) => {
            push_str_chars(&mut out, "command_terminated\"");
            push_str_chars(&mut out, ",\"content\":");
            push_dec(&mut out, *code);
            push_str_chars(&mut out, "}");
        },
        Packet::CommandTerminate => {
            push_str_chars(&mut out, "command_terminate\"");
            push_str_chars(&mut out, "}");
        },
        Packet::CommandLaunched => {
            push_str_chars(&mut out, "command_launched\"");
            push_str_chars(&mut out, "}");
        },
    }
    assert(out@ =~= spec_encode(packet@));
    out
}


// ---------- the decoder: specification ----------

/// Whether a literal occurs at a position of the text.
pub open spec fn match_at(s: Seq<char>, i: int, lit: Seq<char>) -> bool {
    0 <= i && i + lit.len() <= s.len() && s.subrange(i, i + lit.len()) == lit
}

/// The character a short escape stands for.
pub open spec fn unescape(e: char) -> Option<char> {
    if e == '"' {
        Some('"')
    } else if e == '\\' {
        Some('\\')
    } else if e == 'n' {
        Some('\n')
    } else if e == 'r' {
        Some('\r')
    } else if e == 't' {
        Some('\t')
    } else if e == 'b' {
        Some('\u{8}')
    } else if e == 'f' {
        Some('\u{c}')
    } else {
        None
    }
}

/// Whether a character is a lowercase hexadecimal digit.
pub open spec fn is_hex(c: char) -> bool {
    (48 <= c as u32 && c as u32 <= 57) || (97 <= c as u32 && c as u32 <= 102)
}

/// The value of a lowercase hexadecimal digit.
pub open spec fn hex_val(c: char) -> int {
    if 48 <= c as u32 && c as u32 <= 57 {
        c as u32 - 48
    } else {
        c as u32 - 87
    }
}

/// The character a `\u00XX` escape stands for.
pub open spec fn unhex2(h: char, l: char) -> char {
    ((hex_val(h) * 16 + hex_val(l)) as u32) as char
}

/// Prepends a character to a successfully parsed string.
pub open spec fn sp_cons(c: char, rest: Option<(Seq<char>, int)>) -> Option<(Seq<char>, int)> {
    match rest {
        Some((w, j)) => Some((seq![c] + w, j)),
        None => None,
    }
}

/// Parses a JSON string body from position `i` up to and including its
/// closing quote; yields the unescaped contents and the position after the
/// quote.
pub open spec fn sp_str(s: Seq<char>, i: int) -> Option<(Seq<char>, int)>
    decreases s.len() - i,
{
    if i < 0 || i >= s.len() {
        None
    } else if s[i] == '"' {
        Some((Seq::empty(), i + 1))
    } else if s[i] == '\\' {
        if i + 1 < s.len() {
            let e = s[i + 1];
            if e == 'u' {
                if i + 6 <= s.len() && s[i + 2] == '0' && s[i + 3] == '0' && is_hex(s[i + 4])
                    && is_hex(s[i + 5]) {
                    sp_cons(unhex2(s[i + 4], s[i + 5]), sp_str(s, i + 6))
                } else {
                    None
                }
            } else {
                match unescape(e) {
                    Some(c) => sp_cons(c, sp_str(s, i + 2)),
                    None => None,
                }
            }
        } else {
            None
        }
    } else {
        sp_cons(s[i], sp_str(s, i + 1))
    }
}

/// Whether a character is a decimal digit.
pub open spec fn is_digit(c: char) -> bool {
    48 <= c as u32 && c as u32 <= 57
}

/// The value of a decimal digit.
pub open spec fn digit_val(c: char) -> int {
    c as u32 - 48
}

/// The first position at or after `i` holding no decimal digit.
pub open spec fn digits_end(s: Seq<char>, i: int) -> int
    decreases s.len() - i,
{
    if i < 0 || i >= s.len() || !is_digit(s[i]) {
        i
    } else {
        digits_end(s, i + 1)
    }
}

/// The value of a sequence of decimal digits, most significant first.
pub open spec fn val(digits: Seq<char>) -> int
    decreases digits.len(),
{
    if digits.len() == 0 {
        0
    } else {
        val(digits.drop_last()) * 10 + digit_val(digits.last())
    }
}

/// Parses a decimal numeral at position `i`: at least one digit, all the
/// consecutive digits, and a value no greater than the largest exit code.
pub open spec fn sp_num(s: Seq<char>, i: int) -> Option<(u32, int)> {
    let j = digits_end(s, i);
    if j == i {
        None
    } else if val(s.subrange(i, j)) > u32::MAX {
        None
    } else {
        Some((val(s.subrange(i, j)) as u32, j))
    }
}

/// After a tag without content: the closing brace must end the text.
pub open spec fn sp_after_tag_empty(s: Seq<char>, i: int, p: PacketModel) -> Option<PacketModel> {
    if i + 1 == s.len() && s[i] == '}' {
        Some(p)
    } else {
        None
    }
}

/// A string-valued `content` member followed by the closing brace.
pub open spec fn sp_string_content(s: Seq<char>, i: int) -> Option<Seq<char>> {
    if match_at(s, i, ",\"content\":\""@) {
        match sp_str(s, i + 12) {
            Some((w, j)) => if j + 1 == s.len() && s[j] == '}' {
                Some(w)
            } else {
                None
            },
            None => None,
        }
    } else {
        None
    }
}

/// A numeric `content` member followed by the closing brace.
pub open spec fn sp_num_content(s: Seq<char>, i: int) -> Option<u32> {
    if match_at(s, i, ",\"content\":"@) {
        match sp_num(s, i + 11) {
            Some((n, j)) => if j + 1 == s.len() && s[j] == '}' {
                Some(n)
            } else {
                None
            },
            None => None,
        }
    } else {
        None
    }
}

/// An object-valued `content` member holding the stream name and the
/// message, followed by the two closing braces.
pub open spec fn sp_output_content(s: Seq<char>, i: int) -> Option<(Seq<char>, Seq<char>)> {
    if match_at(s, i, ",\"content\":{\"stream\":\""@) {
        match sp_str(s, i + 22) {
            Some((stream, j)) => if match_at(s, j, ",\"message\":\""@) {
                match sp_str(s, j + 12) {
                    Some((message, k)) => if k + 2 == s.len() && s[k] == '}' && s[k + 1] == '}' {
                        Some((stream, message))
                    } else {
                        None
                    },
                    None => None,
                }
            } else {
                None
            },
            None => None,
        }
    } else {
        None
    }
}

/// Parses a whole text frame into a packet model: the envelope prefix, one
/// of the nine tags, and that tag's content shape.
pub open spec fn sp_packet(s: Seq<char>) -> Option<PacketModel> {
    if !match_at(s, 0, "{\"packet\":\""@) {
        None
    } else if match_at(s, 11, "ping\""@) {
        sp_after_tag_empty(s, 16, PacketModel::Ping)
    } else if match_at(s, 11, "pong\""@) {
        sp_after_tag_empty(s, 16, PacketModel::Pong)
    } else if match_at(s, 11, "authenticate\""@) {
        match sp_string_content(s, 24) {
            Some(token) => Some(PacketModel::Authenticate(token)),
            None => None,
        }
    } else if match_at(s, 11, "authentication_successful\""@) {
        sp_after_tag_empty(s, 37, PacketModel::AuthenticationSuccessful)
    } else if match_at(s, 11, "authentication_failed\""@) {
        match sp_string_content(s, 33) {
            Some(reason) => Some(PacketModel::AuthenticationFailed(reason)),
            None => None,
        }
    } else if match_at(s, 11, "command_output\""@) {
        match sp_output_content(s, 26) {
            Some((stream, message)) => Some(PacketModel::CommandOutput { stream, message }),
            None => None,
        }
    } else if match_at(s, 11, "command_terminated\""@) {
        match sp_num_content(s, 30) {
            Some(code) => Some(PacketModel::CommandTerminated(code)),
            None => None,
        }
    } else if match_at(s, 11, "command_terminate\""@) {
        sp_after_tag_empty(s, 29, PacketModel::CommandTerminate)
    } else if match_at(s, 11, "command_launched\""@) {
        sp_after_tag_empty(s, 28, PacketModel::CommandLaunched)
    } else {
        None
    }
}

// ---------- the decoder: executable code ----------

/// The characters of a string slice, in order.
fn str_to_chars(piece: &str) -> (chars: Vec<char>)
    ensures
        chars@ == piece@,
{
    let n = piece.unicode_len();
    let mut out: Vec<char> = Vec::new();
    let mut k: usize = 0;
    while k < n
        invariant
            n == piece@.len(),
            k <= n,
            out@ == piece@.take(k as int),
        decreases n - k,
    {
        out.push(piece.get_char(k));
        k = k + 1;
        assert(piece@.take(k as int) =~= piece@.take(k - 1) + seq![piece@[k - 1]]);
    }
    assert(piece@.take(n as int) =~= piece@);
    out
}

/// Whether two character buffers hold the same characters.
fn chars_eq(a: &Vec<char>, b: &Vec<char>) -> (r: bool)
    ensures
        r == (a@ == b@),
{
    if a.len() != b.len() {
        assert(a@ != b@);
        return false;
    }
    let n = a.len();
    let mut k: usize = 0;
    while k < n
        invariant
            n == a@.len(),
            n == b@.len(),
            k <= n,
            forall|j: int| 0 <= j < k ==> a@[j] == b@[j],
        decreases n - k,
    {
        if a[k] != b[k] {
            return false;
        }
        k = k + 1;
    }
    assert(a@ =~= b@);
    true
}

/// Whether a literal occurs at a position of the buffer.
fn m_at(s: &Vec<char>, i: usize, lit: &str) -> (r: bool)
    ensures
        r == match_at(s@, i as int, lit@),
{
    let n = lit.unicode_len();
    if i > s.len() || n > s.len() - i {
        assert(!match_at(s@, i as int, lit@));
        return false;
    }
    let mut k: usize = 0;
    while k < n
        invariant
            n == lit@.len(),
            i + n <= s@.len(),
            i + n <= usize::MAX,
            k <= n,
            forall|j: int| 0 <= j < k ==> s@[i + j] == lit@[j],
        decreases n - k,
    {
        if s[i + k] != lit.get_char(k) {
            proof {
                let sub = s@.subrange(i as int, i + n);
                assert(sub[k as int] == s@[i + k]);
            }
            return false;
        }
        k = k + 1;
    }
    assert(s@.subrange(i as int, i + n) =~= lit@);
    true
}

/// The short escape a character stands for, if any.
fn un_char(e: char) -> (r: Option<char>)
    ensures
        r == unescape(e),
{
    if e == '"' {
        Some('"')
    } else if e == '\\' {
        Some('\\')
    } else if e == 'n' {
        Some('\n')
    } else if e == 'r' {
        Some('\r')
    } else if e == 't' {
        Some('\t')
    } else if e == 'b' {
        Some('\u{8}')
    } else if e == 'f' {
        Some('\u{c}')
    } else {
        None
    }
}

/// Parses a JSON string body, mirroring `sp_str`.
fn p_str(s: &Vec<char>, start: usize) -> (r: Option<(Vec<char>, usize)>)
    ensures
        r matches Some((w, j)) ==> sp_str(s@, start as int) == Some((w@, j as int)) && j <= s@.len(),
        r is None ==> sp_str(s@, start as int) is None,
{
    let mut out: Vec<char> = Vec::new();
    let mut i: usize = start;
    loop
        invariant
            i <= s@.len() || i == start,
            (sp_str(s@, i as int) matches Some((w, j)) ==> sp_str(s@, start as int) == Some((
                out@ + w,
                j,
            ))),
            (sp_str(s@, i as int) is None ==> sp_str(s@, start as int) is None),
        decreases s@.len() - i,
    {
        if i >= s.len() {
            return None;
        }
        let c = s[i];
        if c == '"' {
            proof {
                assert(out@ + Seq::<char>::empty() =~= out@);
            }
            return Some((out, i + 1));
        } else if c == '\\' {
            if i + 1 >= s.len() {
                return None;
            }
            let e = s[i + 1];
            if e == 'u' {
                if s.len() - i < 6 {
                    return None;
                }
                if s[i + 2] != '0' || s[i + 3] != '0' {
                    return None;
                }
                let h = s[i + 4];
                let l = s[i + 5];
                let hv: u32 = if 48 <= (h as u32) && (h as u32) <= 57 {
                    (h as u32) - 48
                } else if 97 <= (h as u32) && (h as u32) <= 102 {
                    (h as u32) - 87
                } else {
                    return None;
                };
                let lv: u32 = if 48 <= (l as u32) && (l as u32) <= 57 {
                    (l as u32) - 48
                } else if 97 <= (l as u32) && (l as u32) <= 102 {
                    (l as u32) - 87
                } else {
                    return None;
                };
                let v: u32 = hv * 16 + lv;
                assert(v < 256);
                let decoded: char = (v as u8) as char;
                proof {
                    assert(is_hex(h) && is_hex(l));
                    assert(hv as int == hex_val(h) && lv as int == hex_val(l));
                    assert((v as u8) as u32 == v);
                    vstd::utf8::char_u32_cast(decoded, v);
                    assert(decoded == unhex2(h, l));
                    let prev = out@;
                    match sp_str(s@, i + 6) {
                        Some((w, j)) => {
                            assert(prev + (seq![decoded] + w) =~= (prev + seq![decoded]) + w);
                        },
                        None => {},
                    }
                }
                out.push(decoded);
                i = i + 6;
            } else {
                let d = match un_char(e) {
                    Some(d) => d,
                    None => {
                        return None;
                    },
                };
                proof {
                    let prev = out@;
                    match sp_str(s@, i + 2) {
                        Some((w, j)) => {
                            assert(prev + (seq![d] + w) =~= (prev + seq![d]) + w);
                        },
                        None => {},
                    }
                }
                out.push(d);
                i = i + 2;
            }
        } else {
            proof {
                let prev = out@;
                match sp_str(s@, i + 1) {
                    Some((w, j)) => {
                        assert(prev + (seq![c] + w) =~= (prev + seq![c]) + w);
                    },
                    None => {},
                }
            }
            out.push(c);
            i = i + 1;
        }
    }
}

/// The end of the digit run beginning at `start`, mirroring `digits_end`.
fn p_digits_end(s: &Vec<char>, start: usize) -> (j: usize)
    requires
        start <= s@.len(),
    ensures
        j == digits_end(s@, start as int),
        start <= j <= s@.len(),
{
    let mut j: usize = start;
    while j < s.len() && 48 <= (s[j] as u32) && (s[j] as u32) <= 57
        invariant
            start <= j <= s@.len(),
            digits_end(s@, start as int) == digits_end(s@, j as int),
        decreases s@.len() - j,
    {
        j = j + 1;
    }
    j
}

/// Every position of a digit run holds a digit.
proof fn lemma_digits_end_region(s: Seq<char>, i: int)
    requires
        0 <= i <= s.len(),
    ensures
        i <= digits_end(s, i) <= s.len(),
        forall|k: int| i <= k < digits_end(s, i) ==> is_digit(s[k]),
    decreases s.len() - i,
{
    if i < s.len() && is_digit(s[i]) {
        lemma_digits_end_region(s, i + 1);
    }
}

/// The value of a digit run is non-negative.
proof fn lemma_val_nonneg(digits: Seq<char>)
    requires
        forall|k: int| 0 <= k < digits.len() ==> is_digit(digits[k]),
    ensures
        val(digits) >= 0,
    decreases digits.len(),
{
    if digits.len() > 0 {
        lemma_val_nonneg(digits.drop_last());
        assert(is_digit(digits.last()));
    }
}

/// Computes the value of a digit run, answering nothing when it does not
/// fit an exit code.
fn p_val(s: &Vec<char>, start: usize, end: usize) -> (r: Option<u32>)
    requires
        start <= end <= s@.len(),
        forall|k: int| start <= k < end ==> is_digit(s@[k]),
    ensures
        r matches Some(v) ==> val(s@.subrange(start as int, end as int)) == v as int,
        r is None ==> val(s@.subrange(start as int, end as int)) > u32::MAX,
    decreases end - start,
{
    let ghost digits = s@.subrange(start as int, end as int);
    if end == start {
        assert(digits =~= Seq::<char>::empty());
        return Some(0);
    }
    proof {
        assert(digits.drop_last() =~= s@.subrange(start as int, end - 1));
        assert(digits.last() == s@[end - 1]);
        assert(forall|k: int| 0 <= k < digits.len() ==> is_digit(digits[k]));
    }
    let prefix = match p_val(s, start, end - 1) {
        Some(v) => v,
        None => {
            proof {
                lemma_val_nonneg(digits.drop_last());
                assert(is_digit(digits.last()));
                assert(val(digits) == val(digits.drop_last()) * 10 + digit_val(digits.last()));
            }
            return None;
        },
    };
    let d: u32 = (s[end - 1] as u32) - 48;
    let wide: u64 = (prefix as u64) * 10 + (d as u64);
    if wide > (u32::MAX as u64) {
        return None;
    }
    Some(wide as u32)
}

/// Parses a decimal numeral, mirroring `sp_num`.
fn p_num(s: &Vec<char>, start: usize) -> (r: Option<(u32, usize)>)
    requires
        start <= s@.len(),
    ensures
        r matches Some((n, j)) ==> sp_num(s@, start as int) == Some((n, j as int)) && j <= s@.len(),
        r is None ==> sp_num(s@, start as int) is None,
{
    let j = p_digits_end(s, start);
    if j == start {
        return None;
    }
    proof {
        lemma_digits_end_region(s@, start as int);
    }
    match p_val(s, start, j) {
        Some(v) => Some((v, j)),
        None => None,
    }
}


/// Checks that the closing brace ends the frame right at `i`, mirroring
/// `sp_after_tag_empty`.
fn p_empty(s: &Vec<char>, i: usize, packet: Packet) -> (r: Option<Packet>)
    ensures
        r matches Some(p) ==> sp_after_tag_empty(s@, i as int, packet@) == Some(p@),
        r is None ==> sp_after_tag_empty(s@, i as int, packet@) is None,
{
    if i < s.len() && i + 1 == s.len() && s[i] == '}' {
        Some(packet)
    } else {
        None
    }
}

/// Parses a string-valued `content` member, mirroring `sp_string_content`.
fn p_string_content(s: &Vec<char>, i: usize) -> (r: Option<Vec<char>>)
    ensures
        r matches Some(w) ==> sp_string_content(s@, i as int) == Some(w@),
        r is None ==> sp_string_content(s@, i as int) is None,
{
    if !m_at(s, i, ",\"content\":\"") {
        return None;
    }
    proof {
        reveal_strlit(",\"content\":\"");
    }
    let n = s.len();
    assert(i + 12 <= n);
    match p_str(s, i + 12) {
        Some((w, j)) => {
            if j < s.len() && j + 1 == s.len() && s[j] == '}' {
                Some(w)
            } else {
                None
            }
        },
        None => None,
    }
}

/// Parses a numeric `content` member, mirroring `sp_num_content`.
fn p_num_content(s: &Vec<char>, i: usize) -> (r: Option<u32>)
    ensures
        r matches Some(v) ==> sp_num_content(s@, i as int) == Some(v),
        r is None ==> sp_num_content(s@, i as int) is None,
{
    if !m_at(s, i, ",\"content\":") {
        return None;
    }
    proof {
        reveal_strlit(",\"content\":");
    }
    let n = s.len();
    assert(i + 11 <= n);
    match p_num(s, i + 11) {
        Some((v, j)) => {
            if j < s.len() && j + 1 == s.len() && s[j] == '}' {
                Some(v)
            } else {
                None
            }
        },
        None => None,
    }
}

/// Parses the object-valued `content` member of a command output frame,
/// mirroring `sp_output_content`.
fn p_output_content(s: &Vec<char>, i: usize) -> (r: Option<(Vec<char>, Vec<char>)>)
    ensures
        r matches Some(sm) ==> sp_output_content(s@, i as int) == Some((sm.0@, sm.1@)),
        r is None ==> sp_output_content(s@, i as int) is None,
{
    if !m_at(s, i, ",\"content\":{\"stream\":\"") {
        return None;
    }
    proof {
        reveal_strlit(",\"content\":{\"stream\":\"");
    }
    let n = s.len();
    assert(i + 22 <= n);
    let (stream, j) = match p_str(s, i + 22) {
        Some(p) => p,
        None => {
            return None;
        },
    };
    if !m_at(s, j, ",\"message\":\"") {
        return None;
    }
    proof {
        reveal_strlit(",\"message\":\"");
    }
    assert(j + 12 <= n);
    let (message, k) = match p_str(s, j + 12) {
        Some(p) => p,
        None => {
            return None;
        },
    };
    if k < s.len() && k + 1 < s.len() && k + 2 == s.len() && s[k] == '}' && s[k + 1] == '}' {
        Some((stream, message))
    } else {
        None
    }
}

/// Parses a whole text frame, mirroring `sp_packet`.
fn parse_packet(s: &Vec<char>) -> (r: Option<Packet>)
    ensures
        r matches Some(p) ==> sp_packet(s@) == Some(p@),
        r is None ==> sp_packet(s@) is None,
{
    if !m_at(s, 0, "{\"packet\":\"") {
        return None;
    }
    if m_at(s, 11, "ping\"") {
        return p_empty(s, 16, Packet::Ping);
    }
    if m_at(s, 11, "pong\"") {
        return p_empty(s, 16, Packet::Pong);
    }
    if m_at(s, 11, "authenticate\"") {
        return match p_string_content(s, 24) {
            Some(w) => Some(Packet::Authenticate(chars_to_string(w))),
            None => None,
        };
    }
    if m_at(s, 11, "authentication_successful\"") {
        return p_empty(s, 37, Packet::AuthenticationSuccessful);
    }
    if m_at(s, 11, "authentication_failed\"") {
        return match p_string_content(s, 33) {
            Some(w) => Some(Packet::AuthenticationFailed(chars_to_string(w))),
            None => None,
        };
    }
    if m_at(s, 11, "command_output\"") {
        return match p_output_content(s, 26) {
            Some((stream, message)) => Some(
                Packet::CommandOutput {
                    stream: chars_to_string(stream),
                    message: chars_to_string(message),
                },
            ),
            None => None,
        };
    }
    if m_at(s, 11, "command_terminated\"") {
        return match p_num_content(s, 30) {
            Some(v) => Some(Packet::CommandTerminated(v)),
            None => None,
        };
    }
    if m_at(s, 11, "command_terminate\"") {
        return p_empty(s, 29, Packet::CommandTerminate);
    }
    if m_at(s, 11, "command_launched\"") {
        return p_empty(s, 28, Packet::CommandLaunched);
    }
    None
}


// ---------- completeness: the parser recovers every canonical frame ----------

/// Positions of a suffix, written back in terms of the whole sequence.
proof fn lemma_skip_index(s: Seq<char>, i: int)
    requires
        0 <= i <= s.len(),
    ensures
        forall|k: int| 0 <= k < s.len() - i ==> #[trigger] s.skip(i)[k] == s[i + k],
{
}

/// One position of a matched literal.
proof fn lemma_match_at_index(s: Seq<char>, i: int, lit: Seq<char>, k: int)
    requires
        match_at(s, i, lit),
        0 <= k < lit.len(),
    ensures
        s[i + k] == lit[k],
{
    assert(s.subrange(i, i + lit.len())[k] == lit[k]);
}

/// A literal standing between two pieces of a concatenation matches there.
proof fn lemma_match_here(s: Seq<char>, x: Seq<char>, lit: Seq<char>, y: Seq<char>)
    requires
        s == x + lit + y,
    ensures
        match_at(s, x.len() as int, lit),
{
    assert(s.subrange(x.len() as int, x.len() + lit.len() as int) =~= lit);
}

/// A tag pattern differing from the text at one position does not match.
proof fn lemma_no_match(s: Seq<char>, pat: Seq<char>, k: int)
    requires
        0 <= k < pat.len(),
        11 + k < s.len(),
        s[11 + k] != pat[k],
    ensures
        !match_at(s, 11, pat),
{
    if match_at(s, 11, pat) {
        lemma_match_at_index(s, 11, pat, k);
    }
}

/// The string parser recovers a string from its escaped form followed by
/// the closing quote, whatever comes after.
proof fn lemma_sp_str_esc(s: Seq<char>, i: int, w: Seq<char>, rest: Seq<char>)
    requires
        0 <= i <= s.len(),
        s.skip(i) == esc(w) + seq!['"'] + rest,
    ensures
        sp_str(s, i) == Some((w, i + esc(w).len() + 1)),
    decreases w.len(),
{
    let tail = s.skip(i);
    let q = seq!['"'];
    assert(tail.len() == esc(w).len() + 1 + rest.len());
    assert(s.len() == i + tail.len());
    lemma_skip_index(s, i);
    if w.len() == 0 {
        assert(esc(w) == Seq::<char>::empty());
        assert(tail[0] == '"');
        assert(s[i] == '"');
    } else {
        let c = w[0];
        let w1 = w.skip(1);
        assert(esc(w) == esc_char(c) + esc(w1));
        let u = esc_char(c);
        assert(forall|k: int| 0 <= k < u.len() ==> tail[k] == #[trigger] u[k]);
        let next: int = i + u.len();
        assert(tail =~= u + (esc(w1) + q + rest));
        lemma_skip_index(s, next);
        assert(s.skip(next) =~= tail.skip(u.len() as int));
        assert(tail.skip(u.len() as int) =~= esc(w1) + q + rest);
        assert(seq![c] + w1 =~= w);
        if c == '"' || c == '\\' || c == '\n' || c == '\r' || c == '\t' || c == '\u{8}' || c
            == '\u{c}' {
            let e = u[1];
            assert(u.len() == 2);
            assert(s[i] == '\\' && s[i + 1] == e);
            assert(e != 'u');
            assert(unescape(e) == Some(c));
            lemma_sp_str_esc(s, i + 2, w1, rest);
        } else if (c as u32) < 32 {
            let cv = (c as u32) as int;
            let hi = cv / 16;
            let lo = cv % 16;
            assert(u =~= seq!['\\', 'u', '0', '0', hex_digit(hi), hex_digit(lo)]);
            assert(0 <= hi < 16);
            assert(0 <= lo < 16);
            assert(is_hex(hex_digit(hi)) && hex_val(hex_digit(hi)) == hi);
            assert(is_hex(hex_digit(lo)) && hex_val(hex_digit(lo)) == lo);
            assert(s[i] == '\\' && s[i + 1] == 'u' && s[i + 2] == '0' && s[i + 3] == '0');
            assert(s[i + 4] == hex_digit(hi) && s[i + 5] == hex_digit(lo));
            assert(i + 6 <= s.len());
            assert(unhex2(s[i + 4], s[i + 5]) == c) by {
                assert(hi * 16 + lo == cv);
                vstd::utf8::char_u32_cast(c, c as u32);
                assert(((cv as u32) as char) == c);
            };
            lemma_sp_str_esc(s, i + 6, w1, rest);
        } else {
            assert(u =~= seq![c]);
            assert(s[i] == c);
            assert(c != '"' && c != '\\');
            lemma_sp_str_esc(s, i + 1, w1, rest);
        }
    }
}

/// Every character of a decimal numeral is a digit.
proof fn lemma_digits_of_dec(n: int)
    requires
        n >= 0,
    ensures
        dec(n).len() >= 1,
        forall|k: int| 0 <= k < dec(n).len() ==> is_digit(#[trigger] dec(n)[k]),
    decreases n,
{
    if n < 10 {
        assert(is_digit(dec_digit(n)));
        assert(dec(n)[0] == dec_digit(n));
    } else {
        lemma_digits_of_dec(n / 10);
        assert(is_digit(dec_digit(n % 10)));
        assert(forall|k: int| 0 <= k < dec(n).len() ==> is_digit(#[trigger] dec(n)[k])) by {
            assert(forall|k: int| 0 <= k < dec(n / 10).len() ==> dec(n)[k] == #[trigger] dec(
                n / 10,
            )[k]);
            assert(dec(n)[dec(n).len() - 1] == dec_digit(n % 10));
        };
    }
}

/// The value of a decimal numeral is the number it was made from.
proof fn lemma_val_dec(n: int)
    requires
        n >= 0,
    ensures
        val(dec(n)) == n,
    decreases n,
{
    if n < 10 {
        let ds = seq![dec_digit(n)];
        assert(ds.drop_last() =~= Seq::<char>::empty());
        assert(val(Seq::<char>::empty()) == 0);
        assert(val(ds.drop_last()) == 0);
        assert(digit_val(dec_digit(n)) == n);
        assert(val(ds) == n);
    } else {
        lemma_val_dec(n / 10);
        let ds = dec(n);
        assert(ds.drop_last() =~= dec(n / 10));
        assert(ds.last() == dec_digit(n % 10));
        assert(digit_val(dec_digit(n % 10)) == n % 10);
        assert((n / 10) * 10 + n % 10 == n);
    }
}

/// The digit run beginning where a digit block was placed ends right after
/// the block, provided what follows is no digit.
proof fn lemma_digits_end_at(s: Seq<char>, i: int, block: Seq<char>, rest: Seq<char>)
    requires
        0 <= i <= s.len(),
        s.skip(i) == block + rest,
        forall|k: int| 0 <= k < block.len() ==> is_digit(#[trigger] block[k]),
        rest.len() > 0,
        !is_digit(rest[0]),
    ensures
        digits_end(s, i) == i + block.len(),
    decreases block.len(),
{
    let tail = s.skip(i);
    lemma_skip_index(s, i);
    assert(s.skip(i).len() == s.len() - i);
    if block.len() == 0 {
        assert(tail[0] == rest[0]);
        assert(s.skip(i)[0] == s[i]);
        assert(s[i] == rest[0]);
    } else {
        assert(tail[0] == block[0]);
        assert(s.skip(i)[0] == s[i]);
        assert(s[i] == tail[0]);
        lemma_skip_index(s, i + 1);
        assert(s.skip(i + 1) =~= tail.skip(1)) by {
            assert(forall|k: int| 0 <= k < tail.len() - 1 ==> #[trigger] tail.skip(1)[k] == tail[
                1 + k
            ]);
        };
        assert(tail.skip(1) =~= block.skip(1) + rest);
        lemma_digits_end_at(s, i + 1, block.skip(1), rest);
    }
}

/// A string-valued `content` member placed at `i` parses to its contents.
proof fn lemma_string_content_at(s: Seq<char>, i: int, w: Seq<char>)
    requires
        0 <= i <= s.len(),
        s.skip(i) == ",\"content\":\""@ + esc(w) + "\""@ + "}"@,
    ensures
        sp_string_content(s, i) == Some(w),
{
    reveal_strlit(",\"content\":\"");
    reveal_strlit("\"");
    reveal_strlit("}");
    let lit = ",\"content\":\""@;
    assert(lit.len() == 12);
    let after = esc(w) + "\""@ + "}"@;
    assert(s =~= s.take(i) + s.skip(i));
    assert(s.skip(i) =~= lit + after);
    assert(s =~= s.take(i) + lit + after);
    lemma_match_here(s, s.take(i), lit, after);
    assert("\""@ =~= seq!['"']);
    lemma_skip_index(s, i);
    lemma_skip_index(s, i + 12);
    assert(s.skip(i + 12) =~= s.skip(i).skip(12));
    assert(s.skip(i).skip(12) =~= esc(w) + seq!['"'] + "}"@);
    lemma_sp_str_esc(s, i + 12, w, "}"@);
    let j = i + 12 + esc(w).len() + 1;
    assert(s.skip(i + 12)[j - (i + 12)] == '}');
    assert(s[j] == '}');
    assert(j + 1 == s.len());
}

/// A numeric `content` member placed at `i` parses to its value.
#[verifier::rlimit(100)]
proof fn lemma_num_content_at(s: Seq<char>, i: int, n: u32)
    requires
        0 <= i <= s.len(),
        s.skip(i) == ",\"content\":"@ + dec(n as int) + "}"@,
    ensures
        sp_num_content(s, i) == Some(n),
{
    reveal_strlit(",\"content\":");
    reveal_strlit("}");
    let lit = ",\"content\":"@;
    assert(lit.len() == 11);
    let d = dec(n as int);
    lemma_digits_of_dec(n as int);
    assert(s =~= s.take(i) + s.skip(i));
    assert(s.skip(i) =~= lit + (d + "}"@));
    assert(s =~= s.take(i) + lit + (d + "}"@));
    lemma_match_here(s, s.take(i), lit, d + "}"@);
    lemma_skip_index(s, i);
    lemma_skip_index(s, i + 11);
    assert(s.skip(i + 11) =~= s.skip(i).skip(11));
    assert(s.skip(i).skip(11) =~= d + "}"@);
    assert(!is_digit('}'));
    lemma_digits_end_at(s, i + 11, d, "}"@);
    let j = i + 11 + d.len();
    assert(digits_end(s, i + 11) == j);
    let numeral = s.subrange(i + 11, j);
    assert(numeral =~= d) by {
        lemma_skip_index(s, i + 11);
        assert(forall|k: int| 0 <= k < j - (i + 11) ==> #[trigger] numeral[k] == s.skip(i + 11)[k]);
    };
    lemma_val_dec(n as int);
    assert(val(s.subrange(i + 11, j)) == n as int);
    assert(s.skip(i + 11)[j - (i + 11)] == '}');
    assert(s[j] == '}');
    assert(j + 1 == s.len());
}

/// The trailing message member and the closing braces of an output frame.
#[verifier::rlimit(100)]
proof fn lemma_output_tail_at(s: Seq<char>, j: int, message: Seq<char>)
    requires
        0 <= j <= s.len(),
        s.skip(j) == ",\"message\":\""@ + esc(message) + "\""@ + "}}"@,
    ensures
        match_at(s, j, ",\"message\":\""@),
        sp_str(s, j + 12) == Some((message, j + 12 + esc(message).len() + 1)),
        s.len() == j + 12 + esc(message).len() + 3,
        s[j + 12 + esc(message).len() + 1] == '}',
        s[j + 12 + esc(message).len() + 2] == '}',
{
    reveal_strlit(",\"message\":\"");
    reveal_strlit("\"");
    reveal_strlit("}}");
    let lit2 = ",\"message\":\""@;
    assert(lit2.len() == 12);
    assert("\""@ =~= seq!['"']);
    assert(s =~= s.take(j) + s.skip(j));
    assert(s.skip(j) =~= lit2 + (esc(message) + "\""@ + "}}"@));
    assert(s =~= s.take(j) + lit2 + (esc(message) + "\""@ + "}}"@));
    lemma_match_here(s, s.take(j), lit2, esc(message) + "\""@ + "}}"@);
    lemma_skip_index(s, j);
    lemma_skip_index(s, j + 12);
    assert(s.skip(j + 12) =~= s.skip(j).skip(12));
    assert(s.skip(j).skip(12) =~= esc(message) + seq!['"'] + "}}"@);
    lemma_sp_str_esc(s, j + 12, message, "}}"@);
    let k = j + 12 + esc(message).len() + 1;
    assert(s.skip(j + 12)[k - (j + 12)] == '}');
    assert(s.skip(j + 12)[k + 1 - (j + 12)] == '}');
    assert(s[k] == '}' && s[k + 1] == '}');
}

/// An output `content` member placed at `i` parses to its two strings.
#[verifier::rlimit(100)]
proof fn lemma_output_content_at(s: Seq<char>, i: int, stream: Seq<char>, message: Seq<char>)
    requires
        0 <= i <= s.len(),
        s.skip(i) == ",\"content\":{\"stream\":\""@ + esc(stream) + "\""@ + ",\"message\":\""@
            + esc(message) + "\""@ + "}}"@,
    ensures
        sp_output_content(s, i) == Some((stream, message)),
{
    reveal_strlit(",\"content\":{\"stream\":\"");
    reveal_strlit("\"");
    let lit1 = ",\"content\":{\"stream\":\""@;
    assert(lit1.len() == 22);
    assert("\""@ =~= seq!['"']);
    let rest1 = ",\"message\":\""@ + esc(message) + "\""@ + "}}"@;
    assert(s =~= s.take(i) + s.skip(i));
    assert(s.skip(i) =~= lit1 + (esc(stream) + "\""@ + rest1));
    assert(s =~= s.take(i) + lit1 + (esc(stream) + "\""@ + rest1));
    lemma_match_here(s, s.take(i), lit1, esc(stream) + "\""@ + rest1);
    lemma_skip_index(s, i);
    lemma_skip_index(s, i + 22);
    assert(s.skip(i + 22) =~= s.skip(i).skip(22));
    assert(s.skip(i).skip(22) =~= esc(stream) + seq!['"'] + rest1);
    lemma_sp_str_esc(s, i + 22, stream, rest1);
    let j = i + 22 + esc(stream).len() + 1;
    lemma_skip_index(s, j);
    assert(s.skip(j) =~= s.skip(i + 22).skip(j - (i + 22)));
    assert(s.skip(i + 22).skip(j - (i + 22)) =~= rest1);
    lemma_output_tail_at(s, j, message);
    let k = j + 12 + esc(message).len() + 1;
    assert(k + 2 == s.len());
}

/// The parser recovers a canonical ping frame.
#[verifier::rlimit(100)]
proof fn lemma_complete_ping()
    ensures
        sp_packet(spec_encode(PacketModel::Ping)) == Some(PacketModel::Ping),
{
    reveal_strlit("{\"packet\":\"");
    reveal_strlit("ping\"");
    reveal_strlit("pong\"");
    reveal_strlit("authenticate\"");
    reveal_strlit("authentication_successful\"");
    reveal_strlit("authentication_failed\"");
    reveal_strlit("command_output\"");
    reveal_strlit("command_terminated\"");
    reveal_strlit("command_terminate\"");
    reveal_strlit("command_launched\"");
    reveal_strlit("}");
    let s = spec_encode(PacketModel::Ping);
    let pre = "{\"packet\":\""@;
    assert(pre.len() == 11);
    let tag = "ping\""@;
    assert(s =~= (Seq::<char>::empty() + pre) + (tag + "}"@));
    lemma_match_here(s, Seq::empty(), pre, tag + "}"@);
    assert(s =~= pre + tag + "}"@);
    lemma_match_here(s, pre, tag, "}"@);
    assert(s.len() == 17);
    assert(s[16] == '}');
}

/// The parser recovers a canonical pong frame.
#[verifier::rlimit(100)]
proof fn lemma_complete_pong()
    ensures
        sp_packet(spec_encode(PacketModel::Pong)) == Some(PacketModel::Pong),
{
    reveal_strlit("{\"packet\":\"");
    reveal_strlit("ping\"");
    reveal_strlit("pong\"");
    reveal_strlit("authenticate\"");
    reveal_strlit("authentication_successful\"");
    reveal_strlit("authentication_failed\"");
    reveal_strlit("command_output\"");
    reveal_strlit("command_terminated\"");
    reveal_strlit("command_terminate\"");
    reveal_strlit("command_launched\"");
    reveal_strlit("}");
    let s = spec_encode(PacketModel::Pong);
    let pre = "{\"packet\":\""@;
    assert(pre.len() == 11);
    let tag = "pong\""@;
    assert(s =~= (Seq::<char>::empty() + pre) + (tag + "}"@));
    lemma_match_here(s, Seq::empty(), pre, tag + "}"@);
    assert(s =~= pre + tag + "}"@);
    lemma_match_here(s, pre, tag, "}"@);
    lemma_match_at_index(s, 11, tag, 1);
    lemma_no_match(s, "ping\""@, 1);
    assert(s.len() == 17);
    assert(s[16] == '}');
}

/// The parser recovers a canonical authenticate frame and its token.
#[verifier::rlimit(100)]
proof fn lemma_complete_authenticate(token: Seq<char>)
    ensures
        sp_packet(spec_encode(PacketModel::Authenticate(token))) == Some(PacketModel::Authenticate(token)),
{
    reveal_strlit("{\"packet\":\"");
    reveal_strlit("ping\"");
    reveal_strlit("pong\"");
    reveal_strlit("authenticate\"");
    reveal_strlit("authentication_successful\"");
    reveal_strlit("authentication_failed\"");
    reveal_strlit("command_output\"");
    reveal_strlit("command_terminated\"");
    reveal_strlit("command_terminate\"");
    reveal_strlit("command_launched\"");
    reveal_strlit("}");
    let s = spec_encode(PacketModel::Authenticate(token));
    let pre = "{\"packet\":\""@;
    assert(pre.len() == 11);
    let tag = "authenticate\""@;
    let body = ",\"content\":\""@ + esc(token) + "\""@ + "}"@;
    assert(s =~= (Seq::<char>::empty() + pre) + (tag + body));
    lemma_match_here(s, Seq::empty(), pre, tag + body);
    assert(s =~= pre + tag + body);
    lemma_match_here(s, pre, tag, body);
    lemma_match_at_index(s, 11, tag, 0);
    lemma_no_match(s, "ping\""@, 0);
    lemma_no_match(s, "pong\""@, 0);
    lemma_skip_index(s, 24);
    assert(s.skip(24) =~= ",\"content\":\""@ + esc(token) + "\""@ + "}"@);
    lemma_string_content_at(s, 24, token);
}

/// The parser recovers a canonical authentication-success frame.
#[verifier::rlimit(100)]
proof fn lemma_complete_authenticationsuccessful()
    ensures
        sp_packet(spec_encode(PacketModel::AuthenticationSuccessful)) == Some(PacketModel::AuthenticationSuccessful),
{
    reveal_strlit("{\"packet\":\"");
    reveal_strlit("ping\"");
    reveal_strlit("pong\"");
    reveal_strlit("authenticate\"");
    reveal_strlit("authentication_successful\"");
    reveal_strlit("authentication_failed\"");
    reveal_strlit("command_output\"");
    reveal_strlit("command_terminated\"");
    reveal_strlit("command_terminate\"");
    reveal_strlit("command_launched\"");
    reveal_strlit("}");
    let s = spec_encode(PacketModel::AuthenticationSuccessful);
    let pre = "{\"packet\":\""@;
    assert(pre.len() == 11);
    let tag = "authentication_successful\""@;
    assert(s =~= (Seq::<char>::empty() + pre) + (tag + "}"@));
    lemma_match_here(s, Seq::empty(), pre, tag + "}"@);
    assert(s =~= pre + tag + "}"@);
    lemma_match_here(s, pre, tag, "}"@);
    lemma_match_at_index(s, 11, tag, 0);
    lemma_match_at_index(s, 11, tag, 11);
    lemma_no_match(s, "ping\""@, 0);
    lemma_no_match(s, "pong\""@, 0);
    lemma_no_match(s, "authenticate\""@, 11);
    assert(s.len() == 38);
    assert(s[37] == '}');
}

/// The parser recovers a canonical authentication-failure frame and its reason.
#[verifier::rlimit(100)]
proof fn lemma_complete_authenticationfailed(reason: Seq<char>)
    ensures
        sp_packet(spec_encode(PacketModel::AuthenticationFailed(reason))) == Some(PacketModel::AuthenticationFailed(reason)),
{
    reveal_strlit("{\"packet\":\"");
    reveal_strlit("ping\"");
    reveal_strlit("pong\"");
    reveal_strlit("authenticate\"");
    reveal_strlit("authentication_successful\"");
    reveal_strlit("authentication_failed\"");
    reveal_strlit("command_output\"");
    reveal_strlit("command_terminated\"");
    reveal_strlit("command_terminate\"");
    reveal_strlit("command_launched\"");
    reveal_strlit("}");
    let s = spec_encode(PacketModel::AuthenticationFailed(reason));
    let pre = "{\"packet\":\""@;
    assert(pre.len() == 11);
    let tag = "authentication_failed\""@;
    let body = ",\"content\":\""@ + esc(reason) + "\""@ + "}"@;
    assert(s =~= (Seq::<char>::empty() + pre) + (tag + body));
    lemma_match_here(s, Seq::empty(), pre, tag + body);
    assert(s =~= pre + tag + body);
    lemma_match_here(s, pre, tag, body);
    lemma_match_at_index(s, 11, tag, 0);
    lemma_match_at_index(s, 11, tag, 11);
    lemma_match_at_index(s, 11, tag, 15);
    lemma_no_match(s, "ping\""@, 0);
    lemma_no_match(s, "pong\""@, 0);
    lemma_no_match(s, "authenticate\""@, 11);
    lemma_no_match(s, "authentication_successful\""@, 15);
    lemma_skip_index(s, 33);
    assert(s.skip(33) =~= ",\"content\":\""@ + esc(reason) + "\""@ + "}"@);
    lemma_string_content_at(s, 33, reason);
}

/// The parser recovers a canonical command-output frame and both its strings.
#[verifier::rlimit(100)]
proof fn lemma_complete_commandoutput(stream: Seq<char>, message: Seq<char>)
    ensures
        sp_packet(spec_encode(PacketModel::CommandOutput { stream, message })) == Some(PacketModel::CommandOutput { stream, message }),
{
    reveal_strlit("{\"packet\":\"");
    reveal_strlit("ping\"");
    reveal_strlit("pong\"");
    reveal_strlit("authenticate\"");
    reveal_strlit("authentication_successful\"");
    reveal_strlit("authentication_failed\"");
    reveal_strlit("command_output\"");
    reveal_strlit("command_terminated\"");
    reveal_strlit("command_terminate\"");
    reveal_strlit("command_launched\"");
    reveal_strlit("}");
    let s = spec_encode(PacketModel::CommandOutput { stream, message });
    let pre = "{\"packet\":\""@;
    assert(pre.len() == 11);
    let tag = "command_output\""@;
    let body = ",\"content\":{\"stream\":\""@ + esc(stream) + "\""@ + ",\"message\":\""@
        + esc(message) + "\""@ + "}}"@;
    assert(s =~= (Seq::<char>::empty() + pre) + (tag + body));
    lemma_match_here(s, Seq::empty(), pre, tag + body);
    assert(s =~= pre + tag + body);
    lemma_match_here(s, pre, tag, body);
    lemma_match_at_index(s, 11, tag, 0);
    lemma_no_match(s, "ping\""@, 0);
    lemma_no_match(s, "pong\""@, 0);
    lemma_no_match(s, "authenticate\""@, 0);
    lemma_no_match(s, "authentication_successful\""@, 0);
    lemma_no_match(s, "authentication_failed\""@, 0);
    lemma_skip_index(s, 26);
    assert(s.skip(26) =~= body);
    lemma_output_content_at(s, 26, stream, message);
}

/// The parser recovers a canonical command-terminated frame and its exit code.
#[verifier::rlimit(100)]
proof fn lemma_complete_commandterminated(code: u32)
    ensures
        sp_packet(spec_encode(PacketModel::CommandTerminated(code))) == Some(PacketModel::CommandTerminated(code)),
{
    reveal_strlit("{\"packet\":\"");
    reveal_strlit("ping\"");
    reveal_strlit("pong\"");
    reveal_strlit("authenticate\"");
    reveal_strlit("authentication_successful\"");
    reveal_strlit("authentication_failed\"");
    reveal_strlit("command_output\"");
    reveal_strlit("command_terminated\"");
    reveal_strlit("command_terminate\"");
    reveal_strlit("command_launched\"");
    reveal_strlit("}");
    let s = spec_encode(PacketModel::CommandTerminated(code));
    let pre = "{\"packet\":\""@;
    assert(pre.len() == 11);
    let tag = "command_terminated\""@;
    let body = ",\"content\":"@ + dec(code as int) + "}"@;
    assert(s =~= (Seq::<char>::empty() + pre) + (tag + body));
    lemma_match_here(s, Seq::empty(), pre, tag + body);
    assert(s =~= pre + tag + body);
    lemma_match_here(s, pre, tag, body);
    lemma_match_at_index(s, 11, tag, 0);
    lemma_match_at_index(s, 11, tag, 8);
    lemma_no_match(s, "ping\""@, 0);
    lemma_no_match(s, "pong\""@, 0);
    lemma_no_match(s, "authenticate\""@, 0);
    lemma_no_match(s, "authentication_successful\""@, 0);
    lemma_no_match(s, "authentication_failed\""@, 0);
    lemma_no_match(s, "command_output\""@, 8);
    lemma_skip_index(s, 30);
    assert(s.skip(30) =~= body);
    lemma_num_content_at(s, 30, code);
}

/// The parser recovers a canonical command-terminate frame.
#[verifier::rlimit(100)]
proof fn lemma_complete_commandterminate()
    ensures
        sp_packet(spec_encode(PacketModel::CommandTerminate)) == Some(PacketModel::CommandTerminate),
{
    reveal_strlit("{\"packet\":\"");
    reveal_strlit("ping\"");
    reveal_strlit("pong\"");
    reveal_strlit("authenticate\"");
    reveal_strlit("authentication_successful\"");
    reveal_strlit("authentication_failed\"");
    reveal_strlit("command_output\"");
    reveal_strlit("command_terminated\"");
    reveal_strlit("command_terminate\"");
    reveal_strlit("command_launched\"");
    reveal_strlit("}");
    let s = spec_encode(PacketModel::CommandTerminate);
    let pre = "{\"packet\":\""@;
    assert(pre.len() == 11);
    let tag = "command_terminate\""@;
    assert(s =~= (Seq::<char>::empty() + pre) + (tag + "}"@));
    lemma_match_here(s, Seq::empty(), pre, tag + "}"@);
    assert(s =~= pre + tag + "}"@);
    lemma_match_here(s, pre, tag, "}"@);
    lemma_match_at_index(s, 11, tag, 0);
    lemma_match_at_index(s, 11, tag, 8);
    lemma_match_at_index(s, 11, tag, 17);
    lemma_no_match(s, "ping\""@, 0);
    lemma_no_match(s, "pong\""@, 0);
    lemma_no_match(s, "authenticate\""@, 0);
    lemma_no_match(s, "authentication_successful\""@, 0);
    lemma_no_match(s, "authentication_failed\""@, 0);
    lemma_no_match(s, "command_output\""@, 8);
    lemma_no_match(s, "command_terminated\""@, 17);
    assert(s.len() == 30);
    assert(s[29] == '}');
}

/// The parser recovers a canonical command-launched frame.
#[verifier::rlimit(100)]
proof fn lemma_complete_commandlaunched()
    ensures
        sp_packet(spec_encode(PacketModel::CommandLaunched)) == Some(PacketModel::CommandLaunched),
{
    reveal_strlit("{\"packet\":\"");
    reveal_strlit("ping\"");
    reveal_strlit("pong\"");
    reveal_strlit("authenticate\"");
    reveal_strlit("authentication_successful\"");
    reveal_strlit("authentication_failed\"");
    reveal_strlit("command_output\"");
    reveal_strlit("command_terminated\"");
    reveal_strlit("command_terminate\"");
    reveal_strlit("command_launched\"");
    reveal_strlit("}");
    let s = spec_encode(PacketModel::CommandLaunched);
    let pre = "{\"packet\":\""@;
    assert(pre.len() == 11);
    let tag = "command_launched\""@;
    assert(s =~= (Seq::<char>::empty() + pre) + (tag + "}"@));
    lemma_match_here(s, Seq::empty(), pre, tag + "}"@);
    assert(s =~= pre + tag + "}"@);
    lemma_match_here(s, pre, tag, "}"@);
    lemma_match_at_index(s, 11, tag, 0);
    lemma_match_at_index(s, 11, tag, 8);
    lemma_no_match(s, "ping\""@, 0);
    lemma_no_match(s, "pong\""@, 0);
    lemma_no_match(s, "authenticate\""@, 0);
    lemma_no_match(s, "authentication_successful\""@, 0);
    lemma_no_match(s, "authentication_failed\""@, 0);
    lemma_no_match(s, "command_output\""@, 8);
    lemma_no_match(s, "command_terminated\""@, 8);
    lemma_no_match(s, "command_terminate\""@, 8);
    assert(s.len() == 29);
    assert(s[28] == '}');
}

/// The parser recovers every packet from its canonical frame.
pub proof fn lemma_sp_packet_complete(q: PacketModel)
    ensures
        sp_packet(spec_encode(q)) == Some(q),
{
    match q {
        PacketModel::Ping => lemma_complete_ping(),
        PacketModel::Pong => lemma_complete_pong(),
        PacketModel::Authenticate(token) => lemma_complete_authenticate(token),
        PacketModel::AuthenticationSuccessful => lemma_complete_authenticationsuccessful(),
        PacketModel::AuthenticationFailed(reason) => lemma_complete_authenticationfailed(reason),
        PacketModel::CommandOutput { stream, message } => lemma_complete_commandoutput(stream, message),
        PacketModel::CommandTerminated(code) => lemma_complete_commandterminated(code),
        PacketModel::CommandTerminate => lemma_complete_commandterminate(),
        PacketModel::CommandLaunched => lemma_complete_commandlaunched(),
    }
}

/// Encoding is injective: packets with the same canonical frame are the
/// same packet, tag and content alike.
pub proof fn lemma_encode_injective(a: PacketModel, b: PacketModel)
    requires
        spec_encode(a) == spec_encode(b),
    ensures
        a == b,
{
    lemma_sp_packet_complete(a);
    lemma_sp_packet_complete(b);
}

/// What one resolution of the connection's combined wait yields.
pub enum Routed {
    /// A packet: a due heartbeat surfacing as an inbound ping, or a decoded
    /// text frame.
    Packet(Packet),
    /// A frame arrived but carries no packet — an undecodable text frame or
    /// a binary frame. It is dropped with a diagnostic; the connection
    /// lives on.
    Dropped,
    /// The stream ended: the close frame arrived or the source is
    /// exhausted. No more events will come.
    Ended,
}

/// Encodes and decodes packets to and from their text frames.
pub struct Transport;

impl Transport {
    pub fn new() -> (transport: Transport) {
        Transport
    }

    /// Encodes a packet into its canonical text frame. Every packet has one.
    pub fn encode(&self, packet: Packet) -> (encoded: Option<String>)
        ensures
            encoded matches Some(text) && text@ == spec_encode(packet@),
    {
        let chars = render(&packet);
        Some(chars_to_string(chars))
    }

    /// Decodes a text frame. Exactly the canonical frames decode: a result
    /// is the unique packet whose encoding is the input, and the answer is
    /// `None` when the input encodes no packet.
    pub fn decode(&self, json: &str) -> (packet: Option<Packet>)
        ensures
            packet matches Some(p) ==> spec_encode(p@) == json@,
            forall|q: PacketModel| spec_encode(q) == json@ ==> (packet matches Some(p) && p@ == q),
    {
        let chars = str_to_chars(json);
        let candidate = match parse_packet(&chars) {
            Some(p) => p,
            None => {
                proof {
                    assert forall|q: PacketModel| spec_encode(q) != json@ by {
                        lemma_sp_packet_complete(q);
                    };
                }
                return None;
            },
        };
        let rendered = render(&candidate);
        if chars_eq(&rendered, &chars) {
            proof {
                assert forall|q: PacketModel| spec_encode(q) == json@ implies candidate@ == q by {
                    lemma_sp_packet_complete(q);
                };
            }
            Some(candidate)
        } else {
            proof {
                assert forall|q: PacketModel| spec_encode(q) != json@ by {
                    lemma_sp_packet_complete(q);
                };
            }
            None
        }
    }

    /// The connection's single suspension point, resolved: a due heartbeat
    /// outranks the frame and surfaces as an inbound `Ping`; a text frame
    /// is decoded, and one that decodes to no packet is dropped, never
    /// fatal; a binary frame is dropped too; the close frame or an
    /// exhausted source ends the stream.
    pub fn route(&self, heartbeat_due: bool, frame: Option<Message>) -> (routed: Routed)
        ensures
            heartbeat_due ==> (routed matches Routed::Packet(p) && p@ == PacketModel::Ping),
            !heartbeat_due ==> match frame {
                Some(Message::Text(text)) => {
                    &&& (routed matches Routed::Packet(p) ==> spec_encode(p@) == text@)
                    &&& (forall|q: PacketModel| spec_encode(q) == text@ ==> (routed
                        matches Routed::Packet(p) && p@ == q))
                    &&& ((forall|q: PacketModel| spec_encode(q) != text@) ==> routed is Dropped)
                },
                Some(Message::Binary(_)) => routed is Dropped,
                Some(Message::Close) => routed is Ended,
                None => routed is Ended,
            },
    {
        if heartbeat_due {
            return Routed::Packet(Packet::Ping);
        }
        match frame {
            Some(Message::Text(text)) => match self.decode(text.as_str()) {
                Some(packet) => Routed::Packet(packet),
                None => Routed::Dropped,
            },
            Some(Message::Binary(_)) => Routed::Dropped,
            Some(Message::Close) => Routed::Ended,
            None => Routed::Ended,
        }
    }
}

} // verus!

