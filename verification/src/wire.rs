//! The wire format of outbound messages: one JSON object per message,
//! framed by exactly one newline. The spec functions here define the text
//! character by character; the executable encoder is proved to produce it.

use vstd::prelude::*;

use crate::protocol::{Body, BodyView, Message, MessageView, Payload, PayloadView};

verus! {

/// The decimal digit `d` as a character.
pub open spec fn dec_digit(d: nat) -> char {
    if d == 0 {
        '0'
    } else if d == 1 {
        '1'
    } else if d == 2 {
        '2'
    } else if d == 3 {
        '3'
    } else if d == 4 {
        '4'
    } else if d == 5 {
        '5'
    } else if d == 6 {
        '6'
    } else if d == 7 {
        '7'
    } else if d == 8 {
        '8'
    } else {
        '9'
    }
}

/// The decimal digits of `n`, most significant first.
pub open spec fn dec_digits(n: nat) -> Seq<char>
    decreases n,
{
    if n < 10 {
        seq![dec_digit(n)]
    } else {
        dec_digits(n / 10).push(dec_digit(n % 10))
    }
}

/// The decimal text of `n`, with a leading minus sign when negative.
pub open spec fn int_text(n: int) -> Seq<char> {
    if n < 0 {
        seq!['-'] + dec_digits((-n) as nat)
    } else {
        dec_digits(n as nat)
    }
}

/// The hexadecimal digit `d` as a lower-case character.
pub open spec fn hex_digit(d: nat) -> char {
    if d < 10 {
        dec_digit(d)
    } else if d == 10 {
        'a'
    } else if d == 11 {
        'b'
    } else if d == 12 {
        'c'
    } else if d == 13 {
        'd'
    } else if d == 14 {
        'e'
    } else {
        'f'
    }
}

/// How one character appears inside a JSON string: quotes and backslashes
/// are escaped, control characters get their short escapes or a `\u00XX`
/// escape, everything else stands as itself.
pub open spec fn escaped_char(c: char) -> Seq<char> {
    if c == '"' {
        seq!['\\', '"']
    } else if c == '\\' {
        seq!['\\', '\\']
    } else if c == '\n' {
        seq!['\\', 'n']
    } else if c == '\r' {
        seq!['\\', 'r']
    } else if c == '\t' {
        seq!['\\', 't']
    } else if c == '\u{0008}' {
        seq!['\\', 'b']
    } else if c == '\u{000C}' {
        seq!['\\', 'f']
    } else if (c as u32) < 32 {
        seq!['\\', 'u', '0', '0', hex_digit(((c as u32) / 16) as nat), hex_digit(
            ((c as u32) % 16) as nat,
        )]
    } else {
        seq![c]
    }
}

/// The body of a JSON string: every character of `s` escaped, in order.
pub open spec fn escaped(s: Seq<char>) -> Seq<char>
    decreases s.len(),
{
    if s.len() == 0 {
        Seq::<char>::empty()
    } else {
        escaped(s.drop_last()) + escaped_char(s.last())
    }
}

/// A JSON string: the escaped text between double quotes.
pub open spec fn quoted(s: Seq<char>) -> Seq<char> {
    seq!['"'] + escaped(s) + seq!['"']
}

/// The comma-separated elements of a JSON array of strings.
pub open spec fn array_items(elems: Seq<Seq<char>>) -> Seq<char>
    decreases elems.len(),
{
    if elems.len() == 0 {
        Seq::<char>::empty()
    } else if elems.len() == 1 {
        quoted(elems[0])
    } else {
        array_items(elems.drop_last()) + seq![','] + quoted(elems.last())
    }
}

/// A JSON array of strings.
pub open spec fn string_array(elems: Seq<Seq<char>>) -> Seq<char> {
    seq!['['] + array_items(elems) + seq![']']
}

/// An optional correlation field: the name, a colon, the number and a
/// trailing comma when present, nothing when absent.
pub open spec fn opt_id_field(name: Seq<char>, v: Option<i32>) -> Seq<char> {
    match v {
        Some(n) => name + int_text(n as int) + seq![','],
        None => Seq::<char>::empty(),
    }
}

/// The discriminant tag and the variant's own fields, flattened into the
/// body object.
pub open spec fn payload_fields(p: PayloadView) -> Seq<char> {
    match p {
        PayloadView::Echo { echo } => "\"type\":\"echo\",\"echo\":"@ + quoted(echo),
        PayloadView::EchoOk { echo } => "\"type\":\"echo_ok\",\"echo\":"@ + quoted(echo),
        PayloadView::Init { node_id, node_ids } => "\"type\":\"init\",\"node_id\":"@ + quoted(
            node_id,
        ) + ",\"node_ids\":"@ + string_array(node_ids),
        PayloadView::InitOk => "\"type\":\"init_ok\""@,
    }
}

/// The body object: correlation ids where present, then the tag and the
/// variant's fields, all in one flat JSON object.
pub open spec fn body_text(b: BodyView) -> Seq<char> {
    seq!['{'] + opt_id_field("\"msg_id\":"@, b.msg_id) + opt_id_field(
        "\"in_reply_to\":"@,
        b.in_reply_to,
    ) + payload_fields(b.payload) + seq!['}']
}

/// One whole message as a JSON object.
pub open spec fn message_text(m: MessageView) -> Seq<char> {
    "{\"src\":"@ + quoted(m.src) + ",\"dest\":"@ + quoted(m.dest) + ",\"body\":"@ + body_text(
        m.body,
    ) + seq!['}']
}

/// One whole message as a wire frame: the JSON object and exactly one
/// newline that delimits it.
pub open spec fn message_line(m: MessageView) -> Seq<char> {
    message_text(m).push('\n')
}

/// Relies on String::push: appends exactly one character at the end.
#[verifier::external_body]
fn push_char(out: &mut String, c: char)
    ensures
        final(out)@ == old(out)@.push(c),
{
    out.push(c);
}

/// The decimal digit `d` as an executable character.
fn dec_digit_char(d: u32) -> (c: char)
    requires
        d < 10,
    ensures
        c == dec_digit(d as nat),
{
    if d == 0 {
        '0'
    } else if d == 1 {
        '1'
    } else if d == 2 {
        '2'
    } else if d == 3 {
        '3'
    } else if d == 4 {
        '4'
    } else if d == 5 {
        '5'
    } else if d == 6 {
        '6'
    } else if d == 7 {
        '7'
    } else if d == 8 {
        '8'
    } else {
        '9'
    }
}

/// The hexadecimal digit `d` as an executable character.
fn hex_digit_char(d: u32) -> (c: char)
    requires
        d < 16,
    ensures
        c == hex_digit(d as nat),
{
    if d < 10 {
        dec_digit_char(d)
    } else if d == 10 {
        'a'
    } else if d == 11 {
        'b'
    } else if d == 12 {
        'c'
    } else if d == 13 {
        'd'
    } else if d == 14 {
        'e'
    } else {
        'f'
    }
}

/// Append the decimal digits of `n`, most significant first.
fn push_dec(out: &mut String, n: u32)
    ensures
        final(out)@ == old(out)@ + dec_digits(n as nat),
    decreases n,
{
    if n >= 10 {
        push_dec(out, n / 10);
    }
    let c = dec_digit_char(n % 10);
    push_char(out, c);
    proof {
        if n >= 10 {
            assert((old(out)@ + dec_digits((n / 10) as nat)).push(dec_digit((n % 10) as nat))
                =~= old(out)@ + dec_digits((n / 10) as nat).push(dec_digit((n % 10) as nat)));
        } else {
            assert(old(out)@.push(dec_digit(n as nat)) =~= old(out)@ + seq![dec_digit(n as nat)]);
        }
    }
}

/// Append the decimal text of `n`, with a minus sign when negative.
fn push_i32(out: &mut String, n: i32)
    ensures
        final(out)@ == old(out)@ + int_text(n as int),
{
    if n < 0 {
        push_char(out, '-');
        let wide: i64 = n as i64;
        let mag: u32 = (-wide) as u32;
        assert(mag as nat == (-(n as int)) as nat);
        push_dec(out, mag);
        proof {
            assert(old(out)@.push('-') + dec_digits(mag as nat) =~= old(out)@ + (seq!['-']
                + dec_digits(mag as nat)));
        }
    } else {
        push_dec(out, n as u32);
    }
}

/// Taking one more character of `s` extends the escaped text by exactly
/// that character's escape.
proof fn lemma_escaped_snoc(s: Seq<char>, i: int)
    requires
        0 <= i < s.len(),
    ensures
        escaped(s.take(i + 1)) == escaped(s.take(i)) + escaped_char(s[i]),
{
    assert(s.take(i + 1).drop_last() =~= s.take(i));
    assert(s.take(i + 1).last() == s[i]);
}

/// Append `s` as a JSON string, quotes and escapes included.
fn push_quoted(out: &mut String, s: &str)
    ensures
        final(out)@ == old(out)@ + quoted(s@),
{
    push_char(out, '"');
    let len: usize = s.unicode_len();
    let mut i: usize = 0;
    while i < len
        invariant
            i <= len,
            len == s@.len(),
            out@ == old(out)@.push('"') + escaped(s@.take(i as int)),
        decreases len - i,
    {
        let c = s.get_char(i);
        let ghost before = out@;
        if c == '"' {
            push_char(out, '\\');
            push_char(out, '"');
        } else if c == '\\' {
            push_char(out, '\\');
            push_char(out, '\\');
        } else if c == '\n' {
            push_char(out, '\\');
            push_char(out, 'n');
        } else if c == '\r' {
            push_char(out, '\\');
            push_char(out, 'r');
        } else if c == '\t' {
            push_char(out, '\\');
            push_char(out, 't');
        } else if c == '\u{0008}' {
            push_char(out, '\\');
            push_char(out, 'b');
        } else if c == '\u{000C}' {
            push_char(out, '\\');
            push_char(out, 'f');
        } else {
            let code: u32 = c as u32;
            if code < 32 {
                push_char(out, '\\');
                push_char(out, 'u');
                push_char(out, '0');
                push_char(out, '0');
                let hi = hex_digit_char(code / 16);
                push_char(out, hi);
                let lo = hex_digit_char(code % 16);
                push_char(out, lo);
            } else {
                push_char(out, c);
            }
        }
        proof {
            assert(out@ =~= before + escaped_char(s@[i as int]));
            lemma_escaped_snoc(s@, i as int);
            assert(out@ =~= old(out)@.push('"') + escaped(s@.take(i as int + 1)));
        }
        i = i + 1;
    }
    proof {
        assert(s@.take(len as int) =~= s@);
    }
    push_char(out, '"');
    proof {
        assert((old(out)@.push('"') + escaped(s@)).push('"') =~= old(out)@ + quoted(s@));
    }
}

/// Taking one more element extends the array items by a comma (except in
/// front of the first element) and that element as a JSON string.
proof fn lemma_array_items_snoc(elems: Seq<Seq<char>>, i: int)
    requires
        0 <= i < elems.len(),
    ensures
        array_items(elems.take(i + 1)) == if i == 0 {
            quoted(elems[0])
        } else {
            array_items(elems.take(i)) + seq![','] + quoted(elems[i])
        },
{
    assert(elems.take(i + 1).drop_last() =~= elems.take(i));
    assert(elems.take(i + 1).last() == elems[i]);
}

/// Append `elems` as a JSON array of strings.
fn push_string_array(out: &mut String, elems: &Vec<String>)
    ensures
        final(out)@ == old(out)@ + string_array(elems.deep_view()),
{
    push_char(out, '[');
    let n: usize = elems.len();
    let mut i: usize = 0;
    while i < n
        invariant
            i <= n,
            n == elems@.len(),
            out@ == old(out)@.push('[') + array_items(elems.deep_view().take(i as int)),
        decreases n - i,
    {
        if i > 0 {
            push_char(out, ',');
        }
        let ghost before = out@;
        push_quoted(out, elems[i].as_str());
        proof {
            assert(elems.deep_view()[i as int] == elems@[i as int]@);
            lemma_array_items_snoc(elems.deep_view(), i as int);
            assert(out@ =~= old(out)@.push('[') + array_items(
                elems.deep_view().take(i as int + 1),
            ));
        }
        i = i + 1;
    }
    proof {
        assert(elems.deep_view().take(n as int) =~= elems.deep_view());
    }
    push_char(out, ']');
    proof {
        assert((old(out)@.push('[') + array_items(elems.deep_view())).push(']') =~= old(out)@
            + string_array(elems.deep_view()));
    }
}

/// Append the discriminant tag and the variant's own fields of `p`.
fn encode_payload(out: &mut String, p: &Payload)
    ensures
        final(out)@ == old(out)@ + payload_fields(p@),
{
    match p {
        Payload::Echo { echo } => {
            out.append("\"type\":\"echo\",\"echo\":");
            push_quoted(out, echo.as_str());
        },
        Payload::EchoOk { echo } => {
            out.append("\"type\":\"echo_ok\",\"echo\":");
            push_quoted(out, echo.as_str());
        },
        Payload::Init { node_id, node_ids } => {
            out.append("\"type\":\"init\",\"node_id\":");
            push_quoted(out, node_id.as_str());
            out.append(",\"node_ids\":");
            push_string_array(out, node_ids);
        },
        Payload::InitOk => {
            out.append("\"type\":\"init_ok\"");
        },
    }
    proof {
        assert(out@ =~= old(out)@ + payload_fields(p@));
    }
}

/// Append the body object of `b`.
#[verifier::rlimit(30)]
fn encode_body(out: &mut String, b: &Body)
    ensures
        final(out)@ == old(out)@ + body_text(b@),
{
    push_char(out, '{');
    match b.msg_id {
        Some(n) => {
            out.append("\"msg_id\":");
            push_i32(out, n);
            push_char(out, ',');
        },
        None => {},
    }
    proof {
        assert(out@ =~= old(out)@ + seq!['{'] + opt_id_field("\"msg_id\":"@, b@.msg_id));
    }
    match b.in_reply_to {
        Some(n) => {
            out.append("\"in_reply_to\":");
            push_i32(out, n);
            push_char(out, ',');
        },
        None => {},
    }
    proof {
        assert(out@ =~= old(out)@ + seq!['{'] + opt_id_field("\"msg_id\":"@, b@.msg_id)
            + opt_id_field("\"in_reply_to\":"@, b@.in_reply_to));
    }
    encode_payload(out, &b.payload);
    proof {
        assert(out@ =~= old(out)@ + seq!['{'] + opt_id_field("\"msg_id\":"@, b@.msg_id)
            + opt_id_field("\"in_reply_to\":"@, b@.in_reply_to) + payload_fields(b@.payload));
    }
    push_char(out, '}');
    proof {
        assert(out@ =~= old(out)@ + body_text(b@));
    }
}

/// Encode one message as its JSON object.
pub fn encode_message(m: &Message) -> (r: String)
    ensures
        r@ == message_text(m@),
{
    let mut out = String::new();
    out.append("{\"src\":");
    push_quoted(&mut out, m.src.as_str());
    out.append(",\"dest\":");
    push_quoted(&mut out, m.dest.as_str());
    out.append(",\"body\":");
    encode_body(&mut out, &m.body);
    push_char(&mut out, '}');
    proof {
        assert(out@ =~= message_text(m@));
    }
    out
}

/// Encode one message as a whole wire frame: its JSON object followed by
/// exactly one newline.
pub fn encode_line(m: &Message) -> (r: String)
    ensures
        r@ == message_line(m@),
{
    let mut out = encode_message(m);
    push_char(&mut out, '\n');
    out
}

} // verus!
