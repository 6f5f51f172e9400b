use vstd::prelude::*;
use vstd::string::StringSliceAdditionalSpecFns;
use vstd::utf8::encode_utf8;
use crate::clock;
use crate::event::ChatMessageView;
use crate::event::ServerMessage;
use crate::event::ServerMessageView;
use crate::event::wire_ready;

verus! {

/// Lower-case hex digit of a value below 16.
pub open spec fn hex_digit(n: int) -> u8 {
    if n < 10 {
        (0x30 + n) as u8
    } else {
        (0x61 + (n - 10)) as u8
    }
}

/// How one byte of a JSON string body is written on the wire: quote,
/// backslash and the common control characters get a two-byte escape,
/// other control bytes a six-byte one, and everything else stands as is.
pub open spec fn escape_byte(b: u8) -> Seq<u8> {
    if b == 0x22 {
        seq![0x5c, 0x22]
    } else if b == 0x5c {
        seq![0x5c, 0x5c]
    } else if b == 0x0a {
        seq![0x5c, 0x6e]
    } else if b == 0x0d {
        seq![0x5c, 0x72]
    } else if b == 0x09 {
        seq![0x5c, 0x74]
    } else if b < 0x20 {
        seq![0x5c, 0x75, 0x30, 0x30, hex_digit(b as int / 16), hex_digit(b as int % 16)]
    } else {
        seq![b]
    }
}

/// A whole JSON string body, escaped byte by byte.
pub open spec fn json_escaped(s: Seq<u8>) -> Seq<u8>
    decreases s.len(),
{
    if s.len() == 0 {
        Seq::empty()
    } else {
        json_escaped(s.drop_last()) + escape_byte(s.last())
    }
}

/// The wire record announcing a join.
pub open spec fn joined_line(name: Seq<char>) -> Seq<u8> {
    "{\"type\":\"system\",\"content\":\"User ".spec_bytes() + encode_utf8(name)
        + " joined the chat\"}\n".spec_bytes()
}

/// The wire record announcing a leave.
pub open spec fn left_line(name: Seq<char>) -> Seq<u8> {
    "{\"type\":\"system\",\"content\":\"User ".spec_bytes() + encode_utf8(name)
        + " left the chat\"}\n".spec_bytes()
}

/// The tagged wire record carrying one chat line.
pub open spec fn chat_line(m: ChatMessageView) -> Seq<u8> {
    "{\"type\":\"ChatMessage\",\"data\":{\"user_id\":\"".spec_bytes() + json_escaped(
        encode_utf8(m.user_id),
    ) + "\",\"content\":\"".spec_bytes() + json_escaped(encode_utf8(m.content))
        + "\",\"timestamp\":\"".spec_bytes() + clock::rfc3339_of(m.timestamp)
        + "\"}}\n".spec_bytes()
}

/// The newline-terminated wire form of any broadcast event.
pub open spec fn wire_line(m: ServerMessageView) -> Seq<u8> {
    match m {
        ServerMessageView::UserJoined(name) => joined_line(name),
        ServerMessageView::UserLeft(name) => left_line(name),
        ServerMessageView::ChatMessage(c) => chat_line(c),
    }
}

/// Appends a whole byte slice to the output buffer.
fn push_all(out: &mut Vec<u8>, bytes: &[u8])
    ensures
        final(out)@ == old(out)@ + bytes@,
{
    let n = bytes.len();
    let mut i: usize = 0;
    while i < n
        invariant
            i <= n,
            n == bytes@.len(),
            out@ == old(out)@ + bytes@.take(i as int),
        decreases n - i,
    {
        out.push(bytes[i]);
        proof {
            assert(old(out)@ + bytes@.take(i as int + 1) =~= (old(out)@ + bytes@.take(
                i as int,
            )).push(bytes@[i as int]));
        }
        i += 1;
    }
    proof {
        assert(bytes@.take(n as int) =~= bytes@);
    }
}

/// Appends the escaped form of a JSON string body to the output buffer.
fn escape_into(out: &mut Vec<u8>, bytes: &[u8])
    ensures
        final(out)@ == old(out)@ + json_escaped(bytes@),
{
    let n = bytes.len();
    let mut i: usize = 0;
    while i < n
        invariant
            i <= n,
            n == bytes@.len(),
            out@ == old(out)@ + json_escaped(bytes@.take(i as int)),
        decreases n - i,
    {
        let b = bytes[i];
        if b == 0x22 {
            out.push(0x5c);
            out.push(0x22);
        } else if b == 0x5c {
            out.push(0x5c);
            out.push(0x5c);
        } else if b == 0x0a {
            out.push(0x5c);
            out.push(0x6e);
        } else if b == 0x0d {
            out.push(0x5c);
            out.push(0x72);
        } else if b == 0x09 {
            out.push(0x5c);
            out.push(0x74);
        } else if b < 0x20 {
            out.push(0x5c);
            out.push(0x75);
            out.push(0x30);
            out.push(0x30);
            out.push(0x30 + b / 16);
            let low = b % 16;
            if low < 10 {
                out.push(0x30 + low);
            } else {
                out.push(0x61 + (low - 10));
            }
        } else {
            out.push(b);
        }
        proof {
            assert(bytes@.take(i as int + 1).drop_last() =~= bytes@.take(i as int));
            assert(bytes@.take(i as int + 1).last() == b);
            assert(out@ =~= old(out)@ + json_escaped(bytes@.take(i as int + 1)));
        }
        i += 1;
    }
    proof {
        assert(bytes@.take(n as int) =~= bytes@);
    }
}

/// Serializes one broadcast event into its newline-terminated wire record.
pub fn encode_message(m: &ServerMessage) -> (r: Vec<u8>)
    requires
        wire_ready(m@),
    ensures
        r@ == wire_line(m@),
{
    let mut out: Vec<u8> = Vec::new();
    match m {
        ServerMessage::UserJoined(name) => {
            push_all(&mut out, "{\"type\":\"system\",\"content\":\"User ".as_bytes());
            push_all(&mut out, name.as_str().as_bytes());
            push_all(&mut out, " joined the chat\"}\n".as_bytes());
        },
        ServerMessage::UserLeft(name) => {
            push_all(&mut out, "{\"type\":\"system\",\"content\":\"User ".as_bytes());
            push_all(&mut out, name.as_str().as_bytes());
            push_all(&mut out, " left the chat\"}\n".as_bytes());
        },
        ServerMessage::ChatMessage(c) => {
            push_all(&mut out, "{\"type\":\"ChatMessage\",\"data\":{\"user_id\":\"".as_bytes());
            escape_into(&mut out, c.user_id.as_str().as_bytes());
            push_all(&mut out, "\",\"content\":\"".as_bytes());
            escape_into(&mut out, c.content.as_str().as_bytes());
            push_all(&mut out, "\",\"timestamp\":\"".as_bytes());
            let stamp = clock::format_rfc3339(c.timestamp);
            push_all(&mut out, stamp.as_slice());
            push_all(&mut out, "\"}}\n".as_bytes());
        },
    }
    proof {
        assert(out@ =~= wire_line(m@));
    }
    out
}

/// No newline anywhere in the bytes.
pub open spec fn newline_free(s: Seq<u8>) -> bool {
    forall|i: int| 0 <= i < s.len() ==> s[i] != 0x0a
}

/// Reassembles newline-delimited records out of arbitrarily split reads:
/// bytes are buffered until a record boundary is seen, and only whole
/// records are handed out.
pub struct LineFramer {
    buf: Vec<u8>,
}

impl View for LineFramer {
    type V = Seq<u8>;

    closed spec fn view(&self) -> Seq<u8> {
        self.buf@
    }
}

impl LineFramer {
    /// An empty reassembly buffer.
    pub fn new() -> (f: Self)
        ensures
            f@ == Seq::<u8>::empty(),
    {
        LineFramer { buf: Vec::new() }
    }

    /// Buffers one read's worth of bytes, however the peer split them.
    pub fn push_bytes(&mut self, chunk: &[u8])
        ensures
            final(self)@ == old(self)@ + chunk@,
    {
        push_all(&mut self.buf, chunk);
    }

    /// Takes the first complete record off the buffer: everything up to
    /// but not including the first newline. Without a newline nothing is
    /// handed out and the buffer is kept as it is.
    pub fn next_record(&mut self) -> (r: Option<Vec<u8>>)
        ensures
            match r {
                Some(rec) => {
                    &&& rec@.len() < old(self)@.len()
                    &&& rec@ == old(self)@.take(rec@.len() as int)
                    &&& newline_free(rec@)
                    &&& old(self)@[rec@.len() as int] == 0x0a
                    &&& final(self)@ == old(self)@.skip(rec@.len() as int + 1)
                },
                None => {
                    &&& final(self)@ == old(self)@
                    &&& newline_free(old(self)@)
                },
            },
    {
        let n = self.buf.len();
        let mut k: usize = 0;
        while k < n && self.buf[k] != 0x0a
            invariant
                k <= n,
                n == self.buf@.len(),
                self.buf@ == old(self)@,
                forall|j: int| 0 <= j < k ==> self.buf@[j] != 0x0a,
            decreases n - k,
        {
            k += 1;
        }
        if k == n {
            return None;
        }
        let mut rec: Vec<u8> = Vec::new();
        let mut i: usize = 0;
        while i < k
            invariant
                i <= k < n,
                n == self.buf@.len(),
                self.buf@ == old(self)@,
                rec@ == self.buf@.take(i as int),
            decreases k - i,
        {
            rec.push(self.buf[i]);
            proof {
                assert(self.buf@.take(i as int).push(self.buf@[i as int]) =~= self.buf@.take(
                    i as int + 1,
                ));
            }
            i += 1;
        }
        let mut rest: Vec<u8> = Vec::new();
        let mut j: usize = k + 1;
        while j < n
            invariant
                k + 1 <= j <= n,
                n == self.buf@.len(),
                self.buf@ == old(self)@,
                rest@ == self.buf@.subrange(k as int + 1, j as int),
            decreases n - j,
        {
            rest.push(self.buf[j]);
            proof {
                assert(self.buf@.subrange(k as int + 1, j as int).push(self.buf@[j as int])
                    =~= self.buf@.subrange(k as int + 1, j as int + 1));
            }
            j += 1;
        }
        self.buf = rest;
        proof {
            assert(self.buf@ =~= old(self)@.skip(k as int + 1));
        }
        Some(rec)
    }
}

} // verus!
