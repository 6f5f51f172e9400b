use vstd::prelude::*;
use std::collections::HashMap;
use crate::clock;
use crate::text::ascii_string;
use crate::text::dec_bytes;
use crate::text::push_dec;

verus! {

broadcast use vstd::std_specs::hash::group_hash_axioms;

/// One archived direct message between two users.
#[derive(Debug, PartialEq, Eq)]
pub struct Message {
    pub sender_id: u32,
    pub receiver_id: u32,
    pub content: String,
    pub timestamp: i64,
}

/// Mathematical model of a `Message`.
pub ghost struct MessageView {
    pub sender_id: int,
    pub receiver_id: int,
    pub content: Seq<char>,
    pub timestamp: int,
}

impl View for Message {
    type V = MessageView;

    open spec fn view(&self) -> MessageView {
        MessageView {
            sender_id: self.sender_id as int,
            receiver_id: self.receiver_id as int,
            content: self.content@,
            timestamp: self.timestamp as int,
        }
    }
}

impl Clone for Message {
    fn clone(&self) -> (r: Self)
        ensures
            r == *self,
    {
        Message {
            sender_id: self.sender_id,
            receiver_id: self.receiver_id,
            content: self.content.clone(),
            timestamp: self.timestamp,
        }
    }
}

/// The decimal digits of a number, as characters.
pub open spec fn dec_chars(n: int) -> Seq<char> {
    dec_bytes(n).map(|i: int, b: u8| b as char)
}

/// The order-independent text key of a user pair: the smaller id, an
/// underscore, the larger id.
pub open spec fn message_key(a: int, b: int) -> Seq<char> {
    if a <= b {
        dec_chars(a) + seq!['_'] + dec_chars(b)
    } else {
        dec_chars(b) + seq!['_'] + dec_chars(a)
    }
}

/// The key is symmetric: both orders of a pair name the same
/// conversation.
pub proof fn lemma_message_key_symmetric(a: int, b: int)
    ensures
        message_key(a, b) == message_key(b, a),
{
}

/// Every decimal digit byte is an ASCII digit.
proof fn lemma_dec_bytes_ascii(n: int)
    requires
        n >= 0,
    ensures
        forall|i: int| 0 <= i < dec_bytes(n).len() ==> 0x30 <= #[trigger] dec_bytes(n)[i] <= 0x39,
    decreases n,
{
    if n >= 10 {
        lemma_dec_bytes_ascii(n / 10);
        assert forall|i: int| 0 <= i < dec_bytes(n).len() implies 0x30 <= #[trigger] dec_bytes(
            n,
        )[i] <= 0x39 by {
            if i < dec_bytes(n).len() - 1 {
                assert(dec_bytes(n)[i] == dec_bytes(n / 10)[i]);
            }
        }
    }
}

/// The consistent text key under which a conversation is stored and
/// looked up, whatever the order of the two ids.
pub fn get_message_key(id1: u32, id2: u32) -> (r: String)
    ensures
        r@ == message_key(id1 as int, id2 as int),
{
    let lo = if id1 < id2 { id1 } else { id2 };
    let hi = if id1 < id2 { id2 } else { id1 };
    let mut bytes: Vec<u8> = Vec::new();
    push_dec(lo, &mut bytes);
    bytes.push(0x5f);
    push_dec(hi, &mut bytes);
    proof {
        lemma_dec_bytes_ascii(lo as int);
        lemma_dec_bytes_ascii(hi as int);
        assert(bytes@ =~= dec_bytes(lo as int) + seq![0x5fu8] + dec_bytes(hi as int));
    }
    let r = ascii_string(bytes);
    proof {
        assert(r@ =~= message_key(id1 as int, id2 as int));
    }
    r
}

/// The order-independent numeric key the archive indexes by: the smaller
/// id in the upper half, the larger in the lower half.
pub open spec fn pair_key(a: int, b: int) -> int {
    if a <= b {
        a * 0x100000000 + b
    } else {
        b * 0x100000000 + a
    }
}

fn pair_key_of(a: u32, b: u32) -> (r: u64)
    ensures
        r == pair_key(a as int, b as int),
{
    let lo = if a < b { a } else { b };
    let hi = if a < b { b } else { a };
    (lo as u64) * 0x100000000 + (hi as u64)
}

/// In-memory archive of direct messages, keyed by the unordered pair of
/// the two users' ids.
pub struct MessageStore {
    conversations: HashMap<u64, Vec<Message>>,
}

impl View for MessageStore {
    type V = Map<u64, Seq<MessageView>>;

    closed spec fn view(&self) -> Map<u64, Seq<MessageView>> {
        self.conversations@.map_values(|v: Vec<Message>| v@.map(|i: int, m: Message| m@))
    }
}

/// What a conversation holds under a key: its messages, or nothing yet.
pub open spec fn conversation_of(
    archive: Map<u64, Seq<MessageView>>,
    key: int,
) -> Seq<MessageView> {
    if archive.contains_key(key as u64) {
        archive[key as u64]
    } else {
        Seq::empty()
    }
}

impl MessageStore {
    /// An empty archive.
    pub fn new() -> (s: Self)
        ensures
            s@ == Map::<u64, Seq<MessageView>>::empty(),
    {
        let s = MessageStore { conversations: HashMap::new() };
        proof {
            assert(s@ =~= Map::<u64, Seq<MessageView>>::empty());
        }
        s
    }

    /// Archives one message under the unordered pair of sender and
    /// receiver, stamped with the current clock reading.
    pub fn save_message(&mut self, sender_id: u32, receiver_id: u32, content: String)
        ensures
            exists|t: int|
                0 <= t <= clock::MAX_TIMESTAMP && final(self)@ == old(self)@.insert(
                    pair_key(sender_id as int, receiver_id as int) as u64,
                    conversation_of(old(self)@, pair_key(sender_id as int, receiver_id as int)).push(
                        (MessageView {
                            sender_id: sender_id as int,
                            receiver_id: receiver_id as int,
                            content: content@,
                            timestamp: t,
                        }),
                    ),
                ),
    {
        let key = pair_key_of(sender_id, receiver_id);
        let msg = Message {
            sender_id,
            receiver_id,
            content,
            timestamp: clock::current_timestamp(),
        };
        let ghost mv = msg@;
        let mut list = match self.conversations.remove(&key) {
            Some(v) => v,
            None => Vec::new(),
        };
        let ghost list0 = list@;
        list.push(msg);
        self.conversations.insert(key, list);
        proof {
            assert(list@.map(|i: int, m: Message| m@) =~= list0.map(|i: int, m: Message| m@).push(
                mv,
            ));
            assert(list0.map(|i: int, m: Message| m@) =~= conversation_of(
                old(self)@,
                pair_key(sender_id as int, receiver_id as int),
            ));
            assert(self@ =~= old(self)@.insert(
                key,
                conversation_of(old(self)@, pair_key(sender_id as int, receiver_id as int)).push(
                    mv,
                ),
            ));
        }
    }

    /// The archived conversation between the two users, oldest first,
    /// whatever the order the ids are given in.
    pub fn get_messages(&self, user_id1: u32, user_id2: u32) -> (r: Vec<Message>)
        ensures
            r@.map(|i: int, m: Message| m@) == conversation_of(
                self@,
                pair_key(user_id1 as int, user_id2 as int),
            ),
    {
        let key = pair_key_of(user_id1, user_id2);
        match self.conversations.get(&key) {
            Some(list) => {
                let mut out: Vec<Message> = Vec::new();
                let mut i: usize = 0;
                while i < list.len()
                    invariant
                        i <= list@.len(),
                        out@.len() == i,
                        forall|j: int| 0 <= j < i ==> out@[j] == list@[j],
                    decreases list@.len() - i,
                {
                    out.push(list[i].clone());
                    i += 1;
                }
                proof {
                    assert(out@ =~= list@);
                    assert(out@.map(|i: int, m: Message| m@) =~= conversation_of(
                        self@,
                        pair_key(user_id1 as int, user_id2 as int),
                    ));
                }
                out
            },
            None => {
                let out: Vec<Message> = Vec::new();
                proof {
                    assert(out@.map(|i: int, m: Message| m@) =~= Seq::<MessageView>::empty());
                }
                out
            },
        }
    }
}

} // verus!
