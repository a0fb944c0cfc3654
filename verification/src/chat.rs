//! Chat messages and per-peer chat state.

use vstd::prelude::*;

verus! {

use crate::identity::ServiceId;

/// The mathematical content of a [`ChatMessage`].
pub struct ChatMessageView {
    pub date: u64,
    pub sender: Seq<char>,
    pub recipient: Seq<char>,
    pub message: Seq<char>,
}

/// One chat message: who sent it, whom it addresses, when it was written
/// (whole seconds since the Unix epoch, UTC), and its text.
#[derive(Debug)]
pub struct ChatMessage {
    pub date: u64,
    pub sender: ServiceId,
    pub recipient: ServiceId,
    pub message: String,
}

impl View for ChatMessage {
    type V = ChatMessageView;

    open spec fn view(&self) -> ChatMessageView {
        ChatMessageView {
            date: self.date,
            sender: self.sender@,
            recipient: self.recipient@,
            message: self.message@,
        }
    }
}

impl ChatMessage {
    /// Builds a message dated now.
    ///
    /// Only the date is left open by the contract: it comes from the clock.
    pub fn new(sender: &ServiceId, recipient: &ServiceId, message: String) -> (r: ChatMessage)
        ensures
            r@.sender == sender@,
            r@.recipient == recipient@,
            r@.message == message@,
    {
        let now: i64 = now_epoch_seconds();
        let date: u64 = if now < 0 {
            0u64
        } else {
            now as u64
        };
        ChatMessage { date, sender: sender.clone(), recipient: recipient.clone(), message }
    }
}

impl Clone for ChatMessage {
    fn clone(&self) -> (r: Self)
        ensures
            r@ == self@,
    {
        let r = ChatMessage {
            date: self.date,
            sender: self.sender.clone(),
            recipient: self.recipient.clone(),
            message: self.message.clone(),
        };
        proof {
            assert(r@ == self@);
        }
        r
    }
}

/// The clock's current reading in whole seconds since the Unix epoch, UTC.
///
/// Relies on `chrono::Utc::now`; nothing is stated of the value.
#[verifier::external_body]
fn now_epoch_seconds() -> i64 {
    chrono::Utc::now().timestamp()
}

/// How many messages a chat's history keeps.
pub const CHAT_CAPACITY: usize = 200;

/// What a chat's message ring holds, oldest first, as
/// `circular_queue::CircularQueue::asc_iter` walks it.
pub uninterp spec fn chat_ring_contents(q: circular_queue::CircularQueue<ChatMessage>) -> Seq<
    ChatMessageView,
>;

/// The capacity a chat's message ring was created with.
pub uninterp spec fn chat_ring_capacity(q: circular_queue::CircularQueue<ChatMessage>) -> nat;

/// Creates an empty message ring of the given capacity.
///
/// Relies on `CircularQueue::with_capacity`.
#[verifier::external_body]
fn chat_ring_new(capacity: usize) -> (r: circular_queue::CircularQueue<ChatMessage>)
    ensures
        chat_ring_contents(r) == Seq::<ChatMessageView>::empty(),
        chat_ring_capacity(r) == capacity,
{
    circular_queue::CircularQueue::with_capacity(capacity)
}

/// Appends a message; once the ring is full, each push drops the oldest
/// entry.  A ring of capacity zero stores nothing.
///
/// Relies on `CircularQueue::push`.
#[verifier::external_body]
fn chat_ring_push(q: &mut circular_queue::CircularQueue<ChatMessage>, message: ChatMessage)
    ensures
        chat_ring_capacity(*final(q)) == chat_ring_capacity(*old(q)),
        chat_ring_contents(*final(q)) == if chat_ring_capacity(*old(q)) == 0 {
            chat_ring_contents(*old(q))
        } else if chat_ring_contents(*old(q)).len() < chat_ring_capacity(*old(q)) {
            chat_ring_contents(*old(q)).push(message@)
        } else {
            chat_ring_contents(*old(q)).drop_first().push(message@)
        },
{
    q.push(message);
}

/// Copies the ring's contents out, oldest first.
///
/// Relies on `CircularQueue::asc_iter`.
#[verifier::external_body]
fn chat_ring_to_vec(q: &circular_queue::CircularQueue<ChatMessage>) -> (r: Vec<ChatMessage>)
    ensures
        r@.len() == chat_ring_contents(*q).len(),
        forall|i: int|
            0 <= i < r@.len() ==> #[trigger] r@[i]@ == chat_ring_contents(*q)[i],
{
    q.asc_iter().cloned().collect()
}

/// One peer's chat: its identity and the most recent messages exchanged
/// with it, newest pushing out oldest once the history is full.
pub struct Chat {
    id: ServiceId,
    messages: circular_queue::CircularQueue<ChatMessage>,
}

impl Chat {
    /// The peer's identity text.
    pub closed spec fn id_view(&self) -> Seq<char> {
        self.id@
    }

    /// The kept messages, oldest first.
    pub closed spec fn history(&self) -> Seq<ChatMessageView> {
        chat_ring_contents(self.messages)
    }

    /// The history's capacity.
    pub closed spec fn capacity(&self) -> nat {
        chat_ring_capacity(self.messages)
    }

    /// An empty chat with `id`, keeping up to [`CHAT_CAPACITY`] messages.
    pub fn new(id: &ServiceId) -> (r: Chat)
        ensures
            r.id_view() == id@,
            r.history() == Seq::<ChatMessageView>::empty(),
            r.capacity() == CHAT_CAPACITY,
    {
        Chat { id: id.clone(), messages: chat_ring_new(CHAT_CAPACITY) }
    }

    /// Appends a message to the history; once the history is full, the
    /// oldest message falls out.
    pub fn add_message(&mut self, message: ChatMessage)
        ensures
            final(self).id_view() == old(self).id_view(),
            final(self).capacity() == old(self).capacity(),
            final(self).history() == if old(self).capacity() == 0 {
                old(self).history()
            } else if old(self).history().len() < old(self).capacity() {
                old(self).history().push(message@)
            } else {
                old(self).history().drop_first().push(message@)
            },
    {
        chat_ring_push(&mut self.messages, message);
    }

    /// The peer's identity text.
    pub fn id(&self) -> (r: String)
        ensures
            r@ == self.id_view(),
    {
        self.id.to_text()
    }

    /// A copy of the kept messages, oldest first.
    pub fn messages(&self) -> (r: Vec<ChatMessage>)
        ensures
            r@.len() == self.history().len(),
            forall|i: int|
                0 <= i < r@.len() ==> #[trigger] r@[i]@ == self.history()[i],
    {
        chat_ring_to_vec(&self.messages)
    }
}

/// The first position in a row of identities that carries `id`.
pub open spec fn id_index(entries: Seq<ServiceId>, id: Seq<char>) -> Option<int>
    decreases entries.len(),
{
    if entries.len() == 0 {
        None
    } else if entries[0]@ == id {
        Some(0)
    } else {
        match id_index(entries.drop_first(), id) {
            Some(j) => Some(j + 1),
            None => None,
        }
    }
}

/// The found position indexes an entry that carries `id`, and nothing
/// before it does.
proof fn lemma_id_index(entries: Seq<ServiceId>, id: Seq<char>)
    ensures
        match id_index(entries, id) {
            Some(j) => 0 <= j < entries.len() && entries[j]@ == id && forall|k: int|
                0 <= k < j ==> #[trigger] entries[k]@ != id,
            None => forall|k: int| 0 <= k < entries.len() ==> #[trigger] entries[k]@ != id,
        },
    decreases entries.len(),
{
    if entries.len() > 0 && entries[0]@ != id {
        lemma_id_index(entries.drop_first(), id);
        assert forall|k: int| 0 <= k < entries.len() - 1 implies #[trigger] entries.drop_first()[k]
            == entries[k + 1] by {}
        match id_index(entries.drop_first(), id) {
            Some(j2) => {
                assert(entries[j2 + 1]@ == id);
                assert forall|k: int| 0 <= k < j2 + 1 implies #[trigger] entries[k]@ != id by {
                    if k > 0 {
                        assert(entries.drop_first()[k - 1]@ != id);
                    }
                }
            },
            None => {
                assert forall|k: int| 0 <= k < entries.len() implies #[trigger] entries[k]@
                    != id by {
                    if k > 0 {
                        assert(entries.drop_first()[k - 1]@ != id);
                    }
                }
            },
        }
    }
}

/// An entry that carries `id`, with nothing before it carrying it, is the
/// one the scan finds.
proof fn lemma_id_index_found(entries: Seq<ServiceId>, id: Seq<char>, j: int)
    requires
        0 <= j < entries.len(),
        entries[j]@ == id,
        forall|k: int| 0 <= k < j ==> #[trigger] entries[k]@ != id,
    ensures
        id_index(entries, id) == Some(j),
    decreases j,
{
    if j > 0 {
        assert(entries[0]@ != id);
        assert forall|k: int| 0 <= k < j - 1 implies #[trigger] entries.drop_first()[k]@ != id by {
            assert(entries.drop_first()[k] == entries[k + 1]);
        }
        assert(entries.drop_first()[j - 1] == entries[j]);
        lemma_id_index_found(entries.drop_first(), id, j - 1);
    }
}

/// The open chats' identities, and which of them is in front.
#[derive(Debug)]
pub struct ChatList {
    list: Vec<ServiceId>,
    current_index: Option<usize>,
}

impl ChatList {
    /// The identities, in order.
    pub closed spec fn ids(&self) -> Seq<ServiceId> {
        self.list@
    }

    /// The position of the chat in front, if any.
    pub closed spec fn cur(&self) -> Option<usize> {
        self.current_index
    }

    /// The list's invariant: the front position, when there is one, indexes
    /// the list.
    pub open spec fn wf(&self) -> bool {
        self.cur() matches Some(i) ==> i < self.ids().len()
    }

    /// An empty chat list.
    pub fn new() -> (r: ChatList)
        ensures
            r.wf(),
            r.ids() == Seq::<ServiceId>::empty(),
            r.cur() is None,
    {
        ChatList { list: Vec::new(), current_index: None }
    }

    /// The identities, in order.
    pub fn names(&self) -> (r: &Vec<ServiceId>)
        ensures
            r@ == self.ids(),
    {
        &self.list
    }

    /// Appends a chat and brings it to the front.
    pub fn add(&mut self, id: &ServiceId)
        requires
            old(self).ids().len() < usize::MAX,
        ensures
            final(self).wf(),
            final(self).ids().len() == old(self).ids().len() + 1,
            final(self).ids().drop_last() == old(self).ids(),
            final(self).ids().last()@ == id@,
            final(self).cur() == Some((old(self).ids().len()) as usize),
    {
        self.list.push(id.clone());
        self.current_index = Some(self.list.len() - 1);
        proof {
            assert(self.list@.drop_last() =~= old(self).list@);
        }
    }

    /// The chat in front, if any.
    pub fn current(&self) -> (r: Option<&ServiceId>)
        requires
            self.wf(),
        ensures
            match self.cur() {
                Some(i) => r matches Some(x) && x == self.ids()[i as int],
                None => r is None,
            },
    {
        match self.current_index {
            Some(index) => Some(&self.list[index]),
            None => None,
        }
    }

    /// The front position, if any.
    pub fn current_index(&self) -> (r: Option<usize>)
        ensures
            r == self.cur(),
    {
        self.current_index
    }

    /// Brings the next chat to the front, wrapping at the end; the front
    /// chat of an empty list stays none.
    pub fn next_chat(&mut self) -> (r: Option<&ServiceId>)
        requires
            old(self).wf(),
        ensures
            final(self).wf(),
            final(self).ids() == old(self).ids(),
            match old(self).cur() {
                Some(i) => {
                    &&& final(self).cur() == Some(
                        if i == old(self).ids().len() - 1 {
                            0usize
                        } else {
                            (i + 1) as usize
                        },
                    )
                    &&& r matches Some(x) && x == final(self).ids()[final(self).cur()->Some_0 as int]
                },
                None => final(self).cur() is None && r is None,
            },
    {
        match self.current_index {
            Some(index) => {
                if index == self.list.len() - 1 {
                    self.current_index = Some(0);
                } else {
                    self.current_index = Some(index + 1);
                }
                self.current()
            },
            None => None,
        }
    }

    /// Brings the previous chat to the front, wrapping at the start; the
    /// front chat of an empty list stays none.
    pub fn prev_chat(&mut self) -> (r: Option<&ServiceId>)
        requires
            old(self).wf(),
        ensures
            final(self).wf(),
            final(self).ids() == old(self).ids(),
            match old(self).cur() {
                Some(i) => {
                    &&& final(self).cur() == Some(
                        if i == 0 {
                            (old(self).ids().len() - 1) as usize
                        } else {
                            (i - 1) as usize
                        },
                    )
                    &&& r matches Some(x) && x == final(self).ids()[final(self).cur()->Some_0 as int]
                },
                None => final(self).cur() is None && r is None,
            },
    {
        match self.current_index {
            Some(index) => {
                if index == 0 {
                    self.current_index = Some(self.list.len() - 1);
                } else {
                    self.current_index = Some(index - 1);
                }
                self.current()
            },
            None => None,
        }
    }

    /// Drops a chat: the last entry takes the removed one's place, and the
    /// front position slides to keep to the left of the removed slot, off
    /// the list when it was already at the start.
    ///
    /// A list whose front is gone while other chats remain cannot tell
    /// where to slide from; the caller keeps a front chat whenever several
    /// chats are open.
    pub fn remove(&mut self, id: &ServiceId)
        requires
            old(self).wf(),
            old(self).cur() is None ==> id_index(old(self).ids(), id@) is None || old(
                self,
            ).ids().len() <= 1,
        ensures
            final(self).wf(),
            match id_index(old(self).ids(), id@) {
                None => final(self).ids() == old(self).ids() && final(self).cur() == old(
                    self,
                ).cur(),
                Some(j) => {
                    &&& final(self).ids() == old(self).ids().update(
                        j,
                        old(self).ids().last(),
                    ).drop_last()
                    &&& final(self).cur() == if final(self).ids().len() == 0 {
                        None::<usize>
                    } else {
                        match old(self).cur() {
                            Some(cur) => {
                                if cur >= j {
                                    if cur == 0 {
                                        None::<usize>
                                    } else {
                                        Some((cur - 1) as usize)
                                    }
                                } else {
                                    Some(cur)
                                }
                            },
                            None => None::<usize>,  // unreachable under the contract
                        }
                    }
                },
            },
    {
        proof {
            lemma_id_index(self.list@, id@);
        }
        let mut index: usize = 0;
        let mut found: bool = false;
        let n: usize = self.list.len();
        while index < n
            invariant_except_break
                index <= n == self.list@.len(),
                !found,
                forall|k: int| 0 <= k < index ==> #[trigger] self.list@[k]@ != id@,
            ensures
                index <= n == self.list@.len(),
                found ==> id_index(self.list@, id@) == Some(index as int) && index < n,
                !found ==> forall|k: int| 0 <= k < n ==> #[trigger] self.list@[k]@ != id@,
            decreases n - index,
        {
            if self.list[index].matches(id) {
                found = true;
                proof {
                    lemma_id_index_found(self.list@, id@, index as int);
                }
                break ;
            }
            index = index + 1;
        }
        proof {
            lemma_id_index(self.list@, id@);
        }
        if !found {
            return ;
        }
        self.list.swap_remove(index);
        if self.list.len() == 0 {
            self.current_index = None;
        } else {
            match self.current_index {
                Some(current) => {
                    if current >= index {
                        if current == 0 {
                            self.current_index = None;
                        } else {
                            self.current_index = Some(current - 1);
                        }
                    }
                },
                None => {
                    // Unreachable: the requires keeps a front chat whenever
                    // a removal can leave the list non-empty.
                },
            }
        }
    }
}

} // verus!
