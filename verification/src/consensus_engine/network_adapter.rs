//! The engine's side of the network: it queues the messages to send, which
//! the program around the library writes out as JSON lines.

use crate::consensus_engine::block::Block;
use crate::consensus_engine::traits::Network;
use crate::consensus_engine::transaction::Transaction;
use vstd::prelude::*;

verus! {

/// A message to the peers.
pub enum Message {
    Block(Block),
    Chain(Vec<Block>),
    Transaction(Transaction),
}

/// Whether `m` carries a copy of `b`.
pub open spec fn carries_block(m: Message, b: Block) -> bool {
    m matches Message::Block(x) && x.same(b)
}

/// Whether `m` carries the chain `c`.
pub open spec fn carries_chain(m: Message, c: Seq<Block>) -> bool {
    m matches Message::Chain(x) && x@ == c
}

/// The messages queued for the peers, oldest first.
pub struct NetworkAdapter {
    outbox: Vec<Message>,
}

impl NetworkAdapter {
    /// The queued messages.
    pub closed spec fn sent(&self) -> Seq<Message> {
        self.outbox@
    }

    /// An adapter with nothing queued.
    pub fn new() -> (n: NetworkAdapter)
        ensures
            n.sent() == Seq::<Message>::empty(),
    {
        let n = NetworkAdapter { outbox: Vec::new() };
        assert(n.sent() =~= Seq::<Message>::empty());
        n
    }

    /// Hands out the queued messages and empties the queue.
    pub fn take_messages(&mut self) -> (r: Vec<Message>)
        ensures
            r@ == old(self).sent(),
            final(self).sent() == Seq::<Message>::empty(),
    {
        let mut r: Vec<Message> = Vec::new();
        std::mem::swap(&mut r, &mut self.outbox);
        assert(self.sent() =~= Seq::<Message>::empty());
        r
    }
}

impl Network for NetworkAdapter {
    /// Queues a copy of `block`.
    fn broadcast_block(&mut self, block: &Block)
        ensures
            final(self).sent().len() == old(self).sent().len() + 1,
            final(self).sent().drop_last() == old(self).sent(),
            carries_block(final(self).sent().last(), *block),
    {
        self.outbox.push(Message::Block(block.clone()));
        assert(self.sent().drop_last() =~= old(self).sent());
    }

    /// Queues `chain`.
    fn broadcast_chain(&mut self, chain: Vec<Block>)
        ensures
            final(self).sent() == old(self).sent().push(Message::Chain(chain)),
    {
        self.outbox.push(Message::Chain(chain));
    }
}

} // verus!
