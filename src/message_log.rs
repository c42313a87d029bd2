use vstd::prelude::*;
use crate::models::RMessage;

verus! {

/// The content of a message record: conversation, sender and text.
pub open spec fn record_of(m: RMessage) -> (int, int, Seq<char>) {
    (m.chat_id as int, m.user_id as int, m.message@)
}

/// The records of `rs` that belong to conversation `chat_id`, in order.
pub open spec fn in_chat(rs: Seq<(int, int, Seq<char>)>, chat_id: int) -> Seq<(int, int, Seq<char>)> {
    rs.filter(|r: (int, int, Seq<char>)| r.0 == chat_id)
}

/// An in-process message store: records in the order they were appended.
pub struct MessageLog {
    records: Vec<RMessage>,
}

impl MessageLog {
    /// The stored records, oldest first.
    pub closed spec fn records(&self) -> Seq<(int, int, Seq<char>)> {
        self.records@.map_values(|m: RMessage| record_of(m))
    }

    /// An empty store.
    pub fn new() -> (r: MessageLog)
        ensures
            r.records().len() == 0,
    {
        let r = MessageLog { records: Vec::new() };
        assert(r.records().len() == 0);
        r
    }

    /// Appends one record.
    pub fn append(&mut self, m: RMessage)
        ensures
            final(self).records() == old(self).records().push(record_of(m)),
    {
        let ghost r = record_of(m);
        self.records.push(m);
        assert(self.records() =~= old(self).records().push(r));
    }

    /// How many records are stored.
    pub fn len(&self) -> (n: usize)
        ensures
            n == self.records().len(),
    {
        self.records.len()
    }

    /// The history of conversation `chat_id`: its records, oldest first.
    pub fn history(&self, chat_id: i32) -> (r: Vec<RMessage>)
        ensures
            r@.map_values(|m: RMessage| record_of(m)) == in_chat(self.records(), chat_id as int),
    {
        let mut out: Vec<RMessage> = Vec::new();
        let mut i: usize = 0;
        proof {
            reveal(Seq::filter);
            assert(out@.map_values(|m: RMessage| record_of(m)) =~= in_chat(
                self.records().take(0),
                chat_id as int,
            ));
        }
        while i < self.records.len()
            invariant
                0 <= i <= self.records@.len(),
                out@.map_values(|m: RMessage| record_of(m)) == in_chat(
                    self.records().take(i as int),
                    chat_id as int,
                ),
            decreases self.records@.len() - i,
        {
            let ghost before = out@.map_values(|m: RMessage| record_of(m));
            let m = &self.records[i];
            assert(self.records().take(i + 1) =~= self.records().take(i as int).push(
                record_of(*m),
            ));
            proof {
                reveal(Seq::filter);
                assert(self.records().take(i + 1).drop_last() =~= self.records().take(i as int));
            }
            if m.chat_id == chat_id {
                let copy = RMessage { chat_id: m.chat_id, user_id: m.user_id, message: m.message.clone() };
                out.push(copy);
                assert(out@.map_values(|m: RMessage| record_of(m)) =~= before.push(record_of(copy)));
            }
            i = i + 1;
        }
        assert(self.records().take(self.records@.len() as int) =~= self.records());
        out
    }
}

} // verus!
