//! The table of pending transactions with the helper: each outgoing action
//! that expects an answer gets an id; the helper's answer, an error, or the
//! timeout settles it, once.  The channels that carry the answers live
//! outside the library; this table decides which transaction an event
//! settles and what it is answered.
use vstd::prelude::*;
use crate::json::Json;
use crate::private_api::TransactionType;
use crate::text::{chars_equal, chars_of, string_of};

verus! {

/// How long a transaction may wait for its answer, in seconds.
pub const TRANSACTION_TIMEOUT_SECS: u64 = 120;

/// The pending transactions, by id, in the order they began.
pub struct TransactionTable {
    entries: Vec<(String, TransactionType)>,
}

/// What a settled transaction is answered with.
#[derive(Debug)]
pub struct TransactionResult {
    pub transaction_type: TransactionType,
    pub identifier: String,
    pub data: Option<Json>,
}

/// The type of the transaction with id `id`, if one is pending.
pub open spec fn pending_type(s: Seq<(Seq<char>, TransactionType)>, id: Seq<char>) -> Option<TransactionType>
    decreases s.len(),
{
    if s.len() == 0 {
        None
    } else if s.last().0 == id {
        Some(s.last().1)
    } else {
        pending_type(s.drop_last(), id)
    }
}

/// The entries whose id is not `id`.
pub open spec fn without(s: Seq<(Seq<char>, TransactionType)>, id: Seq<char>) -> Seq<(Seq<char>, TransactionType)>
    decreases s.len(),
{
    if s.len() == 0 {
        s
    } else if s.last().0 == id {
        without(s.drop_last(), id)
    } else {
        without(s.drop_last(), id).push(s.last())
    }
}

/// The message a transaction that waited too long is answered with.
pub open spec fn timeout_message() -> Seq<char> {
    "Transaction timeout"@
}

impl TransactionTable {
    /// The pending transactions: each id with its type, in the order they
    /// began.
    pub closed spec fn view(&self) -> Seq<(Seq<char>, TransactionType)> {
        self.entries@.map_values(|e: (String, TransactionType)| (e.0@, e.1))
    }

    /// An empty table.
    pub fn new() -> (r: Self)
        ensures
            r.view() == Seq::<(Seq<char>, TransactionType)>::empty(),
    {
        let r = TransactionTable { entries: Vec::new() };
        assert(r.view() =~= Seq::<(Seq<char>, TransactionType)>::empty());
        r
    }

    /// Takes the entries with id `id` out of the table; gives the type of
    /// the latest of them.
    fn take_entries(&mut self, id: &str) -> (r: Option<TransactionType>)
        ensures
            r == pending_type(old(self).view(), id@),
            final(self).view() == without(old(self).view(), id@),
    {
        let ghost v0 = self.view();
        let target = chars_of(id);
        let mut kept: Vec<(String, TransactionType)> = Vec::new();
        let mut found: Option<TransactionType> = None;
        let mut i: usize = 0;
        proof {
            assert(v0.take(0) =~= Seq::<(Seq<char>, TransactionType)>::empty());
            assert(kept@.map_values(|e: (String, TransactionType)| (e.0@, e.1)) =~= Seq::<(Seq<char>, TransactionType)>::empty());
        }
        while i < self.entries.len()
            invariant
                i <= self.entries@.len(),
                target@ == id@,
                v0 == self.view(),
                v0.len() == self.entries@.len(),
                found == pending_type(v0.take(i as int), id@),
                kept@.map_values(|e: (String, TransactionType)| (e.0@, e.1)) == without(v0.take(i as int), id@),
            decreases self.entries.len() - i,
        {
            let c = chars_of(self.entries[i].0.as_str());
            proof {
                assert(v0[i as int] == (self.entries@[i as int].0@, self.entries@[i as int].1));
                assert(v0.take(i + 1).drop_last() =~= v0.take(i as int));
                assert(v0.take(i + 1).last() == v0[i as int]);
            }
            if chars_equal(&c, &target) {
                found = Some(self.entries[i].1);
            } else {
                let ghost k0 = kept@;
                kept.push((string_of(&c), self.entries[i].1));
                proof {
                    assert(kept@.map_values(|e: (String, TransactionType)| (e.0@, e.1)) =~= k0.map_values(
                        |e: (String, TransactionType)| (e.0@, e.1),
                    ).push(v0[i as int]));
                }
            }
            i = i + 1;
        }
        proof {
            assert(v0.take(v0.len() as int) =~= v0);
        }
        self.entries = kept;
        found
    }

    /// Starts a transaction: `id` is pending with the given type (an entry
    /// with the same id is replaced).
    pub fn create(&mut self, id: &str, t: TransactionType)
        ensures
            final(self).view() == without(old(self).view(), id@).push((id@, t)),
    {
        let _ = self.take_entries(id);
        let ghost v0 = self.view();
        self.entries.push((string_of(&chars_of(id)), t));
        proof {
            assert(self.view() =~= v0.push((id@, t)));
        }
    }

    /// Settles the transaction `id`, if it is pending: it leaves the table,
    /// and its type is given.
    pub fn take(&mut self, id: &str) -> (r: Option<TransactionType>)
        ensures
            r == pending_type(old(self).view(), id@),
            final(self).view() == without(old(self).view(), id@),
    {
        self.take_entries(id)
    }

    /// Whether the transaction `id` is pending.
    pub fn is_pending(&self, id: &str) -> (r: bool)
        ensures
            r == (pending_type(self.view(), id@) is Some),
    {
        let target = chars_of(id);
        let mut i: usize = 0;
        let mut found = false;
        while i < self.entries.len()
            invariant
                i <= self.entries@.len(),
                target@ == id@,
                self.view().len() == self.entries@.len(),
                found == (pending_type(self.view().take(i as int), id@) is Some),
            decreases self.entries.len() - i,
        {
            let c = chars_of(self.entries[i].0.as_str());
            proof {
                assert(self.view()[i as int] == (self.entries@[i as int].0@, self.entries@[i as int].1));
                assert(self.view().take(i + 1).drop_last() =~= self.view().take(i as int));
                assert(self.view().take(i + 1).last() == self.view()[i as int]);
            }
            if chars_equal(&c, &target) {
                found = true;
            }
            i = i + 1;
        }
        proof {
            assert(self.view().take(self.view().len() as int) =~= self.view());
        }
        found
    }

    /// How many transactions are pending.
    pub fn pending_count(&self) -> (r: usize)
        ensures
            r == self.view().len(),
    {
        self.entries.len()
    }

    /// The helper answered transaction `id`: if it is pending it is settled
    /// with its type, the identifier and the data the helper sent.
    pub fn resolve(&mut self, id: &str, identifier: &str, data: Option<Json>) -> (r: Option<TransactionResult>)
        ensures
            final(self).view() == without(old(self).view(), id@),
            match pending_type(old(self).view(), id@) {
                Some(t) => r matches Some(res) && res.transaction_type == t && res.identifier@
                    == identifier@ && res.data == data,
                None => r is None,
            },
    {
        match self.take_entries(id) {
            Some(t) => Some(
                TransactionResult {
                    transaction_type: t,
                    identifier: string_of(&chars_of(identifier)),
                    data,
                },
            ),
            None => None,
        }
    }

    /// Transaction `id` failed: if it is pending it is settled with the
    /// error message.
    pub fn reject(&mut self, id: &str, error: &str) -> (r: Option<String>)
        ensures
            final(self).view() == without(old(self).view(), id@),
            match pending_type(old(self).view(), id@) {
                Some(_) => r matches Some(m) && m@ == error@,
                None => r is None,
            },
    {
        match self.take_entries(id) {
            Some(_) => Some(string_of(&chars_of(error))),
            None => None,
        }
    }

    /// Transaction `id` waited too long: if it is still pending it is
    /// settled with the timeout message.
    pub fn expire(&mut self, id: &str) -> (r: Option<String>)
        ensures
            final(self).view() == without(old(self).view(), id@),
            match pending_type(old(self).view(), id@) {
                Some(_) => r matches Some(m) && m@ == timeout_message(),
                None => r is None,
            },
    {
        self.reject(id, "Transaction timeout")
    }
}

/// A settled transaction is settled once: once its id is taken out, a later
/// answer, error or timeout for it finds nothing; every other pending
/// transaction stays as it was; and taking out an id that is not pending
/// changes nothing.
pub proof fn law_settled_once(s: Seq<(Seq<char>, TransactionType)>, id: Seq<char>, other: Seq<char>)
    ensures
        pending_type(without(s, id), id) is None,
        other != id ==> pending_type(without(s, id), other) == pending_type(s, other),
        pending_type(s, id) is None ==> without(s, id) == s,
    decreases s.len(),
{
    if s.len() > 0 {
        let d = s.drop_last();
        let x = s.last();
        law_settled_once(d, id, other);
        let w = without(d, id);
        if x.0 != id {
            assert(w.push(x).drop_last() =~= w);
            assert(w.push(x).last() == x);
            assert(d.push(x) =~= s);
        }
    }
}

/// A transaction just started is pending with its type, whatever was
/// pending before under its id.
pub proof fn law_created_pending(s: Seq<(Seq<char>, TransactionType)>, id: Seq<char>, t: TransactionType)
    ensures
        pending_type(without(s, id).push((id, t)), id) == Some(t),
{
    assert(without(s, id).push((id, t)).drop_last() =~= without(s, id));
}

} // verus!
