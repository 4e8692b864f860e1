//! The key-value store behind the server, and its request handler.
use crate::frame::{write_bytes, Frame};
use vstd::prelude::*;

verus! {

/// A request the store answers.
#[derive(Clone, Debug)]
pub enum Request {
    /// Look a key up.
    Get { key: Vec<u8> },
    /// Store a value under a key, replacing any earlier one.
    Put { key: Vec<u8>, value: Vec<u8> },
}

/// The map that a list of entries stands for; a later entry wins.
pub open spec fn to_map(s: Seq<(Vec<u8>, Vec<u8>)>) -> Map<Seq<u8>, Seq<u8>>
    decreases s.len(),
{
    if s.len() == 0 {
        Map::empty()
    } else {
        to_map(s.drop_last()).insert(s.last().0@, s.last().1@)
    }
}

/// No key occurs twice.
pub open spec fn unique_keys(s: Seq<(Vec<u8>, Vec<u8>)>) -> bool {
    forall|i: int, j: int| 0 <= i < j < s.len() ==> s[i].0@ != s[j].0@
}

proof fn lemma_to_map_lookup(s: Seq<(Vec<u8>, Vec<u8>)>, k: Seq<u8>)
    requires
        unique_keys(s),
    ensures
        to_map(s).contains_key(k) <==> exists|i: int| 0 <= i < s.len() && #[trigger] s[i].0@ == k,
        forall|i: int| 0 <= i < s.len() && #[trigger] s[i].0@ == k ==> to_map(s)[k] == s[i].1@,
    decreases s.len(),
{
    if s.len() > 0 {
        let t = s.drop_last();
        let n = s.len() - 1;
        assert(unique_keys(t));
        lemma_to_map_lookup(t, k);
        assert(to_map(s) == to_map(t).insert(s[n].0@, s[n].1@));
        if to_map(s).contains_key(k) {
            if s[n].0@ != k {
                let i = choose|i: int| 0 <= i < t.len() && #[trigger] t[i].0@ == k;
                assert(s[i].0@ == k);
            } else {
                assert(s[n].0@ == k);
            }
        }
        assert forall|i: int| 0 <= i < s.len() && #[trigger] s[i].0@ == k implies to_map(
            s,
        ).contains_key(k) && to_map(s)[k] == s[i].1@ by {
            if i < n {
                assert(t[i].0@ == k);
                assert(s[n].0@ != k);
            }
        }
    }
}

proof fn lemma_to_map_update(s: Seq<(Vec<u8>, Vec<u8>)>, i: int, e: (Vec<u8>, Vec<u8>))
    requires
        unique_keys(s),
        0 <= i < s.len(),
        s[i].0@ == e.0@,
    ensures
        to_map(s.update(i, e)) == to_map(s).insert(e.0@, e.1@),
        unique_keys(s.update(i, e)),
    decreases s.len(),
{
    let u = s.update(i, e);
    if i == s.len() - 1 {
        assert(u.drop_last() =~= s.drop_last());
        assert(to_map(u) =~= to_map(s).insert(e.0@, e.1@));
    } else {
        let t = s.drop_last();
        assert(unique_keys(t));
        lemma_to_map_update(t, i, e);
        assert(u.drop_last() =~= t.update(i, e));
        assert(s.last().0@ != e.0@);
        assert(to_map(u) =~= to_map(s).insert(e.0@, e.1@));
    }
}

/// Whether two byte strings are equal.
fn bytes_eq(a: &Vec<u8>, b: &Vec<u8>) -> (r: bool)
    ensures
        r == (a@ == b@),
{
    if a.len() != b.len() {
        return false;
    }
    let mut i: usize = 0;
    while i < a.len()
        invariant
            0 <= i <= a@.len(),
            a@.len() == b@.len(),
            forall|j: int| 0 <= j < i ==> a@[j] == b@[j],
        decreases a@.len() - i,
    {
        if a[i] != b[i] {
            return false;
        }
        i = i + 1;
    }
    proof {
        assert(a@ =~= b@);
    }
    true
}

/// A map from byte-string keys to byte-string values.
pub struct Store {
    entries: Vec<(Vec<u8>, Vec<u8>)>,
}

impl View for Store {
    type V = Map<Seq<u8>, Seq<u8>>;

    closed spec fn view(&self) -> Map<Seq<u8>, Seq<u8>> {
        to_map(self.entries@)
    }
}

impl Store {
    /// Well-formed: no key is stored twice.
    pub closed spec fn wf(&self) -> bool {
        unique_keys(self.entries@)
    }

    /// An empty store.
    pub fn new() -> (r: Store)
        ensures
            r.wf(),
            r@ == Map::<Seq<u8>, Seq<u8>>::empty(),
    {
        Store { entries: Vec::new() }
    }

    /// The position of `key` among the entries.
    fn find(&self, key: &Vec<u8>) -> (r: Option<usize>)
        requires
            self.wf(),
        ensures
            match r {
                Some(i) => i < self.entries@.len() && self.entries@[i as int].0@ == key@,
                None => forall|i: int| 0 <= i < self.entries@.len() ==> #[trigger] self.entries@[i].0@ != key@,
            },
    {
        let mut i: usize = 0;
        while i < self.entries.len()
            invariant
                0 <= i <= self.entries@.len(),
                forall|j: int| 0 <= j < i ==> #[trigger] self.entries@[j].0@ != key@,
            decreases self.entries@.len() - i,
        {
            if bytes_eq(&self.entries[i].0, key) {
                return Some(i);
            }
            i = i + 1;
        }
        None
    }

    /// The value stored under `key`, if any.
    pub fn get(&self, key: &Vec<u8>) -> (r: Option<&Vec<u8>>)
        requires
            self.wf(),
        ensures
            match r {
                Some(v) => self@.contains_key(key@) && self@[key@] == v@,
                None => !self@.contains_key(key@),
            },
    {
        proof {
            lemma_to_map_lookup(self.entries@, key@);
        }
        match self.find(key) {
            Some(i) => Some(&self.entries[i].1),
            None => None,
        }
    }

    /// Stores `value` under `key`, replacing any earlier value.
    pub fn set(&mut self, key: Vec<u8>, value: Vec<u8>)
        requires
            old(self).wf(),
        ensures
            final(self).wf(),
            final(self)@ == old(self)@.insert(key@, value@),
    {
        match self.find(&key) {
            Some(i) => {
                proof {
                    lemma_to_map_update(self.entries@, i as int, (key, value));
                }
                self.entries.set(i, (key, value));
            },
            None => {
                self.entries.push((key, value));
                proof {
                    assert(self.entries@.drop_last() =~= old(self).entries@);
                }
            },
        }
    }

    /// Answers one request: a `Put` stores the value and replies `OK`; a
    /// `Get` replies with the stored value, or the null frame.
    pub fn apply(&mut self, request: Request) -> (r: Frame)
        requires
            old(self).wf(),
        ensures
            final(self).wf(),
            match request {
                Request::Put { key, value } => {
                    &&& final(self)@ == old(self)@.insert(key@, value@)
                    &&& r matches Frame::Simple(s) && s@ == seq![79u8, 75u8]
                },
                Request::Get { key } => {
                    &&& final(self)@ == old(self)@
                    &&& if old(self)@.contains_key(key@) {
                        r matches Frame::Bulk(b) && b@ == old(self)@[key@]
                    } else {
                        r matches Frame::Null
                    }
                },
            },
    {
        match request {
            Request::Put { key, value } => {
                self.set(key, value);
                let ok: Vec<u8> = vec![79u8, 75u8];
                Frame::Simple(ok)
            },
            Request::Get { key } => match self.get(&key) {
                Some(v) => {
                    let mut out: Vec<u8> = Vec::new();
                    write_bytes(&mut out, v);
                    Frame::Bulk(out)
                },
                None => Frame::Null,
            },
        }
    }
}

} // verus!
