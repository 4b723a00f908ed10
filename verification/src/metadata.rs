//! Job metadata: a mapping from string keys to string values, with the
//! attempt counters that the lifecycle keeps in it.
//!
//! Counters are decimal strings; a key that is absent reads as zero.

use crate::decimal::{decimal_text, format_u64, lemma_parse_decimal_text, parse_u64, parse_u64_spec};
use crate::text::str_eq;
use vstd::prelude::*;
use vstd::string::*;

verus! {

/// Key of the number of processing attempts made so far.
pub const JOB_PROCESS_ATTEMPT_METADATA_KEY: &'static str = "process_attempt";

/// Key of the number of verification attempts made so far.
pub const JOB_VERIFICATION_ATTEMPT_METADATA_KEY: &'static str = "verification_attempt";

/// Key under which a failed job keeps the name of the status it had before.
pub const JOB_LAST_STATUS_METADATA_KEY: &'static str = "last_job_status";

/// The mapping that a list of pairs stands for; of two pairs with one key the
/// later one counts.
pub open spec fn pairs_map(s: Seq<(String, String)>) -> Map<Seq<char>, Seq<char>>
    decreases s.len(),
{
    if s.len() == 0 {
        Map::empty()
    } else {
        pairs_map(s.drop_last()).insert(s.last().0@, s.last().1@)
    }
}

/// `i` is the place of the last pair of `s` whose key is `key`.
pub open spec fn is_last_place(s: Seq<(String, String)>, key: Seq<char>, i: int) -> bool {
    &&& 0 <= i < s.len()
    &&& s[i].0@ == key
    &&& forall|j: int| i < j < s.len() ==> (#[trigger] s[j]).0@ != key
}

/// No pair of `s` has the key `key`.
pub open spec fn no_place(s: Seq<(String, String)>, key: Seq<char>) -> bool {
    forall|j: int| 0 <= j < s.len() ==> (#[trigger] s[j]).0@ != key
}

/// A key without a pair is not in the mapping.
pub proof fn lemma_absent(s: Seq<(String, String)>, key: Seq<char>)
    requires
        no_place(s, key),
    ensures
        !pairs_map(s).contains_key(key),
    decreases s.len(),
{
    if s.len() > 0 {
        assert forall|j: int| 0 <= j < s.drop_last().len() implies (#[trigger] s.drop_last()[j]).0@
            != key by {
            assert(s.drop_last()[j] == s[j]);
        }
        lemma_absent(s.drop_last(), key);
        assert(s.last() == s[s.len() - 1]);
    }
}

/// The mapping gives a key the value of its last pair.
pub proof fn lemma_present(s: Seq<(String, String)>, key: Seq<char>, i: int)
    requires
        is_last_place(s, key, i),
    ensures
        pairs_map(s).contains_key(key),
        pairs_map(s)[key] == s[i].1@,
    decreases s.len(),
{
    if i == s.len() - 1 {
    } else {
        assert(s.last() == s[s.len() - 1]);
        assert forall|j: int| i < j < s.drop_last().len() implies (#[trigger] s.drop_last()[j]).0@
            != key by {
            assert(s.drop_last()[j] == s[j]);
        }
        assert(s.drop_last()[i] == s[i]);
        lemma_present(s.drop_last(), key, i);
    }
}

/// Every key of the mapping has a last pair.
pub proof fn lemma_key_has_place(s: Seq<(String, String)>, key: Seq<char>) -> (i: int)
    requires
        pairs_map(s).contains_key(key),
    ensures
        is_last_place(s, key, i),
    decreases s.len(),
{
    if s.last().0@ == key {
        s.len() - 1
    } else {
        let i = lemma_key_has_place(s.drop_last(), key);
        assert(s.drop_last()[i] == s[i]);
        assert forall|j: int| i < j < s.len() implies (#[trigger] s[j]).0@ != key by {
            if j < s.len() - 1 {
                assert(s.drop_last()[j] == s[j]);
            }
        }
        i
    }
}

/// Replacing the last pair of a key changes the mapping at that key alone.
pub proof fn lemma_replace(s: Seq<(String, String)>, i: int, pair: (String, String))
    requires
        is_last_place(s, pair.0@, i),
    ensures
        pairs_map(s.update(i, pair)) =~= pairs_map(s).insert(pair.0@, pair.1@),
    decreases s.len(),
{
    let t = s.update(i, pair);
    if i == s.len() - 1 {
        assert(t.drop_last() =~= s.drop_last());
    } else {
        assert(s.last() == s[s.len() - 1]);
        assert(t.last() == s.last());
        assert(t.drop_last() =~= s.drop_last().update(i, pair));
        assert forall|j: int| i < j < s.drop_last().len() implies (#[trigger] s.drop_last()[j]).0@
            != pair.0@ by {
            assert(s.drop_last()[j] == s[j]);
        }
        assert(s.drop_last()[i] == s[i]);
        lemma_replace(s.drop_last(), i, pair);
    }
}

/// String-to-string mapping carried by a job.
#[derive(Debug)]
pub struct Metadata {
    entries: Vec<(String, String)>,
}

impl View for Metadata {
    type V = Map<Seq<char>, Seq<char>>;

    closed spec fn view(&self) -> Map<Seq<char>, Seq<char>> {
        pairs_map(self.entries@)
    }
}

impl Metadata {
    /// The empty mapping.
    pub fn new() -> (m: Metadata)
        ensures
            m@ == Map::<Seq<char>, Seq<char>>::empty(),
    {
        Metadata { entries: Vec::new() }
    }

    /// The place of the last pair with key `key`, if there is one.
    fn find(&self, key: &str) -> (r: Option<usize>)
        ensures
            match r {
                Some(i) => is_last_place(self.entries@, key@, i as int),
                None => no_place(self.entries@, key@),
            },
    {
        let mut i: usize = self.entries.len();
        while i > 0
            invariant
                i <= self.entries@.len(),
                forall|j: int| i <= j < self.entries@.len() ==> (#[trigger] self.entries@[j]).0@ != key@,
            decreases i,
        {
            i = i - 1;
            if str_eq(self.entries[i].0.as_str(), key) {
                return Some(i);
            }
        }
        None
    }

    /// The value kept under `key`.
    pub fn get(&self, key: &str) -> (r: Option<&String>)
        ensures
            match r {
                Some(v) => self@.contains_key(key@) && v@ == self@[key@],
                None => !self@.contains_key(key@),
            },
    {
        match self.find(key) {
            Some(i) => {
                proof {
                    lemma_present(self.entries@, key@, i as int);
                }
                Some(&self.entries[i].1)
            },
            None => {
                proof {
                    lemma_absent(self.entries@, key@);
                }
                None
            },
        }
    }

    /// Whether a value is kept under `key`.
    pub fn contains_key(&self, key: &str) -> (r: bool)
        ensures
            r == self@.contains_key(key@),
    {
        self.get(key).is_some()
    }

    /// Puts `value` under `key`, in place of what was there.
    pub fn insert(&mut self, key: String, value: String)
        ensures
            final(self)@ == old(self)@.insert(key@, value@),
    {
        match self.find(key.as_str()) {
            Some(i) => {
                proof {
                    lemma_replace(self.entries@, i as int, (key, value));
                }
                self.entries.set(i, (key, value));
            },
            None => {
                let ghost before = self.entries@;
                self.entries.push((key, value));
                assert(self.entries@.drop_last() =~= before);
            },
        }
    }

    /// Pairs that stand for the mapping, in the order in which they are
    /// kept.
    pub fn to_pairs(&self) -> (r: Vec<(String, String)>)
        ensures
            pairs_map(r@) == self@,
    {
        let mut out: Vec<(String, String)> = Vec::new();
        let mut i: usize = 0;
        while i < self.entries.len()
            invariant
                i <= self.entries@.len(),
                out@ =~= self.entries@.take(i as int),
            decreases self.entries@.len() - i,
        {
            let k = self.entries[i].0.clone();
            let v = self.entries[i].1.clone();
            out.push((k, v));
            i = i + 1;
        }
        assert(self.entries@.take(i as int) =~= self.entries@);
        out
    }

    /// The mapping that `pairs` stands for; of two pairs with one key the
    /// later one counts.
    pub fn from_pairs(pairs: Vec<(String, String)>) -> (m: Metadata)
        ensures
            m@ == pairs_map(pairs@),
    {
        let mut m = Metadata::new();
        let mut i: usize = 0;
        while i < pairs.len()
            invariant
                i <= pairs@.len(),
                m@ == pairs_map(pairs@.take(i as int)),
            decreases pairs@.len() - i,
        {
            let key = pairs[i].0.clone();
            let value = pairs[i].1.clone();
            assert(pairs@.take(i + 1).drop_last() =~= pairs@.take(i as int));
            m.insert(key, value);
            i = i + 1;
        }
        assert(pairs@.take(i as int) =~= pairs@);
        m
    }

    /// Whether every pair of `self` is found in `other` with the same value.
    fn within(&self, other: &Metadata) -> (r: bool)
        ensures
            r == (forall|k: Seq<char>| #[trigger]
                self@.contains_key(k) ==> other@.contains_key(k) && other@[k] == self@[k]),
    {
        let mut i: usize = 0;
        while i < self.entries.len()
            invariant
                i <= self.entries@.len(),
                forall|j: int|
                    0 <= j < i ==> {
                        let k = (#[trigger] self.entries@[j]).0@;
                        other@.contains_key(k) && other@[k] == self@[k]
                    },
            decreases self.entries@.len() - i,
        {
            let key = self.entries[i].0.as_str();
            let mine = self.get(key);
            let theirs = other.get(key);
            proof {
                lemma_has_key(self.entries@, i as int);
            }
            let same = match (mine, theirs) {
                (Some(a), Some(b)) => str_eq(a.as_str(), b.as_str()),
                _ => false,
            };
            if !same {
                return false;
            }
            i = i + 1;
        }
        proof {
            assert forall|k: Seq<char>| #[trigger]
                self@.contains_key(k) implies other@.contains_key(k) && other@[k] == self@[k] by {
                let j = lemma_key_has_place(self.entries@, k);
                assert(self.entries@[j].0@ == k);
            }
        }
        true
    }

    /// Whether the two hold the same mapping.
    pub fn same_as(&self, other: &Metadata) -> (r: bool)
        ensures
            r == (self@ == other@),
    {
        let r = self.within(other) && other.within(self);
        proof {
            if r {
                assert(self@ =~= other@);
            }
        }
        r
    }
}

impl PartialEq for Metadata {
    fn eq(&self, other: &Metadata) -> (r: bool) {
        self.same_as(other)
    }
}

impl Eq for Metadata {

}

impl vstd::std_specs::cmp::PartialEqSpecImpl for Metadata {
    open spec fn obeys_eq_spec() -> bool {
        true
    }

    open spec fn eq_spec(&self, other: &Metadata) -> bool {
        self@ == other@
    }
}

/// A key that has a pair is in the mapping.
pub proof fn lemma_has_key(s: Seq<(String, String)>, j: int)
    requires
        0 <= j < s.len(),
    ensures
        pairs_map(s).contains_key(s[j].0@),
    decreases s.len(),
{
    if j < s.len() - 1 {
        assert(s.drop_last()[j] == s[j]);
        lemma_has_key(s.drop_last(), j);
    }
}

impl Clone for Metadata {
    fn clone(&self) -> (m: Metadata)
        ensures
            m@ == self@,
    {
        Metadata { entries: self.to_pairs() }
    }
}

/// The number that the counter under `key` holds: zero where the key is
/// absent, nothing where its value is no decimal `u64`.
pub open spec fn counter_value(m: Map<Seq<char>, Seq<char>>, key: Seq<char>) -> Option<u64> {
    if m.contains_key(key) {
        parse_u64_spec(m[key])
    } else {
        Some(0u64)
    }
}

/// What can go wrong with a counter.
#[derive(Clone, Copy, Debug, PartialEq, Eq, Structural)]
pub enum CounterError {
    /// The value under the key is no decimal `u64`.
    NotANumber,
    /// The counter stands at `u64::MAX` and cannot go up.
    Overflow,
}

/// Reads the counter under `key`.
pub fn get_u64_from_metadata(metadata: &Metadata, key: &str) -> (r: Result<u64, CounterError>)
    ensures
        match r {
            Ok(n) => counter_value(metadata@, key@) == Some(n),
            Err(e) => e == CounterError::NotANumber && counter_value(metadata@, key@) is None,
        },
{
    match metadata.get(key) {
        Some(text) => match parse_u64(text.as_str()) {
            Some(n) => Ok(n),
            None => Err(CounterError::NotANumber),
        },
        None => Ok(0),
    }
}

/// The mapping after the counter under `key` went up by one.
pub open spec fn incremented(m: Map<Seq<char>, Seq<char>>, key: Seq<char>) -> Result<
    Map<Seq<char>, Seq<char>>,
    CounterError,
> {
    match counter_value(m, key) {
        None => Err(CounterError::NotANumber),
        Some(n) => if n == u64::MAX {
            Err(CounterError::Overflow)
        } else {
            Ok(m.insert(key, decimal_text((n + 1) as nat)))
        },
    }
}

/// A copy of `metadata` in which the counter under `key` is one higher. The
/// argument is left as it is.
pub fn increment_key_in_metadata(metadata: &Metadata, key: &str) -> (r: Result<
    Metadata,
    CounterError,
>)
    ensures
        match r {
            Ok(m) => incremented(metadata@, key@) == Ok::<Map<Seq<char>, Seq<char>>, CounterError>(
                m@,
            ),
            Err(e) => incremented(metadata@, key@) == Err::<Map<Seq<char>, Seq<char>>, CounterError>(
                e,
            ),
        },
{
    match get_u64_from_metadata(metadata, key) {
        Err(e) => Err(e),
        Ok(n) => {
            if n == u64::MAX {
                Err(CounterError::Overflow)
            } else {
                let mut out = metadata.clone();
                out.insert(String::from_str(key), format_u64(n + 1));
                Ok(out)
            }
        },
    }
}

/// A counter that is absent reads as zero, and one increment makes it "1";
/// a counter that was read as `n < u64::MAX` reads as `n + 1` afterwards, and
/// no other key changes.
pub proof fn lemma_increment(m: Map<Seq<char>, Seq<char>>, key: Seq<char>)
    ensures
        !m.contains_key(key) ==> counter_value(m, key) == Some(0u64) && incremented(m, key) == Ok::<
            Map<Seq<char>, Seq<char>>,
            CounterError,
        >(m.insert(key, seq!['1'])),
        incremented(m, key) is Ok <==> counter_value(m, key) is Some && counter_value(m, key)
            != Some(u64::MAX),
        incremented(m, key) matches Ok(after) ==> {
            &&& counter_value(after, key) == Some((counter_value(m, key)->0 + 1) as u64)
            &&& forall|k: Seq<char>| k != key ==> after.contains_key(k) == m.contains_key(k)
            &&& forall|k: Seq<char>| k != key && m.contains_key(k) ==> after[k] == m[k]
        },
{
    if !m.contains_key(key) {
        assert(decimal_text(1) =~= seq!['1']);
    }
    if let Ok(after) = incremented(m, key) {
        let n = counter_value(m, key)->0;
        lemma_parse_decimal_text((n + 1) as u64);
    }
}

} // verus!
