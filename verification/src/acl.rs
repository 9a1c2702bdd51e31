//! Ordered access-control lists.
//!
//! An ACL is an ordered sequence of entries evaluated first-match-wins
//! by the native layer, so order is meaning: insertion shifts the
//! entries after the index down by one, and removal takes out the first
//! entry equal to the one given.  Every mutation either succeeds or
//! leaves the list exactly as it was.

use vstd::prelude::*;

use crate::errors::ErrorKind;
use crate::flags::{AclAcceptReject, AclCheckType};

verus! {

/// One filter rule: how to match, what to do on a match, and the
/// source and destination address patterns to match against.
pub struct AclEntry {
    pub check_type: AclCheckType,
    pub verdict: AclAcceptReject,
    pub src: String,
    pub dst: String,
}

/// The mathematical value of one ACL entry.
pub struct AclEntryView {
    pub check_type: AclCheckType,
    pub verdict: AclAcceptReject,
    pub src: Seq<char>,
    pub dst: Seq<char>,
}

impl View for AclEntry {
    type V = AclEntryView;

    open spec fn view(&self) -> AclEntryView {
        AclEntryView {
            check_type: self.check_type,
            verdict: self.verdict,
            src: self.src@,
            dst: self.dst@,
        }
    }
}

impl AclEntry {
    /// An entry equal in value to `self`.
    pub fn duplicate(&self) -> (r: AclEntry)
        ensures
            r@ == self@,
    {
        AclEntry {
            check_type: self.check_type,
            verdict: self.verdict,
            src: self.src.clone(),
            dst: self.dst.clone(),
        }
    }

    /// Whether `self` and `other` agree in every field.
    pub fn same_entry(&self, other: &AclEntry) -> (r: bool)
        ensures
            r == (self@ == other@),
    {
        let kinds = match (self.check_type, other.check_type) {
            (AclCheckType::Address, AclCheckType::Address) => true,
            (AclCheckType::Mask, AclCheckType::Mask) => true,
            (AclCheckType::Range, AclCheckType::Range) => true,
            _ => false,
        };
        let verdicts = match (self.verdict, other.verdict) {
            (AclAcceptReject::Accept, AclAcceptReject::Accept) => true,
            (AclAcceptReject::Reject, AclAcceptReject::Reject) => true,
            _ => false,
        };
        kinds && verdicts && self.src.eq(&other.src) && self.dst.eq(&other.dst)
    }
}

/// The index of the first entry of `s` equal to `e`, or `-1` when no
/// entry is.
pub open spec fn first_match(s: Seq<AclEntryView>, e: AclEntryView) -> int
    decreases s.len(),
{
    if s.len() == 0 {
        -1
    } else if s[0] == e {
        0
    } else if first_match(s.drop_first(), e) == -1 {
        -1
    } else {
        1 + first_match(s.drop_first(), e)
    }
}

/// What `first_match` finds: a position inside the sequence holding
/// `e` with no earlier occurrence, or `-1` when `e` does not occur.
pub proof fn lemma_first_match_props(s: Seq<AclEntryView>, e: AclEntryView)
    ensures
        first_match(s, e) == -1 ==> forall|j: int| 0 <= j < s.len() ==> s[j] != e,
        first_match(s, e) != -1 ==> 0 <= first_match(s, e) < s.len() && s[first_match(s, e)] == e,
        first_match(s, e) != -1 ==> forall|j: int| 0 <= j < first_match(s, e) ==> s[j] != e,
    decreases s.len(),
{
    if s.len() != 0 && s[0] != e {
        lemma_first_match_props(s.drop_first(), e);
        assert(forall|j: int| 1 <= j < s.len() ==> s[j] == s.drop_first()[j - 1]);
    }
}

/// `first_match` agrees with any position shown to be the first
/// occurrence of `e`.
pub proof fn lemma_first_match_at(s: Seq<AclEntryView>, e: AclEntryView, n: int)
    requires
        0 <= n < s.len(),
        s[n] == e,
        forall|j: int| 0 <= j < n ==> s[j] != e,
    ensures
        first_match(s, e) == n,
    decreases s.len(),
{
    if s[0] != e {
        assert(forall|j: int| 0 <= j < n - 1 ==> s.drop_first()[j] == s[j + 1] && s[j + 1] != e);
        lemma_first_match_at(s.drop_first(), e, n - 1);
    }
}

/// An ordered access-control list.
pub struct Acl {
    entries: Vec<AclEntry>,
}

impl View for Acl {
    type V = Seq<AclEntryView>;

    closed spec fn view(&self) -> Seq<AclEntryView> {
        self.entries@.map_values(|e: AclEntry| e@)
    }
}

impl Acl {
    /// An empty list.
    pub fn new() -> (r: Acl)
        ensures
            r@ == Seq::<AclEntryView>::empty(),
    {
        let r = Acl { entries: Vec::new() };
        proof {
            assert(r@ =~= Seq::<AclEntryView>::empty());
        }
        r
    }

    /// How many entries the list holds.
    pub fn len(&self) -> (r: usize)
        ensures
            r == self@.len(),
    {
        self.entries.len()
    }

    /// Appends `entry` behind every present entry.
    pub fn add(&mut self, entry: AclEntry)
        ensures
            final(self)@ == old(self)@.push(entry@),
    {
        self.entries.push(entry);
        proof {
            assert(self@ =~= old(self)@.push(self.entries@.last()@));
        }
    }

    /// Places `entry` at position `index`, shifting the entries from
    /// `index` on down by one; entries before `index` keep their
    /// places.  Fails with `IndexOutOfRange` when `index` lies beyond
    /// the current length, and then changes nothing.
    pub fn insert(&mut self, index: usize, entry: AclEntry) -> (r: Result<(), ErrorKind>)
        ensures
            r is Ok <==> index <= old(self)@.len(),
            r is Ok ==> final(self)@ == old(self)@.insert(index as int, entry@),
            r is Err ==> final(self)@ == old(self)@ && r == Err::<(), ErrorKind>(
                ErrorKind::IndexOutOfRange,
            ),
    {
        if index > self.entries.len() {
            return Err(ErrorKind::IndexOutOfRange);
        }
        self.entries.insert(index, entry);
        proof {
            assert(self@ =~= old(self)@.insert(index as int, self.entries@[index as int]@));
        }
        Ok(())
    }

    /// Takes out the first entry equal to `entry`.  Fails with
    /// `NotFound` when no entry is equal, and then changes nothing.
    pub fn remove(&mut self, entry: &AclEntry) -> (r: Result<(), ErrorKind>)
        ensures
            r is Ok <==> first_match(old(self)@, entry@) != -1,
            r is Ok ==> final(self)@ == old(self)@.remove(first_match(old(self)@, entry@)),
            r is Err ==> final(self)@ == old(self)@ && r == Err::<(), ErrorKind>(
                ErrorKind::NotFound,
            ),
    {
        let ghost s = self@;
        let mut i: usize = 0;
        while i < self.entries.len()
            invariant
                self == old(self),
                s == self@,
                i <= self.entries@.len(),
                forall|j: int| 0 <= j < i ==> s[j] != entry@,
            decreases self.entries@.len() - i,
        {
            if self.entries[i].same_entry(entry) {
                proof {
                    lemma_first_match_at(s, entry@, i as int);
                }
                self.entries.remove(i);
                proof {
                    assert(self@ =~= s.remove(i as int));
                }
                return Ok(());
            }
            i += 1;
        }
        proof {
            lemma_first_match_props(s, entry@);
        }
        Err(ErrorKind::NotFound)
    }

    /// Whether some entry equals `entry`.
    pub fn contains_entry(&self, entry: &AclEntry) -> (r: bool)
        ensures
            r == (first_match(self@, entry@) != -1),
    {
        let ghost s = self@;
        let mut i: usize = 0;
        while i < self.entries.len()
            invariant
                s == self@,
                i <= self.entries@.len(),
                forall|j: int| 0 <= j < i ==> s[j] != entry@,
            decreases self.entries@.len() - i,
        {
            if self.entries[i].same_entry(entry) {
                proof {
                    lemma_first_match_at(s, entry@, i as int);
                }
                return true;
            }
            i += 1;
        }
        proof {
            lemma_first_match_props(s, entry@);
        }
        false
    }

    /// Empties the list.
    pub fn clear(&mut self)
        ensures
            final(self)@ == Seq::<AclEntryView>::empty(),
    {
        self.entries.clear();
        proof {
            assert(self@ =~= Seq::<AclEntryView>::empty());
        }
    }

    /// A point-in-time copy of the entries, in list order.
    pub fn list(&self) -> (r: Vec<AclEntry>)
        ensures
            r@.map_values(|e: AclEntry| e@) == self@,
    {
        let mut out: Vec<AclEntry> = Vec::new();
        let mut i: usize = 0;
        while i < self.entries.len()
            invariant
                i <= self.entries@.len(),
                out@.len() == i,
                forall|j: int| 0 <= j < i ==> out@[j]@ == self@[j],
            decreases self.entries@.len() - i,
        {
            out.push(self.entries[i].duplicate());
            i += 1;
        }
        proof {
            assert(out@.map_values(|e: AclEntry| e@) =~= self@);
        }
        out
    }
}

/// Law: inserting an entry at position `index` yields the original
/// sequence with the entry at `index`, the entries before it in their
/// old places, and every later entry shifted down by one.
pub proof fn lemma_acl_insert_shifts(s: Seq<AclEntryView>, e: AclEntryView, index: int)
    requires
        0 <= index <= s.len(),
    ensures
        s.insert(index, e).len() == s.len() + 1,
        s.insert(index, e)[index] == e,
        forall|j: int| 0 <= j < index ==> s.insert(index, e)[j] == s[j],
        forall|j: int| index <= j < s.len() ==> s.insert(index, e)[j + 1] == s[j],
{
}

} // verus!
