//! The in-memory person registry.
//!
//! A registry owns every stored record, keeps identifiers and nicknames
//! unique, and serves point lookup, a full snapshot and a count. An
//! insert checks the nickname against the stored records and refuses a
//! duplicate without changing anything; the check and the insertion are
//! one call, so a caller that serializes writes gets the uniqueness
//! invariant for free.

use vstd::prelude::*;
use crate::dates::{Date, DateView, valid_ymd};
use crate::validation::{PersonName, Nick, Tech, NewPerson, techs_view, NAME_MAX, NICK_MAX,
    TECH_MAX};

verus! {

/// The mathematical content of a stored record.
#[verifier::ext_equal]
pub ghost struct PersonView {
    pub id: u128,
    pub name: Seq<char>,
    pub nick: Seq<char>,
    pub birth_date: DateView,
    pub stack: Option<Seq<Seq<char>>>,
}

/// Every field of a stored record is inside its bound and the date is a
/// real day of the calendar.
pub open spec fn view_wf(v: PersonView) -> bool {
    &&& v.name.len() <= NAME_MAX
    &&& v.nick.len() <= NICK_MAX
    &&& valid_ymd(v.birth_date.year, v.birth_date.month, v.birth_date.day)
    &&& match v.stack {
        None => true,
        Some(tags) => forall|i: int| 0 <= i < tags.len() ==> (#[trigger] tags[i]).len()
            <= TECH_MAX,
    }
}

/// A stored person record, immutable once created.
pub struct Person {
    pub id: u128,
    pub name: PersonName,
    pub nick: Nick,
    pub birth_date: Date,
    pub stack: Option<Vec<Tech>>,
}

impl View for Person {
    type V = PersonView;

    open spec fn view(&self) -> PersonView {
        PersonView {
            id: self.id,
            name: self.name@,
            nick: self.nick@,
            birth_date: self.birth_date@,
            stack: techs_view(self.stack),
        }
    }
}

impl Clone for Person {
    fn clone(&self) -> (r: Self)
        ensures
            r@ == self@,
    {
        let stack: Option<Vec<Tech>> = match &self.stack {
            None => None,
            Some(v) => Some(clone_techs(v)),
        };
        let r = Person {
            id: self.id,
            name: self.name.clone(),
            nick: self.nick.clone(),
            birth_date: self.birth_date,
            stack,
        };
        proof {
            assert(r@ =~~= self@);
        }
        r
    }
}

fn clone_techs(v: &Vec<Tech>) -> (r: Vec<Tech>)
    ensures
        r@.map_values(|t: Tech| t@) == v@.map_values(|t: Tech| t@),
{
    let mut r: Vec<Tech> = Vec::new();
    let mut i: usize = 0;
    while i < v.len()
        invariant
            i <= v.len(),
            r@.len() == i as int,
            forall|j: int| 0 <= j < i ==> (#[trigger] r@[j])@ == v@[j]@,
        decreases v.len() - i,
    {
        r.push(v[i].clone());
        i += 1;
    }
    assert(r@.map_values(|t: Tech| t@) =~= v@.map_values(|t: Tech| t@));
    r
}

/// The records' mathematical content, in storage order.
pub open spec fn views_of(s: Seq<Person>) -> Seq<PersonView> {
    s.map_values(|p: Person| p@)
}

/// Some stored record carries this nickname.
pub open spec fn has_nick_seq(s: Seq<PersonView>, nick: Seq<char>) -> bool {
    exists|i: int| 0 <= i < s.len() && (#[trigger] s[i]).nick == nick
}

/// Some stored record carries this identifier.
pub open spec fn has_id_seq(s: Seq<PersonView>, id: u128) -> bool {
    exists|i: int| 0 <= i < s.len() && (#[trigger] s[i]).id == id
}

/// What one insert attempt does to the stored records: nothing when the
/// nickname or the identifier is already present, else it appends the
/// record.
pub open spec fn step(s: Seq<PersonView>, q: PersonView) -> Seq<PersonView> {
    if has_nick_seq(s, q.nick) || has_id_seq(s, q.id) {
        s
    } else {
        s.push(q)
    }
}

/// The record an insert would store: the validated fields under the given
/// identifier.
pub open spec fn assembled(id: u128, p: NewPerson) -> PersonView {
    PersonView {
        id,
        name: p.name@,
        nick: p.nick@,
        birth_date: p.birth_date@,
        stack: techs_view(p.stack),
    }
}

/// Why an insert was refused: the nickname is taken, or the generated
/// identifier collides with a stored one.
#[derive(Clone, Copy, Debug, PartialEq, Eq, Structural)]
pub enum ConflictError {
    NicknameTaken,
    IdTaken,
}

/// The in-memory store of person records.
pub struct Registry {
    people: Vec<Person>,
}

impl View for Registry {
    type V = Seq<PersonView>;

    closed spec fn view(&self) -> Seq<PersonView> {
        views_of(self.people@)
    }
}

impl Registry {
    /// Identifiers unique, nicknames unique, every record within bounds.
    pub open spec fn wf(&self) -> bool {
        &&& forall|i: int, j: int| 0 <= i < j < self@.len() ==> (#[trigger] self@[i]).id != (
        #[trigger] self@[j]).id
        &&& forall|i: int, j: int| 0 <= i < j < self@.len() ==> (#[trigger] self@[i]).nick != (
        #[trigger] self@[j]).nick
        &&& forall|i: int| 0 <= i < self@.len() ==> view_wf(#[trigger] self@[i])
    }

    pub open spec fn has_nick(&self, nick: Seq<char>) -> bool {
        has_nick_seq(self@, nick)
    }

    pub open spec fn has_id(&self, id: u128) -> bool {
        has_id_seq(self@, id)
    }

    pub fn new() -> (r: Registry)
        ensures
            r@ == Seq::<PersonView>::empty(),
            r.wf(),
    {
        let r = Registry { people: Vec::new() };
        proof {
            assert(r@ =~= Seq::<PersonView>::empty());
        }
        r
    }

    /// How many records are stored.
    pub fn count(&self) -> (n: usize)
        ensures
            n == self@.len(),
    {
        self.people.len()
    }

    /// A consistent snapshot of all stored records, in insertion order.
    pub fn all(&self) -> (r: &Vec<Person>)
        ensures
            views_of(r@) == self@,
    {
        &self.people
    }

    /// Point lookup by identifier; never mutates.
    pub fn get(&self, id: u128) -> (r: Option<&Person>)
        ensures
            match r {
                Some(p) => p@.id == id && self@.contains(p@),
                None => !self.has_id(id),
            },
    {
        let mut i: usize = 0;
        while i < self.people.len()
            invariant
                i <= self.people.len(),
                forall|j: int| 0 <= j < i ==> (#[trigger] views_of(self.people@)[j]).id != id,
            decreases self.people.len() - i,
        {
            if self.people[i].id == id {
                let p = &self.people[i];
                assert(self@[i as int] == p@);
                assert(self@.contains(p@));
                return Some(p);
            }
            i += 1;
        }
        None
    }

    fn contains_nick(&self, nick: &str) -> (b: bool)
        ensures
            b == self.has_nick(nick@),
    {
        let mut i: usize = 0;
        while i < self.people.len()
            invariant
                i <= self.people.len(),
                forall|j: int| 0 <= j < i ==> (#[trigger] views_of(self.people@)[j]).nick
                    != nick@,
            decreases self.people.len() - i,
        {
            if str_eq(self.people[i].nick.as_str(), nick) {
                assert(self@[i as int].nick == nick@);
                return true;
            }
            i += 1;
        }
        false
    }

    fn contains_id(&self, id: u128) -> (b: bool)
        ensures
            b == self.has_id(id),
    {
        let mut i: usize = 0;
        while i < self.people.len()
            invariant
                i <= self.people.len(),
                forall|j: int| 0 <= j < i ==> (#[trigger] views_of(self.people@)[j]).id != id,
            decreases self.people.len() - i,
        {
            if self.people[i].id == id {
                assert(self@[i as int].id == id);
                return true;
            }
            i += 1;
        }
        false
    }

    /// Atomically checks nickname and identifier uniqueness against the
    /// stored records and, when both are free, stores the record under
    /// the given identifier and returns a copy of it.
    pub fn insert_with_id(&mut self, id: u128, p: NewPerson) -> (r: Result<Person, ConflictError>)
        requires
            old(self).wf(),
            p.wf(),
        ensures
            final(self).wf(),
            final(self)@ == step(old(self)@, assembled(id, p)),
            r is Ok <==> !has_nick_seq(old(self)@, p.nick@) && !has_id_seq(old(self)@, id),
            r matches Ok(q) ==> (q@ == assembled(id, p) && final(self)@ == old(self)@.push(q@)
                && final(self).has_nick(p.nick@)),
            has_nick_seq(old(self)@, p.nick@) ==> (r matches Err(e) && e
                == ConflictError::NicknameTaken),
            !has_nick_seq(old(self)@, p.nick@) && has_id_seq(old(self)@, id) ==> (r matches Err(e)
                && e == ConflictError::IdTaken),
            r is Err ==> final(self)@ == old(self)@,
    {
        if self.contains_nick(p.nick.as_str()) {
            return Err(ConflictError::NicknameTaken);
        }
        if self.contains_id(id) {
            return Err(ConflictError::IdTaken);
        }
        let q = Person {
            id,
            name: p.name,
            nick: p.nick,
            birth_date: p.birth_date,
            stack: p.stack,
        };
        let out = q.clone();
        proof {
            assert(q@ =~~= assembled(id, p));
        }
        let ghost before = self@;
        self.people.push(q);
        proof {
            assert(self@ =~= before.push(assembled(id, p)));
            assert(self@[before.len() as int].nick == p.nick@);
            assert forall|i: int, j: int| 0 <= i < j < self@.len() implies (
            #[trigger] self@[i]).nick != (#[trigger] self@[j]).nick by {
                if j < before.len() {
                    assert(before[i].nick != before[j].nick);
                } else {
                    assert(self@[j].nick == p.nick@);
                    assert(!has_nick_seq(before, p.nick@));
                }
            }
            assert forall|i: int, j: int| 0 <= i < j < self@.len() implies (#[trigger] self@[i]).id
                != (#[trigger] self@[j]).id by {
                if j < before.len() {
                    assert(before[i].id != before[j].id);
                } else {
                    assert(self@[j].id == id);
                    assert(!has_id_seq(before, id));
                }
            }
        }
        Ok(out)
    }

    /// Draws a fresh identifier and stores the record under it when the
    /// nickname is free; a taken nickname is refused with the registry
    /// unchanged. Success also needs the drawn identifier to be new,
    /// which the method checks; nothing is assumed of the generator.
    pub fn insert(&mut self, p: NewPerson) -> (r: Result<Person, ConflictError>)
        requires
            old(self).wf(),
            p.wf(),
        ensures
            final(self).wf(),
            old(self)@.len() == 0 ==> r is Ok,
            r matches Err(e) && e == ConflictError::IdTaken ==> old(self)@.len() > 0,
            old(self).has_nick(p.nick@) ==> (r matches Err(e) && e == ConflictError::NicknameTaken),
            !old(self).has_nick(p.nick@) && r is Err ==> (r matches Err(e) && e
                == ConflictError::IdTaken),
            r is Err ==> final(self)@ == old(self)@,
            r matches Ok(q) ==> (q@.name == p.name@ && q@.nick == p.nick@ && q@.birth_date
                == p.birth_date@ && q@.stack == techs_view(p.stack) && !old(self).has_nick(p.nick@)
                && !old(self).has_id(q@.id) && final(self)@ == old(self)@.push(q@)
                && final(self).has_nick(p.nick@)),
    {
        let id = crate::ids::fresh_id();
        self.insert_with_id(id, p)
    }
}

/// Exact (case-sensitive) string equality, character by character.
fn str_eq(a: &str, b: &str) -> (r: bool)
    ensures
        r == (a@ == b@),
{
    let an = a.unicode_len();
    let bn = b.unicode_len();
    if an != bn {
        return false;
    }
    let mut i: usize = 0;
    while i < an
        invariant
            i <= an,
            an == a@.len(),
            bn == b@.len(),
            an == bn,
            forall|j: int| 0 <= j < i ==> a@[j] == b@[j],
        decreases an - i,
    {
        if a.get_char(i) != b.get_char(i) {
            return false;
        }
        i += 1;
    }
    proof {
        assert(a@ =~= b@);
    }
    true
}

} // verus!
