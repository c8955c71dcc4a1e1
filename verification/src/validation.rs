//! Field-level validation of incoming person data.
//!
//! Each bounded field is a type with a private inner value and a fallible
//! constructor, so downstream code can only see data that passed its
//! bound. `validate` assembles a whole validated record or reports the
//! first field that failed.

use vstd::prelude::*;
use crate::dates::{Date, DateView, valid_date_str, year_of, month_of, day_of};

verus! {

pub const NAME_MAX: usize = 100;

pub const NICK_MAX: usize = 32;

pub const TECH_MAX: usize = 32;

/// Which field of a creation request was refused, and why.
#[derive(Clone, Copy, Debug, PartialEq, Eq, Structural)]
pub enum ValidationError {
    NameTooLong,
    NickTooLong,
    InvalidBirthDate,
    TechTooLong,
}

/// A person's display name, at most `NAME_MAX` characters.
pub struct PersonName(String);

impl View for PersonName {
    type V = Seq<char>;

    closed spec fn view(&self) -> Seq<char> {
        self.0@
    }
}

impl Clone for PersonName {
    fn clone(&self) -> (r: Self)
        ensures
            r@ == self@,
    {
        PersonName(self.0.clone())
    }
}

impl PersonName {
    pub open spec fn wf(&self) -> bool {
        self@.len() <= NAME_MAX
    }

    /// Accepts exactly the strings of at most `NAME_MAX` characters.
    pub fn try_from(value: String) -> (r: Result<PersonName, ValidationError>)
        ensures
            value@.len() <= NAME_MAX ==> (r matches Ok(n) && n@ == value@ && n.wf()),
            value@.len() > NAME_MAX ==> (r matches Err(e) && e == ValidationError::NameTooLong),
    {
        if value.as_str().unicode_len() <= NAME_MAX {
            Ok(PersonName(value))
        } else {
            Err(ValidationError::NameTooLong)
        }
    }

    pub fn as_str(&self) -> (r: &str)
        ensures
            r@ == self@,
    {
        self.0.as_str()
    }
}

/// A person's nickname, at most `NICK_MAX` characters; the registry keeps
/// it unique across records.
pub struct Nick(String);

impl View for Nick {
    type V = Seq<char>;

    closed spec fn view(&self) -> Seq<char> {
        self.0@
    }
}

impl Clone for Nick {
    fn clone(&self) -> (r: Self)
        ensures
            r@ == self@,
    {
        Nick(self.0.clone())
    }
}

impl Nick {
    pub open spec fn wf(&self) -> bool {
        self@.len() <= NICK_MAX
    }

    /// Accepts exactly the strings of at most `NICK_MAX` characters.
    pub fn try_from(value: String) -> (r: Result<Nick, ValidationError>)
        ensures
            value@.len() <= NICK_MAX ==> (r matches Ok(n) && n@ == value@ && n.wf()),
            value@.len() > NICK_MAX ==> (r matches Err(e) && e == ValidationError::NickTooLong),
    {
        if value.as_str().unicode_len() <= NICK_MAX {
            Ok(Nick(value))
        } else {
            Err(ValidationError::NickTooLong)
        }
    }

    pub fn as_str(&self) -> (r: &str)
        ensures
            r@ == self@,
    {
        self.0.as_str()
    }
}

/// One technology tag of a person's stack, at most `TECH_MAX` characters.
pub struct Tech(String);

impl View for Tech {
    type V = Seq<char>;

    closed spec fn view(&self) -> Seq<char> {
        self.0@
    }
}

impl Clone for Tech {
    fn clone(&self) -> (r: Self)
        ensures
            r@ == self@,
    {
        Tech(self.0.clone())
    }
}

impl Tech {
    pub open spec fn wf(&self) -> bool {
        self@.len() <= TECH_MAX
    }

    /// Accepts exactly the strings of at most `TECH_MAX` characters.
    pub fn try_from(value: String) -> (r: Result<Tech, ValidationError>)
        ensures
            value@.len() <= TECH_MAX ==> (r matches Ok(t) && t@ == value@ && t.wf()),
            value@.len() > TECH_MAX ==> (r matches Err(e) && e == ValidationError::TechTooLong),
    {
        if value.as_str().unicode_len() <= TECH_MAX {
            Ok(Tech(value))
        } else {
            Err(ValidationError::TechTooLong)
        }
    }

    pub fn as_str(&self) -> (r: &str)
        ensures
            r@ == self@,
    {
        self.0.as_str()
    }

    pub fn into_string(self) -> (r: String)
        ensures
            r@ == self@,
    {
        self.0
    }
}

/// A creation request that passed every field-level bound; uniqueness of
/// the nickname is checked later, by the registry.
pub struct NewPerson {
    pub name: PersonName,
    pub nick: Nick,
    pub birth_date: Date,
    pub stack: Option<Vec<Tech>>,
}

/// The stack's mathematical content: each tag as a sequence of characters.
pub open spec fn techs_view(stack: Option<Vec<Tech>>) -> Option<Seq<Seq<char>>> {
    match stack {
        None => None,
        Some(v) => Some(v@.map_values(|t: Tech| t@)),
    }
}

/// The raw stack's content, before the tags are wrapped.
pub open spec fn raw_stack_view(stack: Option<Vec<String>>) -> Option<Seq<Seq<char>>> {
    match stack {
        None => None,
        Some(v) => Some(v@.map_values(|s: String| s@)),
    }
}

/// Every tag of a raw stack fits its bound.
pub open spec fn raw_stack_ok(stack: Option<Vec<String>>) -> bool {
    match stack {
        None => true,
        Some(v) => forall|i: int| 0 <= i < v@.len() ==> (#[trigger] v@[i])@.len() <= TECH_MAX,
    }
}

impl NewPerson {
    pub open spec fn wf(&self) -> bool {
        &&& self.name.wf()
        &&& self.nick.wf()
        &&& self.birth_date.wf()
        &&& match self.stack {
            None => true,
            Some(v) => forall|i: int| 0 <= i < v@.len() ==> (#[trigger] v@[i]).wf(),
        }
    }
}

/// Checks every field-level rule of a creation request and, when all
/// hold, hands back the validated record; otherwise reports the first
/// field that failed, in the order name, nickname, birth date, stack.
pub fn validate(name: String, nick: String, birth_date: &str, stack: Option<Vec<String>>) -> (r:
    Result<NewPerson, ValidationError>)
    ensures
        r is Ok <==> name@.len() <= NAME_MAX && nick@.len() <= NICK_MAX && valid_date_str(
            birth_date@,
        ) && raw_stack_ok(stack),
        r matches Ok(p) ==> {
            &&& p.wf()
            &&& p.name@ == name@
            &&& p.nick@ == nick@
            &&& p.birth_date@ == (DateView {
                year: year_of(birth_date@),
                month: month_of(birth_date@),
                day: day_of(birth_date@),
            })
            &&& techs_view(p.stack) == raw_stack_view(stack)
        },
        name@.len() > NAME_MAX ==> (r matches Err(e) && e == ValidationError::NameTooLong),
        name@.len() <= NAME_MAX && nick@.len() > NICK_MAX ==> (r matches Err(e) && e
            == ValidationError::NickTooLong),
        name@.len() <= NAME_MAX && nick@.len() <= NICK_MAX && !valid_date_str(birth_date@)
            ==> (r matches Err(e) && e == ValidationError::InvalidBirthDate),
        name@.len() <= NAME_MAX && nick@.len() <= NICK_MAX && valid_date_str(birth_date@)
            && !raw_stack_ok(stack) ==> (r matches Err(e) && e == ValidationError::TechTooLong),
{
    let name = match PersonName::try_from(name) {
        Ok(n) => n,
        Err(e) => { return Err(e); },
    };
    let nick = match Nick::try_from(nick) {
        Ok(n) => n,
        Err(e) => { return Err(e); },
    };
    let birth_date = match Date::parse(birth_date) {
        Some(d) => d,
        None => { return Err(ValidationError::InvalidBirthDate); },
    };
    let stack_out: Option<Vec<Tech>> = match stack {
        None => None,
        Some(raw) => Some(
            match validate_stack(raw) {
                Ok(techs) => techs,
                Err(e) => { return Err(e); },
            },
        ),
    };
    Ok(NewPerson { name, nick, birth_date, stack: stack_out })
}

/// Wraps each tag of a raw stack, refusing the whole stack as soon as one
/// tag is over its bound.
fn validate_stack(raw: Vec<String>) -> (r: Result<Vec<Tech>, ValidationError>)
    ensures
        r is Ok <==> forall|i: int| 0 <= i < raw@.len() ==> (#[trigger] raw@[i])@.len()
            <= TECH_MAX,
        r matches Ok(techs) ==> (techs@.map_values(|t: Tech| t@) == raw@.map_values(
            |s: String| s@,
        ) && forall|i: int| 0 <= i < techs@.len() ==> (#[trigger] techs@[i]).wf()),
        r matches Err(e) ==> e == ValidationError::TechTooLong,
{
    let mut techs: Vec<Tech> = Vec::new();
    let mut i: usize = 0;
    while i < raw.len()
        invariant
            i <= raw.len(),
            techs@.len() == i as int,
            forall|j: int| 0 <= j < i ==> (#[trigger] techs@[j])@ == raw@[j]@,
            forall|j: int| 0 <= j < i ==> (#[trigger] techs@[j]).wf(),
        decreases raw.len() - i,
    {
        match Tech::try_from(raw[i].clone()) {
            Ok(t) => { techs.push(t); },
            Err(e) => {
                assert(raw@[i as int]@.len() > TECH_MAX);
                return Err(e);
            },
        }
        i += 1;
    }
    assert(techs@.map_values(|t: Tech| t@) =~= raw@.map_values(|s: String| s@));
    assert forall|j: int| 0 <= j < raw@.len() implies (#[trigger] raw@[j])@.len() <= TECH_MAX by {
        assert(techs@[j]@ == raw@[j]@);
        assert(techs@[j].wf());
    }
    Ok(techs)
}

} // verus!
