//! Case-insensitive substring search over the registry.
//!
//! A record matches a term when the term occurs, up to ASCII case, as a
//! substring of its name, its nickname or one of its stack tags. The
//! result set is the matching records in storage order, cut to a fixed
//! cap to bound the response.

use vstd::prelude::*;
use crate::registry::{Registry, Person, PersonView, views_of};

verus! {

pub const SEARCH_CAP: usize = 50;

/// Two characters are the same up to ASCII case: equal outright, or an
/// A-to-Z letter against its lower-case form 32 code points up.
pub open spec fn eq_ci(a: char, b: char) -> bool {
    ||| a == b
    ||| ('A' <= a && a <= 'Z' && a as u32 + 32 == b as u32)
    ||| ('A' <= b && b <= 'Z' && b as u32 + 32 == a as u32)
}

fn eq_ci_exec(a: char, b: char) -> (r: bool)
    ensures
        r == eq_ci(a, b),
{
    a == b || ('A' <= a && a <= 'Z' && (a as u32) + 32 == b as u32) || ('A' <= b && b <= 'Z' && (
    b as u32) + 32 == a as u32)
}

/// `needle` stands at position `k` of `hay`, up to ASCII case.
pub open spec fn matches_at(hay: Seq<char>, needle: Seq<char>, k: int) -> bool {
    &&& 0 <= k
    &&& k + needle.len() <= hay.len()
    &&& forall|i: int| 0 <= i < needle.len() ==> eq_ci(hay[k + i], #[trigger] needle[i])
}

/// `needle` occurs somewhere in `hay`, up to ASCII case.
pub open spec fn contains_ci(hay: Seq<char>, needle: Seq<char>) -> bool {
    exists|k: int| matches_at(hay, needle, k)
}

fn match_at(hay: &str, k: usize, needle: &str) -> (r: bool)
    requires
        k + needle@.len() <= hay@.len(),
        hay@.len() <= usize::MAX,
    ensures
        r == matches_at(hay@, needle@, k as int),
{
    let n = needle.unicode_len();
    let mut i: usize = 0;
    while i < n
        invariant
            i <= n,
            n == needle@.len(),
            k + n <= hay@.len() <= usize::MAX,
            forall|j: int| 0 <= j < i ==> eq_ci(hay@[k + j], #[trigger] needle@[j]),
        decreases n - i,
    {
        if !eq_ci_exec(hay.get_char(k + i), needle.get_char(i)) {
            assert(!eq_ci(hay@[k + i as int], needle@[i as int]));
            return false;
        }
        i += 1;
    }
    true
}

/// Whether `needle` occurs in `hay` up to ASCII case, by trying every
/// position.
pub fn contains_ci_str(hay: &str, needle: &str) -> (r: bool)
    ensures
        r == contains_ci(hay@, needle@),
{
    let hn = hay.unicode_len();
    let nn = needle.unicode_len();
    if nn > hn {
        return false;
    }
    let mut k: usize = 0;
    while k <= hn - nn
        invariant
            nn <= hn,
            hn == hay@.len(),
            nn == needle@.len(),
            k <= hn - nn + 1,
            forall|j: int| 0 <= j < k ==> !matches_at(hay@, needle@, j),
        decreases hn - nn - k + 1,
    {
        if match_at(hay, k, needle) {
            return true;
        }
        k += 1;
    }
    proof {
        if contains_ci(hay@, needle@) {
            let k0 = choose|j: int| matches_at(hay@, needle@, j);
            assert(0 <= k0 && k0 + nn <= hn);
            assert(!matches_at(hay@, needle@, k0));
        }
    }
    false
}

/// A record matches a term when the term occurs, up to ASCII case, in
/// its name, its nickname or one of its stack tags.
pub open spec fn person_matches(v: PersonView, term: Seq<char>) -> bool {
    ||| contains_ci(v.name, term)
    ||| contains_ci(v.nick, term)
    ||| match v.stack {
        None => false,
        Some(tags) => exists|i: int| 0 <= i < tags.len() && contains_ci(#[trigger] tags[i], term),
    }
}

fn person_matches_exec(p: &Person, term: &str) -> (r: bool)
    ensures
        r == person_matches(p@, term@),
{
    if contains_ci_str(p.name.as_str(), term) {
        return true;
    }
    if contains_ci_str(p.nick.as_str(), term) {
        return true;
    }
    match &p.stack {
        None => false,
        Some(tags) => {
            proof {
                assert(p@.stack == Some(tags@.map_values(|t: crate::validation::Tech| t@)));
            }
            let ghost tag_views = tags@.map_values(|t: crate::validation::Tech| t@);
            let mut i: usize = 0;
            while i < tags.len()
                invariant
                    i <= tags.len(),
                    tag_views == tags@.map_values(|t: crate::validation::Tech| t@),
                    p@.stack == Some(tag_views),
                    forall|j: int| 0 <= j < i ==> !contains_ci(#[trigger] tag_views[j], term@),
                decreases tags.len() - i,
            {
                if contains_ci_str(tags[i].as_str(), term) {
                    proof {
                        assert(tag_views[i as int] == tags@[i as int]@);
                        assert(match p@.stack {
                            Some(ts) => (i as int) < ts.len() && contains_ci(ts[i as int], term@),
                            None => false,
                        });
                        assert(person_matches(p@, term@));
                    }
                    return true;
                }
                i += 1;
            }
            proof {
                if person_matches(p@, term@) {
                    let i0 = choose|j: int|
                        0 <= j < tag_views.len() && contains_ci(#[trigger] tag_views[j], term@);
                    assert(!contains_ci(tag_views[i0], term@));
                }
            }
            false
        },
    }
}

/// The records of `s` that match `term`, in order, cut to `cap`.
pub open spec fn search_spec(s: Seq<PersonView>, term: Seq<char>, cap: nat) -> Seq<PersonView>
    decreases s.len(),
{
    if s.len() == 0 || cap == 0 {
        Seq::empty()
    } else if person_matches(s[0], term) {
        seq![s[0]] + search_spec(s.drop_first(), term, (cap - 1) as nat)
    } else {
        search_spec(s.drop_first(), term, cap)
    }
}

/// What the search hands back: no more than `cap` records, each of them a
/// stored record that matches the term.
pub proof fn lemma_search_spec_props(s: Seq<PersonView>, term: Seq<char>, cap: nat)
    ensures
        search_spec(s, term, cap).len() <= cap,
        forall|i: int| 0 <= i < search_spec(s, term, cap).len() ==> person_matches(
            #[trigger] search_spec(s, term, cap)[i],
            term,
        ) && s.contains(search_spec(s, term, cap)[i]),
    decreases s.len(),
{
    if s.len() == 0 || cap == 0 {
    } else {
        let rest = s.drop_first();
        assert forall|x: PersonView| rest.contains(x) implies s.contains(x) by {
            let j = choose|j: int| 0 <= j < rest.len() && rest[j] == x;
            assert(s[j + 1] == x);
        }
        if person_matches(s[0], term) {
            lemma_search_spec_props(rest, term, (cap - 1) as nat);
            assert(s.contains(s[0]));
            assert forall|i: int| 0 <= i < search_spec(s, term, cap).len() implies person_matches(
                #[trigger] search_spec(s, term, cap)[i],
                term,
            ) && s.contains(search_spec(s, term, cap)[i]) by {
                if i > 0 {
                    assert(search_spec(s, term, cap)[i] == search_spec(
                        rest,
                        term,
                        (cap - 1) as nat,
                    )[i - 1]);
                }
            }
        } else {
            lemma_search_spec_props(rest, term, cap);
        }
    }
}

/// A term that matches no stored record yields the empty result — a
/// normal outcome, not an error.
pub proof fn lemma_search_no_match_empty(s: Seq<PersonView>, term: Seq<char>, cap: nat)
    requires
        forall|i: int| 0 <= i < s.len() ==> !person_matches(#[trigger] s[i], term),
    ensures
        search_spec(s, term, cap) == Seq::<PersonView>::empty(),
    decreases s.len(),
{
    if s.len() == 0 || cap == 0 {
        assert(search_spec(s, term, cap) =~= Seq::<PersonView>::empty());
    } else {
        let rest = s.drop_first();
        assert forall|i: int| 0 <= i < rest.len() implies !person_matches(
            #[trigger] rest[i],
            term,
        ) by {
            assert(rest[i] == s[i + 1]);
        }
        lemma_search_no_match_empty(rest, term, cap);
    }
}

impl Registry {
    /// Case-insensitive substring search over all records: the matching
    /// records in storage order, at most `SEARCH_CAP` of them. A term
    /// that matches nothing gives the empty result, not an error; the
    /// empty term is kept out by the caller.
    pub fn search(&self, term: &str) -> (r: Vec<Person>)
        requires
            term@.len() > 0,
        ensures
            views_of(r@) == search_spec(self@, term@, SEARCH_CAP as nat),
            r@.len() <= SEARCH_CAP,
            forall|j: int| 0 <= j < r@.len() ==> person_matches((#[trigger] r@[j])@, term@)
                && self@.contains(r@[j]@),
    {
        let people = self.all();
        let mut out: Vec<Person> = Vec::new();
        let mut i: usize = 0;
        proof {
            assert(self@.subrange(0, self@.len() as int) =~= self@);
        }
        while i < people.len() && out.len() < SEARCH_CAP
            invariant
                i <= people.len(),
                views_of(people@) == self@,
                out@.len() <= SEARCH_CAP,
                search_spec(self@, term@, SEARCH_CAP as nat) == views_of(out@) + search_spec(
                    self@.subrange(i as int, self@.len() as int),
                    term@,
                    (SEARCH_CAP - out@.len()) as nat,
                ),
            decreases people.len() - i,
        {
            let ghost rest = self@.subrange(i as int, self@.len() as int);
            let ghost cap_rem = (SEARCH_CAP - out@.len()) as nat;
            proof {
                assert(rest[0] == self@[i as int]);
                assert(rest.drop_first() =~= self@.subrange(i as int + 1, self@.len() as int));
            }
            if person_matches_exec(&people[i], term) {
                let ghost out_before = out@;
                out.push(people[i].clone());
                proof {
                    assert(views_of(out@) =~= views_of(out_before).push(self@[i as int]));
                    assert(seq![rest[0]] + search_spec(rest.drop_first(), term@, (cap_rem
                        - 1) as nat) == search_spec(rest, term@, cap_rem));
                    assert(views_of(out@) + search_spec(rest.drop_first(), term@, (cap_rem
                        - 1) as nat) =~= views_of(out_before) + search_spec(rest, term@, cap_rem));
                }
            } else {
                proof {
                    assert(search_spec(rest.drop_first(), term@, cap_rem) == search_spec(
                        rest,
                        term@,
                        cap_rem,
                    ));
                }
            }
            i += 1;
        }
        proof {
            let ghost rest = self@.subrange(i as int, self@.len() as int);
            if i == people.len() {
                assert(rest =~= Seq::<PersonView>::empty());
            }
            assert(search_spec(rest, term@, (SEARCH_CAP - out@.len()) as nat) =~= Seq::<
                PersonView,
            >::empty());
            assert(views_of(out@) + Seq::<PersonView>::empty() =~= views_of(out@));
            lemma_search_spec_props(self@, term@, SEARCH_CAP as nat);
            assert forall|j: int| 0 <= j < out@.len() implies person_matches(
                (#[trigger] out@[j])@,
                term@,
            ) && self@.contains(out@[j]@) by {
                assert(views_of(out@)[j] == out@[j]@);
            }
        }
        out
    }
}

} // verus!
