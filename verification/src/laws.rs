//! Laws of the registry, stated over its mathematical model.
//!
//! `step` (in the registry module) is what one insert attempt does to the
//! stored records; `run` plays a whole sequence of attempts, in the order
//! the registry serializes them, and `successes` counts the attempts that
//! were stored. The lemmas here pin down the registry's central
//! promises: a shared nickname lets exactly one attempt through, fresh
//! distinct nicknames all get through, the count grows by exactly the
//! number of stored attempts, and a stored record is the one and only
//! record found under its identifier.

use vstd::prelude::*;
use crate::registry::{PersonView, has_nick_seq, has_id_seq, step};

verus! {

/// The stored records after a sequence of insert attempts, played in
/// order.
pub open spec fn run(s: Seq<PersonView>, qs: Seq<PersonView>) -> Seq<PersonView>
    decreases qs.len(),
{
    if qs.len() == 0 {
        s
    } else {
        run(step(s, qs[0]), qs.drop_first())
    }
}

/// How many of the attempts are stored.
pub open spec fn successes(s: Seq<PersonView>, qs: Seq<PersonView>) -> nat
    decreases qs.len(),
{
    if qs.len() == 0 {
        0
    } else {
        (if !has_nick_seq(s, qs[0].nick) && !has_id_seq(s, qs[0].id) {
            1nat
        } else {
            0nat
        }) + successes(step(s, qs[0]), qs.drop_first())
    }
}

/// Count consistency: a run of insert attempts grows the record count by
/// exactly the number of attempts that were stored — each stored attempt
/// adds one record, each refused attempt adds nothing.
pub proof fn lemma_run_count(s: Seq<PersonView>, qs: Seq<PersonView>)
    ensures
        run(s, qs).len() == s.len() + successes(s, qs),
    decreases qs.len(),
{
    if qs.len() == 0 {
    } else {
        lemma_run_count(step(s, qs[0]), qs.drop_first());
    }
}

/// Once a nickname is present, every attempt that carries it is refused:
/// the records do not change and nothing is stored.
pub proof fn lemma_taken_nickname_refuses_all(s: Seq<PersonView>, qs: Seq<PersonView>, n: Seq<char>)
    requires
        has_nick_seq(s, n),
        forall|i: int| 0 <= i < qs.len() ==> (#[trigger] qs[i]).nick == n,
    ensures
        run(s, qs) == s,
        successes(s, qs) == 0,
    decreases qs.len(),
{
    if qs.len() == 0 {
    } else {
        assert(step(s, qs[0]) == s);
        lemma_taken_nickname_refuses_all(s, qs.drop_first(), n);
    }
}

/// Uniqueness: when any number of insert attempts all carry one nickname
/// that is not yet stored, and none is tripped up by an identifier
/// collision, exactly one attempt — the first — is stored; every other
/// attempt is refused, and the records end as the old ones plus that one
/// record.
pub proof fn lemma_shared_nickname_one_success(
    s: Seq<PersonView>,
    qs: Seq<PersonView>,
    n: Seq<char>,
)
    requires
        qs.len() >= 1,
        forall|i: int| 0 <= i < qs.len() ==> (#[trigger] qs[i]).nick == n,
        !has_nick_seq(s, n),
        forall|i: int| 0 <= i < qs.len() ==> !has_id_seq(s, (#[trigger] qs[i]).id),
    ensures
        successes(s, qs) == 1,
        run(s, qs) == s.push(qs[0]),
        run(s, qs).len() == s.len() + 1,
    decreases qs.len(),
{
    let s1 = s.push(qs[0]);
    assert(step(s, qs[0]) == s1);
    assert(s1[s.len() as int].nick == n);
    assert(has_nick_seq(s1, n));
    lemma_taken_nickname_refuses_all(s1, qs.drop_first(), n);
}

/// When every attempt carries a nickname and an identifier that are
/// neither stored yet nor repeated among the attempts, all of them are
/// stored and the count grows by their number.
pub proof fn lemma_distinct_nicknames_all_succeed(s: Seq<PersonView>, qs: Seq<PersonView>)
    requires
        forall|i: int| 0 <= i < qs.len() ==> !has_nick_seq(s, (#[trigger] qs[i]).nick),
        forall|i: int| 0 <= i < qs.len() ==> !has_id_seq(s, (#[trigger] qs[i]).id),
        forall|i: int, j: int| 0 <= i < j < qs.len() ==> (#[trigger] qs[i]).nick != (
        #[trigger] qs[j]).nick,
        forall|i: int, j: int| 0 <= i < j < qs.len() ==> (#[trigger] qs[i]).id != (
        #[trigger] qs[j]).id,
    ensures
        successes(s, qs) == qs.len(),
        run(s, qs).len() == s.len() + qs.len(),
    decreases qs.len(),
{
    if qs.len() == 0 {
    } else {
        let q0 = qs[0];
        let s1 = s.push(q0);
        assert(step(s, q0) == s1);
        let rest = qs.drop_first();
        assert forall|i: int| 0 <= i < rest.len() implies !has_nick_seq(
            s1,
            (#[trigger] rest[i]).nick,
        ) by {
            assert(rest[i] == qs[i + 1]);
            if has_nick_seq(s1, rest[i].nick) {
                let k = choose|k: int| 0 <= k < s1.len() && (#[trigger] s1[k]).nick
                    == rest[i].nick;
                if k < s.len() {
                    assert(s[k].nick == rest[i].nick);
                } else {
                    assert(s1[k] == q0);
                }
            }
        }
        assert forall|i: int| 0 <= i < rest.len() implies !has_id_seq(
            s1,
            (#[trigger] rest[i]).id,
        ) by {
            assert(rest[i] == qs[i + 1]);
            if has_id_seq(s1, rest[i].id) {
                let k = choose|k: int| 0 <= k < s1.len() && (#[trigger] s1[k]).id == rest[i].id;
                if k < s.len() {
                    assert(s[k].id == rest[i].id);
                } else {
                    assert(s1[k] == q0);
                }
            }
        }
        assert forall|i: int, j: int| 0 <= i < j < rest.len() implies (#[trigger] rest[i]).nick
            != (#[trigger] rest[j]).nick by {
            assert(rest[i] == qs[i + 1] && rest[j] == qs[j + 1]);
        }
        assert forall|i: int, j: int| 0 <= i < j < rest.len() implies (#[trigger] rest[i]).id != (
        #[trigger] rest[j]).id by {
            assert(rest[i] == qs[i + 1] && rest[j] == qs[j + 1]);
        }
        lemma_distinct_nicknames_all_succeed(s1, rest);
    }
}

/// Lookup round-trip: among records with pairwise distinct identifiers,
/// a stored record is found under its identifier, and any record found
/// under that identifier is that record, field for field.
pub proof fn lemma_get_round_trip(s: Seq<PersonView>, q: PersonView)
    requires
        forall|i: int, j: int| 0 <= i < j < s.len() ==> (#[trigger] s[i]).id != (
        #[trigger] s[j]).id,
        s.contains(q),
    ensures
        has_id_seq(s, q.id),
        forall|p: PersonView| s.contains(p) && p.id == q.id ==> p == q,
{
    let iq = choose|i: int| 0 <= i < s.len() && s[i] == q;
    assert(s[iq].id == q.id);
    assert(has_id_seq(s, q.id));
    assert forall|p: PersonView| s.contains(p) && p.id == q.id implies p == q by {
        let ip = choose|i: int| 0 <= i < s.len() && s[i] == p;
        if ip < iq {
            assert(s[ip].id != s[iq].id);
        } else if iq < ip {
            assert(s[iq].id != s[ip].id);
        }
    }
}

} // verus!
