//! Which migrations of the schema are to be run when the database is opened.
//!
//! The database records the version of every migration that was run. A migration runs
//! once: one whose version is recorded is skipped. A recorded version that belongs to no
//! known migration means that the database was written by a later server, and nothing is
//! run.

use crate::text::{chars_of, find, first_at, push_str, same_text, string_between, string_of};
use vstd::prelude::*;

verus! {

/// Why the schema could not be brought up to date.
#[derive(Debug)]
pub enum MigrationError {
    /// The database records versions that no known migration has; these are the
    /// versions, with `, ` between them.
    UnknownMigrationsInDatabase(String),
    /// The migration of this name failed.
    FailedToApplyMigration(String, rusqlite::Error),
    Database(rusqlite::Error),
}

/// The version of the migration `name`: what comes before its first `_`, or the whole
/// name where it has none.
pub open spec fn version_of(name: Seq<char>) -> Seq<char> {
    match first_at(name, 0, "_"@) {
        Some(k) => name.take(k),
        None => name,
    }
}

/// The version of the migration `name`.
pub fn version(name: &str) -> (v: String)
    ensures
        v@ == version_of(name@),
{
    let n = chars_of(name);
    match find(&n, "_") {
        Some(k) => {
            proof {
                crate::text::lemma_first_at(n@, 0, "_"@);
            }
            let v = string_between(&n, 0, k);
            assert(n@.subrange(0, k as int) == n@.take(k as int));
            v
        },
        None => name.to_owned(),
    }
}

/// The first place of `v` in `s`, if it is there.
pub open spec fn position(s: Seq<Seq<char>>, v: Seq<char>) -> Option<int>
    decreases s.len(),
{
    if s.len() == 0 {
        None
    } else if s[0] == v {
        Some(0)
    } else {
        match position(s.skip(1), v) {
            Some(i) => Some(i + 1),
            None => None,
        }
    }
}

/// `s` without the first `v` in it.
pub open spec fn without(s: Seq<Seq<char>>, v: Seq<char>) -> Seq<Seq<char>> {
    match position(s, v) {
        Some(i) => s.remove(i),
        None => s,
    }
}

/// The recorded versions that the migrations `names` leave unaccounted for: each
/// migration accounts for one record of its version.
pub open spec fn remaining(names: Seq<Seq<char>>, recorded: Seq<Seq<char>>) -> Seq<Seq<char>>
    decreases names.len(),
{
    if names.len() == 0 {
        recorded
    } else {
        without(remaining(names.drop_last(), recorded), version_of(names.last()))
    }
}

/// The places in `names` of the migrations to run, in order: those whose version the
/// migrations before them leave unrecorded.
pub open spec fn pending(names: Seq<Seq<char>>, recorded: Seq<Seq<char>>) -> Seq<int>
    decreases names.len(),
{
    if names.len() == 0 {
        Seq::empty()
    } else {
        let before = pending(names.drop_last(), recorded);
        if position(remaining(names.drop_last(), recorded), version_of(names.last())) is None {
            before.push(names.len() - 1)
        } else {
            before
        }
    }
}

/// The texts of `items` with `, ` between them.
pub open spec fn listed(items: Seq<Seq<char>>) -> Seq<char>
    decreases items.len(),
{
    if items.len() == 0 {
        Seq::empty()
    } else if items.len() == 1 {
        items[0]
    } else {
        listed(items.drop_last()) + ", "@ + items.last()
    }
}

/// The views of a list of strings.
pub open spec fn texts(items: Seq<String>) -> Seq<Seq<char>> {
    items.map_values(|s: String| s@)
}

/// The first place of `v` in `s`, if it is there.
fn find_version(s: &Vec<String>, v: &str) -> (r: Option<usize>)
    ensures
        match r {
            Some(i) => position(texts(s@), v@) == Some(i as int) && i < s.len(),
            None => position(texts(s@), v@) is None,
        },
{
    let ghost all = texts(s@);
    let mut i: usize = 0;
    assert(all.skip(0) == all);
    while i < s.len()
        invariant
            i <= s.len(),
            all == texts(s@),
            position(all, v@) == match position(all.skip(i as int), v@) {
                Some(k) => Some(k + i),
                None => None,
            },
        decreases s.len() - i,
    {
        assert(all.skip(i as int)[0] == s@[i as int]@);
        assert(all.skip(i as int).skip(1) == all.skip(i + 1));
        if same_text(s[i].as_str(), v) {
            return Some(i);
        }
        i += 1;
    }
    assert(all.skip(all.len() as int).len() == 0);
    None
}

/// Says which migrations are to be run. `names` are the known migrations in their
/// order and `recorded` the versions that the database records. Returns the places in
/// `names` of the migrations to run, or the error that the database records versions
/// that no migration accounts for.
pub fn plan(names: &Vec<String>, recorded: &Vec<String>) -> (r: Result<Vec<usize>, MigrationError>)
    ensures
        r is Ok <==> remaining(texts(names@), texts(recorded@)).len() == 0,
        r is Ok ==> r->Ok_0@.map_values(|i: usize| i as int) == pending(
            texts(names@),
            texts(recorded@),
        ),
        r is Err ==> r->Err_0 is UnknownMigrationsInDatabase
            && r->Err_0->UnknownMigrationsInDatabase_0@ == listed(
            remaining(texts(names@), texts(recorded@)),
        ),
{
    let ghost all = texts(names@);
    let ghost rec = texts(recorded@);
    let mut left: Vec<String> = Vec::new();
    let mut k: usize = 0;
    while k < recorded.len()
        invariant
            k <= recorded.len(),
            rec == texts(recorded@),
            texts(left@) == rec.take(k as int),
        decreases recorded.len() - k,
    {
        let ghost before = left@;
        left.push(recorded[k].clone());
        assert(texts(left@) =~= texts(before).push(recorded@[k as int]@));
        assert(rec.take(k + 1) == rec.take(k as int).push(recorded@[k as int]@));
        k += 1;
    }
    assert(rec.take(rec.len() as int) == rec);
    let mut out: Vec<usize> = Vec::new();
    let mut i: usize = 0;
    assert(all.take(0).len() == 0);
    assert(out@.map_values(|i: usize| i as int) =~= Seq::<int>::empty());
    while i < names.len()
        invariant
            i <= names.len(),
            all == texts(names@),
            texts(left@) == remaining(all.take(i as int), rec),
            out@.map_values(|i: usize| i as int) == pending(all.take(i as int), rec),
        decreases names.len() - i,
    {
        proof {
            assert(all.take(i + 1).drop_last() == all.take(i as int));
            assert(all.take(i + 1).last() == names@[i as int]@);
        }
        let v = version(names[i].as_str());
        match find_version(&left, v.as_str()) {
            Some(at) => {
                let ghost before = left@;
                left.remove(at);
                assert(texts(left@) =~= texts(before).remove(at as int));
            },
            None => {
                let ghost before = out@;
                out.push(i);
                assert(out@.map_values(|i: usize| i as int) =~= before.map_values(
                    |i: usize| i as int,
                ).push(i as int));
            },
        }
        i += 1;
    }
    assert(all.take(all.len() as int) == all);
    if left.len() == 0 {
        return Ok(out);
    }
    let ghost unknown = texts(left@);
    let mut message: Vec<char> = Vec::new();
    let mut j: usize = 0;
    assert(unknown.take(0).len() == 0);
    while j < left.len()
        invariant
            j <= left.len(),
            unknown == texts(left@),
            message@ == listed(unknown.take(j as int)),
        decreases left.len() - j,
    {
        proof {
            assert(unknown.take(j + 1).drop_last() == unknown.take(j as int));
            assert(unknown.take(j + 1).last() == left@[j as int]@);
            if j == 0 {
                assert(unknown.take(1)[0] == left@[0]@);
                assert(Seq::<char>::empty() + left@[0]@ == left@[0]@);
            }
        }
        if j > 0 {
            push_str(&mut message, ", ");
        }
        push_str(&mut message, left[j].as_str());
        j += 1;
    }
    assert(unknown.take(unknown.len() as int) == unknown);
    Err(MigrationError::UnknownMigrationsInDatabase(string_of(&message)))
}

/// A migration runs once: one whose version is recorded is not run again, and one whose
/// version is not recorded, and is the version of no migration before it, is run.
pub proof fn law_migrations_run_once(names: Seq<Seq<char>>, recorded: Seq<Seq<char>>, i: int)
    requires
        0 <= i < names.len(),
        forall|a: int, b: int|
            0 <= a < b < names.len() ==> version_of(#[trigger] names[a]) != version_of(
                #[trigger] names[b],
            ),
    ensures
        pending(names, recorded).contains(i) <==> !recorded.contains(version_of(names[i])),
    decreases names.len(),
{
    let init = names.drop_last();
    let v = version_of(names.last());
    lemma_remaining_keeps_others(init, recorded, v);
    lemma_position_contains(remaining(init, recorded), v);
    lemma_pending_in_range(names, recorded);
    lemma_pending_in_range(init, recorded);
    if i < names.len() - 1 {
        assert(init[i] == names[i]);
        assert forall|a: int, b: int| 0 <= a < b < init.len() implies version_of(
            #[trigger] init[a],
        ) != version_of(#[trigger] init[b]) by {
            assert(init[a] == names[a]);
            assert(init[b] == names[b]);
        }
        law_migrations_run_once(init, recorded, i);
        let p = pending(names, recorded);
        let q = pending(init, recorded);
        if q.contains(i) {
            let k = choose|k: int| 0 <= k < q.len() && q[k] == i;
            assert(p[k] == i);
        }
        if p.contains(i) {
            let k = choose|k: int| 0 <= k < p.len() && p[k] == i;
            if k < q.len() {
                assert(q[k] == i);
            }
        }
    } else {
        let p = pending(names, recorded);
        assert forall|k: int| 0 <= k < init.len() implies version_of(#[trigger] init[k]) != v by {
            assert(init[k] == names[k]);
        }
        if position(remaining(init, recorded), v) is None {
            assert(p.last() == i);
        } else {
            if p.contains(i) {
                let k = choose|k: int| 0 <= k < p.len() && p[k] == i;
                assert(pending(init, recorded)[k] == i);
            }
        }
    }
}

/// What `position` finds is whether the text is there.
proof fn lemma_position_contains(s: Seq<Seq<char>>, v: Seq<char>)
    ensures
        position(s, v) is Some <==> s.contains(v),
        position(s, v) is Some ==> 0 <= position(s, v)->0 < s.len() && s[position(s, v)->0] == v,
    decreases s.len(),
{
    if s.len() > 0 {
        lemma_position_contains(s.skip(1), v);
        if s[0] != v {
            if s.contains(v) {
                let k = choose|k: int| 0 <= k < s.len() && s[k] == v;
                assert(s.skip(1)[k - 1] == v);
            }
            if s.skip(1).contains(v) {
                let k = choose|k: int| 0 <= k < s.skip(1).len() && s.skip(1)[k] == v;
                assert(s[k + 1] == v);
            }
        }
    }
}

/// Taking the first `w` out of `s` keeps every other text where it is or is not.
proof fn lemma_without_keeps_others(s: Seq<Seq<char>>, w: Seq<char>, v: Seq<char>)
    requires
        w != v,
    ensures
        without(s, w).contains(v) <==> s.contains(v),
{
    lemma_position_contains(s, w);
    if position(s, w) is Some {
        let at = position(s, w)->0;
        let t = s.remove(at);
        if s.contains(v) {
            let k = choose|k: int| 0 <= k < s.len() && s[k] == v;
            if k < at {
                assert(t[k] == v);
            } else {
                assert(t[k - 1] == v);
            }
        }
        if t.contains(v) {
            let k = choose|k: int| 0 <= k < t.len() && t[k] == v;
            if k < at {
                assert(s[k] == v);
            } else {
                assert(s[k + 1] == v);
            }
        }
    }
}

/// The migrations `names` leave the version `v` as it was recorded, where none of them
/// has that version.
proof fn lemma_remaining_keeps_others(
    names: Seq<Seq<char>>,
    recorded: Seq<Seq<char>>,
    v: Seq<char>,
)
    requires
        forall|k: int| 0 <= k < names.len() ==> version_of(#[trigger] names[k]) != v,
    ensures
        remaining(names, recorded).contains(v) <==> recorded.contains(v),
    decreases names.len(),
{
    if names.len() > 0 {
        assert forall|k: int| 0 <= k < names.drop_last().len() implies version_of(
            #[trigger] names.drop_last()[k],
        ) != v by {
            assert(names.drop_last()[k] == names[k]);
        }
        lemma_remaining_keeps_others(names.drop_last(), recorded, v);
        assert(names.last() == names[names.len() - 1]);
        lemma_without_keeps_others(
            remaining(names.drop_last(), recorded),
            version_of(names.last()),
            v,
        );
    }
}

/// Every place that is pending is a place in `names`.
proof fn lemma_pending_in_range(names: Seq<Seq<char>>, recorded: Seq<Seq<char>>)
    ensures
        forall|k: int|
            0 <= k < pending(names, recorded).len() ==> 0 <= (#[trigger] pending(
                names,
                recorded,
            )[k]) < names.len(),
    decreases names.len(),
{
    if names.len() > 0 {
        let init = names.drop_last();
        lemma_pending_in_range(init, recorded);
        let p = pending(names, recorded);
        let q = pending(init, recorded);
        assert forall|k: int| 0 <= k < p.len() implies 0 <= (#[trigger] p[k]) < names.len() by {
            if k < q.len() {
                assert(p[k] == q[k]);
            }
        }
    }
}

} // verus!
