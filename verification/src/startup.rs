//! Startup reconciliation: rebuilding the retention window from a directory
//! listing.
//!
//! On start the worker scans the log directory; every file name with the
//! archive shape for the configured stem and extension seeds the retention
//! window, sorted chronologically by the stamp in its name. Restarting
//! against a directory with some archives therefore recovers exactly those
//! archives, in order, before any new entry is processed.

use vstd::prelude::*;
use vstd::multiset::Multiset;

use crate::names::archive_stamp;
use crate::names::archive_stamp_key;
use crate::names::is_archive_name;
use crate::names::is_archive_file_name;
use crate::names::names_seq;

verus! {

/// The names of archive shape in `input`, as a multiset: what a directory
/// listing contributes to the retention window, order set aside.
pub open spec fn matching_multiset(input: Seq<Seq<u8>>, stem: Seq<u8>, ext: Seq<u8>) -> Multiset<
    Seq<u8>,
>
    decreases input.len(),
{
    if input.len() == 0 {
        Multiset::empty()
    } else if is_archive_name(input.last(), stem, ext) {
        matching_multiset(input.drop_last(), stem, ext).insert(input.last())
    } else {
        matching_multiset(input.drop_last(), stem, ext)
    }
}

/// `out` is sorted ascending by the stamp in each name.
pub open spec fn sorted_by_stamp(out: Seq<Seq<u8>>, stem: Seq<u8>) -> bool {
    forall|i: int, j: int|
        0 <= i < j < out.len() ==> archive_stamp(#[trigger] out[i], stem.len() as int)
            <= archive_stamp(#[trigger] out[j], stem.len() as int)
}

/// `out` is the retention window reconciled from the listing `input`: it
/// holds exactly the names of archive shape, sorted chronologically by their
/// stamps.
pub open spec fn reconciled(input: Seq<Seq<u8>>, stem: Seq<u8>, ext: Seq<u8>, out: Seq<
    Seq<u8>,
>) -> bool {
    &&& forall|i: int| 0 <= i < out.len() ==> is_archive_name(#[trigger] out[i], stem, ext)
    &&& sorted_by_stamp(out, stem)
    &&& out.to_multiset() == matching_multiset(input, stem, ext)
}

/// Inserts `name` into `out`, which is sorted by stamp, keeping it sorted;
/// the contents change by exactly that one name.
#[verifier::loop_isolation(false)]
fn insert_sorted(out: &mut Vec<Vec<u8>>, name: Vec<u8>, stem: &Vec<u8>, ext: &Vec<u8>)
    requires
        is_archive_name(name@, stem@, ext@),
        forall|i: int|
            0 <= i < names_seq(*old(out)).len() ==> is_archive_name(
                #[trigger] names_seq(*old(out))[i],
                stem@,
                ext@,
            ),
        sorted_by_stamp(names_seq(*old(out)), stem@),
    ensures
        forall|i: int|
            0 <= i < names_seq(*final(out)).len() ==> is_archive_name(
                #[trigger] names_seq(*final(out))[i],
                stem@,
                ext@,
            ),
        sorted_by_stamp(names_seq(*final(out)), stem@),
        names_seq(*final(out)).to_multiset() == names_seq(*old(out)).to_multiset().insert(
            name@,
        ),
{
    let key = archive_stamp_key(&name, stem.len());
    let ghost l = stem@.len() as int;
    let mut j: usize = 0;
    while j < out.len() && stamp_at(out, j, stem, ext) <= key
        invariant
            j <= out@.len(),
            forall|i: int|
                0 <= i < j ==> archive_stamp(#[trigger] names_seq(*out)[i],
                    stem@.len() as int) <= key as int,
        decreases out@.len() - j,
    {
        j = j + 1;
    }
    let ghost pre = names_seq(*out);
    let ghost at = j as int;
    proof {
        assert(at < pre.len() ==> archive_stamp(pre[at], l) > key as int);
    }
    out.insert(j, name);
    proof {
        assert(names_seq(*out) =~~= pre.insert(at, name@));
        vstd::seq_lib::to_multiset_insert(pre, at, name@);
        let post_v = names_seq(*out);
        assert(forall|i: int| at < i < post_v.len() ==> post_v[i] == pre[i - 1]);
        assert(forall|i: int| 0 <= i < at ==> post_v[i] == pre[i]);
        assert(post_v[at] == name@);
        assert(archive_stamp(name@, l) == key as int);
        assert forall|i: int, j2: int|
            0 <= i < j2 < post_v.len() implies archive_stamp(post_v[i], l)
            <= archive_stamp(post_v[j2], l) by {
            if i == at {
                assert(at < pre.len());
                assert(archive_stamp(pre[at], l) > key as int);
                assert(post_v[j2] == pre[j2 - 1]);
                assert(archive_stamp(pre[at], l) <= archive_stamp(pre[j2 - 1], l));
            } else if j2 == at {
                assert(archive_stamp(post_v[i], l) <= key as int);
            }
        }
    }
}

/// Reads the stamp key of the archive name at index `j`.
fn stamp_at(out: &Vec<Vec<u8>>, j: usize, stem: &Vec<u8>, ext: &Vec<u8>) -> (k: u64)
    requires
        j < out@.len(),
        is_archive_name(names_seq(*out)[j as int], stem@, ext@),
    ensures
        k as int == archive_stamp(names_seq(*out)[j as int], stem@.len() as int),
{
    proof {
        assert(names_seq(*out)[j as int] == out@[j as int]@);
    }
    archive_stamp_key(&out[j], stem.len())
}

/// Builds the retention window from a directory listing: exactly the names
/// of archive shape for this stem and extension, sorted chronologically by
/// the stamp each name carries.
#[verifier::loop_isolation(false)]
pub fn reconcile(names: Vec<Vec<u8>>, stem: &Vec<u8>, ext: &Vec<u8>) -> (w: Vec<Vec<u8>>)
    ensures
        reconciled(names_seq(names), stem@, ext@, names_seq(w)),
{
    broadcast use vstd::multiset::group_multiset_axioms;
    broadcast use vstd::seq_lib::group_to_multiset_ensures;

    let ghost all = names_seq(names);
    let mut rest = names;
    let mut out: Vec<Vec<u8>> = Vec::new();
    proof {
        assert(names_seq(rest) =~~= all.take(all.len() as int));
        assert(names_seq(out).to_multiset() =~= Multiset::<Seq<u8>>::empty());
        assert(matching_multiset(all, stem@, ext@).add(names_seq(out).to_multiset())
            =~= matching_multiset(all, stem@, ext@));
    }
    while rest.len() > 0
        invariant
            names_seq(rest) == all.take(rest@.len() as int),
            rest@.len() <= all.len(),
            forall|i: int|
                0 <= i < names_seq(out).len() ==> is_archive_name(
                    #[trigger] names_seq(out)[i],
                    stem@,
                    ext@,
                ),
            sorted_by_stamp(names_seq(out), stem@),
            matching_multiset(all, stem@, ext@) == matching_multiset(all.take(
                rest@.len() as int), stem@, ext@).add(names_seq(out).to_multiset()),
        decreases rest@.len(),
    {
        let ghost k = rest@.len() as int;
        let ghost taken = all.take(k);
        let name = match rest.pop() {
            Some(n) => n,
            None => {
                return out;
            },
        };
        proof {
            assert(taken.last() == all[k - 1]);
            assert(name@ == all[k - 1]);
            assert(names_seq(rest) =~~= all.take(k - 1));
            assert(taken.drop_last() =~= all.take(k - 1));
        }
        let ghost pre_out = names_seq(out);
        if is_archive_file_name(&name, stem, ext) {
            insert_sorted(&mut out, name, stem, ext);
            proof {
                assert(matching_multiset(taken, stem@, ext@) == matching_multiset(all.take(
                    k - 1), stem@, ext@).insert(all[k - 1]));
                assert(matching_multiset(all.take(k - 1), stem@, ext@).insert(
                    all[k - 1]).add(pre_out.to_multiset()) =~= matching_multiset(all.take(
                    k - 1), stem@, ext@).add(pre_out.to_multiset().insert(all[k - 1])));
            }
        } else {
            proof {
                assert(matching_multiset(taken, stem@, ext@) == matching_multiset(all.take(
                    k - 1), stem@, ext@));
            }
        }
    }
    proof {
        assert(names_seq(rest) =~~= Seq::<Seq<u8>>::empty());
        assert(all.take(0) =~= Seq::<Seq<u8>>::empty());
        assert(matching_multiset(Seq::<Seq<u8>>::empty(), stem@, ext@)
            == Multiset::<Seq<u8>>::empty());
        assert(Multiset::<Seq<u8>>::empty().add(names_seq(out).to_multiset())
            =~= names_seq(out).to_multiset());
    }
    out
}

} // verus!
