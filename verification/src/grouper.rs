//! The grouper: partitions an ordered record sequence into maximal runs
//! of consecutive records sharing one (type, name) key. Two non-adjacent
//! runs with the same key are not merged, so the input order is kept.

use vstd::prelude::*;

use crate::records::{same_key, RecordGroup, ResourceRecord};

verus! {

/// The adjacency grouping of a record sequence: each element is one
/// maximal run of consecutive records sharing a (type, name) key, and
/// the runs appear in input order.
pub open spec fn runs_of(rs: Seq<ResourceRecord>) -> Seq<Seq<ResourceRecord>>
    decreases rs.len(),
{
    if rs.len() == 0 {
        Seq::<Seq<ResourceRecord>>::empty()
    } else if rs.len() == 1 {
        seq![rs]
    } else {
        let rest = runs_of(rs.drop_last());
        let r = rs.last();
        if same_key(rs[rs.len() - 2], r) {
            rest.update(rest.len() - 1, rest.last().push(r))
        } else {
            rest.push(seq![r])
        }
    }
}

/// Concatenation of a sequence of runs back into one record sequence.
pub open spec fn concat_runs(runs: Seq<Seq<ResourceRecord>>) -> Seq<ResourceRecord>
    decreases runs.len(),
{
    if runs.len() == 0 {
        Seq::<ResourceRecord>::empty()
    } else {
        concat_runs(runs.drop_last()) + runs.last()
    }
}

/// Laws of the grouping: concatenating the runs reproduces the input
/// exactly; every run is non-empty and key-uniform; adjacent runs carry
/// different keys (each run is maximal); and the last run ends with the
/// last input record.
pub proof fn lemma_runs_of_props(rs: Seq<ResourceRecord>)
    ensures
        concat_runs(runs_of(rs)) == rs,
        forall|i: int| 0 <= i < runs_of(rs).len() ==> (#[trigger] runs_of(rs)[i]).len() > 0,
        forall|i: int, j: int|
            0 <= i < runs_of(rs).len() && 0 <= j < runs_of(rs)[i].len() ==> same_key(
                runs_of(rs)[i][0],
                #[trigger] runs_of(rs)[i][j],
            ),
        forall|i: int|
            0 <= i && i + 1 < runs_of(rs).len() ==> !same_key(
                (#[trigger] runs_of(rs)[i])[0],
                runs_of(rs)[i + 1][0],
            ),
        rs.len() > 0 ==> runs_of(rs).len() > 0 && runs_of(rs).last().last() == rs.last(),
    decreases rs.len(),
{
    if rs.len() == 0 {
        assert(concat_runs(runs_of(rs)) =~= rs);
    } else if rs.len() == 1 {
        assert(seq![rs].drop_last() =~= Seq::<Seq<ResourceRecord>>::empty());
        assert(seq![rs].last() == rs);
        assert(concat_runs(Seq::<Seq<ResourceRecord>>::empty()) == Seq::<ResourceRecord>::empty());
        assert(concat_runs(runs_of(rs)) =~= rs);
    } else {
        let prev = rs.drop_last();
        let rest = runs_of(prev);
        let r = rs.last();
        lemma_runs_of_props(prev);
        assert(rs[rs.len() - 2] == prev.last());
        if same_key(rs[rs.len() - 2], r) {
            let k = rest.len() - 1;
            let cur = runs_of(rs);
            assert(cur == rest.update(k, rest.last().push(r)));
            assert(cur.drop_last() =~= rest.drop_last());
            assert(cur.last() == rest.last().push(r));
            assert(concat_runs(cur) == concat_runs(rest.drop_last()) + rest.last().push(r));
            assert(concat_runs(rest.drop_last()) + rest.last().push(r) =~= (concat_runs(
                rest.drop_last(),
            ) + rest.last()).push(r));
            assert(concat_runs(cur) =~= prev.push(r));
            assert(prev.push(r) =~= rs);
            // uniformity of the extended last run
            assert(same_key(rest.last()[0], prev.last()));
            assert(same_key(rest.last()[0], r));
            assert(forall|j: int|
                0 <= j < cur[k].len() ==> same_key(cur[k][0], #[trigger] cur[k][j]));
        } else {
            let cur = runs_of(rs);
            assert(cur == rest.push(seq![r]));
            assert(cur.drop_last() =~= rest);
            assert(concat_runs(cur) == concat_runs(rest) + seq![r]);
            assert(concat_runs(rest) + seq![r] =~= prev.push(r));
            assert(prev.push(r) =~= rs);
            // maximality at the new boundary
            assert(same_key(rest.last()[0], prev.last()));
            assert(!same_key(rest.last()[0], r));
        }
    }
}

/// Laws of the grouper's output. Order preservation: the groups'
/// record runs concatenate back to the input exactly. Adjacency: every
/// group's run is non-empty, and consecutive groups differ in key, so
/// each run is maximal while non-adjacent runs with the same key stay
/// apart.
pub proof fn lemma_group_records_laws(gs: Seq<RecordGroup>, rs: Seq<ResourceRecord>)
    requires
        gs.map_values(|g: RecordGroup| g.records@) == runs_of(rs),
    ensures
        concat_runs(gs.map_values(|g: RecordGroup| g.records@)) == rs,
        forall|i: int| 0 <= i < gs.len() ==> (#[trigger] gs[i]).records@.len() > 0,
        forall|i: int|
            0 <= i && i + 1 < gs.len() ==> !same_key(
                (#[trigger] gs[i]).records@[0],
                gs[i + 1].records@[0],
            ),
{
    lemma_runs_of_props(rs);
    assert forall|i: int| 0 <= i < gs.len() implies (#[trigger] gs[i]).records@.len() > 0 by {
        assert(gs.map_values(|g: RecordGroup| g.records@)[i] == gs[i].records@);
    }
    assert forall|i: int| 0 <= i && i + 1 < gs.len() implies !same_key(
        (#[trigger] gs[i]).records@[0],
        gs[i + 1].records@[0],
    ) by {
        assert(gs.map_values(|g: RecordGroup| g.records@)[i] == gs[i].records@);
        assert(gs.map_values(|g: RecordGroup| g.records@)[i + 1] == gs[i + 1].records@);
    }
}

/// Groups the records into maximal runs of consecutive records sharing
/// one (type, name) key. Each group's type, name and time-to-live come
/// from the first record of its run.
pub fn group_records(rs: Vec<ResourceRecord>) -> (gs: Vec<RecordGroup>)
    ensures
        gs@.map_values(|g: RecordGroup| g.records@) == runs_of(rs@),
        forall|i: int| 0 <= i < gs@.len() ==> (#[trigger] gs@[i]).wf(),
{
    let ghost orig = rs@;
    let mut rs = rs;
    let mut gs: Vec<RecordGroup> = Vec::new();
    let ghost mut done: Seq<ResourceRecord> = Seq::<ResourceRecord>::empty();
    while rs.len() > 0
        invariant
            orig == done + rs@,
            gs@.map_values(|g: RecordGroup| g.records@) == runs_of(done),
            forall|i: int| 0 <= i < gs@.len() ==> (#[trigger] gs@[i]).wf(),
            gs@.len() > 0 <==> done.len() > 0,
            gs@.len() > 0 ==> gs@.last().rtype == done.last().rtype && gs@.last().name@
                == done.last().name@,
        decreases rs@.len(),
    {
        let r = rs.remove(0);
        let ghost prev_done = done;
        proof {
            done = done.push(r);
            assert(orig =~= done + rs@);
            assert(done.drop_last() =~= prev_done);
        }
        let n = gs.len();
        let extend = n > 0 && {
            let g = &gs[n - 1];
            r.rtype == g.rtype && r.name == g.name
        };
        if extend {
            proof {
                assert(prev_done.len() > 0);
                assert(same_key(prev_done.last(), r));
                assert(done[done.len() - 2] == prev_done.last());
            }
            let mut g = gs.pop().unwrap();
            let ghost old_gs = gs@.push(g);
            g.records.push(r);
            gs.push(g);
            proof {
                assert(gs@ =~= old_gs.update(old_gs.len() - 1, gs@.last()));
                assert(runs_of(done) == runs_of(prev_done).update(
                    runs_of(prev_done).len() - 1,
                    runs_of(prev_done).last().push(done.last()),
                ));
                assert(gs@.map_values(|gg: RecordGroup| gg.records@) =~= runs_of(done));
            }
        } else {
            proof {
                if prev_done.len() > 0 {
                    assert(!same_key(prev_done.last(), r));
                    assert(done[done.len() - 2] == prev_done.last());
                }
            }
            let name = r.name.clone();
            let rtype = r.rtype;
            let ttl = r.ttl;
            let mut recs: Vec<ResourceRecord> = Vec::new();
            recs.push(r);
            let g = RecordGroup { rtype, name, ttl, records: recs };
            gs.push(g);
            proof {
                if prev_done.len() == 0 {
                    assert(runs_of(done) =~= seq![done]);
                    assert(done =~= seq![done.last()]);
                } else {
                    assert(runs_of(done) == runs_of(prev_done).push(seq![done.last()]));
                }
                assert(gs@.map_values(|gg: RecordGroup| gg.records@) =~= runs_of(done));
            }
        }
    }
    proof {
        assert(done =~= orig);
    }
    gs
}

} // verus!
