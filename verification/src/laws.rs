use vstd::prelude::*;

use crate::catalog::sorted_by_version;
use crate::catalog::unique_versions;
use crate::catalog::ScriptModel;
use crate::reconcile::check_record;
use crate::reconcile::drift_version;
use crate::reconcile::lookup;
use crate::reconcile::pending_spec;
use crate::reconcile::validate_spec;
use crate::reconcile::Drift;
use crate::reconcile::RecordModel;
use crate::text::lex_le;

verus! {

/// The validation pass, characterized record by record: it succeeds exactly
/// when every history record passes its own check; on success the applied
/// versions are the recorded ones in fetch order; and a failure reports the
/// drift of one failing record.
pub proof fn lemma_validate_characterization(
    catalog: Seq<ScriptModel>,
    records: Seq<RecordModel>,
    ignore_missing: bool,
)
    ensures
        (validate_spec(catalog, records, ignore_missing) is Ok) <==> (forall|i: int|
            0 <= i < records.len() ==> check_record(
                catalog,
                #[trigger] records[i],
                ignore_missing,
            ) is None),
        validate_spec(catalog, records, ignore_missing) is Ok ==> validate_spec(
            catalog,
            records,
            ignore_missing,
        )->Ok_0 == records.map_values(|r: RecordModel| r.version),
        validate_spec(catalog, records, ignore_missing) matches Err(d) ==> (exists|i: int|
            0 <= i < records.len() && check_record(catalog, #[trigger] records[i], ignore_missing)
                == Some(d)),
    decreases records.len(),
{
    if records.len() == 0 {
        assert(records.map_values(|r: RecordModel| r.version) =~= Seq::<Seq<char>>::empty());
    } else {
        let prefix = records.drop_last();
        lemma_validate_characterization(catalog, prefix, ignore_missing);
        assert(forall|i: int| 0 <= i < prefix.len() ==> prefix[i] == #[trigger] records[i]);
        if validate_spec(catalog, records, ignore_missing) is Ok {
            assert(records.map_values(|r: RecordModel| r.version) =~= prefix.map_values(
                |r: RecordModel| r.version,
            ).push(records.last().version));
        }
        if validate_spec(catalog, prefix, ignore_missing) is Ok && check_record(
            catalog,
            records.last(),
            ignore_missing,
        ) is Some {
            let d = check_record(catalog, records.last(), ignore_missing)->Some_0;
            assert(check_record(catalog, records[records.len() - 1], ignore_missing) == Some(d));
        }
    }
}

/// In a catalog without duplicate versions, looking up any entry's version
/// finds that entry.
pub proof fn lemma_lookup_unique(catalog: Seq<ScriptModel>, i: int)
    requires
        unique_versions(catalog),
        0 <= i < catalog.len(),
    ensures
        lookup(catalog, catalog[i].version) == Some(catalog[i]),
    decreases catalog.len(),
{
    if i > 0 {
        assert(catalog[0].version != catalog[i].version);
        let rest = catalog.drop_first();
        assert(forall|a: int, b: int|
            0 <= a < b < rest.len() ==> (#[trigger] rest[a]).version != (#[trigger] rest[b]).version)
            by {
            assert(forall|a: int| 0 <= a < rest.len() ==> rest[a] == #[trigger] catalog[a + 1]);
        }
        lemma_lookup_unique(rest, i - 1);
        assert(rest[i - 1] == catalog[i]);
    }
}

/// When every catalog version is among the applied versions, nothing is
/// pending.
pub proof fn lemma_pending_empty(catalog: Seq<ScriptModel>, applied: Seq<Seq<char>>)
    requires
        forall|i: int| 0 <= i < catalog.len() ==> applied.contains((#[trigger] catalog[i]).version),
    ensures
        pending_spec(catalog, applied) == Seq::<ScriptModel>::empty(),
    decreases catalog.len(),
{
    if catalog.len() > 0 {
        lemma_pending_empty(catalog.drop_last(), applied);
    }
}

/// The pending scripts inherit the catalog's order: they are a
/// version-sorted selection of catalog entries, none of them applied. Gaps
/// are allowed — a pending script may sort below an applied one — and are
/// not an error.
pub proof fn lemma_pending_sorted(catalog: Seq<ScriptModel>, applied: Seq<Seq<char>>)
    requires
        sorted_by_version(catalog),
    ensures
        sorted_by_version(pending_spec(catalog, applied)),
        forall|i: int|
            0 <= i < pending_spec(catalog, applied).len() ==> catalog.contains(
                #[trigger] pending_spec(catalog, applied)[i],
            ) && !applied.contains(pending_spec(catalog, applied)[i].version),
    decreases catalog.len(),
{
    if catalog.len() > 0 {
        let prefix = catalog.drop_last();
        assert(forall|a: int, b: int|
            0 <= a < b < prefix.len() ==> lex_le(
                (#[trigger] prefix[a]).version,
                (#[trigger] prefix[b]).version,
            )) by {
            assert(forall|a: int| 0 <= a < prefix.len() ==> prefix[a] == #[trigger] catalog[a]);
        }
        lemma_pending_sorted(prefix, applied);
        let rest = pending_spec(prefix, applied);
        assert(forall|i: int|
            0 <= i < rest.len() ==> catalog.contains(#[trigger] rest[i]) && !applied.contains(
                rest[i].version,
            )) by {
            assert forall|i: int| 0 <= i < rest.len() implies catalog.contains(#[trigger] rest[i])
                && !applied.contains(rest[i].version) by {
                assert(prefix.contains(rest[i]));
                let j = choose|j: int| 0 <= j < prefix.len() && prefix[j] == rest[i];
                assert(catalog[j] == rest[i]);
            }
        }
        if !applied.contains(catalog.last().version) {
            let cur = rest.push(catalog.last());
            assert(catalog.contains(catalog.last())) by {
                assert(catalog[catalog.len() - 1] == catalog.last());
            }
            assert forall|a: int, b: int| 0 <= a < b < cur.len() implies lex_le(
                (#[trigger] cur[a]).version,
                (#[trigger] cur[b]).version,
            ) by {
                if b == cur.len() - 1 {
                    assert(cur[a] == rest[a]);
                    assert(prefix.contains(rest[a]));
                    let j = choose|j: int| 0 <= j < prefix.len() && prefix[j] == rest[a];
                    assert(catalog[j] == rest[a]);
                    assert(lex_le(catalog[j].version, catalog[catalog.len() - 1].version));
                } else {
                    assert(cur[a] == rest[a] && cur[b] == rest[b]);
                }
            }
        }
    }
}

/// A first run: against an empty history the validation pass accepts, and
/// every catalog script is pending, in catalog order.
pub proof fn lemma_fresh_run_applies_all(catalog: Seq<ScriptModel>, ignore_missing: bool)
    ensures
        validate_spec(catalog, Seq::empty(), ignore_missing) == Ok::<_, Drift>(
            Seq::<Seq<char>>::empty(),
        ),
        pending_spec(catalog, Seq::empty()) == catalog,
    decreases catalog.len(),
{
    if catalog.len() > 0 {
        lemma_fresh_run_applies_all(catalog.drop_last(), ignore_missing);
        assert(pending_spec(catalog, Seq::empty()) =~= catalog);
    } else {
        assert(pending_spec(catalog, Seq::empty()) =~= catalog);
    }
}

/// A rerun after a complete run applies nothing: when the history holds one
/// row per catalog script, with that script's version and checksum, the
/// validation pass accepts every row and the pending set is empty.
pub proof fn lemma_rerun_applies_none(
    catalog: Seq<ScriptModel>,
    records: Seq<RecordModel>,
    ignore_missing: bool,
)
    requires
        unique_versions(catalog),
        records.len() == catalog.len(),
        forall|i: int|
            0 <= i < records.len() ==> (#[trigger] records[i]).version == catalog[i].version && (
            #[trigger] records[i]).checksum == catalog[i].checksum,
    ensures
        validate_spec(catalog, records, ignore_missing) == Ok::<_, Drift>(
            records.map_values(|r: RecordModel| r.version),
        ),
        pending_spec(
            catalog,
            validate_spec(catalog, records, ignore_missing)->Ok_0,
        ) == Seq::<ScriptModel>::empty(),
{
    lemma_validate_characterization(catalog, records, ignore_missing);
    assert forall|i: int| 0 <= i < records.len() implies check_record(
        catalog,
        #[trigger] records[i],
        ignore_missing,
    ) is None by {
        lemma_lookup_unique(catalog, i);
    }
    let applied = records.map_values(|r: RecordModel| r.version);
    assert forall|i: int| 0 <= i < catalog.len() implies applied.contains(
        (#[trigger] catalog[i]).version,
    ) by {
        assert(applied[i] == records[i].version);
    }
    lemma_pending_empty(catalog, applied);
}

/// A script edited after it was applied stops the rerun: when every history
/// row still has its script on disk but some row's recorded checksum no
/// longer matches that script's, the run fails with a checksum mismatch
/// naming such a version, whatever the orphan policy — and since the run
/// fails before the apply pass, no script is applied.
pub proof fn lemma_changed_script_stops_run(
    catalog: Seq<ScriptModel>,
    records: Seq<RecordModel>,
    ignore_missing: bool,
)
    requires
        forall|i: int|
            0 <= i < records.len() ==> lookup(catalog, (#[trigger] records[i]).version) is Some,
        exists|i: int|
            0 <= i < records.len() && lookup(
                catalog,
                (#[trigger] records[i]).version,
            )->Some_0.checksum != records[i].checksum,
    ensures
        ({
            let v = validate_spec(catalog, records, ignore_missing);
            &&& v is Err
            &&& v->Err_0 is Mismatch
            &&& (exists|i: int|
                0 <= i < records.len() && (#[trigger] records[i]).version == drift_version(
                    v->Err_0,
                ) && lookup(catalog, records[i].version)->Some_0.checksum != records[i].checksum)
        }),
{
    lemma_validate_characterization(catalog, records, ignore_missing);
    let w = choose|i: int|
        0 <= i < records.len() && lookup(catalog, (#[trigger] records[i]).version)->Some_0.checksum
            != records[i].checksum;
    assert(check_record(catalog, records[w], ignore_missing) is Some);
    let v = validate_spec(catalog, records, ignore_missing);
    assert(v is Err);
    let d = v->Err_0;
    let i = choose|i: int|
        0 <= i < records.len() && check_record(catalog, #[trigger] records[i], ignore_missing)
            == Some(d);
    assert(lookup(catalog, records[i].version) is Some);
    assert(d matches Drift::Mismatch { version } && version == records[i].version);
}

/// An orphan history row — a version with no script on disk — stops the run
/// with a missing-migration error naming an orphan version; under the
/// tolerant policy, and with no checksum drift among the rows that do have
/// scripts, the run proceeds and counts every recorded version, the orphan
/// included, as applied.
pub proof fn lemma_orphan_history(catalog: Seq<ScriptModel>, records: Seq<RecordModel>)
    requires
        exists|i: int|
            0 <= i < records.len() && lookup(catalog, (#[trigger] records[i]).version) is None,
        forall|i: int|
            0 <= i < records.len() ==> (lookup(catalog, (#[trigger] records[i]).version) matches
                Some(s) ==> s.checksum == records[i].checksum),
    ensures
        ({
            let v = validate_spec(catalog, records, false);
            &&& v is Err
            &&& v->Err_0 is Missing
            &&& (exists|i: int|
                0 <= i < records.len() && (#[trigger] records[i]).version == drift_version(
                    v->Err_0,
                ) && lookup(catalog, records[i].version) is None)
        }),
        validate_spec(catalog, records, true) == Ok::<_, Drift>(
            records.map_values(|r: RecordModel| r.version),
        ),
{
    lemma_validate_characterization(catalog, records, false);
    let w = choose|i: int|
        0 <= i < records.len() && lookup(catalog, (#[trigger] records[i]).version) is None;
    assert(check_record(catalog, records[w], false) is Some);
    let v = validate_spec(catalog, records, false);
    assert(v is Err);
    let d = v->Err_0;
    let i = choose|i: int|
        0 <= i < records.len() && check_record(catalog, #[trigger] records[i], false) == Some(d);
    assert(d matches Drift::Missing { version } && version == records[i].version);
    assert(lookup(catalog, records[i].version) is None);
    lemma_validate_characterization(catalog, records, true);
    assert(forall|i: int|
        0 <= i < records.len() ==> check_record(catalog, #[trigger] records[i], true) is None);
}

} // verus!
