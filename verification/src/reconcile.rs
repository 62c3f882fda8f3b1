use vstd::prelude::*;
use vstd::utf8::encode_utf8;

use crate::catalog::script_models;
use crate::catalog::MigrationScript;
use crate::catalog::ScriptModel;
use crate::checksum::checksum_spec;
use crate::checksum::checksum_str;
use crate::error::MigrationError;
use crate::text::str_eq;

verus! {

/// One row of the history table: the ledger entry recorded when a script
/// was applied. `applied_at` is the commit timestamp in microseconds since
/// the Unix epoch.
pub struct HistoryRecord {
    pub version: String,
    pub description: String,
    pub sql: String,
    pub applied_at: i64,
    pub checksum: u64,
}

/// The mathematical shape of a history record.
pub struct RecordModel {
    pub version: Seq<char>,
    pub description: Seq<char>,
    pub sql: Seq<char>,
    pub applied_at: i64,
    pub checksum: u64,
}

impl View for HistoryRecord {
    type V = RecordModel;

    open spec fn view(&self) -> RecordModel {
        RecordModel {
            version: self.version@,
            description: self.description@,
            sql: self.sql@,
            applied_at: self.applied_at,
            checksum: self.checksum,
        }
    }
}

impl Clone for HistoryRecord {
    fn clone(&self) -> (r: Self)
        ensures
            r@ == self@,
    {
        HistoryRecord {
            version: self.version.clone(),
            description: self.description.clone(),
            sql: self.sql.clone(),
            applied_at: self.applied_at,
            checksum: self.checksum,
        }
    }
}

/// The models of a sequence of history records.
pub open spec fn record_models(s: Seq<HistoryRecord>) -> Seq<RecordModel> {
    s.map_values(|r: HistoryRecord| r@)
}

/// The views of a sequence of version strings.
pub open spec fn version_views(s: Seq<String>) -> Seq<Seq<char>> {
    s.map_values(|v: String| v@)
}

/// A discrepancy between the catalog on disk and the recorded history.
pub enum Drift {
    /// The history names a version that no script on disk carries.
    Missing { version: Seq<char> },
    /// The script with this version changed after it was applied.
    Mismatch { version: Seq<char> },
}

/// The version a drift complains about.
pub open spec fn drift_version(d: Drift) -> Seq<char> {
    match d {
        Drift::Missing { version } => version,
        Drift::Mismatch { version } => version,
    }
}

/// The first script in `catalog` whose version is `v`, if any.
pub open spec fn lookup(catalog: Seq<ScriptModel>, v: Seq<char>) -> Option<ScriptModel>
    decreases catalog.len(),
{
    if catalog.len() == 0 {
        None
    } else if catalog[0].version == v {
        Some(catalog[0])
    } else {
        lookup(catalog.drop_first(), v)
    }
}

/// How one history record fares against the catalog: accepted (`None`), or
/// the drift it shows: an orphan version — unless those are tolerated — or a
/// checksum that no longer matches the script text.
pub open spec fn check_record(
    catalog: Seq<ScriptModel>,
    r: RecordModel,
    ignore_missing: bool,
) -> Option<Drift> {
    match lookup(catalog, r.version) {
        Some(s) => if s.checksum == r.checksum {
            None
        } else {
            Some(Drift::Mismatch { version: r.version })
        },
        None => if ignore_missing {
            None
        } else {
            Some(Drift::Missing { version: r.version })
        },
    }
}

/// The outcome of the validation pass: hold each history record against the
/// catalog, in fetch order, and either collect every recorded version as
/// already applied, or stop at the first drift.
pub open spec fn validate_spec(
    catalog: Seq<ScriptModel>,
    records: Seq<RecordModel>,
    ignore_missing: bool,
) -> Result<Seq<Seq<char>>, Drift>
    decreases records.len(),
{
    if records.len() == 0 {
        Ok(Seq::empty())
    } else {
        match validate_spec(catalog, records.drop_last(), ignore_missing) {
            Ok(vs) => match check_record(catalog, records.last(), ignore_missing) {
                None => Ok(vs.push(records.last().version)),
                Some(d) => Err(d),
            },
            Err(d) => Err(d),
        }
    }
}

/// Once the validation pass fails on a prefix of the history, reading more
/// records does not change the outcome.
pub proof fn lemma_validate_err_extends(
    catalog: Seq<ScriptModel>,
    records: Seq<RecordModel>,
    m: int,
    ignore_missing: bool,
)
    requires
        0 <= m <= records.len(),
        validate_spec(catalog, records.subrange(0, m), ignore_missing) is Err,
    ensures
        validate_spec(catalog, records, ignore_missing) == validate_spec(
            catalog,
            records.subrange(0, m),
            ignore_missing,
        ),
    decreases records.len() - m,
{
    if m == records.len() {
        assert(records.subrange(0, m) =~= records);
    } else {
        assert(records.subrange(0, m + 1).drop_last() =~= records.subrange(0, m));
        lemma_validate_err_extends(catalog, records, m + 1, ignore_missing);
    }
}

/// Find the script with the given version, if the catalog holds one.
fn find_script<'a>(catalog: &'a Vec<MigrationScript>, version: &str) -> (r: Option<
    &'a MigrationScript,
>)
    ensures
        (match r {
            Some(s) => lookup(script_models(catalog@), version@) == Some(s@),
            None => lookup(script_models(catalog@), version@) is None,
        }),
{
    let ghost cm = script_models(catalog@);
    let mut i: usize = 0;
    proof {
        assert(cm.skip(0) =~= cm);
    }
    while i < catalog.len()
        invariant
            0 <= i <= catalog@.len(),
            cm == script_models(catalog@),
            lookup(cm, version@) == lookup(cm.skip(i as int), version@),
        decreases catalog@.len() - i,
    {
        if str_eq(catalog[i].version.as_str(), version) {
            proof {
                assert(cm.skip(i as int)[0] == cm[i as int]);
            }
            return Some(&catalog[i]);
        }
        i = i + 1;
        proof {
            assert(cm.skip(i - 1)[0] == cm[i - 1]);
            assert(cm.skip(i - 1).drop_first() =~= cm.skip(i as int));
        }
    }
    proof {
        assert(cm.skip(i as int).len() == 0);
    }
    None
}

/// The validation pass over the fetched history (§ the reconciliation
/// algorithm's third step): every record must still have its script on disk
/// — unless orphans are tolerated — and the script's checksum must equal the
/// recorded one. On success the returned versions are exactly the recorded
/// ones, in fetch order; the first drift aborts the run instead.
pub fn validate_applied(
    catalog: &Vec<MigrationScript>,
    records: &Vec<HistoryRecord>,
    ignore_missing: bool,
) -> (r: Result<Vec<String>, MigrationError>)
    ensures
        (match r {
            Ok(vs) => validate_spec(script_models(catalog@), record_models(records@), ignore_missing)
                == Ok::<_, Drift>(version_views(vs@)),
            Err(e) => (match e {
                MigrationError::MissingMigration { version } => validate_spec(
                    script_models(catalog@),
                    record_models(records@),
                    ignore_missing,
                ) == Err::<Seq<Seq<char>>, _>(Drift::Missing { version: version@ }),
                MigrationError::ChecksumMismatch { version } => validate_spec(
                    script_models(catalog@),
                    record_models(records@),
                    ignore_missing,
                ) == Err::<Seq<Seq<char>>, _>(Drift::Mismatch { version: version@ }),
                _ => false,
            }),
        }),
{
    let ghost cm = script_models(catalog@);
    let ghost rm = record_models(records@);
    let mut applied: Vec<String> = Vec::new();
    let mut i: usize = 0;
    proof {
        assert(rm.subrange(0, 0) =~= Seq::<RecordModel>::empty());
        assert(version_views(applied@) =~= Seq::<Seq<char>>::empty());
    }
    while i < records.len()
        invariant
            0 <= i <= records@.len(),
            cm == script_models(catalog@),
            rm == record_models(records@),
            validate_spec(cm, rm.subrange(0, i as int), ignore_missing) == Ok::<_, Drift>(
                version_views(applied@),
            ),
        decreases records@.len() - i,
    {
        let rec = &records[i];
        let ghost prev = rm.subrange(0, i as int);
        match find_script(catalog, rec.version.as_str()) {
            Some(s) => {
                if s.checksum != rec.checksum {
                    proof {
                        assert(rm.subrange(0, i + 1).drop_last() =~= prev);
                        assert(rm.subrange(0, i + 1).last() == rm[i as int]);
                        assert(validate_spec(cm, rm.subrange(0, i + 1), ignore_missing)
                            == Err::<Seq<Seq<char>>, _>(Drift::Mismatch { version: rec.version@ }));
                        lemma_validate_err_extends(cm, rm, i + 1, ignore_missing);
                    }
                    return Err(MigrationError::ChecksumMismatch { version: rec.version.clone() });
                }
            },
            None => {
                if !ignore_missing {
                    proof {
                        assert(rm.subrange(0, i + 1).drop_last() =~= prev);
                        assert(rm.subrange(0, i + 1).last() == rm[i as int]);
                        assert(validate_spec(cm, rm.subrange(0, i + 1), ignore_missing)
                            == Err::<Seq<Seq<char>>, _>(Drift::Missing { version: rec.version@ }));
                        lemma_validate_err_extends(cm, rm, i + 1, ignore_missing);
                    }
                    return Err(MigrationError::MissingMigration { version: rec.version.clone() });
                }
            },
        }
        let ghost prev_applied = applied@;
        applied.push(rec.version.clone());
        i = i + 1;
        proof {
            assert(rm.subrange(0, i as int).drop_last() =~= prev);
            assert(rm.subrange(0, i as int).last() == rm[i - 1]);
            assert(rm[i - 1] == rec@);
            assert(check_record(cm, rm[i - 1], ignore_missing) is None);
            assert(version_views(applied@) =~= version_views(prev_applied).push(rec.version@));
        }
    }
    proof {
        assert(rm.subrange(0, records@.len() as int) =~= rm);
    }
    Ok(applied)
}

/// The catalog entries whose version is not yet applied, in catalog order.
pub open spec fn pending_spec(catalog: Seq<ScriptModel>, applied: Seq<Seq<char>>) -> Seq<
    ScriptModel,
>
    decreases catalog.len(),
{
    if catalog.len() == 0 {
        Seq::empty()
    } else {
        let rest = pending_spec(catalog.drop_last(), applied);
        if applied.contains(catalog.last().version) {
            rest
        } else {
            rest.push(catalog.last())
        }
    }
}

/// Whether `version` is among the applied versions.
fn contains_version(applied: &Vec<String>, version: &str) -> (r: bool)
    ensures
        r == version_views(applied@).contains(version@),
{
    let mut i: usize = 0;
    while i < applied.len()
        invariant
            0 <= i <= applied@.len(),
            forall|j: int| 0 <= j < i ==> (#[trigger] applied@[j])@ != version@,
        decreases applied@.len() - i,
    {
        if str_eq(applied[i].as_str(), version) {
            proof {
                assert(version_views(applied@)[i as int] == version@);
            }
            return true;
        }
        i = i + 1;
    }
    proof {
        assert forall|j: int| 0 <= j < version_views(applied@).len() implies version_views(
            applied@,
        )[j] != version@ by {
            assert((#[trigger] applied@[j])@ != version@);
        }
    }
    false
}

/// Select the scripts still to apply: walk the catalog in order and skip
/// every script whose version is already applied. Gaps are allowed: a
/// pending script may sort below an applied one.
pub fn pending_scripts(catalog: &Vec<MigrationScript>, applied: &Vec<String>) -> (r: Vec<
    MigrationScript,
>)
    ensures
        script_models(r@) == pending_spec(script_models(catalog@), version_views(applied@)),
{
    let ghost cm = script_models(catalog@);
    let ghost av = version_views(applied@);
    let mut out: Vec<MigrationScript> = Vec::new();
    let mut i: usize = 0;
    proof {
        assert(cm.subrange(0, 0) =~= Seq::<ScriptModel>::empty());
        assert(script_models(out@) =~= Seq::<ScriptModel>::empty());
    }
    while i < catalog.len()
        invariant
            0 <= i <= catalog@.len(),
            cm == script_models(catalog@),
            av == version_views(applied@),
            script_models(out@) == pending_spec(cm.subrange(0, i as int), av),
        decreases catalog@.len() - i,
    {
        let ghost prev_out = script_models(out@);
        if !contains_version(applied, catalog[i].version.as_str()) {
            out.push(catalog[i].clone());
            proof {
                assert(script_models(out@) =~= prev_out.push(catalog@[i as int]@));
            }
        }
        i = i + 1;
        proof {
            assert(cm.subrange(0, i as int).drop_last() =~= cm.subrange(0, i - 1));
            assert(cm.subrange(0, i as int).last() == cm[i - 1]);
        }
    }
    proof {
        assert(cm.subrange(0, catalog@.len() as int) =~= cm);
    }
    out
}

/// One run's decision, computed from the catalog and the fetched history:
/// validate every record, then select the pending scripts in apply order.
/// Succeeds on exactly the inputs the validation pass accepts.
pub fn plan_run(
    catalog: &Vec<MigrationScript>,
    records: &Vec<HistoryRecord>,
    ignore_missing: bool,
) -> (r: Result<Vec<MigrationScript>, MigrationError>)
    ensures
        (match r {
            Ok(p) => ({
                let v = validate_spec(
                    script_models(catalog@),
                    record_models(records@),
                    ignore_missing,
                );
                &&& v is Ok
                &&& script_models(p@) == pending_spec(script_models(catalog@), v->Ok_0)
            }),
            Err(e) => (match e {
                MigrationError::MissingMigration { version } => validate_spec(
                    script_models(catalog@),
                    record_models(records@),
                    ignore_missing,
                ) == Err::<Seq<Seq<char>>, _>(Drift::Missing { version: version@ }),
                MigrationError::ChecksumMismatch { version } => validate_spec(
                    script_models(catalog@),
                    record_models(records@),
                    ignore_missing,
                ) == Err::<Seq<Seq<char>>, _>(Drift::Mismatch { version: version@ }),
                _ => false,
            }),
        }),
{
    match validate_applied(catalog, records, ignore_missing) {
        Ok(applied) => Ok(pending_scripts(catalog, &applied)),
        Err(e) => Err(e),
    }
}

/// The apply pass of one run: hands out the pending scripts one at a time,
/// in catalog order, and stops for good at the first failure — once a script
/// fails, no later script is attempted.
pub struct MigrationRun {
    pending: Vec<MigrationScript>,
    next: usize,
    failed: bool,
}

impl MigrationRun {
    /// The scripts this run set out to apply, in order.
    pub closed spec fn pending_models(self) -> Seq<ScriptModel> {
        script_models(self.pending@)
    }

    /// How many of them have been applied and committed.
    pub closed spec fn position(self) -> int {
        self.next as int
    }

    /// Whether a script has failed, ending the run.
    pub closed spec fn has_failed(self) -> bool {
        self.failed
    }

    /// The position never runs past the plan.
    pub closed spec fn wf(self) -> bool {
        self.next <= self.pending@.len()
    }

    /// Start the apply pass over the given pending scripts.
    pub fn start(pending: Vec<MigrationScript>) -> (r: Self)
        ensures
            r.wf(),
            r.pending_models() == script_models(pending@),
            r.position() == 0,
            !r.has_failed(),
    {
        MigrationRun { pending, next: 0, failed: false }
    }

    /// The script to apply next: `None` once every script is applied, and
    /// `None` forever after a failure.
    pub fn current(&self) -> (r: Option<&MigrationScript>)
        requires
            self.wf(),
        ensures
            (match r {
                Some(s) => {
                    &&& !self.has_failed()
                    &&& self.position() < self.pending_models().len()
                    &&& s@ == self.pending_models()[self.position()]
                },
                None => self.has_failed() || self.position() == self.pending_models().len(),
            }),
    {
        if self.failed || self.next >= self.pending.len() {
            None
        } else {
            Some(&self.pending[self.next])
        }
    }

    /// Record that the current script was applied and its transaction
    /// committed; the run moves to the next script.
    pub fn advance(&mut self)
        requires
            old(self).wf(),
            !old(self).has_failed(),
            old(self).position() < old(self).pending_models().len(),
        ensures
            final(self).wf(),
            final(self).pending_models() == old(self).pending_models(),
            final(self).position() == old(self).position() + 1,
            !final(self).has_failed(),
    {
        let n = self.pending.len();
        proof {
            assert(old(self).pending_models().len() == old(self).pending@.len());
            assert(self.next < n);
        }
        self.next = self.next + 1;
    }

    /// Record that the current script failed. The run is over — `current`
    /// yields nothing from here on — and the returned error names the
    /// failing script's version.
    pub fn fail(&mut self, message: String) -> (e: MigrationError)
        requires
            old(self).wf(),
            !old(self).has_failed(),
            old(self).position() < old(self).pending_models().len(),
        ensures
            final(self).wf(),
            final(self).has_failed(),
            final(self).pending_models() == old(self).pending_models(),
            final(self).position() == old(self).position(),
            (e matches MigrationError::Apply { version, message: m } && version@ == old(
                self,
            ).pending_models()[old(self).position()].version && m@ == message@),
    {
        self.failed = true;
        let version = self.pending[self.next].version.clone();
        MigrationError::Apply { version, message }
    }
}

/// The history row to insert for one applied script: a snapshot of the
/// script, with the checksum recomputed from its current in-memory text as a
/// defensive re-check, and the caller's commit timestamp.
pub fn history_record_for(script: &MigrationScript, applied_at: i64) -> (r: HistoryRecord)
    ensures
        r@.version == script@.version,
        r@.description == script@.description,
        r@.sql == script@.sql,
        r@.applied_at == applied_at,
        r@.checksum == checksum_spec(encode_utf8(script@.sql)),
{
    let checksum = checksum_str(script.sql.as_str());
    HistoryRecord {
        version: script.version.clone(),
        description: script.description.clone(),
        sql: script.sql.clone(),
        applied_at,
        checksum,
    }
}

} // verus!
