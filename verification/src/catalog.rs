use vstd::prelude::*;
use vstd::seq_lib::group_to_multiset_ensures;
use vstd::utf8::encode_utf8;

use crate::checksum::checksum_spec;
use crate::checksum::checksum_str;
use crate::filename::filename_parts;
use crate::filename::is_digit_char;
use crate::filename::lemma_digit_run_end;
use crate::filename::parse_migration_filename;
use crate::text::lemma_lex_le_total;
use crate::text::lemma_lex_le_trans;
use crate::text::lex_le;
use crate::text::str_le;

verus! {

/// One migration script, immutable after discovery: its identity and sort
/// key (`version`), its label (`description`), its full text (`sql`), and
/// the checksum of that text taken at discovery time.
pub struct MigrationScript {
    pub version: String,
    pub description: String,
    pub sql: String,
    pub checksum: u64,
}

/// The mathematical shape of a migration script.
pub struct ScriptModel {
    pub version: Seq<char>,
    pub description: Seq<char>,
    pub sql: Seq<char>,
    pub checksum: u64,
}

impl View for MigrationScript {
    type V = ScriptModel;

    open spec fn view(&self) -> ScriptModel {
        ScriptModel {
            version: self.version@,
            description: self.description@,
            sql: self.sql@,
            checksum: self.checksum,
        }
    }
}

impl Clone for MigrationScript {
    fn clone(&self) -> (r: Self)
        ensures
            r@ == self@,
    {
        MigrationScript {
            version: self.version.clone(),
            description: self.description.clone(),
            sql: self.sql.clone(),
            checksum: self.checksum,
        }
    }
}

impl ScriptModel {
    /// Internal consistency of one script: the version is a non-empty digit
    /// run and the checksum is the checksum of the script text.
    pub open spec fn wf(self) -> bool {
        &&& self.version.len() > 0
        &&& (forall|i: int| 0 <= i < self.version.len() ==> is_digit_char(self.version[i]))
        &&& self.checksum == checksum_spec(encode_utf8(self.sql))
    }
}

/// The models of a sequence of scripts.
pub open spec fn script_models(s: Seq<MigrationScript>) -> Seq<ScriptModel> {
    s.map_values(|m: MigrationScript| m@)
}

/// The views of a sequence of (filename, content) pairs.
pub open spec fn file_views(files: Seq<(String, String)>) -> Seq<(Seq<char>, Seq<char>)> {
    files.map_values(|f: (String, String)| (f.0@, f.1@))
}

/// The scripts encoded by a directory listing, in listing order: one script
/// per entry whose name follows the migration pattern, with the checksum of
/// its content; entries with any other name contribute nothing.
pub open spec fn scripts_of(files: Seq<(Seq<char>, Seq<char>)>) -> Seq<ScriptModel>
    decreases files.len(),
{
    if files.len() == 0 {
        Seq::empty()
    } else {
        let rest = scripts_of(files.drop_last());
        match filename_parts(files.last().0) {
            Some(p) => rest.push(
                ScriptModel {
                    version: p.0,
                    description: p.1,
                    sql: files.last().1,
                    checksum: checksum_spec(encode_utf8(files.last().1)),
                },
            ),
            None => rest,
        }
    }
}

/// No two catalog entries share a version. Directory listings cannot repeat
/// a filename, but two distinct filenames can still encode one version;
/// whole-catalog guarantees ask for this invariant explicitly.
pub open spec fn unique_versions(catalog: Seq<ScriptModel>) -> bool {
    forall|i: int, j: int|
        0 <= i < j < catalog.len() ==> (#[trigger] catalog[i]).version != (
        #[trigger] catalog[j]).version
}

/// A catalog is sorted ascending by the string form of its versions.
pub open spec fn sorted_by_version(s: Seq<ScriptModel>) -> bool {
    forall|i: int, j: int|
        0 <= i < j < s.len() ==> lex_le(#[trigger] s[i].version, #[trigger] s[j].version)
}

/// Every script a filename parse produces has a non-empty, all-digit version.
proof fn lemma_parsed_version_wf(name: Seq<char>)
    requires
        filename_parts(name) is Some,
    ensures
        filename_parts(name)->Some_0.0.len() > 0,
        forall|i: int|
            0 <= i < filename_parts(name)->Some_0.0.len() ==> is_digit_char(
                #[trigger] filename_parts(name)->Some_0.0[i],
            ),
{
    lemma_digit_run_end(name, 1);
}

/// Build the catalog from a directory listing handed over as (filename,
/// content) pairs: parse each matching name, checksum each content, and
/// order the result ascending by version.
///
/// The result holds exactly the scripts of the entries whose names follow
/// the migration pattern — other entries are skipped, not rejected — and is
/// sorted ascending by the string form of `version`.
pub fn build_catalog(files: &Vec<(String, String)>) -> (r: Vec<MigrationScript>)
    ensures
        script_models(r@).to_multiset() == scripts_of(file_views(files@)).to_multiset(),
        sorted_by_version(script_models(r@)),
        forall|i: int| 0 <= i < r@.len() ==> (#[trigger] r@[i])@.wf(),
{
    broadcast use group_to_multiset_ensures;

    let mut out: Vec<MigrationScript> = Vec::new();
    let mut i: usize = 0;
    proof {
        assert(file_views(files@).subrange(0, 0) =~= Seq::empty());
        assert(script_models(out@) =~= Seq::empty());
    }
    while i < files.len()
        invariant
            0 <= i <= files@.len(),
            script_models(out@).to_multiset() == scripts_of(
                file_views(files@).subrange(0, i as int),
            ).to_multiset(),
            sorted_by_version(script_models(out@)),
            forall|k: int| 0 <= k < out@.len() ==> (#[trigger] out@[k])@.wf(),
        decreases files@.len() - i,
    {
        let ghost prev = file_views(files@).subrange(0, i as int);
        let name = &files[i].0;
        let sql = &files[i].1;
        match parse_migration_filename(name.as_str()) {
            Some(p) => {
                let (version, description) = p;
                let checksum = checksum_str(sql.as_str());
                let script = MigrationScript { version, description, sql: sql.clone(), checksum };
                proof {
                    lemma_parsed_version_wf(name@);
                    assert(script@.wf());
                }
                let ghost gm = script@;
                let ghost prev_out = out@;
                insert_sorted(&mut out, script);
                proof {
                    assert forall|t: int| 0 <= t < out@.len() implies (#[trigger] out@[t])@.wf() by {
                        if out@[t]@ != gm {
                            assert(prev_out.contains(out@[t]));
                            let j = choose|j: int|
                                0 <= j < prev_out.len() && prev_out[j] == out@[t];
                            assert(prev_out[j]@.wf());
                        }
                    }
                }
                i = i + 1;
                proof {
                    let cur = file_views(files@).subrange(0, i as int);
                    assert(cur.drop_last() =~= prev);
                    assert(cur.last() == (files@[i - 1].0@, files@[i - 1].1@));
                    assert(filename_parts(cur.last().0) == Some((gm.version, gm.description)));
                    assert(scripts_of(cur) == scripts_of(prev).push(gm));
                    vstd::seq_lib::to_multiset_build(scripts_of(prev), gm);
                    assert(scripts_of(prev).push(gm).to_multiset() =~= scripts_of(
                        prev,
                    ).to_multiset().insert(gm));
                }
            },
            None => {
                i = i + 1;
                proof {
                    let cur = file_views(files@).subrange(0, i as int);
                    assert(cur.drop_last() =~= prev);
                    assert(cur.last() == (files@[i - 1].0@, files@[i - 1].1@));
                    assert(scripts_of(cur) == scripts_of(prev));
                }
            },
        }
    }
    proof {
        assert(file_views(files@).subrange(0, files@.len() as int) =~= file_views(files@));
    }
    out
}

/// Insert one script into a version-sorted catalog, keeping it sorted.
fn insert_sorted(out: &mut Vec<MigrationScript>, script: MigrationScript)
    requires
        sorted_by_version(script_models(old(out)@)),
    ensures
        script_models(final(out)@).to_multiset() == script_models(old(out)@).to_multiset().insert(
            script@,
        ),
        sorted_by_version(script_models(final(out)@)),
        forall|k: int|
            0 <= k < final(out)@.len() ==> (#[trigger] final(out)@[k])@ == script@ || old(
                out,
            )@.contains(final(out)@[k]),
{
    broadcast use group_to_multiset_ensures;

    let mut k: usize = 0;
    while k < out.len() && str_le(out[k].version.as_str(), script.version.as_str())
        invariant
            0 <= k <= old(out)@.len(),
            out == old(out),
            forall|m: int|
                0 <= m < k ==> lex_le((#[trigger] old(out)@[m])@.version, script@.version),
        decreases old(out)@.len() - k,
    {
        k = k + 1;
    }
    proof {
        if k < old(out)@.len() {
            lemma_lex_le_total(old(out)@[k as int]@.version, script@.version);
        }
        assert forall|m: int| k <= m < old(out)@.len() implies lex_le(
            script@.version,
            (#[trigger] old(out)@[m])@.version,
        ) by {
            if m > k {
                assert(lex_le(
                    script_models(old(out)@)[k as int].version,
                    script_models(old(out)@)[m].version,
                ));
                lemma_lex_le_trans(
                    script@.version,
                    old(out)@[k as int]@.version,
                    old(out)@[m]@.version,
                );
            }
        }
    }
    let ghost before = out@;
    out.insert(k, script);
    proof {
        let s = script_models(out@);
        let b = script_models(before);
        before.insert_ensures(k as int, script);
        b.insert_ensures(k as int, script@);
        assert forall|t: int| 0 <= t < s.len() implies s[t] == b.insert(k as int, script@)[t] by {
            if t < k {
                assert(out@[t] == before[t]);
            } else if t > k {
                assert(out@[t] == before[t - 1]);
            }
        }
        assert(s =~= b.insert(k as int, script@));
        assert(b.insert(k as int, script@).to_multiset() == b.to_multiset().insert(script@));
        assert forall|i: int, j: int| 0 <= i < j < s.len() implies lex_le(
            #[trigger] s[i].version,
            #[trigger] s[j].version,
        ) by {
            if j < k {
                assert(s[i] == b[i] && s[j] == b[j]);
            } else if j == k {
                assert(s[i] == b[i] && s[j] == script@);
                assert(lex_le(old(out)@[i]@.version, script@.version));
            } else if i == k {
                assert(s[i] == script@ && s[j] == b[j - 1]);
                assert(lex_le(script@.version, old(out)@[j - 1]@.version));
            } else if i < k {
                assert(s[i] == b[i] && s[j] == b[j - 1]);
            } else {
                assert(s[i] == b[i - 1] && s[j] == b[j - 1]);
            }
        }
        assert forall|t: int| 0 <= t < out@.len() implies (#[trigger] out@[t])@ == script@
            || before.contains(out@[t]) by {
            if t < k {
                assert(out@[t] == before[t]);
            } else if t > k {
                assert(out@[t] == before[t - 1]);
            }
        }
    }
}

} // verus!
