//! Discovery of migration files: the filename grammar, id extraction,
//! and the ordered, duplicate-free plan built from a directory listing.
//!
//! A migration file is named `<3-digit-id>_<suffix>.sql`, where the
//! suffix is non-empty and contains no dot. The three leading digits
//! are the id, the sole ordering and uniqueness key of a migration.

use vstd::prelude::*;

use crate::errors::MigrateError;

verus! {

/// An ASCII decimal digit.
pub open spec fn is_digit(c: char) -> bool {
    '0' <= c && c <= '9'
}

/// Numeric value of an ASCII digit.
pub open spec fn digit_val(c: char) -> int {
    c as int - '0' as int
}

/// The filename grammar `<3-digit-id>_<suffix>.sql`: three ASCII
/// digits, an underscore, a non-empty suffix free of dots, and the
/// `.sql` extension, with nothing before or after.
#[verifier::opaque]
pub open spec fn valid_name(s: Seq<char>) -> bool {
    &&& s.len() >= 9
    &&& is_digit(s[0])
    &&& is_digit(s[1])
    &&& is_digit(s[2])
    &&& s[3] == '_'
    &&& s[s.len() - 4] == '.'
    &&& s[s.len() - 3] == 's'
    &&& s[s.len() - 2] == 'q'
    &&& s[s.len() - 1] == 'l'
    &&& forall|i: int| 4 <= i < s.len() - 4 ==> s[i] != '.'
}

/// The numeric id encoded by the three leading digits of a valid name.
#[verifier::opaque]
pub open spec fn id_of(s: Seq<char>) -> int {
    100 * digit_val(s[0]) + 10 * digit_val(s[1]) + digit_val(s[2])
}

/// A migration discovered on disk: its filename as found, and the
/// numeric value of its three-digit id prefix.
#[derive(Debug)]
pub struct MigrationFile {
    /// The full file name, matching the grammar.
    pub filename: String,
    /// The id, as a number: `id_of(filename)`.
    pub id: u32,
}

impl MigrationFile {
    /// The descriptor is consistent: the filename matches the grammar
    /// and `id` is exactly the number its first three digits spell.
    pub open spec fn wf(&self) -> bool {
        &&& valid_name(self.filename@)
        &&& self.id == id_of(self.filename@)
    }

    /// Parse a directory entry's name against the grammar. Returns a
    /// descriptor exactly for names that match; everything else is
    /// rejected without error.
    pub fn try_parse(name: &str) -> (r: Option<MigrationFile>)
        ensures
            r is Some <==> valid_name(name@),
            match r {
                Some(d) => d.wf() && d.filename@ == name@,
                None => true,
            },
    {
        proof {
            reveal(valid_name);
            reveal(id_of);
        }
        let n = name.unicode_len();
        if n < 9 {
            return None;
        }
        let c0 = name.get_char(0);
        let c1 = name.get_char(1);
        let c2 = name.get_char(2);
        if !(('0' <= c0 && c0 <= '9') && ('0' <= c1 && c1 <= '9') && ('0' <= c2 && c2 <= '9')) {
            return None;
        }
        if name.get_char(3) != '_' {
            return None;
        }
        if name.get_char(n - 4) != '.' || name.get_char(n - 3) != 's' || name.get_char(n - 2) != 'q'
            || name.get_char(n - 1) != 'l' {
            return None;
        }
        let mut i: usize = 4;
        while i < n - 4
            invariant
                4 <= i <= n - 4,
                n == name@.len(),
                n >= 9,
                forall|k: int| 4 <= k < i ==> name@[k] != '.',
            decreases n - 4 - i,
        {
            proof {
                reveal(valid_name);
            }
            if name.get_char(i) == '.' {
                return None;
            }
            i += 1;
        }
        proof {
            reveal(valid_name);
            reveal(id_of);
        }
        let id: u32 = 100 * (c0 as u32 - 48) + 10 * (c1 as u32 - 48) + (c2 as u32 - 48);
        Some(MigrationFile { filename: String::from_str(name), id })
    }

    /// The id as the three-character string it was written with: the
    /// first three characters of the filename.
    pub fn id_text(&self) -> (r: String)
        requires
            self.wf(),
        ensures
            r@ == self.filename@.subrange(0, 3),
            r@.len() == 3,
            id_of(r@) == self.id,
    {
        proof {
            reveal(valid_name);
            reveal(id_of);
        }
        let r = String::from_str(self.filename.as_str().substring_char(0, 3));
        proof {
            assert(r@[0] == self.filename@[0]);
            assert(r@[1] == self.filename@[1]);
            assert(r@[2] == self.filename@[2]);
        }
        r
    }
}

/// A well-formed plan: every descriptor is consistent and the ids are
/// strictly increasing, so each id occurs at most once.
pub open spec fn plan_wf(s: Seq<MigrationFile>) -> bool {
    &&& forall|i: int| 0 <= i < s.len() ==> s[i].wf()
    &&& forall|i: int, j: int| 0 <= i < j < s.len() ==> s[i].id < s[j].id
}

/// A valid name's id is a three-digit number.
pub proof fn lemma_id_in_range(s: Seq<char>)
    requires
        valid_name(s),
    ensures
        0 <= id_of(s) < 1000,
{
    reveal(valid_name);
    reveal(id_of);
}

/// The subsequence of names that match the grammar, in input order.
pub open spec fn matching(names: Seq<String>) -> Seq<Seq<char>>
    decreases names.len(),
{
    if names.len() == 0 {
        Seq::empty()
    } else {
        let m = matching(names.drop_last());
        if valid_name(names.last()@) {
            m.push(names.last()@)
        } else {
            m
        }
    }
}

/// The filenames of a plan, in plan order.
pub open spec fn file_names(plan: Seq<MigrationFile>) -> Seq<Seq<char>>
    decreases plan.len(),
{
    if plan.len() == 0 {
        Seq::empty()
    } else {
        file_names(plan.drop_last()).push(plan.last().filename@)
    }
}

/// Every name that matches the grammar survives discovery: it is kept
/// in the matching subsequence.
pub proof fn lemma_matching_keeps_valid(names: Seq<String>, j: int)
    requires
        0 <= j < names.len(),
        valid_name(names[j]@),
    ensures
        matching(names).contains(names[j]@),
    decreases names.len(),
{
    if j == names.len() - 1 {
        assert(matching(names)[matching(names).len() - 1] == names[j]@);
    } else {
        lemma_matching_keeps_valid(names.drop_last(), j);
        let m = matching(names.drop_last());
        let idx = choose|idx: int| 0 <= idx < m.len() && m[idx] == names[j]@;
        assert(matching(names)[idx] == names[j]@);
    }
}

/// Only names that match the grammar survive discovery: everything in
/// the matching subsequence is one of the input names and is valid.
pub proof fn lemma_matching_only_valid(names: Seq<String>, x: Seq<char>)
    requires
        matching(names).contains(x),
    ensures
        valid_name(x),
        exists|j: int| 0 <= j < names.len() && names[j]@ == x,
    decreases names.len(),
{
    let m = matching(names);
    let idx = choose|idx: int| 0 <= idx < m.len() && m[idx] == x;
    let prior = matching(names.drop_last());
    if valid_name(names.last()@) && idx == m.len() - 1 {
        assert(names[names.len() - 1]@ == x);
    } else {
        assert(prior[idx] == x);
        lemma_matching_only_valid(names.drop_last(), x);
        let j = choose|j: int| 0 <= j < names.len() - 1 && names.drop_last()[j]@ == x;
        assert(names[j]@ == x);
    }
}

/// A plan and its filenames have the same length.
proof fn lemma_file_names_len(plan: Seq<MigrationFile>)
    ensures
        file_names(plan).len() == plan.len(),
    decreases plan.len(),
{
    if plan.len() > 0 {
        lemma_file_names_len(plan.drop_last());
    }
}

/// Each entry of a plan contributes its filename.
proof fn lemma_file_names_at(plan: Seq<MigrationFile>, p: int)
    requires
        0 <= p < plan.len(),
    ensures
        file_names(plan).contains(plan[p].filename@),
    decreases plan.len(),
{
    lemma_file_names_len(plan);
    lemma_file_names_len(plan.drop_last());
    if p == plan.len() - 1 {
        assert(file_names(plan)[plan.len() - 1] == plan[p].filename@);
    } else {
        lemma_file_names_at(plan.drop_last(), p);
        let fnames = file_names(plan.drop_last());
        let idx = choose|idx: int| 0 <= idx < fnames.len() && fnames[idx] == plan[p].filename@;
        assert(file_names(plan)[idx] == plan[p].filename@);
    }
}

/// Every filename of a plan belongs to one of its entries.
proof fn lemma_file_names_from(plan: Seq<MigrationFile>, x: Seq<char>)
    requires
        file_names(plan).contains(x),
    ensures
        exists|p: int| 0 <= p < plan.len() && plan[p].filename@ == x,
    decreases plan.len(),
{
    let fnames = file_names(plan);
    lemma_file_names_len(plan);
    lemma_file_names_len(plan.drop_last());
    let idx = choose|idx: int| 0 <= idx < fnames.len() && fnames[idx] == x;
    if idx == fnames.len() - 1 {
        assert(plan[plan.len() - 1].filename@ == x);
    } else {
        assert(file_names(plan.drop_last())[idx] == x);
        lemma_file_names_from(plan.drop_last(), x);
        let p = choose|p: int| 0 <= p < plan.len() - 1 && plan.drop_last()[p].filename@ == x;
        assert(plan[p].filename@ == x);
    }
}

/// Inserting an entry anywhere in a plan adds exactly its filename to
/// the bag of filenames.
proof fn lemma_file_names_insert(plan: Seq<MigrationFile>, j: int, d: MigrationFile)
    requires
        0 <= j <= plan.len(),
    ensures
        file_names(plan.insert(j, d)).to_multiset() == file_names(plan).to_multiset().insert(
            d.filename@,
        ),
    decreases plan.len(),
{
    broadcast use vstd::seq_lib::group_to_multiset_ensures;

    let t = plan.insert(j, d);
    if j == plan.len() {
        assert(t =~= plan.push(d));
        assert(t.drop_last() =~= plan);
        assert(file_names(t) == file_names(plan).push(d.filename@));
    } else {
        plan.insert_ensures(j, d);
        assert(t.drop_last() =~= plan.drop_last().insert(j, d));
        assert(t.last() == plan.last());
        lemma_file_names_insert(plan.drop_last(), j, d);
        let base = file_names(plan.drop_last()).to_multiset();
        assert(file_names(t).to_multiset() == base.insert(d.filename@).insert(
            plan.last().filename@,
        ));
        assert(file_names(plan).to_multiset() == base.insert(plan.last().filename@));
        assert(base.insert(d.filename@).insert(plan.last().filename@) =~= base.insert(
            plan.last().filename@,
        ).insert(d.filename@));
    }
}

/// Insert a descriptor into a plan, keeping it sorted by id.
///
/// If the plan already holds `d.id`, it is left unchanged and `true`
/// comes back; otherwise `d` is inserted at its sorted position.
fn insert_sorted(plan: &mut Vec<MigrationFile>, d: MigrationFile) -> (dup: bool)
    requires
        plan_wf(old(plan)@),
        d.wf(),
    ensures
        dup <==> exists|p: int| 0 <= p < old(plan)@.len() && #[trigger] old(plan)@[p].id == d.id,
        dup ==> final(plan)@ == old(plan)@,
        !dup ==> plan_wf(final(plan)@),
        !dup ==> file_names(final(plan)@).to_multiset() == file_names(old(plan)@).to_multiset()
            .insert(d.filename@),
{
    let mut j: usize = 0;
    while j < plan.len() && plan[j].id < d.id
        invariant
            j <= plan.len(),
            plan@ == old(plan)@,
            plan_wf(plan@),
            d.wf(),
            forall|p: int| 0 <= p < j ==> #[trigger] plan@[p].id < d.id,
        decreases plan.len() - j,
    {
        j += 1;
    }
    if j < plan.len() && plan[j].id == d.id {
        return true;
    }
    let ghost prior = plan@;
    let ghost jg = j as int;
    proof {
        assert forall|p: int| 0 <= p < prior.len() implies #[trigger] prior[p].id != d.id by {
            if p >= jg {
                assert(prior[jg].id > d.id);
                if p > jg {
                    assert(prior[jg].id < prior[p].id);
                }
            }
        }
    }
    plan.insert(j, d);
    proof {
        prior.insert_ensures(jg, d);
        assert(plan@[jg] == d);
        assert forall|a: int, b: int| 0 <= a < b < plan@.len() implies plan@[a].id < plan@[b].id
            && plan@[a].wf() && plan@[b].wf() by {
            if a < jg {
                assert(plan@[a] == prior[a]);
            } else if a > jg {
                assert(plan@[a] == prior[a - 1]);
            }
            if b < jg {
                assert(plan@[b] == prior[b]);
            } else if b > jg {
                assert(plan@[b] == prior[b - 1]);
                if a < jg && a < b - 1 {
                    assert(prior[a].id < prior[b - 1].id);
                }
                if a == jg {
                    assert(prior[jg].id > d.id);
                    if jg < b - 1 {
                        assert(prior[jg].id < prior[b - 1].id);
                    }
                }
            }
        }
        lemma_file_names_insert(prior, jg, d);
    }
    false
}

/// Build the ordered plan of a run from a raw directory listing.
///
/// Names that do not match the grammar are skipped without aborting
/// discovery of the rest. The result holds exactly the matching names,
/// sorted ascending by id. Two matching names with the same id are a
/// `DuplicateId` error naming that id; discovery succeeds if and only
/// if no such pair exists.
pub fn discover(names: &Vec<String>) -> (r: Result<Vec<MigrationFile>, MigrateError>)
    ensures
        match r {
            Ok(plan) => {
                &&& plan_wf(plan@)
                &&& file_names(plan@).to_multiset() == matching(names@).to_multiset()
                &&& forall|j: int, k: int|
                    #![trigger valid_name(names@[j]@), valid_name(names@[k]@)]
                    0 <= j < k < names@.len() && valid_name(names@[j]@) && valid_name(names@[k]@)
                        ==> id_of(names@[j]@) != id_of(names@[k]@)
            },
            Err(e) => exists|j: int, k: int|
                #![trigger valid_name(names@[j]@), valid_name(names@[k]@)]
                0 <= j < k < names@.len() && valid_name(names@[j]@) && valid_name(names@[k]@)
                    && id_of(names@[j]@) == id_of(names@[k]@)
                    && e == (MigrateError::DuplicateId { id: id_of(names@[j]@) as u32 }),
        },
{
    broadcast use vstd::seq_lib::group_to_multiset_ensures;

    let mut plan: Vec<MigrationFile> = Vec::new();
    let mut i: usize = 0;
    proof {
        assert(names@.take(0) =~= Seq::<String>::empty());
    }
    while i < names.len()
        invariant
            i <= names.len(),
            plan_wf(plan@),
            file_names(plan@).to_multiset() == matching(names@.take(i as int)).to_multiset(),
            forall|j: int, k: int|
                #![trigger valid_name(names@[j]@), valid_name(names@[k]@)]
                0 <= j < k < i && valid_name(names@[j]@) && valid_name(names@[k]@)
                    ==> id_of(names@[j]@) != id_of(names@[k]@),
        decreases names.len() - i,
    {
        broadcast use vstd::seq_lib::group_to_multiset_ensures;

        let ghost ig = i as int;
        proof {
            assert(names@.take(ig + 1).drop_last() =~= names@.take(ig));
            assert(names@.take(ig + 1).last() == names@[ig]);
        }
        let parsed = MigrationFile::try_parse(names[i].as_str());
        if let Some(d) = parsed {
            let ghost prior = plan@;
            let did: u32 = d.id;
            let ghost dg = d;
            let dup = insert_sorted(&mut plan, d);
            if dup {
                proof {
                    let p = choose|p: int| 0 <= p < prior.len() && #[trigger] prior[p].id == dg.id;
                    lemma_file_names_at(prior, p);
                    assert(file_names(prior).to_multiset().count(prior[p].filename@) > 0);
                    assert(matching(names@.take(ig)).to_multiset().count(prior[p].filename@) > 0);
                    assert(matching(names@.take(ig)).contains(prior[p].filename@));
                    lemma_matching_only_valid(names@.take(ig), prior[p].filename@);
                    let jj = choose|jj: int|
                        0 <= jj < names@.take(ig).len() && names@.take(ig)[jj]@
                            == prior[p].filename@;
                    assert(names@[jj]@ == prior[p].filename@);
                    assert(valid_name(names@[jj]@));
                    assert(id_of(names@[jj]@) == prior[p].id);
                    assert(valid_name(names@[ig]@) && id_of(names@[ig]@) == dg.id);
                    lemma_id_in_range(names@[jj]@);
                }
                return Err(MigrateError::DuplicateId { id: did });
            }
            proof {
                assert(matching(names@.take(ig + 1)) == matching(names@.take(ig)).push(
                    names@[ig]@,
                ));
                assert(dg.filename@ == names@[ig]@);
                assert forall|a: int, b: int|
                    #![trigger valid_name(names@[a]@), valid_name(names@[b]@)]
                    0 <= a < b < ig + 1 && valid_name(names@[a]@) && valid_name(names@[b]@)
                    implies id_of(names@[a]@) != id_of(names@[b]@) by {
                    if b == ig {
                        lemma_matching_keeps_valid(names@.take(ig), a);
                        assert(matching(names@.take(ig)).contains(names@[a]@));
                        assert(matching(names@.take(ig)).to_multiset().count(names@[a]@) > 0);
                        assert(file_names(prior).to_multiset().count(names@[a]@) > 0);
                        assert(file_names(prior).contains(names@[a]@));
                        lemma_file_names_from(prior, names@[a]@);
                        let p = choose|p: int|
                            0 <= p < prior.len() && prior[p].filename@ == names@[a]@;
                        assert(prior[p].wf());
                        assert(prior[p].id == id_of(names@[a]@));
                        assert(prior[p].id != dg.id);
                        assert(dg.id == id_of(names@[ig]@));
                        lemma_id_in_range(names@[a]@);
                        lemma_id_in_range(names@[ig]@);
                    }
                }
            }
        } else {
            proof {
                assert(matching(names@.take(ig + 1)) == matching(names@.take(ig)));
            }
        }
        i += 1;
    }
    proof {
        assert(names@.take(names@.len() as int) =~= names@);
    }
    Ok(plan)
}

} // verus!
