//! Diagnostic verification that a protected name was really removed from
//! the raw environment table, and the model of that removal.

use vstd::prelude::*;
use vstd::string::StrSliceExecFns;
use crate::state::views_of;

verus! {

/// Whether a raw table entry defines the variable `name`: it starts with
/// `name` immediately followed by `=`.
pub open spec fn entry_defines(entry: Seq<char>, name: Seq<char>) -> bool {
    &&& entry.len() > name.len()
    &&& entry.subrange(0, name.len() as int) == name
    &&& entry[name.len() as int] == '='
}

/// Whether some entry of the raw table defines `name`.
pub open spec fn table_exposes(table: Seq<Seq<char>>, name: Seq<char>) -> bool {
    exists|i: int| 0 <= i < table.len() && entry_defines(table[i], name)
}

/// `table` with every entry defining `name` removed, other entries kept in
/// order: the model of unsetting one variable in the raw table.
pub open spec fn without_name(table: Seq<Seq<char>>, name: Seq<char>) -> Seq<Seq<char>> {
    table.filter(|e: Seq<char>| !entry_defines(e, name))
}

/// What the exposure scan reports.
#[derive(Clone, Copy, PartialEq, Eq, Structural, Debug)]
pub enum ExposureStatus {
    /// The raw table itself could not be read.
    TableUnavailable,
    /// An entry for the name is still present.
    StillExposed,
    /// No entry for the name remains.
    Cleared,
}

/// The view of an optional raw table.
pub open spec fn opt_table_view(o: Option<&Vec<String>>) -> Option<Seq<Seq<char>>> {
    match o {
        Some(t) => Some(views_of(t@)),
        None => None,
    }
}

/// The status a scan of an optional raw table reports for `name`.
pub open spec fn spec_exposure(table: Option<Seq<Seq<char>>>, name: Seq<char>) -> ExposureStatus {
    match table {
        None => ExposureStatus::TableUnavailable,
        Some(t) => if table_exposes(t, name) {
            ExposureStatus::StillExposed
        } else {
            ExposureStatus::Cleared
        },
    }
}

fn entry_defines_exec(entry: &str, name: &str) -> (r: bool)
    ensures
        r == entry_defines(entry@, name@),
{
    let en = entry.unicode_len();
    let nn = name.unicode_len();
    if en <= nn {
        return false;
    }
    let mut i: usize = 0;
    while i < nn
        invariant
            en == entry@.len(),
            nn == name@.len(),
            nn < en,
            i <= nn,
            forall|j: int| 0 <= j < i ==> entry@[j] == name@[j],
        decreases nn - i,
    {
        if entry.get_char(i) != name.get_char(i) {
            assert(entry@.subrange(0, nn as int)[i as int] == entry@[i as int]);
            return false;
        }
        i += 1;
    }
    proof {
        assert(entry@.subrange(0, nn as int) =~= name@);
    }
    entry.get_char(nn) == '='
}

/// Scan the raw environment table, handed over as plain entries and read
/// outside any interception path, and report whether `token_name` is still
/// defined in it. Diagnostic only: the caller's result never depends on it.
pub fn check_task_environ_exposure(environ: Option<&Vec<String>>, token_name: &str) -> (r: ExposureStatus)
    ensures
        r == spec_exposure(opt_table_view(environ), token_name@),
{
    match environ {
        None => ExposureStatus::TableUnavailable,
        Some(table) => {
            let n = table.len();
            let mut i: usize = 0;
            while i < n
                invariant
                    opt_table_view(environ) == Some(views_of(table@)),
                    n == table@.len(),
                    i <= n,
                    forall|j: int| 0 <= j < i ==> !entry_defines(views_of(table@)[j], token_name@),
                decreases n - i,
            {
                assert(views_of(table@)[i as int] == table@[i as int]@);
                if entry_defines_exec(table[i].as_str(), token_name) {
                    assert(table_exposes(views_of(table@), token_name@));
                    return ExposureStatus::StillExposed;
                }
                i += 1;
            }
            assert(!table_exposes(views_of(table@), token_name@));
            ExposureStatus::Cleared
        },
    }
}

/// Remove every entry defining `name` from the table, keeping all other
/// entries in order: the model of unsetting one variable.
pub fn remove_name_from_table(table: &mut Vec<String>, name: &str)
    ensures
        views_of(final(table)@) == without_name(views_of(old(table)@), name@),
{
    broadcast use Seq::lemma_filter_push;

    let ghost orig: Seq<String> = table@;
    let n = table.len();
    let mut kept: Vec<String> = Vec::new();
    let mut i: usize = 0;
    proof {
        assert(views_of(kept@) =~= Seq::<Seq<char>>::empty());
        assert(views_of(orig).subrange(0, 0) =~= Seq::<Seq<char>>::empty());
    }
    while i < n
        invariant
            table@ == orig,
            n == orig.len(),
            i <= n,
            views_of(kept@) == without_name(views_of(orig).subrange(0, i as int), name@),
        decreases n - i,
    {
        let ghost pre_kept = views_of(kept@);
        assert(views_of(table@)[i as int] == table@[i as int]@);
        if !entry_defines_exec(table[i].as_str(), name) {
            let e = table[i].clone();
            kept.push(e);
            proof {
                assert(views_of(kept@) =~= pre_kept.push(orig[i as int]@));
            }
        }
        proof {
            broadcast use Seq::lemma_filter_push;

            let vs = views_of(orig);
            let pre = vs.subrange(0, i as int);
            let x = vs[i as int];
            assert(x == orig[i as int]@);
            assert(vs.subrange(0, i as int + 1) =~= pre.push(x));
            assert(without_name(pre.push(x), name@) == if entry_defines(x, name@) {
                without_name(pre, name@)
            } else {
                without_name(pre, name@).push(x)
            });
        }
        i += 1;
    }
    proof {
        assert(views_of(orig).subrange(0, n as int) =~= views_of(orig));
    }
    *table = kept;
}

proof fn lemma_without_name_step(table: Seq<Seq<char>>, name: Seq<char>)
    requires
        table.len() > 0,
    ensures
        without_name(table, name) == if entry_defines(table.last(), name) {
            without_name(table.drop_last(), name)
        } else {
            without_name(table.drop_last(), name).push(table.last())
        },
{
    reveal(Seq::filter);
}

proof fn lemma_without_name_clean(table: Seq<Seq<char>>, name: Seq<char>)
    ensures
        forall|i: int|
            0 <= i < without_name(table, name).len() ==> !entry_defines(
                #[trigger] without_name(table, name)[i],
                name,
            ),
    decreases table.len(),
{
    reveal(Seq::filter);
    if table.len() > 0 {
        lemma_without_name_step(table, name);
        lemma_without_name_clean(table.drop_last(), name);
    }
}

/// Law: removing a name from the raw table leaves no entry defining it, so
/// a direct scan of the table after the removal always reports it cleared.
pub proof fn lemma_removed_name_not_exposed(table: Seq<Seq<char>>, name: Seq<char>)
    ensures
        !table_exposes(without_name(table, name), name),
        spec_exposure(Some(without_name(table, name)), name) == ExposureStatus::Cleared,
{
    lemma_without_name_clean(table, name);
}

} // verus!
