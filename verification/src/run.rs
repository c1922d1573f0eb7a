//! What a run does, by what it is asked for.

use crate::database::{after_all, reload, rows_of_year, Tables};
use crate::database_laws::{law_reload_replaces_the_year, stored_rows};
use crate::pdf::RowText;
use vstd::prelude::*;

verus! {

/// What a run is asked for.
pub struct Request {
    /// Whether reports, workbooks or historic reports are named.
    pub has_sources: bool,
    /// Whether ingest is to be skipped.
    pub no_ingest: bool,
    /// Whether files of the license list are named.
    pub has_licenses: bool,
    /// Whether a links file is named.
    pub has_links: bool,
    /// Whether an export is asked for.
    pub has_export: bool,
}

/// What a run does.
#[derive(Clone, Copy, PartialEq, Eq, Debug)]
pub enum Plan {
    /// There is nothing to do.
    Nothing,
    /// Work on the database as it is: labels, links and export.
    PostProcess,
    /// Load the license list and ingest the sources, then post-process.
    Ingest,
    /// Sources are named, but the license list that they are matched with is
    /// not.
    MissingLicenses,
}

/// What a run does, by what it is asked for. Ingest needs the license list.
/// Links, an export and skipping ingest are each enough for a run without
/// sources.
pub open spec fn plan_of(r: Request) -> Plan {
    if r.has_sources && !r.no_ingest {
        if r.has_licenses {
            Plan::Ingest
        } else {
            Plan::MissingLicenses
        }
    } else if r.has_links || r.has_export || r.no_ingest {
        Plan::PostProcess
    } else {
        Plan::Nothing
    }
}

/// What a run does.
pub fn plan(r: &Request) -> (p: Plan)
    ensures
        p == plan_of(*r),
{
    if r.has_sources && !r.no_ingest {
        if r.has_licenses {
            Plan::Ingest
        } else {
            Plan::MissingLicenses
        }
    } else if r.has_links || r.has_export || r.no_ingest {
        Plan::PostProcess
    } else {
        Plan::Nothing
    }
}

/// What becomes of a historic source.
#[derive(Clone, Copy, PartialEq, Eq, Debug)]
pub enum Admission {
    /// Its name tells no year.
    NoYear,
    /// Rows of its year are stored already.
    AlreadyLoaded,
    /// It is ingested for its year.
    Ingest(i32),
}

/// What becomes of a historic source whose name tells `year`, where `loaded`
/// says whether rows of that year are stored.
pub open spec fn admission_of(year: Option<i32>, loaded: bool) -> Admission {
    match year {
        None => Admission::NoYear,
        Some(y) => if loaded {
            Admission::AlreadyLoaded
        } else {
            Admission::Ingest(y)
        },
    }
}

/// What becomes of a historic source: a year that is stored already is left
/// untouched.
pub fn admission(year: Option<i32>, loaded: bool) -> (r: Admission)
    ensures
        r == admission_of(year, loaded),
{
    match year {
        None => Admission::NoYear,
        Some(y) => if loaded {
            Admission::AlreadyLoaded
        } else {
            Admission::Ingest(y)
        },
    }
}

/// Whether rows of a year are stored.
pub open spec fn has_year(t: Tables, year: i32) -> bool {
    rows_of_year(t.rows, year).len() > 0
}

/// The tables after a historic source.
pub open spec fn after_historic(
    t: Tables,
    year: Option<i32>,
    source_file: Seq<char>,
    rows: Seq<RowText>,
) -> Tables {
    match admission_of(year, year is Some && has_year(t, year->0)) {
        Admission::Ingest(y) => after_all(t, reload(y, source_file, rows)),
        _ => t,
    }
}

/// A historic source leaves every year that is stored already untouched.
pub proof fn law_loaded_years_stay(
    t: Tables,
    year: Option<i32>,
    source_file: Seq<char>,
    rows: Seq<RowText>,
    loaded: i32,
)
    requires
        has_year(t, loaded),
    ensures
        rows_of_year(after_historic(t, year, source_file, rows).rows, loaded) == rows_of_year(
            t.rows,
            loaded,
        ),
{
    if let Some(y) = year {
        law_reload_replaces_the_year(t, y, source_file, rows);
    }
}

/// A historic source: the year that its name tells, its name and, where it is
/// usable, its rows.
pub struct Source {
    pub year: Option<i32>,
    pub source_file: Seq<char>,
    pub rows: Option<Seq<RowText>>,
}

/// The tables after some historic sources, one after the other. A source that is
/// not usable changes nothing.
pub open spec fn after_sources(t: Tables, sources: Seq<Source>) -> Tables
    decreases sources.len(),
{
    if sources.len() == 0 {
        t
    } else {
        let before = after_sources(t, sources.drop_last());
        let s = sources.last();
        match s.rows {
            Some(rows) => after_historic(before, s.year, s.source_file, rows),
            None => before,
        }
    }
}

/// Whether a source has rows for a year.
pub open spec fn gives(s: Source, year: i32) -> bool {
    s.year == Some(year) && s.rows is Some && s.rows->0.len() > 0
}

/// Of several historic sources for a year that is not stored, the first that has
/// rows is taken.
pub proof fn law_first_source_wins(t: Tables, sources: Seq<Source>, year: i32, i: int)
    requires
        !has_year(t, year),
        0 <= i < sources.len(),
        gives(sources[i], year),
        forall|j: int| 0 <= j < i ==> !gives(#[trigger] sources[j], year),
    ensures
        rows_of_year(after_sources(t, sources).rows, year) == stored_rows(
            year,
            sources[i].source_file,
            sources[i].rows->0,
        ),
    decreases sources.len(),
{
    let front = sources.drop_last();
    let s = sources.last();
    let before = after_sources(t, front);
    if i < front.len() {
        assert forall|j: int| 0 <= j < i implies !gives(#[trigger] front[j], year) by {
            assert(!gives(sources[j], year));
        }
        law_first_source_wins(t, front, year, i);
        if let Some(rows) = s.rows {
            law_loaded_years_stay(before, s.year, s.source_file, rows, year);
        }
    } else {
        assert forall|j: int| 0 <= j < front.len() implies !gives(#[trigger] front[j], year) by {
            assert(!gives(sources[j], year));
        }
        lemma_still_absent(t, front, year);
        law_reload_replaces_the_year(before, year, s.source_file, s.rows->0);
    }
}

proof fn lemma_still_absent(t: Tables, sources: Seq<Source>, year: i32)
    requires
        !has_year(t, year),
        forall|j: int| 0 <= j < sources.len() ==> !gives(#[trigger] sources[j], year),
    ensures
        !has_year(after_sources(t, sources), year),
    decreases sources.len(),
{
    if sources.len() > 0 {
        let front = sources.drop_last();
        let s = sources.last();
        assert(!gives(sources[sources.len() - 1], year));
        assert forall|j: int| 0 <= j < front.len() implies !gives(#[trigger] front[j], year) by {
            assert(!gives(sources[j], year));
        }
        lemma_still_absent(t, front, year);
        let before = after_sources(t, front);
        if let (Some(y), Some(rows)) = (s.year, s.rows) {
            law_reload_replaces_the_year(before, y, s.source_file, rows);
        }
    }
}

/// Sources are ingested exactly where ingest is not to be skipped and the license
/// list is named; without the list they are refused. A run without sources to
/// ingest works on the database where links, an export or skipping ingest is asked
/// for, and else does nothing.
pub proof fn law_run_follows_its_request(r: Request)
    ensures
        plan_of(r) is Ingest <==> r.has_sources && !r.no_ingest && r.has_licenses,
        plan_of(r) is MissingLicenses <==> r.has_sources && !r.no_ingest && !r.has_licenses,
        plan_of(r) is PostProcess <==> (!r.has_sources || r.no_ingest) && (r.has_links
            || r.has_export || r.no_ingest),
        plan_of(r) is Nothing <==> !r.has_sources && !r.has_links && !r.has_export && !r.no_ingest,
{
}

/// A historic source whose name tells a year is stored for that year exactly where
/// none of its rows is stored; one whose name tells none changes nothing.
pub proof fn law_historic_source_fills_its_year(
    t: Tables,
    year: i32,
    source_file: Seq<char>,
    rows: Seq<RowText>,
)
    ensures
        after_historic(t, None, source_file, rows) == t,
        rows_of_year(t.rows, year).len() > 0 ==> after_historic(t, Some(year), source_file, rows)
            == t,
        rows_of_year(t.rows, year).len() == 0 ==> rows_of_year(
            after_historic(t, Some(year), source_file, rows).rows,
            year,
        ) == stored_rows(year, source_file, rows),
{
    law_reload_replaces_the_year(t, year, source_file, rows);
}

} // verus!
