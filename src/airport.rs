use vstd::prelude::*;
use crate::text::{contains_str, lower_of, occurs_in, to_lower, trim, trimmed_of};

verus! {

/// The displayed content of an airport record.
pub struct AirportView {
    pub icao: Seq<char>,
    pub name: Seq<char>,
}

/// An airport record: its ICAO code and name as given, and their lowercase
/// forms, computed once at construction and used for matching only.
pub struct Airport {
    icao: String,
    name: String,
    lower_icao: String,
    lower_name: String,
}

impl View for Airport {
    type V = AirportView;

    closed spec fn view(&self) -> AirportView {
        AirportView { icao: self.icao@, name: self.name@ }
    }
}

/// A record matches a lowercased query when the query occurs in its lowercase
/// code or in its lowercase name.
pub open spec fn matches_query(a: AirportView, lowered: Seq<char>) -> bool {
    occurs_in(lowered, lower_of(a.icao)) || occurs_in(lowered, lower_of(a.name))
}

impl Airport {
    #[verifier::type_invariant]
    closed spec fn lower_fields_match(&self) -> bool {
        &&& self.lower_icao@ == lower_of(self.icao@)
        &&& self.lower_name@ == lower_of(self.name@)
    }

    /// Builds a record, computing the lowercase search keys.
    pub fn new(icao: String, name: String) -> (r: Airport)
        ensures
            r@ == (AirportView { icao: icao@, name: name@ }),
    {
        let lower_icao = to_lower(icao.as_str());
        let lower_name = to_lower(name.as_str());
        Airport { icao, name, lower_icao, lower_name }
    }

    /// The ICAO code as given.
    pub fn icao(&self) -> (r: &str)
        ensures
            r@ == self@.icao,
    {
        self.icao.as_str()
    }

    /// The name as given.
    pub fn name(&self) -> (r: &str)
        ensures
            r@ == self@.name,
    {
        self.name.as_str()
    }

    /// Whether the already lowercased query occurs in the code or the name,
    /// compared in lowercase.
    pub fn matches(&self, lowered: &str) -> (r: bool)
        ensures
            r == matches_query(self@, lowered@),
    {
        proof {
            use_type_invariant(self);
        }
        contains_str(self.lower_icao.as_str(), lowered)
            || contains_str(self.lower_name.as_str(), lowered)
    }
}

/// The dataset, loaded once and then shared read-only by every request.
pub struct AppState {
    pub airports: Vec<Airport>,
}

/// One row of the tabular source: an identifier and a name.
pub struct CsvAirport {
    pub ident: String,
    pub name: String,
}

/// A row is kept when its identifier is not blank once trimmed.
pub open spec fn row_is_kept(row: CsvAirport) -> bool {
    trimmed_of(row.ident@).len() > 0
}

/// The records that the rows give: the kept rows, in order, as records.
pub open spec fn dataset_of(rows: Seq<CsvAirport>) -> Seq<AirportView> {
    rows.filter(|row: CsvAirport| row_is_kept(row)).map_values(
        |row: CsvAirport| AirportView { icao: row.ident@, name: row.name@ },
    )
}

/// The views of a sequence of records.
pub open spec fn views_of(airports: Seq<Airport>) -> Seq<AirportView> {
    airports.map_values(|a: Airport| a@)
}

proof fn lemma_dataset_step(rows: Seq<CsvAirport>, i: int)
    requires
        0 <= i < rows.len(),
    ensures
        dataset_of(rows.subrange(0, i + 1)) == if row_is_kept(rows[i]) {
            dataset_of(rows.subrange(0, i)).push(
                AirportView { icao: rows[i].ident@, name: rows[i].name@ },
            )
        } else {
            dataset_of(rows.subrange(0, i))
        },
{
    let pred = |row: CsvAirport| row_is_kept(row);
    let next = rows.subrange(0, i + 1);
    assert(next.drop_last() =~= rows.subrange(0, i));
    assert(next.last() == rows[i]);
    reveal(Seq::filter);
    if row_is_kept(rows[i]) {
        assert(next.filter(pred) == rows.subrange(0, i).filter(pred).push(rows[i]));
        assert(dataset_of(next) =~= dataset_of(rows.subrange(0, i)).push(
            AirportView { icao: rows[i].ident@, name: rows[i].name@ },
        ));
    } else {
        assert(next.filter(pred) == rows.subrange(0, i).filter(pred));
    }
}

/// Builds the dataset from the source rows: rows whose identifier is blank
/// after trimming are skipped, the others become records in row order.
pub fn airports_from_rows(rows: &Vec<CsvAirport>) -> (r: Vec<Airport>)
    ensures
        views_of(r@) == dataset_of(rows@),
{
    let mut out: Vec<Airport> = Vec::new();
    let mut i: usize = 0;
    while i < rows.len()
        invariant
            i <= rows@.len(),
            views_of(out@) == dataset_of(rows@.subrange(0, i as int)),
        decreases rows@.len() - i,
    {
        let row = &rows[i];
        proof {
            lemma_dataset_step(rows@, i as int);
        }
        if !trim(row.ident.as_str()).is_empty() {
            let a = Airport::new(row.ident.clone(), row.name.clone());
            let ghost before = out@;
            out.push(a);
            assert(views_of(out@) =~= views_of(before).push(a@));
        }
        i = i + 1;
    }
    assert(rows@.subrange(0, rows@.len() as int) =~= rows@);
    out
}

} // verus!
