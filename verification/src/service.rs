//! The report service: turns a report request into a stored report record
//! by resolving the requested columns against the catalog and attaching a
//! fresh identifier and the initial lifecycle state.
use vstd::prelude::*;
use crate::models::{
    Column, ColumnV, Datasource, DatasourceV, Report, ReportRequest, ReportStatus, columns_view,
    ids_view, resolve_all, resolve_spec,
};

verus! {

broadcast use vstd::seq::group_seq_axioms, vstd::std_specs::vec::group_vec_axioms;

/// A report-creation failure: a requested column id that the catalog does
/// not know.
#[derive(Debug)]
pub enum Error {
    ColumnNotFound(String),
}

/// Mathematical model of an [`Error`].
pub enum ErrorV {
    ColumnNotFound(Seq<char>),
}

impl View for Error {
    type V = ErrorV;

    open spec fn view(&self) -> ErrorV {
        match self {
            Error::ColumnNotFound(id) => ErrorV::ColumnNotFound(id@),
        }
    }
}

/// Relies on `uuid::Uuid::new_v4` and the `Display` of `uuid::Uuid`: a
/// freshly generated version-4 UUID rendered in hyphenated lowercase form,
/// which is always 36 ASCII characters.  The value itself is random, so
/// nothing else is promised of it.
#[verifier::external_body]
fn fresh_report_id() -> (r: String)
    ensures
        r@.len() == 36,
{
    uuid::Uuid::new_v4().to_string()
}

/// Creates report records against one immutable catalog.
pub struct ReportService {
    datasource: Datasource,
}

impl View for ReportService {
    type V = DatasourceV;

    closed spec fn view(&self) -> DatasourceV {
        self.datasource@
    }
}

impl ReportService {
    /// A service over the given catalog.
    pub fn new(datasource: Datasource) -> (r: Self)
        ensures
            r@ == datasource@,
    {
        ReportService { datasource }
    }

    /// Resolves the requested columns and returns a pending report with a
    /// fresh 36-character identifier, no metadata, and the resolved columns
    /// in request order; fails with the first requested id that the catalog
    /// does not know.
    pub fn create_report(&self, request: ReportRequest) -> (r: Result<Report, Error>)
        ensures
            match r {
                Ok(rep) => resolve_all(self@.columns, request@.columns) == Ok::<
                    Seq<ColumnV>,
                    Seq<char>,
                >(rep@.columns) && rep@.status == ReportStatus::Pending && rep@.metadata is None
                    && rep@.id.len() == 36,
                Err(e) => resolve_all(self@.columns, request@.columns) matches Err(id) && e@
                    == ErrorV::ColumnNotFound(id),
            },
    {
        let id = fresh_report_id();
        let ghost catv = self@.columns;
        let ghost idsv = request@.columns;

        let mut columns: Vec<Column> = Vec::new();
        proof {
            assert(idsv.skip(0) =~= idsv);
            assert(columns_view(columns@) =~= Seq::<ColumnV>::empty());
            match resolve_all(catv, idsv) {
                Ok(rest) => {
                    assert(columns_view(columns@) + rest =~= rest);
                },
                Err(e) => {},
            }
        }
        let mut j: usize = 0;
        while j < request.columns.len()
            invariant
                j <= request.columns.len(),
                catv == self@.columns,
                idsv == ids_view(request.columns@),
                columns_view(columns@).len() == j,
                resolve_all(catv, idsv) == match resolve_all(catv, idsv.skip(j as int)) {
                    Ok(rest) => Ok::<Seq<ColumnV>, Seq<char>>(columns_view(columns@) + rest),
                    Err(e) => Err(e),
                },
            decreases request.columns.len() - j,
        {
            match self.map_column(&request.columns[j]) {
                Ok(c) => {
                    let ghost cols_pre = columns_view(columns@);
                    let ghost cv = c@;
                    columns.push(c);
                    proof {
                        assert(columns_view(columns@) =~= cols_pre.push(cv));
                        assert(idsv.skip(j as int)[0] == idsv[j as int]);
                        assert(idsv.skip(j as int).drop_first() =~= idsv.skip(j + 1));
                        if let Ok(rest) = resolve_all(catv, idsv.skip(j + 1)) {
                            assert(cols_pre + (seq![cv] + rest) =~= cols_pre.push(cv) + rest);
                        }
                    }
                },
                Err(e) => {
                    proof {
                        assert(idsv.skip(j as int)[0] == idsv[j as int]);
                    }
                    return Err(e);
                },
            }
            j += 1;
        }
        proof {
            assert(idsv.skip(request.columns@.len() as int) =~= Seq::<Seq<char>>::empty());
        }

        let status = ReportStatus::Pending;
        let metadata = None;
        let report = Report { id, columns, status, metadata };
        Ok(report)
    }

    /// Resolves one column id against the catalog: the first column whose
    /// `column_id` equals the input, or `ColumnNotFound` with the input id.
    fn map_column(&self, input: &String) -> (r: Result<Column, Error>)
        ensures
            match r {
                Ok(c) => resolve_spec(self@.columns, input@) == Some(c@),
                Err(e) => resolve_spec(self@.columns, input@) is None && e@
                    == ErrorV::ColumnNotFound(input@),
            },
    {
        let ghost catv = self@.columns;
        proof {
            assert(catv.skip(0) =~= catv);
        }
        let mut i: usize = 0;
        while i < self.datasource.columns.len()
            invariant
                i <= self.datasource.columns.len(),
                catv == self@.columns,
                catv.len() == self.datasource.columns@.len(),
                resolve_spec(catv, input@) == resolve_spec(catv.skip(i as int), input@),
            decreases self.datasource.columns.len() - i,
        {
            proof {
                assert(catv.skip(i as int)[0] == catv[i as int]);
                assert(catv.skip(i as int).drop_first() =~= catv.skip(i + 1));
            }
            if self.datasource.columns[i].column_id == *input {
                return Ok(self.datasource.columns[i].clone());
            }
            i += 1;
        }
        proof {
            assert(catv.skip(catv.len() as int) =~= Seq::<ColumnV>::empty());
        }
        Err(Error::ColumnNotFound(input.clone()))
    }
}

} // verus!
