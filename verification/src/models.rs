//! Domain data model: the catalog (datasource with its column definitions),
//! the report request with its filter tree, and the report record.
use vstd::prelude::*;

verus! {

/// Role of a column in the generated query: a grouping key or an
/// aggregated measure.
#[derive(Clone, Copy, PartialEq, Eq, Structural, Debug)]
pub enum ColumnType {
    Grouping,
    Aggregate,
}

/// One column of a datasource: a stable logical key (`column_id`), a display
/// name, the backing SQL expression (emitted verbatim), its role and an
/// opaque data-type tag.
#[derive(Debug)]
pub struct Column {
    pub name: String,
    pub column_id: String,
    pub expression: String,
    pub column_type: ColumnType,
    pub data_type: String,
}

/// Mathematical model of a [`Column`]: every string as a sequence of
/// characters.
pub struct ColumnV {
    pub name: Seq<char>,
    pub column_id: Seq<char>,
    pub expression: Seq<char>,
    pub column_type: ColumnType,
    pub data_type: Seq<char>,
}

impl View for Column {
    type V = ColumnV;

    open spec fn view(&self) -> ColumnV {
        ColumnV {
            name: self.name@,
            column_id: self.column_id@,
            expression: self.expression@,
            column_type: self.column_type,
            data_type: self.data_type@,
        }
    }
}

impl Clone for Column {
    fn clone(&self) -> (r: Self)
        ensures
            r@ == self@,
    {
        Column {
            name: self.name.clone(),
            column_id: self.column_id.clone(),
            expression: self.expression.clone(),
            column_type: self.column_type,
            data_type: self.data_type.clone(),
        }
    }
}

/// The catalog: a named, ordered set of column definitions.  Immutable once
/// built; column ids are expected to be unique within one datasource.
#[derive(Debug)]
pub struct Datasource {
    pub name: String,
    pub columns: Vec<Column>,
}

/// Mathematical model of a [`Datasource`].
pub struct DatasourceV {
    pub name: Seq<char>,
    pub columns: Seq<ColumnV>,
}

impl View for Datasource {
    type V = DatasourceV;

    open spec fn view(&self) -> DatasourceV {
        DatasourceV { name: self.name@, columns: columns_view(self.columns@) }
    }
}

/// The model of a sequence of columns: each element's model, in order.
pub open spec fn columns_view(cs: Seq<Column>) -> Seq<ColumnV> {
    Seq::new(cs.len(), |i: int| cs[i]@)
}

/// The model of a sequence of column ids: each as a sequence of characters.
pub open spec fn ids_view(ids: Seq<String>) -> Seq<Seq<char>> {
    Seq::new(ids.len(), |i: int| ids[i]@)
}

/// Lifecycle state of a stored report.
#[derive(Clone, Copy, PartialEq, Eq, Structural, Debug)]
pub enum ReportStatus {
    Pending,
    Running,
    Completed,
    Failed,
    Expired,
}

/// A boolean filter tree as it arrives in a report request.  Comparison
/// leaves carry the column name and an opaque string literal.
#[derive(Debug)]
#[allow(inconsistent_fields)]
pub enum Filter {
    And { value: Vec<Filter> },
    Or { value: Vec<Filter> },
    Eq { column: String, value: String },
    Lt { column: String, value: String },
    Lte { column: String, value: String },
    Gt { column: String, value: String },
    Gte { column: String, value: String },
}

/// Mathematical model of a [`Filter`].
#[allow(inconsistent_fields)]
pub enum FilterV {
    And { value: Seq<FilterV> },
    Or { value: Seq<FilterV> },
    Eq { column: Seq<char>, value: Seq<char> },
    Lt { column: Seq<char>, value: Seq<char> },
    Lte { column: Seq<char>, value: Seq<char> },
    Gt { column: Seq<char>, value: Seq<char> },
    Gte { column: Seq<char>, value: Seq<char> },
}

pub open spec fn filter_view(f: Filter) -> FilterV
    decreases f,
{
    match f {
        Filter::And { value } => FilterV::And { value: filters_view(value@) },
        Filter::Or { value } => FilterV::Or { value: filters_view(value@) },
        Filter::Eq { column, value } => FilterV::Eq { column: column@, value: value@ },
        Filter::Lt { column, value } => FilterV::Lt { column: column@, value: value@ },
        Filter::Lte { column, value } => FilterV::Lte { column: column@, value: value@ },
        Filter::Gt { column, value } => FilterV::Gt { column: column@, value: value@ },
        Filter::Gte { column, value } => FilterV::Gte { column: column@, value: value@ },
    }
}

pub open spec fn filters_view(fs: Seq<Filter>) -> Seq<FilterV>
    decreases fs,
{
    if fs.len() == 0 {
        Seq::empty()
    } else {
        filters_view(fs.drop_last()).push(filter_view(fs.last()))
    }
}

pub broadcast proof fn lemma_filters_view_index(fs: Seq<Filter>)
    ensures
        (#[trigger] filters_view(fs)).len() == fs.len(),
        forall|i: int| 0 <= i < fs.len() ==> filters_view(fs)[i] == filter_view(fs[i]),
    decreases fs,
{
    if fs.len() > 0 {
        lemma_filters_view_index(fs.drop_last());
    }
}

impl View for Filter {
    type V = FilterV;

    open spec fn view(&self) -> FilterV {
        filter_view(*self)
    }
}

/// Requested ordering of one output column.
#[derive(Debug)]
pub enum Order {
    Asc { column: String },
    Desc { column: String },
}

/// Mathematical model of an [`Order`].
pub enum OrderV {
    Asc { column: Seq<char> },
    Desc { column: Seq<char> },
}

impl View for Order {
    type V = OrderV;

    open spec fn view(&self) -> OrderV {
        match self {
            Order::Asc { column } => OrderV::Asc { column: column@ },
            Order::Desc { column } => OrderV::Desc { column: column@ },
        }
    }
}

/// A declarative report request: the requested column ids, a filter tree
/// and an ordering (accepted but not used by the planner).
#[derive(Debug)]
pub struct ReportRequest {
    pub columns: Vec<String>,
    pub filters: Filter,
    pub sort: Vec<Order>,
}

/// Mathematical model of a [`ReportRequest`].
pub struct ReportRequestV {
    pub columns: Seq<Seq<char>>,
    pub filters: FilterV,
    pub sort: Seq<OrderV>,
}

impl View for ReportRequest {
    type V = ReportRequestV;

    open spec fn view(&self) -> ReportRequestV {
        ReportRequestV {
            columns: ids_view(self.columns@),
            filters: self.filters@,
            sort: Seq::new(self.sort@.len(), |i: int| self.sort@[i]@),
        }
    }
}

/// Bookkeeping attached to a completed report.
#[derive(Clone, Copy, Debug)]
pub struct ReportMetadata {
    created_at: u64,
    updated_at: u64,
    expires_at: u64,
    num_rows: u64,
}

/// A stored report: its identifier, the catalog columns it selects, its
/// lifecycle status and optional bookkeeping.
#[derive(Debug)]
pub struct Report {
    pub id: String,
    pub columns: Vec<Column>,
    pub status: ReportStatus,
    pub metadata: Option<ReportMetadata>,
}

/// Mathematical model of a [`Report`].
pub struct ReportV {
    pub id: Seq<char>,
    pub columns: Seq<ColumnV>,
    pub status: ReportStatus,
    pub metadata: Option<ReportMetadata>,
}

impl View for Report {
    type V = ReportV;

    open spec fn view(&self) -> ReportV {
        ReportV {
            id: self.id@,
            columns: columns_view(self.columns@),
            status: self.status,
            metadata: self.metadata,
        }
    }
}

/// Resolution of one column id against the catalog's columns: a linear scan,
/// first match by exact equality of `column_id` wins.
pub open spec fn resolve_spec(cols: Seq<ColumnV>, id: Seq<char>) -> Option<ColumnV>
    decreases cols,
{
    if cols.len() == 0 {
        None
    } else if cols[0].column_id == id {
        Some(cols[0])
    } else {
        resolve_spec(cols.drop_first(), id)
    }
}

/// Resolution of a whole list of requested ids, in order; the first id that
/// is absent from the catalog fails the whole list with that id.
pub open spec fn resolve_all(cols: Seq<ColumnV>, ids: Seq<Seq<char>>) -> Result<
    Seq<ColumnV>,
    Seq<char>,
>
    decreases ids,
{
    if ids.len() == 0 {
        Ok(Seq::empty())
    } else {
        match resolve_spec(cols, ids[0]) {
            None => Err(ids[0]),
            Some(c) => match resolve_all(cols, ids.drop_first()) {
                Ok(rest) => Ok(seq![c] + rest),
                Err(e) => Err(e),
            },
        }
    }
}

} // verus!
