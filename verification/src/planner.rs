//! The query planner: compiles a report request against a catalog into a
//! SQL tree.
//!
//! The whole plan is pinned by the specification function [`plan_spec`]:
//! the executable [`QueryPlanner::plan`] is proved to return exactly its
//! value, errors included.  The planner extracts the mandatory date window
//! from the root filter, resolves every requested column id against the
//! catalog, and assembles a fixed two-stage query shape: a windowed
//! aggregation over the fact table joined to the hierarchy table, wrapped
//! as a subquery and enriched by a left join onto the dimension table.
use vstd::prelude::*;
use crate::models::{
    Column, ColumnV, Datasource, DatasourceV, Filter, FilterV, ReportRequest, ReportRequestV,
    columns_view, filters_view, ids_view, lemma_filters_view_index, resolve_all,
    resolve_spec,
};
use crate::query::{
    JoinType, LogicalVariant, Operator, SqlAst, SqlTreeV, ast_view, asts_view, contains_seq,
    is_substring_at, lacks_char, lemma_asts_view_index, lemma_lacks_concat, sql_of, sql_of_list,
};

verus! {

broadcast use vstd::seq::group_seq_axioms, vstd::std_specs::vec::group_vec_axioms;

/// A planning failure: either a requested column id that the catalog does
/// not know, or a filter tree without the mandatory date window.
#[derive(Debug)]
pub enum Error {
    ColumnNotFound(String),
    MissingFilter(String),
}

/// Mathematical model of an [`Error`].
pub enum ErrorV {
    ColumnNotFound(Seq<char>),
    MissingFilter(Seq<char>),
}

impl View for Error {
    type V = ErrorV;

    open spec fn view(&self) -> ErrorV {
        match self {
            Error::ColumnNotFound(id) => ErrorV::ColumnNotFound(id@),
            Error::MissingFilter(reason) => ErrorV::MissingFilter(reason@),
        }
    }
}

/// The model of a planning result.
pub open spec fn plan_result_view(r: Result<SqlAst, Error>) -> Result<SqlTreeV, ErrorV> {
    match r {
        Ok(t) => Ok(t@),
        Err(e) => Err(e@),
    }
}

/// The start of the date window: the value of the last `Gte` on the column
/// `date` among the direct children, if any ("last wins").
pub open spec fn start_date_of(fs: Seq<FilterV>) -> Option<Seq<char>>
    decreases fs,
{
    if fs.len() == 0 {
        None
    } else {
        match fs.last() {
            FilterV::Gte { column, value } => if column == "date"@ {
                Some(value)
            } else {
                start_date_of(fs.drop_last())
            },
            _ => start_date_of(fs.drop_last()),
        }
    }
}

/// The end of the date window: the value of the last `Lt` on the column
/// `date` among the direct children, if any ("last wins").
pub open spec fn end_date_of(fs: Seq<FilterV>) -> Option<Seq<char>>
    decreases fs,
{
    if fs.len() == 0 {
        None
    } else {
        match fs.last() {
            FilterV::Lt { column, value } => if column == "date"@ {
                Some(value)
            } else {
                end_date_of(fs.drop_last())
            },
            _ => end_date_of(fs.drop_last()),
        }
    }
}

/// The expression that projects the event timestamp onto a calendar date.
pub open spec fn date_expr() -> SqlTreeV {
    SqlTreeV::Column("from_unixtime(fact_table.ts, 'YYYY-mm-dd')"@)
}

/// The aggregation stage's source: the fact table left-joined to the
/// hierarchy table on the line item id.
pub open spec fn fact_join() -> SqlTreeV {
    SqlTreeV::Join {
        left: Box::new(SqlTreeV::Table("fact_table"@, "fact_table"@)),
        right: Box::new(SqlTreeV::Table("campaign_hierarchy"@, "campaign_hierarchy"@)),
        join_type: JoinType::Left,
        on: Box::new(
            SqlTreeV::Comparison {
                left: Box::new(SqlTreeV::Column("fact_table.line_item_id"@)),
                operator: Operator::Equal,
                right: Box::new(SqlTreeV::Column("campaign_hierarchy.line_item_id"@)),
            },
        ),
    }
}

/// The two comparisons that bound the date window: date >= start, date < end.
pub open spec fn window_items(start: Seq<char>, end: Seq<char>) -> Seq<SqlTreeV> {
    seq![
        SqlTreeV::Comparison {
            left: Box::new(date_expr()),
            operator: Operator::GreaterOrEqual,
            right: Box::new(SqlTreeV::Literal(start)),
        },
        SqlTreeV::Comparison {
            left: Box::new(date_expr()),
            operator: Operator::Less,
            right: Box::new(SqlTreeV::Literal(end)),
        },
    ]
}

/// The fixed grouping keys of the aggregation stage, independent of the
/// requested columns.
pub open spec fn group_columns() -> Seq<SqlTreeV> {
    seq![
        date_expr(),
        SqlTreeV::Column("fact_table.line_item_id"@),
        SqlTreeV::Column("campaign_hierarchy.campaign_id"@),
    ]
}

/// The projection of the aggregation stage: each resolved column's backing
/// expression aliased by its logical id.
pub open spec fn aggregation_columns(cols: Seq<ColumnV>) -> Seq<SqlTreeV> {
    Seq::new(
        cols.len(),
        |i: int|
            SqlTreeV::ColumnAlias { column: cols[i].expression, alias: cols[i].column_id },
    )
}

/// The aggregation stage: the windowed, grouped select over the fact join.
pub open spec fn inner_select(cols: Seq<ColumnV>, start: Seq<char>, end: Seq<char>) -> SqlTreeV {
    SqlTreeV::Select {
        columns: aggregation_columns(cols),
        from: Box::new(fact_join()),
        where_clause: Some(
            Box::new(
                SqlTreeV::Logical { items: window_items(start, end), variant: LogicalVariant::And },
            ),
        ),
        group_by: Some(group_columns()),
        order_by: None,
    }
}

/// The enrichment stage's source: the aggregation as the subquery `facts`,
/// left-joined to the dimension table on the campaign id.
pub open spec fn dim_join(cols: Seq<ColumnV>, start: Seq<char>, end: Seq<char>) -> SqlTreeV {
    SqlTreeV::Join {
        left: Box::new(SqlTreeV::Subquery(Box::new(inner_select(cols, start, end)), "facts"@)),
        right: Box::new(SqlTreeV::Table("dim_campaign"@, "dim_campaign"@)),
        join_type: JoinType::Left,
        on: Box::new(
            SqlTreeV::Comparison {
                left: Box::new(SqlTreeV::Column("facts.campaign_id"@)),
                operator: Operator::Equal,
                right: Box::new(SqlTreeV::Column("dim_campaign.campaign_id"@)),
            },
        ),
    }
}

/// The whole planned tree: the outer select (whose projection list is
/// deliberately empty) over the enrichment join.
pub open spec fn planned_tree(cols: Seq<ColumnV>, start: Seq<char>, end: Seq<char>) -> SqlTreeV {
    SqlTreeV::Select {
        columns: Seq::empty(),
        from: Box::new(dim_join(cols, start, end)),
        where_clause: None,
        group_by: None,
        order_by: None,
    }
}

/// What planning returns, as a function of the catalog and the request.
///
/// The root filter must be an `And`; its direct children must contain a
/// `Gte` and a `Lt` on the column `date` (checked in that order); every
/// requested column id must resolve against the catalog (first failure
/// wins).  On success the result is the fixed two-stage tree.
pub open spec fn plan_spec(ds: DatasourceV, req: ReportRequestV) -> Result<SqlTreeV, ErrorV> {
    match req.filters {
        FilterV::And { value } => match start_date_of(value) {
            None => Err(ErrorV::MissingFilter("start_date"@)),
            Some(start) => match end_date_of(value) {
                None => Err(ErrorV::MissingFilter("end_date"@)),
                Some(end) => match resolve_all(ds.columns, req.columns) {
                    Ok(cols) => Ok(planned_tree(cols, start, end)),
                    Err(id) => Err(ErrorV::ColumnNotFound(id)),
                },
            },
        },
        _ => Err(ErrorV::MissingFilter("Expected And filter"@)),
    }
}

/// The model of an `Option<String>` accumulator.
pub open spec fn opt_view(o: Option<String>) -> Option<Seq<char>> {
    match o {
        Some(s) => Some(s@),
        None => None,
    }
}

/// Assembles the fixed two-stage tree for the given resolved columns and
/// date window.
fn build_plan_tree(columns: Vec<Column>, start_date: String, end_date: String) -> (r: SqlAst)
    ensures
        r@ == planned_tree(columns_view(columns@), start_date@, end_date@),
{
    let ghost cs = columns_view(columns@);
    let ghost start_v = start_date@;
    let ghost end_v = end_date@;

    let mut select_columns: Vec<SqlAst> = Vec::new();
    let mut k: usize = 0;
    while k < columns.len()
        invariant
            k <= columns.len(),
            cs == columns_view(columns@),
            asts_view(select_columns@) == aggregation_columns(cs.take(k as int)),
        decreases columns.len() - k,
    {
        let c = &columns[k];
        let node = SqlAst::ColumnAlias { column: c.expression.clone(), alias: c.column_id.clone() };
        let ghost old_sc = select_columns@;
        let ghost nodev = node@;
        select_columns.push(node);
        proof {
            assert(select_columns@.drop_last() =~= old_sc);
            assert(asts_view(select_columns@) == asts_view(old_sc).push(nodev));
            assert(asts_view(old_sc).push(nodev) =~= aggregation_columns(cs.take(k + 1)));
        }
        k += 1;
    }
    proof {
        assert(cs.take(columns@.len() as int) =~= cs);
    }

    let fact_table = SqlAst::Table(String::from_str("fact_table"), String::from_str("fact_table"));
    proof {
        assert(fact_table@ == SqlTreeV::Table("fact_table"@, "fact_table"@));
    }
    let hierarchy_table = SqlAst::Table(
        String::from_str("campaign_hierarchy"),
        String::from_str("campaign_hierarchy"),
    );
    proof {
        assert(hierarchy_table@ == SqlTreeV::Table("campaign_hierarchy"@, "campaign_hierarchy"@));
    }
    let fact_on = SqlAst::Comparison {
        left: Box::new(SqlAst::Column(String::from_str("fact_table.line_item_id"))),
        operator: Operator::Equal,
        right: Box::new(SqlAst::Column(String::from_str("campaign_hierarchy.line_item_id"))),
    };
    proof {
        reveal_with_fuel(ast_view, 3);
        assert(fact_on@ == SqlTreeV::Comparison {
            left: Box::new(SqlTreeV::Column("fact_table.line_item_id"@)),
            operator: Operator::Equal,
            right: Box::new(SqlTreeV::Column("campaign_hierarchy.line_item_id"@)),
        });
    }
    let inner_from = SqlAst::Join {
        left: Box::new(fact_table),
        right: Box::new(hierarchy_table),
        join_type: JoinType::Left,
        on: Box::new(fact_on),
    };
    proof {
        assert(inner_from@ == fact_join());
    }

    let ge_cmp = SqlAst::Comparison {
        left: Box::new(
            SqlAst::Column(String::from_str("from_unixtime(fact_table.ts, 'YYYY-mm-dd')")),
        ),
        operator: Operator::GreaterOrEqual,
        right: Box::new(SqlAst::Literal(start_date)),
    };
    proof {
        reveal_with_fuel(ast_view, 3);
        assert(ge_cmp@ == window_items(start_v, end_v)[0]);
    }
    let lt_cmp = SqlAst::Comparison {
        left: Box::new(
            SqlAst::Column(String::from_str("from_unixtime(fact_table.ts, 'YYYY-mm-dd')")),
        ),
        operator: Operator::Less,
        right: Box::new(SqlAst::Literal(end_date)),
    };
    proof {
        reveal_with_fuel(ast_view, 3);
        assert(lt_cmp@ == window_items(start_v, end_v)[1]);
    }
    let mut where_items: Vec<SqlAst> = Vec::new();
    where_items.push(ge_cmp);
    where_items.push(lt_cmp);
    proof {
        lemma_asts_view_index(where_items@);
        assert(asts_view(where_items@) =~= window_items(start_v, end_v));
    }
    let where_logical = SqlAst::Logical { items: where_items, variant: LogicalVariant::And };
    proof {
        assert(where_logical@ == SqlTreeV::Logical {
            items: window_items(start_v, end_v),
            variant: LogicalVariant::And,
        });
    }

    let mut group_by: Vec<SqlAst> = Vec::new();
    group_by.push(SqlAst::Column(String::from_str("from_unixtime(fact_table.ts, 'YYYY-mm-dd')")));
    group_by.push(SqlAst::Column(String::from_str("fact_table.line_item_id")));
    group_by.push(SqlAst::Column(String::from_str("campaign_hierarchy.campaign_id")));
    proof {
        lemma_asts_view_index(group_by@);
        assert(asts_view(group_by@) =~= group_columns());
    }

    let aggregation_query = SqlAst::Select {
        columns: select_columns,
        from: Box::new(inner_from),
        where_clause: Some(Box::new(where_logical)),
        group_by: Some(group_by),
        order_by: None,
    };
    proof {
        assert(aggregation_query@ == inner_select(cs, start_v, end_v));
    }

    let subquery = SqlAst::Subquery(Box::new(aggregation_query), String::from_str("facts"));
    proof {
        assert(subquery@ == SqlTreeV::Subquery(
            Box::new(inner_select(cs, start_v, end_v)),
            "facts"@,
        ));
    }
    let dim_table = SqlAst::Table(
        String::from_str("dim_campaign"),
        String::from_str("dim_campaign"),
    );
    proof {
        assert(dim_table@ == SqlTreeV::Table("dim_campaign"@, "dim_campaign"@));
    }
    let dim_on = SqlAst::Comparison {
        left: Box::new(SqlAst::Column(String::from_str("facts.campaign_id"))),
        operator: Operator::Equal,
        right: Box::new(SqlAst::Column(String::from_str("dim_campaign.campaign_id"))),
    };
    proof {
        reveal_with_fuel(ast_view, 3);
        assert(dim_on@ == SqlTreeV::Comparison {
            left: Box::new(SqlTreeV::Column("facts.campaign_id"@)),
            operator: Operator::Equal,
            right: Box::new(SqlTreeV::Column("dim_campaign.campaign_id"@)),
        });
    }
    let dim_join_node = SqlAst::Join {
        left: Box::new(subquery),
        right: Box::new(dim_table),
        join_type: JoinType::Left,
        on: Box::new(dim_on),
    };
    proof {
        assert(dim_join_node@ == dim_join(cs, start_v, end_v));
    }

    let outer_columns: Vec<SqlAst> = Vec::new();
    proof {
        assert(asts_view(outer_columns@) =~= Seq::<SqlTreeV>::empty());
    }
    let final_query = SqlAst::Select {
        columns: outer_columns,
        from: Box::new(dim_join_node),
        where_clause: None,
        group_by: None,
        order_by: None,
    };
    proof {
        assert(final_query@ == planned_tree(cs, start_v, end_v));
    }
    final_query
}

/// Plans report requests against one immutable catalog.
pub struct QueryPlanner {
    datasource: Datasource,
}

impl View for QueryPlanner {
    type V = DatasourceV;

    closed spec fn view(&self) -> DatasourceV {
        self.datasource@
    }
}

impl QueryPlanner {
    /// A planner over the given catalog.
    pub fn new(datasource: Datasource) -> (r: Self)
        ensures
            r@ == datasource@,
    {
        QueryPlanner { datasource }
    }

    /// Compiles the request into a SQL tree; returns exactly
    /// [`plan_spec`] of the catalog and the request, errors included.
    #[verifier::rlimit(60)]
    pub fn plan(&self, request: ReportRequest) -> (r: Result<SqlAst, Error>)
        ensures
            plan_result_view(r) == plan_spec(self@, request@),
    {
        let date_key = String::from_str("date");
        let (start_date, end_date): (String, String) = match &request.filters {
            Filter::And { value: children } => {
                let ghost fv = filters_view(children@);
                let mut start: Option<String> = None;
                let mut end: Option<String> = None;
                let mut i: usize = 0;
                while i < children.len()
                    invariant
                        i <= children.len(),
                        date_key@ == "date"@,
                        fv == filters_view(children@),
                        opt_view(start) == start_date_of(fv.take(i as int)),
                        opt_view(end) == end_date_of(fv.take(i as int)),
                    decreases children.len() - i,
                {
                    proof {
                        lemma_filters_view_index(children@);
                        assert(fv.take(i + 1).drop_last() =~= fv.take(i as int));
                        assert(fv.take(i + 1).last() == fv[i as int]);
                    }
                    match &children[i] {
                        Filter::Gte { column, value } => {
                            if *column == date_key {
                                start = Some(value.clone());
                            }
                        },
                        Filter::Lt { column, value } => {
                            if *column == date_key {
                                end = Some(value.clone());
                            }
                        },
                        _ => {},
                    }
                    i += 1;
                }
                proof {
                    lemma_filters_view_index(children@);
                    assert(fv.take(children@.len() as int) =~= fv);
                }
                let start_date = match start {
                    Some(s) => s,
                    None => {
                        return Err(Error::MissingFilter(String::from_str("start_date")));
                    },
                };
                let end_date = match end {
                    Some(e) => e,
                    None => {
                        return Err(Error::MissingFilter(String::from_str("end_date")));
                    },
                };
                (start_date, end_date)
            },
            _ => {
                return Err(Error::MissingFilter(String::from_str("Expected And filter")));
            },
        };
        let ghost start_v = start_date@;
        let ghost end_v = end_date@;
        let ghost catv = self@.columns;
        let ghost idsv = request@.columns;
        proof {
            assert(plan_spec(self@, request@) == (match resolve_all(catv, idsv) {
                Ok(cols) => Ok::<SqlTreeV, ErrorV>(planned_tree(cols, start_v, end_v)),
                Err(id) => Err::<SqlTreeV, ErrorV>(ErrorV::ColumnNotFound(id)),
            }));
        }

        let mut columns: Vec<Column> = Vec::new();
        proof {
            assert(idsv.skip(0) =~= idsv);
            assert(columns_view(columns@) =~= Seq::<ColumnV>::empty());
            match resolve_all(catv, idsv) {
                Ok(rest) => {
                    assert(columns_view(columns@) + rest =~= rest);
                },
                Err(e) => {},
            }
        }
        let mut j: usize = 0;
        while j < request.columns.len()
            invariant
                j <= request.columns.len(),
                catv == self@.columns,
                idsv == ids_view(request.columns@),
                columns_view(columns@).len() == j,
                resolve_all(catv, idsv) == match resolve_all(catv, idsv.skip(j as int)) {
                    Ok(rest) => Ok::<Seq<ColumnV>, Seq<char>>(columns_view(columns@) + rest),
                    Err(e) => Err(e),
                },
                plan_spec(self@, request@) == (match resolve_all(catv, idsv) {
                    Ok(cols) => Ok::<SqlTreeV, ErrorV>(planned_tree(cols, start_v, end_v)),
                    Err(id) => Err::<SqlTreeV, ErrorV>(ErrorV::ColumnNotFound(id)),
                }),
            decreases request.columns.len() - j,
        {
            match self.get_column(&request.columns[j]) {
                Ok(c) => {
                    let ghost cols_pre = columns_view(columns@);
                    let ghost cv = c@;
                    columns.push(c);
                    proof {
                        assert(columns_view(columns@) =~= cols_pre.push(cv));
                        assert(idsv.skip(j as int)[0] == idsv[j as int]);
                        assert(idsv.skip(j as int).drop_first() =~= idsv.skip(j + 1));
                        assert(resolve_spec(catv, idsv[j as int]) == Some(cv));
                        if let Ok(rest) = resolve_all(catv, idsv.skip(j + 1)) {
                            assert(cols_pre + (seq![cv] + rest) =~= cols_pre.push(cv) + rest);
                        }
                    }
                },
                Err(e) => {
                    proof {
                        assert(idsv.skip(j as int)[0] == idsv[j as int]);
                    }
                    return Err(e);
                },
            }
            j += 1;
        }
        proof {
            assert(idsv.skip(request.columns@.len() as int) =~= Seq::<Seq<char>>::empty());
            assert(resolve_all(catv, idsv) == Ok::<Seq<ColumnV>, Seq<char>>(
                columns_view(columns@),
            ));
        }
        let final_query = build_plan_tree(columns, start_date, end_date);
        Ok(final_query)
    }

    /// Resolves one column id against the catalog: the first column whose
    /// `column_id` equals the input, or `ColumnNotFound` with the input id.
    fn get_column(&self, input: &String) -> (r: Result<Column, Error>)
        ensures
            match r {
                Ok(c) => resolve_spec(self@.columns, input@) == Some(c@),
                Err(e) => resolve_spec(self@.columns, input@) is None && e@
                    == ErrorV::ColumnNotFound(input@),
            },
    {
        let ghost catv = self@.columns;
        proof {
            assert(catv.skip(0) =~= catv);
        }
        let mut i: usize = 0;
        while i < self.datasource.columns.len()
            invariant
                i <= self.datasource.columns.len(),
                catv == self@.columns,
                catv.len() == self.datasource.columns@.len(),
                resolve_spec(catv, input@) == resolve_spec(catv.skip(i as int), input@),
            decreases self.datasource.columns.len() - i,
        {
            proof {
                assert(catv.skip(i as int)[0] == catv[i as int]);
                assert(catv.skip(i as int).drop_first() =~= catv.skip(i + 1));
            }
            if self.datasource.columns[i].column_id == *input {
                return Ok(self.datasource.columns[i].clone());
            }
            i += 1;
        }
        proof {
            assert(catv.skip(catv.len() as int) =~= Seq::<ColumnV>::empty());
        }
        Err(Error::ColumnNotFound(input.clone()))
    }
}

/// Law: resolving the id of any column of a catalog with unique ids yields
/// exactly that column.
pub proof fn lemma_resolve_finds(cols: Seq<ColumnV>, i: int)
    requires
        0 <= i < cols.len(),
        forall|j: int, k: int| 0 <= j < k < cols.len() ==> cols[j].column_id != cols[k].column_id,
    ensures
        resolve_spec(cols, cols[i].column_id) == Some(cols[i]),
    decreases cols.len(),
{
    if cols[0].column_id == cols[i].column_id {
        assert(i == 0);
    } else {
        let rest = cols.drop_first();
        assert forall|j: int, k: int| 0 <= j < k < rest.len() implies rest[j].column_id
            != rest[k].column_id by {
            assert(rest[j] == cols[j + 1]);
            assert(rest[k] == cols[k + 1]);
        }
        assert(rest[i - 1] == cols[i]);
        lemma_resolve_finds(rest, i - 1);
    }
}

/// An id that occurs in the catalog always resolves, to a column carrying
/// that id.
pub proof fn lemma_resolve_some(cols: Seq<ColumnV>, id: Seq<char>)
    requires
        exists|i: int| 0 <= i < cols.len() && cols[i].column_id == id,
    ensures
        resolve_spec(cols, id) is Some,
        resolve_spec(cols, id)->Some_0.column_id == id,
    decreases cols.len(),
{
    if cols[0].column_id == id {
    } else {
        let i = choose|i: int| 0 <= i < cols.len() && cols[i].column_id == id;
        let rest = cols.drop_first();
        assert(rest[i - 1] == cols[i]);
        lemma_resolve_some(rest, id);
    }
}

/// A whole list of ids that all occur in the catalog resolves successfully.
pub proof fn lemma_resolve_all_ok(cols: Seq<ColumnV>, ids: Seq<Seq<char>>)
    requires
        forall|i: int|
            0 <= i < ids.len() ==> exists|j: int|
                0 <= j < cols.len() && cols[j].column_id == #[trigger] ids[i],
    ensures
        resolve_all(cols, ids) is Ok,
    decreases ids.len(),
{
    if ids.len() > 0 {
        lemma_resolve_some(cols, ids[0]);
        let rest = ids.drop_first();
        assert forall|i: int| 0 <= i < rest.len() implies exists|j: int|
            0 <= j < cols.len() && cols[j].column_id == #[trigger] rest[i] by {
            assert(rest[i] == ids[i + 1]);
        }
        lemma_resolve_all_ok(cols, rest);
    }
}

/// The direct children of a root `And` filter, the empty sequence for any
/// other root.
pub open spec fn and_children(f: FilterV) -> Seq<FilterV> {
    match f {
        FilterV::And { value } => value,
        _ => Seq::empty(),
    }
}

/// Whether the children contain a `Gte` filter on the column `date`.
pub open spec fn has_date_gte(fs: Seq<FilterV>) -> bool {
    exists|i: int|
        0 <= i < fs.len() && ((#[trigger] fs[i]) matches FilterV::Gte { column, value }
            && column == "date"@)
}

/// Whether the children contain a `Lt` filter on the column `date`.
pub open spec fn has_date_lt(fs: Seq<FilterV>) -> bool {
    exists|i: int|
        0 <= i < fs.len() && ((#[trigger] fs[i]) matches FilterV::Lt { column, value }
            && column == "date"@)
}

/// A `Gte date` child guarantees a start date.
pub proof fn lemma_start_found(fs: Seq<FilterV>)
    requires
        has_date_gte(fs),
    ensures
        start_date_of(fs) is Some,
    decreases fs.len(),
{
    let i = choose|i: int|
        0 <= i < fs.len() && ((#[trigger] fs[i]) matches FilterV::Gte { column, value }
            && column == "date"@);
    if fs.last() matches FilterV::Gte { column, value } && column == "date"@ {
    } else {
        assert(i < fs.len() - 1);
        assert(fs.drop_last()[i] == fs[i]);
        assert(has_date_gte(fs.drop_last()));
        lemma_start_found(fs.drop_last());
    }
}

/// A `Lt date` child guarantees an end date.
pub proof fn lemma_end_found(fs: Seq<FilterV>)
    requires
        has_date_lt(fs),
    ensures
        end_date_of(fs) is Some,
    decreases fs.len(),
{
    let i = choose|i: int|
        0 <= i < fs.len() && ((#[trigger] fs[i]) matches FilterV::Lt { column, value }
            && column == "date"@);
    if fs.last() matches FilterV::Lt { column, value } && column == "date"@ {
    } else {
        assert(i < fs.len() - 1);
        assert(fs.drop_last()[i] == fs[i]);
        assert(has_date_lt(fs.drop_last()));
        lemma_end_found(fs.drop_last());
    }
}

/// Law: a request whose column ids all occur in the catalog and whose
/// filter is an `And` carrying a complete date window plans successfully.
pub proof fn lemma_plan_succeeds(ds: DatasourceV, req: ReportRequestV)
    requires
        req.filters is And,
        has_date_gte(and_children(req.filters)),
        has_date_lt(and_children(req.filters)),
        forall|i: int|
            0 <= i < req.columns.len() ==> exists|j: int|
                0 <= j < ds.columns.len() && ds.columns[j].column_id == #[trigger] req.columns[i],
    ensures
        plan_spec(ds, req) is Ok,
{
    lemma_start_found(and_children(req.filters));
    lemma_end_found(and_children(req.filters));
    lemma_resolve_all_ok(ds.columns, req.columns);
}

/// Law: planning is deterministic — two results that both satisfy the
/// planner's contract on the same catalog and request are the same tree or
/// the same error (deep equality, by their models).
pub proof fn lemma_plan_deterministic(
    ds: DatasourceV,
    req: ReportRequestV,
    r1: Result<SqlAst, Error>,
    r2: Result<SqlAst, Error>,
)
    requires
        plan_result_view(r1) == plan_spec(ds, req),
        plan_result_view(r2) == plan_spec(ds, req),
    ensures
        plan_result_view(r1) == plan_result_view(r2),
{
}

/// The rendering of a non-empty aggregation projection starts with a space.
proof fn lemma_agg_first_char(cols: Seq<ColumnV>)
    requires
        cols.len() > 0,
    ensures
        sql_of_list(aggregation_columns(cols), ","@).len() > 0,
        sql_of_list(aggregation_columns(cols), ","@)[0] == ' ',
    decreases cols.len(),
{
    reveal_strlit(" ");
    let ac = aggregation_columns(cols);
    if cols.len() == 1 {
        assert(sql_of_list(ac, ","@) == sql_of(ac[0]));
        assert(sql_of(ac[0]) == " "@ + cols[0].expression + " AS "@ + cols[0].column_id);
    } else {
        lemma_agg_first_char(cols.drop_last());
        assert(ac.drop_last() =~= aggregation_columns(cols.drop_last()));
        assert(sql_of_list(ac, ","@) == sql_of_list(ac.drop_last(), ","@) + ","@ + sql_of(
            ac.last(),
        ));
    }
}

/// Law: the aggregation stage is always wrapped as a subquery — the
/// rendering of every planned tree carries the marker ` FROM (SELECT ` at
/// position 6, right after the outer `SELECT`.
pub proof fn lemma_planned_sql_prefix(cols: Seq<ColumnV>, start: Seq<char>, end: Seq<char>)
    ensures
        sql_of(planned_tree(cols, start, end)).len() >= 20,
        sql_of(planned_tree(cols, start, end)).subrange(0, 20) == "SELECT FROM (SELECT "@,
{
    reveal_strlit("SELECT");
    reveal_strlit(" FROM");
    reveal_strlit(" (");
    reveal_strlit(") ");
    reveal_strlit(" ");
    reveal_strlit("SELECT FROM (SELECT ");
    let s = sql_of(planned_tree(cols, start, end));
    let dj = sql_of(dim_join(cols, start, end));
    let inner = sql_of(inner_select(cols, start, end));
    let aggsql = sql_of_list(aggregation_columns(cols), ","@);

    assert(sql_of_list(Seq::<SqlTreeV>::empty(), ","@) == Seq::<char>::empty());
    assert(s == "SELECT"@ + Seq::<char>::empty() + " FROM"@ + dj + Seq::<char>::empty()
        + Seq::<char>::empty() + Seq::<char>::empty());
    let sq = sql_of(SqlTreeV::Subquery(Box::new(inner_select(cols, start, end)), "facts"@));
    assert(sq == " ("@ + inner + ") "@ + "facts"@);
    assert(dj == sq + " LEFT JOIN"@ + sql_of(SqlTreeV::Table("dim_campaign"@, "dim_campaign"@))
        + " ON"@ + sql_of(
        SqlTreeV::Comparison {
            left: Box::new(SqlTreeV::Column("facts.campaign_id"@)),
            operator: Operator::Equal,
            right: Box::new(SqlTreeV::Column("dim_campaign.campaign_id"@)),
        },
    ));

    if cols.len() == 0 {
        assert(aggregation_columns(cols) =~= Seq::<SqlTreeV>::empty());
        assert(aggsql == Seq::<char>::empty());
    } else {
        lemma_agg_first_char(cols);
    }
    assert(inner[6] == ' ');
    assert(inner.subrange(0, 6) =~= "SELECT"@);

    assert(s.len() >= 20);
    assert(s.subrange(0, 20) =~= "SELECT FROM (SELECT "@);
}

/// Law: the rendering of every successful plan contains the substring
/// ` FROM (SELECT `: the aggregation stage is wrapped as a subquery.
pub proof fn lemma_plan_sql_has_subquery(ds: DatasourceV, req: ReportRequestV)
    ensures
        match plan_spec(ds, req) {
            Ok(t) => contains_seq(sql_of(t), " FROM (SELECT "@),
            Err(e) => true,
        },
{
    if let Ok(t) = plan_spec(ds, req) {
        let value = and_children(req.filters);
        let start = start_date_of(value)->Some_0;
        let end = end_date_of(value)->Some_0;
        let cols = resolve_all(ds.columns, req.columns)->Ok_0;
        assert(t == planned_tree(cols, start, end));
        lemma_planned_sql_prefix(cols, start, end);
        let s = sql_of(t);
        reveal_strlit("SELECT FROM (SELECT ");
        reveal_strlit(" FROM (SELECT ");
        assert(s.subrange(6, 20) =~= s.subrange(0, 20).subrange(6, 20));
        assert(s.subrange(0, 20).subrange(6, 20) =~= " FROM (SELECT "@);
        assert(is_substring_at(s, " FROM (SELECT "@, 6));
    }
}

/// A successfully resolved column is one of the catalog's columns.
pub proof fn lemma_resolve_member(cols: Seq<ColumnV>, id: Seq<char>)
    requires
        resolve_spec(cols, id) is Some,
    ensures
        exists|i: int| 0 <= i < cols.len() && cols[i] == resolve_spec(cols, id)->Some_0,
    decreases cols.len(),
{
    if cols[0].column_id == id {
        assert(cols[0] == resolve_spec(cols, id)->Some_0);
    } else {
        let rest = cols.drop_first();
        lemma_resolve_member(rest, id);
        let i = choose|i: int| 0 <= i < rest.len() && rest[i] == resolve_spec(rest, id)->Some_0;
        assert(cols[i + 1] == rest[i]);
    }
}

/// Every column of a successful whole-list resolution is one of the
/// catalog's columns.
pub proof fn lemma_resolve_all_members(cols: Seq<ColumnV>, ids: Seq<Seq<char>>)
    requires
        resolve_all(cols, ids) is Ok,
    ensures
        forall|k: int|
            0 <= k < resolve_all(cols, ids)->Ok_0.len() ==> exists|i: int|
                0 <= i < cols.len() && cols[i] == #[trigger] resolve_all(cols, ids)->Ok_0[k],
    decreases ids.len(),
{
    if ids.len() > 0 {
        lemma_resolve_member(cols, ids[0]);
        lemma_resolve_all_members(cols, ids.drop_first());
        let out = resolve_all(cols, ids)->Ok_0;
        let rest_out = resolve_all(cols, ids.drop_first())->Ok_0;
        let c = resolve_spec(cols, ids[0])->Some_0;
        assert forall|k: int| 0 <= k < out.len() implies exists|i: int|
            0 <= i < cols.len() && cols[i] == #[trigger] out[k] by {
            if k == 0 {
                assert(out[0] == c);
            } else {
                assert(out[k] == rest_out[k - 1]);
            }
        }
    }
}

/// The extracted start date is the value of one of the `Gte date` children.
pub proof fn lemma_start_member(fs: Seq<FilterV>)
    requires
        start_date_of(fs) is Some,
    ensures
        exists|i: int|
            0 <= i < fs.len() && ((#[trigger] fs[i]) matches FilterV::Gte { column, value }
                && column == "date"@ && value == start_date_of(fs)->Some_0),
    decreases fs.len(),
{
    if fs.last() matches FilterV::Gte { column, value } && column == "date"@ {
        assert(fs[fs.len() - 1] == fs.last());
    } else {
        lemma_start_member(fs.drop_last());
        let i = choose|i: int|
            0 <= i < fs.drop_last().len() && ((#[trigger] fs.drop_last()[i])
                matches FilterV::Gte { column, value } && column == "date"@ && value
                == start_date_of(fs.drop_last())->Some_0);
        assert(fs[i] == fs.drop_last()[i]);
    }
}

/// The extracted end date is the value of one of the `Lt date` children.
pub proof fn lemma_end_member(fs: Seq<FilterV>)
    requires
        end_date_of(fs) is Some,
    ensures
        exists|i: int|
            0 <= i < fs.len() && ((#[trigger] fs[i]) matches FilterV::Lt { column, value }
                && column == "date"@ && value == end_date_of(fs)->Some_0),
    decreases fs.len(),
{
    if fs.last() matches FilterV::Lt { column, value } && column == "date"@ {
        assert(fs[fs.len() - 1] == fs.last());
    } else {
        lemma_end_member(fs.drop_last());
        let i = choose|i: int|
            0 <= i < fs.drop_last().len() && ((#[trigger] fs.drop_last()[i])
                matches FilterV::Lt { column, value } && column == "date"@ && value
                == end_date_of(fs.drop_last())->Some_0);
        assert(fs[i] == fs.drop_last()[i]);
    }
}

/// The dimension-enrichment join clause as it appears in every generated
/// plan.
pub open spec fn dim_join_marker() -> Seq<char> {
    "LEFT JOIN dim_campaign dim_campaign ON facts.campaign_id = dim_campaign.campaign_id"@
}

/// The rendering of the aggregation projection contains no `J` when none of
/// the projected expressions and ids does.
proof fn lemma_agg_lacks_j(cols: Seq<ColumnV>)
    requires
        forall|k: int|
            0 <= k < cols.len() ==> lacks_char((#[trigger] cols[k]).expression, 'J') && lacks_char(
                cols[k].column_id,
                'J',
            ),
    ensures
        lacks_char(sql_of_list(aggregation_columns(cols), ","@), 'J'),
    decreases cols.len(),
{
    broadcast use lemma_lacks_concat;

    reveal_strlit(" ");
    reveal_strlit(" AS ");
    reveal_strlit(",");
    assert(lacks_char(" "@, 'J'));
    assert(lacks_char(" AS "@, 'J'));
    assert(lacks_char(","@, 'J'));
    let ac = aggregation_columns(cols);
    if cols.len() == 0 {
        assert(lacks_char(sql_of_list(ac, ","@), 'J'));
    } else if cols.len() == 1 {
        assert(sql_of_list(ac, ","@) == sql_of(ac[0]));
        assert(sql_of(ac[0]) == " "@ + cols[0].expression + " AS "@ + cols[0].column_id);
    } else {
        lemma_agg_lacks_j(cols.drop_last());
        assert(ac.drop_last() =~= aggregation_columns(cols.drop_last()));
        assert(sql_of_list(ac, ","@) == sql_of_list(ac.drop_last(), ","@) + ","@ + sql_of(
            ac.last(),
        ));
        let last = cols[cols.len() - 1];
        assert(sql_of(ac.last()) == " "@ + last.expression + " AS "@ + last.column_id);
    }
}

/// In a string of the shape `x LEFT JOIN y LEFT JOIN dim_campaign …`, where
/// neither `x` nor `y` contains a `J` and `y` does not continue with
/// ` dim_campaign`, the dimension join clause occurs exactly once: at the
/// very end.
#[verifier::rlimit(100)]
#[verifier::spinoff_prover]
proof fn lemma_unique_marker_occurrence(x: Seq<char>, y: Seq<char>, s: Seq<char>)
    requires
        s == x + " LEFT JOIN"@ + y + " LEFT JOIN"@
            + " dim_campaign dim_campaign ON facts.campaign_id = dim_campaign.campaign_id"@,
        lacks_char(x, 'J'),
        lacks_char(y, 'J'),
        y.len() >= 2,
        y[1] == 'c',
    ensures
        s.len() >= 83,
        is_substring_at(s, dim_join_marker(), s.len() - 83),
        forall|j: int| is_substring_at(s, dim_join_marker(), j) ==> j == s.len() - 83,
{
    reveal_strlit(" LEFT JOIN");
    reveal_strlit("LEFT JOIN dim_campaign dim_campaign ON facts.campaign_id = dim_campaign.campaign_id");
    reveal_strlit(" dim_campaign dim_campaign ON facts.campaign_id = dim_campaign.campaign_id");
    let m = " LEFT JOIN"@;
    let p = dim_join_marker();
    let z = " dim_campaign dim_campaign ON facts.campaign_id = dim_campaign.campaign_id"@;
    assert(m.len() == 10);
    assert(p.len() == 83);
    assert(z.len() == 74);
    let xl = x.len() as int;
    let yl = y.len() as int;
    assert(s.len() == xl + 10 + yl + 10 + 74);
    let k1 = xl + 6;
    let k2 = xl + 10 + yl + 6;

    assert(forall|i: int| 0 <= i < 10 && i != 6 ==> m[i] != 'J');
    assert(m[6] == 'J');
    assert(lacks_char(z, 'J'));

    assert forall|mm: int| 0 <= mm < s.len() && s[mm] == 'J' implies mm == k1 || mm == k2 by {
        if mm < xl {
            assert(s[mm] == x[mm]);
        } else if mm < xl + 10 {
            assert(s[mm] == m[mm - xl]);
        } else if mm < xl + 10 + yl {
            assert(s[mm] == y[mm - xl - 10]);
        } else if mm < xl + 20 + yl {
            assert(s[mm] == m[mm - xl - 10 - yl]);
        } else {
            assert(s[mm] == z[mm - xl - 20 - yl]);
        }
    }

    assert(s.subrange(s.len() - 83, s.len() as int) =~= p);
    assert(is_substring_at(s, p, s.len() - 83));

    assert forall|j: int| is_substring_at(s, p, j) implies j == s.len() - 83 by {
        assert(s.subrange(j, j + 83)[5] == s[j + 5]);
        assert(p[5] == 'J');
        assert(s[j + 5] == 'J');
        if j + 5 == k1 {
            assert(s.subrange(j, j + 83)[10] == s[j + 10]);
            assert(p[10] == 'd');
            assert(s[j + 10] == y[1]);
            assert(false);
        }
        assert(j + 5 == k2);
    }
}

/// Law (structural form): the rendering of every planned tree whose column
/// expressions, column ids and date bounds contain no `J` holds exactly one
/// occurrence of the dimension join clause, as its final 83 characters.
#[verifier::rlimit(100)]
#[verifier::spinoff_prover]
pub proof fn lemma_planned_one_dim_join(cols: Seq<ColumnV>, start: Seq<char>, end: Seq<char>)
    requires
        forall|k: int|
            0 <= k < cols.len() ==> lacks_char((#[trigger] cols[k]).expression, 'J') && lacks_char(
                cols[k].column_id,
                'J',
            ),
        lacks_char(start, 'J'),
        lacks_char(end, 'J'),
    ensures
        sql_of(planned_tree(cols, start, end)).len() >= 83,
        is_substring_at(
            sql_of(planned_tree(cols, start, end)),
            dim_join_marker(),
            sql_of(planned_tree(cols, start, end)).len() - 83,
        ),
        forall|j: int|
            is_substring_at(sql_of(planned_tree(cols, start, end)), dim_join_marker(), j) ==> j
                == sql_of(planned_tree(cols, start, end)).len() - 83,
{
    broadcast use lemma_lacks_concat;

    reveal_strlit("SELECT");
    reveal_strlit(" FROM");
    reveal_strlit(" WHERE");
    reveal_strlit(" GROUP BY");
    reveal_strlit(" (");
    reveal_strlit(") ");
    reveal_strlit(" ");
    reveal_strlit(",");
    reveal_strlit(" ON");
    reveal_strlit(" =");
    reveal_strlit(" >=");
    reveal_strlit(" <");
    reveal_strlit(" AND");
    reveal_strlit("facts");
    reveal_strlit("fact_table");
    reveal_strlit("campaign_hierarchy");
    reveal_strlit("fact_table.line_item_id");
    reveal_strlit("campaign_hierarchy.line_item_id");
    reveal_strlit("campaign_hierarchy.campaign_id");
    reveal_strlit("from_unixtime(fact_table.ts, 'YYYY-mm-dd')");
    reveal_strlit("dim_campaign");
    reveal_strlit("facts.campaign_id");
    reveal_strlit("dim_campaign.campaign_id");
    reveal_strlit(" dim_campaign dim_campaign ON facts.campaign_id = dim_campaign.campaign_id");

    let d = "from_unixtime(fact_table.ts, 'YYYY-mm-dd')"@;
    let s = sql_of(planned_tree(cols, start, end));
    let a = sql_of_list(aggregation_columns(cols), ","@);

    let t1 = sql_of(SqlTreeV::Table("fact_table"@, "fact_table"@));
    assert(t1 == " "@ + "fact_table"@ + " "@ + "fact_table"@);
    let t2 = sql_of(SqlTreeV::Table("campaign_hierarchy"@, "campaign_hierarchy"@));
    assert(t2 == " "@ + "campaign_hierarchy"@ + " "@ + "campaign_hierarchy"@);
    let col_fli = sql_of(SqlTreeV::Column("fact_table.line_item_id"@));
    assert(col_fli == " "@ + "fact_table.line_item_id"@);
    let col_chli = sql_of(SqlTreeV::Column("campaign_hierarchy.line_item_id"@));
    assert(col_chli == " "@ + "campaign_hierarchy.line_item_id"@);
    let col_chc = sql_of(SqlTreeV::Column("campaign_hierarchy.campaign_id"@));
    assert(col_chc == " "@ + "campaign_hierarchy.campaign_id"@);
    let col_d = sql_of(date_expr());
    assert(col_d == " "@ + d);

    let c1 = sql_of(
        SqlTreeV::Comparison {
            left: Box::new(SqlTreeV::Column("fact_table.line_item_id"@)),
            operator: Operator::Equal,
            right: Box::new(SqlTreeV::Column("campaign_hierarchy.line_item_id"@)),
        },
    );
    assert(c1 == col_fli + " ="@ + col_chli);
    let fj = sql_of(fact_join());
    assert(fj == t1 + " LEFT JOIN"@ + t2 + " ON"@ + c1);

    let ws = window_items(start, end);
    let lit_s = sql_of(SqlTreeV::Literal(start));
    assert(lit_s == " "@ + start);
    let lit_e = sql_of(SqlTreeV::Literal(end));
    assert(lit_e == " "@ + end);
    let wc1 = sql_of(ws[0]);
    assert(wc1 == col_d + " >="@ + lit_s);
    let wc2 = sql_of(ws[1]);
    assert(wc2 == col_d + " <"@ + lit_e);
    let wl = sql_of(SqlTreeV::Logical { items: ws, variant: LogicalVariant::And });
    let wsl = sql_of_list(ws, " AND"@);
    assert(wl == wsl);
    assert(ws.drop_last().len() == 1 && ws.drop_last()[0] == ws[0]);
    assert(sql_of_list(ws.drop_last(), " AND"@) == sql_of(ws[0]));
    assert(ws.last() == ws[1]);
    assert(wsl == sql_of(ws[0]) + " AND"@ + sql_of(ws[1]));
    assert(wl == wc1 + " AND"@ + wc2);

    let gc = group_columns();
    let gd = gc.drop_last();
    let gdd = gd.drop_last();
    assert(gdd.len() == 1 && gdd[0] == gc[0]);
    assert(gd.len() == 2 && gd[0] == gc[0] && gd[1] == gc[1]);
    let gs = sql_of_list(gc, ","@);
    assert(sql_of_list(gdd, ","@) == sql_of(gc[0]));
    assert(sql_of_list(gd, ","@) == sql_of(gc[0]) + ","@ + sql_of(gc[1]));
    assert(gs == col_d + ","@ + col_fli + ","@ + col_chc);

    let inner = sql_of(inner_select(cols, start, end));
    assert(inner == "SELECT"@ + a + " FROM"@ + fj + (" WHERE"@ + wl) + (" GROUP BY"@ + gs)
        + Seq::<char>::empty());

    let sq = sql_of(SqlTreeV::Subquery(Box::new(inner_select(cols, start, end)), "facts"@));
    assert(sq == " ("@ + inner + ") "@ + "facts"@);
    let dt = sql_of(SqlTreeV::Table("dim_campaign"@, "dim_campaign"@));
    assert(dt == " "@ + "dim_campaign"@ + " "@ + "dim_campaign"@);
    let col_fc = sql_of(SqlTreeV::Column("facts.campaign_id"@));
    assert(col_fc == " "@ + "facts.campaign_id"@);
    let col_dcc = sql_of(SqlTreeV::Column("dim_campaign.campaign_id"@));
    assert(col_dcc == " "@ + "dim_campaign.campaign_id"@);
    let dc = sql_of(
        SqlTreeV::Comparison {
            left: Box::new(SqlTreeV::Column("facts.campaign_id"@)),
            operator: Operator::Equal,
            right: Box::new(SqlTreeV::Column("dim_campaign.campaign_id"@)),
        },
    );
    assert(dc == col_fc + " ="@ + col_dcc);
    let dj = sql_of(dim_join(cols, start, end));
    assert(dj == sq + " LEFT JOIN"@ + dt + " ON"@ + dc);
    assert(sql_of_list(Seq::<SqlTreeV>::empty(), ","@) == Seq::<char>::empty());
    assert(s == "SELECT"@ + Seq::<char>::empty() + " FROM"@ + dj + Seq::<char>::empty()
        + Seq::<char>::empty() + Seq::<char>::empty());

    let xx = "SELECT"@ + " FROM"@ + " ("@ + "SELECT"@ + a + " FROM"@ + t1;
    let yy = t2 + " ON"@ + c1 + " WHERE"@ + wl + " GROUP BY"@ + gs + ") "@ + "facts"@;
    let zz = " dim_campaign dim_campaign ON facts.campaign_id = dim_campaign.campaign_id"@;
    assert(dt + " ON"@ + dc =~= zz);
    assert(s =~= xx + " LEFT JOIN"@ + yy + " LEFT JOIN"@ + zz);

    lemma_agg_lacks_j(cols);
    assert(lacks_char("SELECT"@, 'J'));
    assert(lacks_char(" FROM"@, 'J'));
    assert(lacks_char(" WHERE"@, 'J'));
    assert(lacks_char(" GROUP BY"@, 'J'));
    assert(lacks_char(" ("@, 'J'));
    assert(lacks_char(") "@, 'J'));
    assert(lacks_char(" "@, 'J'));
    assert(lacks_char(","@, 'J'));
    assert(lacks_char(" ON"@, 'J'));
    assert(lacks_char(" ="@, 'J'));
    assert(lacks_char(" >="@, 'J'));
    assert(lacks_char(" <"@, 'J'));
    assert(lacks_char(" AND"@, 'J'));
    assert(lacks_char("facts"@, 'J'));
    assert(lacks_char("fact_table"@, 'J'));
    assert(lacks_char("campaign_hierarchy"@, 'J'));
    assert(lacks_char("fact_table.line_item_id"@, 'J'));
    assert(lacks_char("campaign_hierarchy.line_item_id"@, 'J'));
    assert(lacks_char("campaign_hierarchy.campaign_id"@, 'J'));
    assert(lacks_char(d, 'J'));
    assert(lacks_char(xx, 'J'));
    assert(lacks_char(yy, 'J'));

    assert(yy[1] == t2[1]);
    assert(t2[1] == "campaign_hierarchy"@[0]);
    assert(yy[1] == 'c');
    lemma_unique_marker_occurrence(xx, yy, s);
}

/// Law: the rendering of every successful plan contains exactly one
/// occurrence of the dimension join clause
/// `LEFT JOIN dim_campaign dim_campaign ON facts.campaign_id = dim_campaign.campaign_id`,
/// as its final 83 characters — provided no catalog expression or id and no
/// date bound contains the letter `J`.  Without that proviso the law fails:
/// a requested catalog column whose expression is the clause itself would
/// put a second occurrence into the string.
pub proof fn lemma_plan_sql_one_dim_join(ds: DatasourceV, req: ReportRequestV)
    requires
        forall|k: int|
            0 <= k < ds.columns.len() ==> lacks_char((#[trigger] ds.columns[k]).expression, 'J')
                && lacks_char(ds.columns[k].column_id, 'J'),
        forall|i: int|
            0 <= i < and_children(req.filters).len() ==> ((#[trigger] and_children(
                req.filters,
            )[i]) matches FilterV::Gte { column, value } ==> lacks_char(value, 'J'))
                && (and_children(req.filters)[i] matches FilterV::Lt { column, value }
                ==> lacks_char(value, 'J')),
    ensures
        match plan_spec(ds, req) {
            Ok(t) => sql_of(t).len() >= 83 && is_substring_at(
                sql_of(t),
                dim_join_marker(),
                sql_of(t).len() - 83,
            ) && forall|j: int|
                is_substring_at(sql_of(t), dim_join_marker(), j) ==> j == sql_of(t).len() - 83,
            Err(e) => true,
        },
{
    if let Ok(t) = plan_spec(ds, req) {
        let value = and_children(req.filters);
        let start = start_date_of(value)->Some_0;
        let end = end_date_of(value)->Some_0;
        let cols = resolve_all(ds.columns, req.columns)->Ok_0;
        assert(t == planned_tree(cols, start, end));

        lemma_start_member(value);
        lemma_end_member(value);
        lemma_resolve_all_members(ds.columns, req.columns);
        assert forall|k: int| 0 <= k < cols.len() implies lacks_char(
            (#[trigger] cols[k]).expression,
            'J',
        ) && lacks_char(cols[k].column_id, 'J') by {
            let i = choose|i: int| 0 <= i < ds.columns.len() && ds.columns[i] == cols[k];
        }
        lemma_planned_one_dim_join(cols, start, end);
    }
}

} // verus!
