//! The SQL tree (the structured output of planning) and the generator that
//! serializes a tree into a SQL string.
//!
//! [`sql_of`] is the specification of the emitted string; the executable
//! [`SQLGenerator`] is proved to append exactly `sql_of` of the visited tree
//! to its buffer.
use vstd::prelude::*;

verus! {

broadcast use vstd::seq::group_seq_axioms, vstd::std_specs::vec::group_vec_axioms;

/// Kind of a SQL join.
#[derive(Clone, Copy, PartialEq, Eq, Structural, Debug)]
pub enum JoinType {
    Inner,
    Left,
    Right,
    Full,
}

/// Comparison operator of a SQL comparison node.
#[derive(Clone, Copy, PartialEq, Eq, Structural, Debug)]
pub enum Operator {
    Equal,
    NotEqual,
    Less,
    Greater,
    LessOrEqual,
    GreaterOrEqual,
    In,
}

/// Connective of a SQL logical node.
#[derive(Clone, Copy, PartialEq, Eq, Structural, Debug)]
pub enum LogicalVariant {
    And,
    Or,
}

/// A tagged tree representing a SQL query: the only structural output of
/// planning and the only input to generation.
#[derive(Debug)]
pub enum SqlAst {
    Select {
        columns: Vec<SqlAst>,
        from: Box<SqlAst>,
        where_clause: Option<Box<SqlAst>>,
        group_by: Option<Vec<SqlAst>>,
        order_by: Option<Vec<SqlAst>>,
    },
    Table(String, String),
    Subquery(Box<SqlAst>, String),
    Column(String),
    ColumnAlias { column: String, alias: String },
    Join { left: Box<SqlAst>, right: Box<SqlAst>, join_type: JoinType, on: Box<SqlAst> },
    Expression(Box<SqlAst>),
    Literal(String),
    Comparison { left: Box<SqlAst>, operator: Operator, right: Box<SqlAst> },
    Logical { items: Vec<SqlAst>, variant: LogicalVariant },
}

/// Mathematical model of a [`SqlAst`]: the same tree with every string as a
/// sequence of characters.  Deep equality of two trees is equality of their
/// models.
pub enum SqlTreeV {
    Select {
        columns: Seq<SqlTreeV>,
        from: Box<SqlTreeV>,
        where_clause: Option<Box<SqlTreeV>>,
        group_by: Option<Seq<SqlTreeV>>,
        order_by: Option<Seq<SqlTreeV>>,
    },
    Table(Seq<char>, Seq<char>),
    Subquery(Box<SqlTreeV>, Seq<char>),
    Column(Seq<char>),
    ColumnAlias { column: Seq<char>, alias: Seq<char> },
    Join { left: Box<SqlTreeV>, right: Box<SqlTreeV>, join_type: JoinType, on: Box<SqlTreeV> },
    Expression(Box<SqlTreeV>),
    Literal(Seq<char>),
    Comparison { left: Box<SqlTreeV>, operator: Operator, right: Box<SqlTreeV> },
    Logical { items: Seq<SqlTreeV>, variant: LogicalVariant },
}

pub open spec fn ast_view(t: SqlAst) -> SqlTreeV
    decreases t,
{
    match t {
        SqlAst::Select { columns, from, where_clause, group_by, order_by } => SqlTreeV::Select {
            columns: asts_view(columns@),
            from: Box::new(ast_view(*from)),
            where_clause: match where_clause {
                Some(w) => Some(Box::new(ast_view(*w))),
                None => None,
            },
            group_by: match group_by {
                Some(g) => Some(asts_view(g@)),
                None => None,
            },
            order_by: match order_by {
                Some(o) => Some(asts_view(o@)),
                None => None,
            },
        },
        SqlAst::Table(name, alias) => SqlTreeV::Table(name@, alias@),
        SqlAst::Subquery(inner, alias) => SqlTreeV::Subquery(Box::new(ast_view(*inner)), alias@),
        SqlAst::Column(text) => SqlTreeV::Column(text@),
        SqlAst::ColumnAlias { column, alias } => SqlTreeV::ColumnAlias {
            column: column@,
            alias: alias@,
        },
        SqlAst::Join { left, right, join_type, on } => SqlTreeV::Join {
            left: Box::new(ast_view(*left)),
            right: Box::new(ast_view(*right)),
            join_type,
            on: Box::new(ast_view(*on)),
        },
        SqlAst::Expression(inner) => SqlTreeV::Expression(Box::new(ast_view(*inner))),
        SqlAst::Literal(value) => SqlTreeV::Literal(value@),
        SqlAst::Comparison { left, operator, right } => SqlTreeV::Comparison {
            left: Box::new(ast_view(*left)),
            operator,
            right: Box::new(ast_view(*right)),
        },
        SqlAst::Logical { items, variant } => SqlTreeV::Logical {
            items: asts_view(items@),
            variant,
        },
    }
}

pub open spec fn asts_view(ts: Seq<SqlAst>) -> Seq<SqlTreeV>
    decreases ts,
{
    if ts.len() == 0 {
        Seq::empty()
    } else {
        asts_view(ts.drop_last()).push(ast_view(ts.last()))
    }
}

pub broadcast proof fn lemma_asts_view_index(ts: Seq<SqlAst>)
    ensures
        (#[trigger] asts_view(ts)).len() == ts.len(),
        forall|i: int| 0 <= i < ts.len() ==> asts_view(ts)[i] == ast_view(ts[i]),
    decreases ts,
{
    if ts.len() > 0 {
        lemma_asts_view_index(ts.drop_last());
    }
}

impl View for SqlAst {
    type V = SqlTreeV;

    open spec fn view(&self) -> SqlTreeV {
        ast_view(*self)
    }
}

/// The keyword rendered for a join kind, with its leading space.
pub open spec fn join_text(j: JoinType) -> Seq<char> {
    match j {
        JoinType::Inner => " INNER JOIN"@,
        JoinType::Left => " LEFT JOIN"@,
        JoinType::Right => " RIGHT JOIN"@,
        JoinType::Full => " FULL JOIN"@,
    }
}

/// The symbol rendered for a comparison operator, with its leading space.
pub open spec fn operator_text(op: Operator) -> Seq<char> {
    match op {
        Operator::Equal => " ="@,
        Operator::NotEqual => " <>"@,
        Operator::Less => " <"@,
        Operator::Greater => " >"@,
        Operator::LessOrEqual => " <="@,
        Operator::GreaterOrEqual => " >="@,
        Operator::In => " IN"@,
    }
}

/// The SQL string rendered for a tree.
///
/// Every terminal fragment carries its own leading space; comma-joined lists
/// use the bare separator `,` so that the next item's leading space supplies
/// the spacing.  The whole string therefore starts with `SELECT` only at a
/// `Select` root, and may carry a leading space elsewhere.
pub open spec fn sql_of(t: SqlTreeV) -> Seq<char>
    decreases t,
{
    match t {
        SqlTreeV::Select { columns, from, where_clause, group_by, order_by } => "SELECT"@
            + sql_of_list(columns, ","@) + " FROM"@ + sql_of(*from) + (match where_clause {
            Some(w) => " WHERE"@ + sql_of(*w),
            None => Seq::empty(),
        }) + (match group_by {
            Some(g) => " GROUP BY"@ + sql_of_list(g, ","@),
            None => Seq::empty(),
        }) + (match order_by {
            Some(o) => " ORDER BY"@ + sql_of_list(o, ","@),
            None => Seq::empty(),
        }),
        SqlTreeV::Table(name, alias) => " "@ + name + " "@ + alias,
        SqlTreeV::Subquery(inner, alias) => " ("@ + sql_of(*inner) + ") "@ + alias,
        SqlTreeV::Column(text) => " "@ + text,
        SqlTreeV::ColumnAlias { column, alias } => " "@ + column + " AS "@ + alias,
        SqlTreeV::Join { left, right, join_type, on } => sql_of(*left) + join_text(join_type)
            + sql_of(*right) + " ON"@ + sql_of(*on),
        SqlTreeV::Expression(inner) => " ("@ + sql_of(*inner) + ")"@,
        SqlTreeV::Literal(value) => " "@ + value,
        SqlTreeV::Comparison { left, operator, right } => sql_of(*left) + operator_text(operator)
            + (if operator is In {
                " ("@ + sql_of(*right) + ")"@
            } else {
                sql_of(*right)
            }),
        SqlTreeV::Logical { items, variant } => match variant {
            LogicalVariant::And => sql_of_list(items, " AND"@),
            LogicalVariant::Or => " ("@ + sql_of_list(items, " OR"@) + ")"@,
        },
    }
}

/// The rendering of a list of trees joined by `sep`: the separator stands
/// before every item but the first.
pub open spec fn sql_of_list(items: Seq<SqlTreeV>, sep: Seq<char>) -> Seq<char>
    decreases items,
{
    if items.len() == 0 {
        Seq::empty()
    } else if items.len() == 1 {
        sql_of(items[0])
    } else {
        sql_of_list(items.drop_last(), sep) + sep + sql_of(items.last())
    }
}

/// Serializes SQL trees by appending their rendering to an internal buffer.
pub struct SQLGenerator {
    sql: String,
}

impl View for SQLGenerator {
    type V = Seq<char>;

    closed spec fn view(&self) -> Seq<char> {
        self.sql@
    }
}

impl SQLGenerator {
    /// A generator with an empty buffer.
    pub fn new() -> (r: Self)
        ensures
            r@ == Seq::<char>::empty(),
    {
        SQLGenerator { sql: String::new() }
    }

    /// Appends the rendering of `ast` to the buffer and returns the whole
    /// buffer.  Total: every tree renders to a string.
    pub fn generate_sql(&mut self, ast: &SqlAst) -> (r: String)
        ensures
            final(self)@ == old(self)@ + sql_of(ast@),
            r@ == final(self)@,
    {
        self.visit(ast);
        self.sql.clone()
    }

    #[verifier::rlimit(100)]
    #[verifier::spinoff_prover]
    fn visit(&mut self, ast: &SqlAst)
        ensures
            final(self)@ == old(self)@ + sql_of(ast@),
        decreases ast,
    {
        match ast {
            SqlAst::Select { columns, from, where_clause, group_by, order_by } => {
                let ghost head = "SELECT"@ + sql_of_list(asts_view(columns@), ","@) + " FROM"@
                    + sql_of((**from)@);
                let ghost w_seg = (match where_clause {
                    Some(w) => " WHERE"@ + sql_of((**w)@),
                    None => Seq::<char>::empty(),
                });
                let ghost g_seg = (match group_by {
                    Some(g) => " GROUP BY"@ + sql_of_list(asts_view(g@), ","@),
                    None => Seq::<char>::empty(),
                });
                let ghost o_seg = (match order_by {
                    Some(o) => " ORDER BY"@ + sql_of_list(asts_view(o@), ","@),
                    None => Seq::<char>::empty(),
                });
                self.sql.append("SELECT");
                self.visit_list(columns, ",");
                self.sql.append(" FROM");
                self.visit(from);
                proof {
                    assert(self@ =~= old(self)@ + head);
                }
                if let Some(w) = where_clause {
                    self.sql.append(" WHERE");
                    self.visit(w);
                }
                proof {
                    assert(self@ =~= old(self)@ + head + w_seg);
                }
                if let Some(g) = group_by {
                    self.sql.append(" GROUP BY");
                    self.visit_list(g, ",");
                }
                proof {
                    assert(self@ =~= old(self)@ + head + w_seg + g_seg);
                }
                if let Some(o) = order_by {
                    self.sql.append(" ORDER BY");
                    self.visit_list(o, ",");
                }
                proof {
                    assert(self@ =~= old(self)@ + head + w_seg + g_seg + o_seg);
                    assert(sql_of(ast@) == head + w_seg + g_seg + o_seg);
                    assert(old(self)@ + head + w_seg + g_seg + o_seg =~= old(self)@ + sql_of(
                        ast@,
                    ));
                }
            },
            SqlAst::Table(name, alias) => {
                self.sql.append(" ");
                self.sql.append(name.as_str());
                self.sql.append(" ");
                self.sql.append(alias.as_str());
                proof {
                    assert(self@ =~= old(self)@ + sql_of(ast@));
                }
            },
            SqlAst::Column(text) => {
                self.sql.append(" ");
                self.sql.append(text.as_str());
                proof {
                    assert(self@ =~= old(self)@ + sql_of(ast@));
                }
            },
            SqlAst::ColumnAlias { column, alias } => {
                self.sql.append(" ");
                self.sql.append(column.as_str());
                self.sql.append(" AS ");
                self.sql.append(alias.as_str());
                proof {
                    assert(self@ =~= old(self)@ + sql_of(ast@));
                }
            },
            SqlAst::Join { left, right, join_type, on } => {
                self.visit(left);
                match join_type {
                    JoinType::Inner => self.sql.append(" INNER JOIN"),
                    JoinType::Left => self.sql.append(" LEFT JOIN"),
                    JoinType::Right => self.sql.append(" RIGHT JOIN"),
                    JoinType::Full => self.sql.append(" FULL JOIN"),
                }
                self.visit(right);
                self.sql.append(" ON");
                self.visit(on);
                proof {
                    assert(self@ =~= old(self)@ + sql_of(ast@));
                }
            },
            SqlAst::Expression(inner) => {
                self.sql.append(" (");
                self.visit(inner);
                self.sql.append(")");
                proof {
                    assert(self@ =~= old(self)@ + sql_of(ast@));
                }
            },
            SqlAst::Subquery(inner, alias) => {
                self.sql.append(" (");
                self.visit(inner);
                self.sql.append(") ");
                self.sql.append(alias.as_str());
                proof {
                    assert(self@ =~= old(self)@ + sql_of(ast@));
                }
            },
            SqlAst::Logical { items, variant } => {
                match variant {
                    LogicalVariant::And => {
                        self.visit_list(items, " AND");
                    },
                    LogicalVariant::Or => {
                        self.sql.append(" (");
                        self.visit_list(items, " OR");
                        self.sql.append(")");
                    },
                }
                proof {
                    assert(self@ =~= old(self)@ + sql_of(ast@));
                }
            },
            SqlAst::Comparison { left, operator, right } => {
                self.visit(left);
                match operator {
                    Operator::Equal => self.sql.append(" ="),
                    Operator::NotEqual => self.sql.append(" <>"),
                    Operator::Less => self.sql.append(" <"),
                    Operator::Greater => self.sql.append(" >"),
                    Operator::LessOrEqual => self.sql.append(" <="),
                    Operator::GreaterOrEqual => self.sql.append(" >="),
                    Operator::In => self.sql.append(" IN"),
                }
                if let Operator::In = operator {
                    self.sql.append(" (");
                    self.visit(right);
                    self.sql.append(")");
                } else {
                    self.visit(right);
                }
                proof {
                    assert(self@ =~= old(self)@ + sql_of(ast@));
                }
            },
            SqlAst::Literal(value) => {
                self.sql.append(" ");
                self.sql.append(value.as_str());
                proof {
                    assert(self@ =~= old(self)@ + sql_of(ast@));
                }
            },
        }
    }

    fn visit_list(&mut self, items: &Vec<SqlAst>, separator: &str)
        ensures
            final(self)@ == old(self)@ + sql_of_list(asts_view(items@), separator@),
        decreases items,
    {
        broadcast use lemma_asts_view_index;

        let ghost orig = self@;
        proof {
            assert(orig + sql_of_list(asts_view(items@).take(0), separator@) =~= orig);
        }
        let mut index: usize = 0;
        while index < items.len()
            invariant
                index <= items.len(),
                self@ == orig + sql_of_list(asts_view(items@).take(index as int), separator@),
            decreases items.len() - index,
        {
            if index > 0 {
                self.sql.append(separator);
            }
            self.visit(&items[index]);
            proof {
                let dv = asts_view(items@);
                lemma_asts_view_index(items@);
                assert(dv.take(index + 1).drop_last() =~= dv.take(index as int));
                assert(dv.take(index + 1).last() == dv[index as int]);
                if index == 0 {
                    assert(orig + sql_of_list(dv.take(0), separator@) + sql_of(dv[0]) =~= orig
                        + sql_of_list(dv.take(1), separator@));
                } else {
                    assert(orig + sql_of_list(dv.take(index as int), separator@) + separator@
                        + sql_of(dv[index as int]) =~= orig + sql_of_list(
                        dv.take(index + 1),
                        separator@,
                    ));
                }
            }
            index += 1;
        }
        proof {
            assert(asts_view(items@).take(items@.len() as int) =~= asts_view(items@));
        }
    }
}

/// Whether `p` occurs in `s` at position `i`.
pub open spec fn is_substring_at(s: Seq<char>, p: Seq<char>, i: int) -> bool {
    0 <= i && i + p.len() <= s.len() && s.subrange(i, i + p.len()) == p
}

/// Whether `p` occurs somewhere in `s`.
pub open spec fn contains_seq(s: Seq<char>, p: Seq<char>) -> bool {
    exists|i: int| is_substring_at(s, p, i)
}

/// Law: generation is deterministic — two trees with the same model render
/// to the same string.  Totality is the absence of a `requires` on
/// [`SQLGenerator::generate_sql`]: every tree renders to a string.
pub proof fn lemma_generate_deterministic(t1: &SqlAst, t2: &SqlAst)
    requires
        t1@ == t2@,
    ensures
        sql_of(t1@) == sql_of(t2@),
{
}

/// Whether the character `c` does not occur in `s`.
pub open spec fn lacks_char(s: Seq<char>, c: char) -> bool {
    forall|i: int| 0 <= i < s.len() ==> s[i] != c
}

/// A character is absent from a concatenation exactly when it is absent
/// from both halves.
pub broadcast proof fn lemma_lacks_concat(a: Seq<char>, b: Seq<char>, c: char)
    ensures
        #[trigger] lacks_char(a + b, c) <==> lacks_char(a, c) && lacks_char(b, c),
{
    if lacks_char(a + b, c) {
        assert forall|i: int| 0 <= i < a.len() implies a[i] != c by {
            assert((a + b)[i] == a[i]);
        }
        assert forall|i: int| 0 <= i < b.len() implies b[i] != c by {
            assert((a + b)[a.len() + i] == b[i]);
        }
    }
    if lacks_char(a, c) && lacks_char(b, c) {
        assert forall|i: int| 0 <= i < (a + b).len() implies (a + b)[i] != c by {
            if i < a.len() {
                assert((a + b)[i] == a[i]);
            } else {
                assert((a + b)[i] == b[i - a.len()]);
            }
        }
    }
}

} // verus!
