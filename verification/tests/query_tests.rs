use reporting::models::{Column, ColumnType, Datasource, Filter, ReportRequest};
use reporting::planner::QueryPlanner;
use reporting::query::{JoinType, LogicalVariant, Operator, SQLGenerator, SqlAst};

#[test]
fn test_sql_ast() {
    let column = SqlAst::Column(String::from("username"));
    let column_alias = SqlAst::ColumnAlias {
        column: String::from("username"),
        alias: String::from("user"),
    };

    let join_clause = SqlAst::Join {
        left: Box::new(SqlAst::Table(String::from("orders"), String::from("orders"))),
        right: Box::new(SqlAst::Table(String::from("users"), String::from("users"))),
        join_type: JoinType::Inner,
        on: Box::new(SqlAst::Comparison {
            left: Box::new(SqlAst::Column(String::from("orders.user_id"))),
            operator: Operator::Equal,
            right: Box::new(SqlAst::Column(String::from("users.id"))),
        }),
    };

    if let SqlAst::Column(name) = column {
        assert_eq!(name, "username");
    } else {
        panic!("Expected SQLAst::Column");
    }

    if let SqlAst::ColumnAlias { column, alias } = column_alias {
        assert_eq!(column, "username");
        assert_eq!(alias, "user");
    } else {
        panic!("Expected SQLAst::ColumnAlias");
    }

    if let SqlAst::Join {
        left,
        right,
        join_type,
        on,
    } = join_clause
    {
        if let SqlAst::Table(left_name, alias) = *left {
            assert_eq!(left_name, "orders");
            assert_eq!(alias, "orders");
        } else {
            panic!("Expected SQLAst::Table");
        }
        if let SqlAst::Table(right_name, alias) = *right {
            assert_eq!(right_name, "users");
            assert_eq!(alias, "users");
        } else {
            panic!("Expected SQLAst::Table");
        }
        assert_eq!(join_type, JoinType::Inner);

        if let SqlAst::Comparison {
            left: on_left,
            operator,
            right: on_right,
        } = *on
        {
            assert_eq!(operator, Operator::Equal);
            if let SqlAst::Column(on_left_name) = *on_left {
                assert_eq!(on_left_name, "orders.user_id");
            } else {
                panic!("Expected SQLAst::Column");
            }
            if let SqlAst::Column(on_right_name) = *on_right {
                assert_eq!(on_right_name, "users.id");
            } else {
                panic!("Expected SQLAst::Column");
            }
        } else {
            panic!("Expected SQLAst::Comparison");
        }
    } else {
        panic!("Expected SQLAst::Join");
    }
}

#[test]
fn test_generate_sql() {
    let final_query = SqlAst::Select {
        columns: vec![
            SqlAst::ColumnAlias {
                column: String::from("username"),
                alias: String::from("user"),
            },
            SqlAst::Column(String::from("email")),
        ],
        from: Box::new(SqlAst::Table(String::from("users"), String::from("users"))),
        where_clause: Some(Box::new(SqlAst::Comparison {
            left: Box::new(SqlAst::Column(String::from("age"))),
            operator: Operator::GreaterOrEqual,
            right: Box::new(SqlAst::Column(String::from("18"))),
        })),
        group_by: None,
        order_by: Some(vec![SqlAst::Column(String::from("username"))]),
    };

    let mut generator = SQLGenerator::new();
    let sql = generator.generate_sql(&final_query);

    assert_eq!(
        sql.trim(),
        "SELECT username AS user, email FROM users users WHERE age >= 18 ORDER BY username"
    );
}

#[test]
fn test_generate_sql_with_subquery_and_joins() {
    let subquery_ast = SqlAst::Select {
        columns: vec![SqlAst::Column(String::from("inner_col"))],
        from: Box::new(SqlAst::Table(
            String::from("inner_table"),
            String::from("inner_table"),
        )),
        where_clause: None,
        group_by: None,
        order_by: None,
    };

    let inner_join = SqlAst::Join {
        left: Box::new(SqlAst::Table(String::from("table1"), String::from("table1"))),
        right: Box::new(SqlAst::Expression(Box::new(subquery_ast))),
        join_type: JoinType::Inner,
        on: Box::new(SqlAst::Comparison {
            left: Box::new(SqlAst::Column(String::from("table1.id"))),
            operator: Operator::Equal,
            right: Box::new(SqlAst::Column(String::from("inner_table.fk_id"))),
        }),
    };

    let left_join = SqlAst::Join {
        left: Box::new(inner_join),
        right: Box::new(SqlAst::Table(String::from("table2"), String::from("table2"))),
        join_type: JoinType::Left,
        on: Box::new(SqlAst::Comparison {
            left: Box::new(SqlAst::Column(String::from("table1.id"))),
            operator: Operator::Equal,
            right: Box::new(SqlAst::Column(String::from("table2.fk_id"))),
        }),
    };

    let final_query = SqlAst::Select {
        columns: vec![
            SqlAst::ColumnAlias {
                column: String::from("table1.col1"),
                alias: String::from("alias1"),
            },
            SqlAst::Column(String::from("table2.col2")),
        ],
        from: Box::new(left_join),
        where_clause: Some(Box::new(SqlAst::Logical {
            items: vec![
                SqlAst::Comparison {
                    left: Box::new(SqlAst::Column(String::from("date"))),
                    operator: Operator::GreaterOrEqual,
                    right: Box::new(SqlAst::Column(String::from("?"))),
                },
                SqlAst::Comparison {
                    left: Box::new(SqlAst::Column(String::from("date"))),
                    operator: Operator::Less,
                    right: Box::new(SqlAst::Column(String::from("?"))),
                },
            ],
            variant: LogicalVariant::And,
        })),
        group_by: None,
        order_by: None,
    };

    let mut generator = SQLGenerator::new();
    let sql = generator.generate_sql(&final_query);

    assert_eq!(
        sql.trim(),
        "SELECT table1.col1 AS alias1, table2.col2 FROM table1 table1 INNER JOIN (SELECT inner_col FROM inner_table inner_table) ON table1.id = inner_table.fk_id LEFT JOIN table2 table2 ON table1.id = table2.fk_id WHERE date >= ? AND date < ?"
    );
}

#[test]
fn test_generate_sql_report() {
    let aggregation_query = SqlAst::Select {
        columns: vec![
            SqlAst::ColumnAlias {
                column: String::from("from_unixtime(fact_table.ts, 'YYYY-mm-dd')"),
                alias: String::from("date"),
            },
            SqlAst::ColumnAlias {
                column: String::from("campaign_hierarchy.campaign_id"),
                alias: String::from("campaign_id"),
            },
            SqlAst::ColumnAlias {
                column: String::from("fact_table.line_item_id"),
                alias: String::from("line_item_id"),
            },
            SqlAst::ColumnAlias {
                column: String::from("sum(fact_table.impressions)"),
                alias: String::from("sum_impressions"),
            },
            SqlAst::ColumnAlias {
                column: String::from("sum(fact_table.clicks)"),
                alias: String::from("sum_clicks"),
            },
        ],
        from: Box::new(SqlAst::Join {
            left: Box::new(SqlAst::Table(
                String::from("fact_table"),
                String::from("fact_table"),
            )),
            right: Box::new(SqlAst::Table(
                String::from("campaign_hierarchy"),
                String::from("campaign_hierarchy"),
            )),
            join_type: JoinType::Left,
            on: Box::new(SqlAst::Comparison {
                left: Box::new(SqlAst::Column(String::from("fact_table.line_item_id"))),
                operator: Operator::Equal,
                right: Box::new(SqlAst::Column(String::from(
                    "campaign_hierarchy.line_item_id",
                ))),
            }),
        }),
        where_clause: Some(Box::new(SqlAst::Logical {
            items: vec![
                SqlAst::Comparison {
                    left: Box::new(SqlAst::Column(String::from(
                        "from_unixtime(fact_table.ts, 'YYYY-mm-dd')",
                    ))),
                    operator: Operator::GreaterOrEqual,
                    right: Box::new(SqlAst::Column(String::from("?"))),
                },
                SqlAst::Comparison {
                    left: Box::new(SqlAst::Column(String::from(
                        "from_unixtime(fact_table.ts, 'YYYY-mm-dd')",
                    ))),
                    operator: Operator::Less,
                    right: Box::new(SqlAst::Column(String::from("?"))),
                },
            ],
            variant: LogicalVariant::And,
        })),
        group_by: Some(vec![
            SqlAst::Column(String::from("from_unixtime(fact_table.ts, 'YYYY-mm-dd')")),
            SqlAst::Column(String::from("fact_table.line_item_id")),
            SqlAst::Column(String::from("campaign_hierarchy.campaign_id")),
        ]),
        order_by: None,
    };

    let dim_join = SqlAst::Join {
        left: Box::new(SqlAst::Subquery(
            Box::new(aggregation_query),
            String::from("facts"),
        )),
        right: Box::new(SqlAst::Table(
            String::from("dim_campaign"),
            String::from("dim_campaign"),
        )),
        join_type: JoinType::Left,
        on: Box::new(SqlAst::Comparison {
            left: Box::new(SqlAst::Column(String::from("facts.campaign_id"))),
            operator: Operator::Equal,
            right: Box::new(SqlAst::Column(String::from("dim_campaign.campaign_id"))),
        }),
    };

    let final_query = SqlAst::Select {
        columns: vec![
            SqlAst::ColumnAlias {
                column: String::from("facts.date"),
                alias: String::from("date"),
            },
            SqlAst::ColumnAlias {
                column: String::from("facts.campaign_id"),
                alias: String::from("campaign_id"),
            },
            SqlAst::ColumnAlias {
                column: String::from("dim_campaign.campaign_name"),
                alias: String::from("campaign_name"),
            },
            SqlAst::ColumnAlias {
                column: String::from("facts.line_item_id"),
                alias: String::from("line_item_id"),
            },
            SqlAst::ColumnAlias {
                column: String::from("dim_campaign.line_item_name"),
                alias: String::from("line_item_name"),
            },
            SqlAst::ColumnAlias {
                column: String::from("facts.sum_impressions"),
                alias: String::from("sum_impressions"),
            },
            SqlAst::ColumnAlias {
                column: String::from("facts.sum_clicks"),
                alias: String::from("sum_clicks"),
            },
        ],
        from: Box::new(dim_join),
        where_clause: None,
        group_by: None,
        order_by: None,
    };

    let mut generator = SQLGenerator::new();
    let sql = generator.generate_sql(&final_query);

    assert_eq!(
        sql.trim(),
        "SELECT facts.date AS date, facts.campaign_id AS campaign_id, dim_campaign.campaign_name AS campaign_name, facts.line_item_id AS line_item_id, dim_campaign.line_item_name AS line_item_name, facts.sum_impressions AS sum_impressions, facts.sum_clicks AS sum_clicks FROM (SELECT from_unixtime(fact_table.ts, 'YYYY-mm-dd') AS date, campaign_hierarchy.campaign_id AS campaign_id, fact_table.line_item_id AS line_item_id, sum(fact_table.impressions) AS sum_impressions, sum(fact_table.clicks) AS sum_clicks FROM fact_table fact_table LEFT JOIN campaign_hierarchy campaign_hierarchy ON fact_table.line_item_id = campaign_hierarchy.line_item_id WHERE from_unixtime(fact_table.ts, 'YYYY-mm-dd') >= ? AND from_unixtime(fact_table.ts, 'YYYY-mm-dd') < ? GROUP BY from_unixtime(fact_table.ts, 'YYYY-mm-dd'), fact_table.line_item_id, campaign_hierarchy.campaign_id) facts LEFT JOIN dim_campaign dim_campaign ON facts.campaign_id = dim_campaign.campaign_id"
    );
}

#[test]
fn integration_test_generated_query() {
    let column = Column {
        name: String::from("username"),
        column_id: String::from("username"),
        expression: String::from("username"),
        column_type: ColumnType::Grouping,
        data_type: String::from("text"),
    };

    let datasource = Datasource {
        name: String::from("default"),
        columns: vec![column],
    };

    let planner = QueryPlanner::new(datasource);
    let request = ReportRequest {
        columns: vec!["username".to_string()],
        filters: Filter::And {
            value: vec![
                Filter::Gte {
                    column: "date".to_string(),
                    value: "2020-01-01".to_string(),
                },
                Filter::Lt {
                    column: "date".to_string(),
                    value: "2021-01-01".to_string(),
                },
            ],
        },
        sort: vec![],
    };

    let ast = planner.plan(request).expect("Planning should succeed");

    let mut generator = SQLGenerator::new();
    let generated_query = generator.generate_sql(&ast);

    let expected_query = "SELECT FROM (SELECT username AS username FROM fact_table fact_table LEFT JOIN campaign_hierarchy campaign_hierarchy ON fact_table.line_item_id = campaign_hierarchy.line_item_id WHERE from_unixtime(fact_table.ts, 'YYYY-mm-dd') >= 2020-01-01 AND from_unixtime(fact_table.ts, 'YYYY-mm-dd') < 2021-01-01 GROUP BY from_unixtime(fact_table.ts, 'YYYY-mm-dd'), fact_table.line_item_id, campaign_hierarchy.campaign_id) facts LEFT JOIN dim_campaign dim_campaign ON facts.campaign_id = dim_campaign.campaign_id";
    assert_eq!(generated_query.trim(), expected_query);
}

#[test]
fn integration_test_query_planner() {
    let column = Column {
        name: String::from("username"),
        column_id: String::from("username"),
        expression: String::from("username"),
        column_type: ColumnType::Grouping,
        data_type: String::from("text"),
    };

    let datasource = Datasource {
        name: String::from("default"),
        columns: vec![column],
    };

    let planner = QueryPlanner::new(datasource);
    let request = ReportRequest {
        columns: vec!["username".to_string()],
        filters: Filter::And {
            value: vec![
                Filter::Gte {
                    column: "date".to_string(),
                    value: "2022-01-01".to_string(),
                },
                Filter::Lt {
                    column: "date".to_string(),
                    value: "2022-12-31".to_string(),
                },
            ],
        },
        sort: vec![],
    };

    let plan_result = planner.plan(request);
    assert!(plan_result.is_ok());
}

#[test]
fn test_generate_sql_in_operator() {
    let tree = SqlAst::Comparison {
        left: Box::new(SqlAst::Column(String::from("x"))),
        operator: Operator::In,
        right: Box::new(SqlAst::Expression(Box::new(SqlAst::Select {
            columns: vec![SqlAst::Column(String::from("y"))],
            from: Box::new(SqlAst::Table(String::from("t"), String::from("t"))),
            where_clause: None,
            group_by: None,
            order_by: None,
        }))),
    };

    let mut generator = SQLGenerator::new();
    let sql = generator.generate_sql(&tree);

    assert_eq!(sql.trim(), "x IN ( (SELECT y FROM t t))");
}

#[test]
fn test_generator_buffer_appends_across_calls() {
    let mut generator = SQLGenerator::new();
    let first = generator.generate_sql(&SqlAst::Column(String::from("a")));
    assert_eq!(first, " a");
    let second = generator.generate_sql(&SqlAst::Column(String::from("b")));
    assert_eq!(second, " a b");
}

#[test]
fn test_generate_sql_deterministic() {
    let build = || SqlAst::Logical {
        items: vec![
            SqlAst::Comparison {
                left: Box::new(SqlAst::Column(String::from("a"))),
                operator: Operator::NotEqual,
                right: Box::new(SqlAst::Literal(String::from("1"))),
            },
            SqlAst::Comparison {
                left: Box::new(SqlAst::Column(String::from("b"))),
                operator: Operator::LessOrEqual,
                right: Box::new(SqlAst::Literal(String::from("2"))),
            },
        ],
        variant: LogicalVariant::Or,
    };
    let mut g1 = SQLGenerator::new();
    let mut g2 = SQLGenerator::new();
    let s1 = g1.generate_sql(&build());
    let s2 = g2.generate_sql(&build());
    assert_eq!(s1, s2);
    assert_eq!(s1.trim(), "( a <> 1 OR b <= 2)");
}
