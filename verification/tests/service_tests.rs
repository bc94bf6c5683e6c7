use reporting::models::{Column, ColumnType, Datasource, Filter, ReportRequest, ReportStatus};
use reporting::service::{Error, ReportService};

fn sample_datasource() -> Datasource {
    Datasource {
        name: String::from("default"),
        columns: vec![
            Column {
                name: String::from("T_DATE"),
                column_id: String::from("date"),
                expression: String::from("from_unixtime(fact_table.ts, 'YYYY-mm-dd')"),
                column_type: ColumnType::Grouping,
                data_type: String::from("date"),
            },
            Column {
                name: String::from("T_CAMPAIGN_ID"),
                column_id: String::from("campaign_id"),
                expression: String::from("insertion_order.campaign_id"),
                column_type: ColumnType::Grouping,
                data_type: String::from("i32"),
            },
            Column {
                name: String::from("T_LINE_ITEM_ID"),
                column_id: String::from("line_item_id"),
                expression: String::from("fact_table.line_item_id"),
                column_type: ColumnType::Grouping,
                data_type: String::from("i32"),
            },
            Column {
                name: String::from("T_SUM_IMPRESSIONS"),
                column_id: String::from("sum_impressions"),
                expression: String::from("sum(impressions)"),
                column_type: ColumnType::Aggregate,
                data_type: String::from("i64"),
            },
            Column {
                name: String::from("T_SUM_SPEND"),
                column_id: String::from("sum_spend"),
                expression: String::from("sum(spend)"),
                column_type: ColumnType::Aggregate,
                data_type: String::from("dec64"),
            },
        ],
    }
}

fn sample_request() -> ReportRequest {
    ReportRequest {
        columns: vec!["campaign_id".to_string(), "sum_impressions".to_string()],
        filters: Filter::And {
            value: vec![
                Filter::Gte {
                    column: "date".to_string(),
                    value: "2020-01-01".to_string(),
                },
                Filter::Lt {
                    column: "date".to_string(),
                    value: "2021-01-01".to_string(),
                },
            ],
        },
        sort: vec![],
    }
}

#[test]
fn test_report_conversion() {
    let report_service = ReportService::new(sample_datasource());
    let report = report_service
        .create_report(sample_request())
        .expect("Could not create report");

    assert_eq!(report.status, ReportStatus::Pending);
}

#[test]
fn service_test_column() {
    let report_service = ReportService::new(sample_datasource());
    let report = report_service
        .create_report(sample_request())
        .expect("Could not create report");

    assert_eq!(report.status, ReportStatus::Pending);
    assert_eq!(report.columns.len(), 2);
    assert_eq!(report.columns[0].column_id, "campaign_id");
    assert_eq!(report.columns[0].expression, "insertion_order.campaign_id");
    assert_eq!(report.columns[1].column_id, "sum_impressions");
    assert_eq!(report.columns[1].expression, "sum(impressions)");
}

#[test]
fn test_report_id_is_uuid_shaped() {
    let report_service = ReportService::new(sample_datasource());
    let report = report_service
        .create_report(sample_request())
        .expect("Could not create report");

    assert_eq!(report.id.len(), 36);
    assert_eq!(report.id.matches('-').count(), 4);
    assert!(report.metadata.is_none());

    let other = report_service
        .create_report(sample_request())
        .expect("Could not create report");
    assert_ne!(report.id, other.id);
}

#[test]
fn test_report_unknown_column_fails() {
    let report_service = ReportService::new(sample_datasource());
    let mut request = sample_request();
    request.columns = vec!["sum_clicks".to_string()];
    match report_service.create_report(request) {
        Err(Error::ColumnNotFound(id)) => assert_eq!(id, "sum_clicks"),
        _ => panic!("expected ColumnNotFound"),
    }
}
