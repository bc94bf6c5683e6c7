use reporting::templates::{Dim, ReportQuery};

#[test]
fn test_dim_masks_nest() {
    assert_eq!(Dim::LI.mask(), 0x1);
    assert_eq!(Dim::IO.mask(), 0x3);
    assert_eq!(Dim::CA.mask(), 0x7);
}

#[test]
fn test_dim_isin() {
    let io = Dim::IO.mask();
    assert!(Dim::LI.isin(&io));
    assert!(Dim::IO.isin(&io));
    assert!(!Dim::CA.isin(&io));

    let ca = Dim::CA.mask();
    assert!(Dim::LI.isin(&ca));
    assert!(Dim::IO.isin(&ca));
    assert!(Dim::CA.isin(&ca));

    let li = Dim::LI.mask();
    assert!(Dim::LI.isin(&li));
    assert!(!Dim::IO.isin(&li));
}

#[test]
fn test_report_query_new() {
    let _query = ReportQuery::new(vec![], Dim::IO.mask());
}
