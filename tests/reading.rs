use penzd::{read_survey, Column, ReadError, TableError};

#[test]
fn reads_rows_in_order() {
    let input = b"point,longitude,latitude,ahd\n1,151.2093,-33.8688,10.5\n7,144.9631,-37.8136,31\n3,115.8605,-31.9505,0.25\n";
    let rows = read_survey(input).unwrap();
    assert_eq!(rows.len(), 3);
    assert_eq!(rows[0].point, 1);
    assert_eq!(rows[0].longitude, "151.2093");
    assert_eq!(rows[0].latitude, "-33.8688");
    assert_eq!(rows[0].ahd, "10.5");
    assert_eq!(rows[1].point, 7);
    assert_eq!(rows[1].ahd, "31");
    assert_eq!(rows[2].point, 3);
    assert_eq!(rows[2].latitude, "-31.9505");
}

#[test]
fn columns_found_by_name() {
    let input = b"ahd,note,latitude,point,longitude\n2.5,kerb,-33.1,12,151.0\n";
    let rows = read_survey(input).unwrap();
    assert_eq!(rows.len(), 1);
    assert_eq!(rows[0].point, 12);
    assert_eq!(rows[0].longitude, "151.0");
    assert_eq!(rows[0].latitude, "-33.1");
    assert_eq!(rows[0].ahd, "2.5");
}

#[test]
fn quoted_fields_are_unquoted() {
    let input = b"point,longitude,latitude,ahd\n\"5\",\"151.5\",-33.5,\"1\"\n";
    let rows = read_survey(input).unwrap();
    assert_eq!(rows[0].point, 5);
    assert_eq!(rows[0].longitude, "151.5");
    assert_eq!(rows[0].ahd, "1");
}

#[test]
fn header_only_gives_nothing() {
    let rows = read_survey(b"point,longitude,latitude,ahd\n").unwrap();
    assert!(rows.is_empty());
}

#[test]
fn empty_input_gives_nothing() {
    assert!(read_survey(b"").unwrap().is_empty());
}

#[test]
fn header_without_latitude_and_no_rows_is_accepted() {
    assert!(read_survey(b"point,longitude,ahd\n").unwrap().is_empty());
}

#[test]
fn missing_latitude_column_fails() {
    let r = read_survey(b"point,longitude,ahd\n1,151.2,10.5\n");
    assert!(matches!(r, Err(ReadError::Table(TableError::MissingColumn(Column::Latitude)))));
}

#[test]
fn duplicate_column_fails() {
    let r = read_survey(b"point,point,longitude,latitude,ahd\n1,2,151.2,-33.8,10.5\n");
    assert!(matches!(r, Err(ReadError::Table(TableError::DuplicateColumn(Column::Point)))));
}

#[test]
fn non_numeric_latitude_fails() {
    let r = read_survey(b"point,longitude,latitude,ahd\n1,151.2,-33.8,1\n2,151.3,south,2\n");
    assert!(matches!(
        r,
        Err(ReadError::Table(TableError::InvalidValue { row: 1, column: Column::Latitude }))
    ));
}

#[test]
fn bad_point_fails() {
    let r = read_survey(b"point,longitude,latitude,ahd\n70000,151.2,-33.8,1\n");
    assert!(matches!(
        r,
        Err(ReadError::Table(TableError::InvalidValue { row: 0, column: Column::Point }))
    ));
}

#[test]
fn uneven_rows_are_malformed() {
    let r = read_survey(b"point,longitude,latitude,ahd\n1,151.2,-33.8\n");
    assert!(matches!(r, Err(ReadError::Malformed(_))));
}

#[test]
fn column_names() {
    assert_eq!(Column::Point.name(), "point");
    assert_eq!(Column::Longitude.name(), "longitude");
    assert_eq!(Column::Latitude.name(), "latitude");
    assert_eq!(Column::Ahd.name(), "ahd");
}
