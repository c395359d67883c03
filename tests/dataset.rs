use linear_regression::{Dataset, DatasetError, DatasetRow};

fn ok(x: f64, y: f64) -> Result<(f64, f64), String> {
    Ok((x, y))
}

#[test]
fn push_keeps_columns_paired() {
    let mut d: Dataset<f64> = Dataset::new();
    assert!(d.is_empty());
    d.push((1.0, 3.0));
    d.push((2.0, 5.0));
    assert_eq!(d.len(), 2);
    assert!(!d.is_empty());
    assert_eq!(d.x_values(), &vec![1.0, 2.0]);
    assert_eq!(d.y_values(), &vec![3.0, 5.0]);
    assert_eq!(d.pairs(), vec![(1.0, 3.0), (2.0, 5.0)]);
}

#[test]
fn bounds_absent_until_recorded() {
    let mut d: Dataset<f64> = Dataset::new();
    d.push((1.0, 3.0));
    assert_eq!(d.get_x_min(), None);
    assert_eq!(d.get_y_max(), None);
    d.replace_x(vec![0.0], Some((1.0, 4.0)));
    d.replace_y(vec![0.5], Some((3.0, 9.0)));
    assert_eq!(d.get_x_min(), Some(1.0));
    assert_eq!(d.get_x_max(), Some(4.0));
    assert_eq!(d.get_y_min(), Some(3.0));
    assert_eq!(d.get_y_max(), Some(9.0));
    assert_eq!(d.pairs(), vec![(0.0, 0.5)]);
}

#[test]
fn row_push_and_replace() {
    let mut r: DatasetRow<i64> = DatasetRow::new();
    r.push(4);
    r.push(-2);
    assert_eq!(r.len(), 2);
    assert_eq!(r.data(), &vec![4, -2]);
    assert_eq!(r.bounds(), None);
    r.replace(vec![1, 0], Some((-2, 4)));
    assert_eq!(r.data(), &vec![1, 0]);
    assert_eq!(r.bounds(), Some((-2, 4)));
}

#[test]
fn load_of_no_records_is_empty() {
    let r = Dataset::<f64>::from_records(vec![]);
    assert!(matches!(r, Err(DatasetError::IsEmpty)));
}

#[test]
fn load_keeps_record_order() {
    let d = Dataset::from_records(vec![ok(1.0, 3.0), ok(2.0, 5.0), ok(3.0, 7.0), ok(4.0, 9.0)]).unwrap();
    assert_eq!(d.len(), 4);
    assert_eq!(d.pairs(), vec![(1.0, 3.0), (2.0, 5.0), (3.0, 7.0), (4.0, 9.0)]);
    assert_eq!(d.get_x_min(), None);
}

#[test]
fn load_fails_on_first_bad_record() {
    let r = Dataset::from_records(vec![ok(1.0, 3.0), Err("first".to_string()), Err("second".to_string())]);
    match r {
        Err(DatasetError::InvalidFormat(m)) => assert_eq!(m, "first"),
        _ => panic!("expected InvalidFormat"),
    }
}

#[test]
fn single_row_dataset_loads() {
    let d = Dataset::from_records(vec![ok(2.0, 2.0)]).unwrap();
    assert_eq!(d.len(), 1);
}

#[test]
fn dataset_error_messages() {
    assert_eq!(DatasetError::IsEmpty.message(), "Dataset is empty");
    assert_eq!(DatasetError::CouldNotOpenFile("no such file".to_string()).message(), "CouldNotOpenFile: no such file");
    assert_eq!(DatasetError::InvalidFormat("bad".to_string()).message(), "InvalidFormat: bad");
}
