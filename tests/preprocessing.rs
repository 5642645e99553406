use ml_kit::preprocessing::LabelEncoder;

#[test]
fn fit_creates_classes() {
    let mut label_encoder = LabelEncoder::new();

    label_encoder.fit(&[1, 2, 2, 6]);

    let classes = label_encoder.classes();
    assert_eq!(classes.len(), 3);
    assert!(classes.contains(&1));
    assert!(classes.contains(&2));
    assert!(classes.contains(&6));
}

#[test]
fn new_encoder_has_no_classes() {
    let label_encoder = LabelEncoder::new();
    assert!(label_encoder.classes().is_empty());
    let label_encoder = LabelEncoder::default();
    assert!(label_encoder.classes().is_empty());
}

#[test]
fn fit_on_empty_data_adds_nothing() {
    let mut label_encoder = LabelEncoder::new();
    label_encoder.fit(&[]);
    assert!(label_encoder.classes().is_empty());
}

#[test]
fn fit_again_continues_from_seen_labels() {
    let mut label_encoder = LabelEncoder::new();
    label_encoder.fit(&[4, 4, 0]);
    label_encoder.fit(&[0, 9, 4, usize::MAX]);
    let mut classes = label_encoder.classes();
    classes.sort();
    assert_eq!(classes, vec![0, 4, 9, usize::MAX]);
}

#[test]
fn classes_hold_no_repeats() {
    let mut label_encoder = LabelEncoder::new();
    label_encoder.fit(&[7, 7, 7, 7, 7]);
    assert_eq!(label_encoder.classes(), vec![7]);
}
