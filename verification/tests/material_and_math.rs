use render_batch::material::{Material, MaterialError, MaterialProperty, PropertyValue};
use render_batch::math::{mat_mul, Mat4};

fn material_with(props: Vec<(&str, PropertyValue)>) -> Material {
    Material {
        properties: props
            .into_iter()
            .map(|(name, value)| MaterialProperty { name: name.as_bytes().to_vec(), value })
            .collect(),
    }
}

#[test]
fn set_property_updates_matching_sampler() {
    let mut material = material_with(vec![
        ("tint", PropertyValue::Scalar(3)),
        ("mask", PropertyValue::Sampler(None)),
    ]);
    let result = material.set_property(&b"mask".to_vec(), PropertyValue::Sampler(Some(12)));
    assert_eq!(result, Ok(()));
    assert_eq!(material.properties[1].value, PropertyValue::Sampler(Some(12)));
    assert_eq!(material.properties[0].value, PropertyValue::Scalar(3));
}

#[test]
fn set_property_rejects_missing_name() {
    let mut material = material_with(vec![("mask", PropertyValue::Sampler(None))]);
    let result = material.set_property(&b"other".to_vec(), PropertyValue::Sampler(Some(12)));
    assert_eq!(result, Err(MaterialError::NoSuchProperty));
    assert_eq!(material.properties[0].value, PropertyValue::Sampler(None));
}

#[test]
fn set_property_rejects_kind_mismatch() {
    let mut material = material_with(vec![("mask", PropertyValue::Scalar(7))]);
    let result = material.set_property(&b"mask".to_vec(), PropertyValue::Sampler(Some(12)));
    assert_eq!(result, Err(MaterialError::TypeMismatch));
    assert_eq!(material.properties[0].value, PropertyValue::Scalar(7));
}

#[test]
fn duplicate_is_a_deep_copy() {
    let material = material_with(vec![("mask", PropertyValue::Sampler(Some(4)))]);
    let mut copy = material.duplicate();
    assert_eq!(copy.properties.len(), 1);
    assert_eq!(copy.properties[0].name, b"mask".to_vec());
    assert_eq!(copy.properties[0].value, PropertyValue::Sampler(Some(4)));
    copy.set_property(&b"mask".to_vec(), PropertyValue::Sampler(Some(9))).unwrap();
    assert_eq!(material.properties[0].value, PropertyValue::Sampler(Some(4)));
}

#[test]
fn identity_matrix_has_unit_diagonal() {
    let id = Mat4::identity();
    let expected = vec![
        1i64, 0, 0, 0,
        0, 1, 0, 0,
        0, 0, 1, 0,
        0, 0, 0, 1,
    ];
    assert_eq!(id.entries, expected);
}

#[test]
fn matrix_product_matches_hand_computation() {
    // Row-major: a scales rows by 2; b holds a translation-like last column.
    let a = Mat4 {
        entries: vec![
            2, 0, 0, 0,
            0, 2, 0, 0,
            0, 0, 2, 0,
            0, 0, 0, 1,
        ],
    };
    let b = Mat4 {
        entries: vec![
            1, 0, 0, 5,
            0, 1, 0, 6,
            0, 0, 1, 7,
            0, 0, 0, 1,
        ],
    };
    let product = mat_mul(&a, &b);
    let expected = vec![
        2i64, 0, 0, 10,
        0, 2, 0, 12,
        0, 0, 2, 14,
        0, 0, 0, 1,
    ];
    assert_eq!(product.entries, expected);
}

#[test]
fn matrix_product_wraps_on_overflow() {
    let mut big = vec![0i64; 16];
    big[0] = i64::MAX;
    let mut two = vec![0i64; 16];
    two[0] = 2;
    let product = mat_mul(&Mat4 { entries: big }, &Mat4 { entries: two });
    assert_eq!(product.entries[0], i64::MAX.wrapping_mul(2));
}
