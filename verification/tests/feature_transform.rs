use fwumious_wabbit::feature_transform::emit_u32;
use fwumious_wabbit::feature_transform::get_namespace_id;
use fwumious_wabbit::feature_transform::namespace_transform_pattern;
use fwumious_wabbit::feature_transform::NamespaceTransform;
use fwumious_wabbit::feature_transform::TransformError;
use fwumious_wabbit::feature_transform::TransformFunction;
use fwumious_wabbit::feature_transform::TransformNamespaces;
use fwumious_wabbit::feature_transform::MASK31;
use fwumious_wabbit::feature_transform::TRANSFORM_NAMESPACE_MARK;
use fwumious_wabbit::model_instance::ModelInstance;
use fwumious_wabbit::scalar::Scalar;
use fwumious_wabbit::vwmap::VwNamespaceMap;
use fwumious_wabbit::vwmap::VwNamespaceMapEntry;

fn entry(namespace_char: char, namespace_index: u32, namespace_is_float: bool) -> VwNamespaceMapEntry {
    VwNamespaceMapEntry { namespace_char, namespace_index, namespace_is_float }
}

/// A and B carry numbers, C does not.
fn vw() -> VwNamespaceMap {
    VwNamespaceMap::new(vec![entry('A', 0, true), entry('B', 1, true), entry('C', 2, false)])
}

fn groups(texts: &[&str]) -> Option<Vec<Option<String>>> {
    Some(texts.iter().map(|t| Some(t.to_string())).collect())
}

#[test]
fn test_namespace_map_lookup() {
    let vw = VwNamespaceMap::new(vec![entry('A', 5, true), entry('B', 6, false), entry('A', 7, false)]);
    assert_eq!(vw.index('A'), Some(5));
    assert_eq!(vw.index('B'), Some(6));
    assert_eq!(vw.index('C'), None);
    assert!(vw.is_float('A'));
    assert!(!vw.is_float('B'));
    assert!(!vw.is_float('C'));
    assert_eq!(vw.entry('B'), Some(entry('B', 6, false)));
    assert_eq!(vw.entry('\u{4e2d}'), None);
}

#[test]
fn test_new_has_no_transforms() {
    assert!(TransformNamespaces::new().v.is_empty());
    assert!(ModelInstance::new_empty().transform_namespaces.v.is_empty());
    assert_eq!(TRANSFORM_NAMESPACE_MARK, 1 << 31);
    assert_eq!(MASK31, !(1u32 << 31));
}

#[test]
fn test_add_transform_namespace() {
    let vw = vw();
    let mut tn = TransformNamespaces::new();
    assert_eq!(tn.add_transform_namespace(&vw, "X=sqrt(A)"), Ok(()));
    assert_eq!(
        tn.v,
        vec![NamespaceTransform {
            to_namespace_char: 'X',
            to_namespace_index: 0x8000_0000,
            from_namespace_char: 'A',
            from_namespace_index: 0,
            function: TransformFunction::Sqrt,
        }]
    );
    assert_eq!(tn.add_transform_namespace(&vw, "Y=sqrt(B)"), Ok(()));
    assert_eq!(tn.v.len(), 2);
    assert_eq!(
        tn.v[1],
        NamespaceTransform {
            to_namespace_char: 'Y',
            to_namespace_index: 0x8000_0001,
            from_namespace_char: 'B',
            from_namespace_index: 1,
            function: TransformFunction::Sqrt,
        }
    );
    assert_eq!(tn.add_transform_namespace(&vw, "\u{e9}=sqrt(A)"), Ok(()));
    assert_eq!(tn.v[2].to_namespace_char, '\u{e9}');
    assert_eq!(tn.v[2].to_namespace_index, 0x8000_0002);
}

#[test]
fn test_add_transform_namespace_errors() {
    let vw = vw();
    let mut tn = TransformNamespaces::new();
    tn.add_transform_namespace(&vw, "X=sqrt(A)").unwrap();
    let before = tn.v.clone();

    assert_eq!(
        tn.add_transform_namespace(&vw, "Y=sqrt(Q)"),
        Err(TransformError::UnknownNamespace('Q'))
    );
    assert_eq!(
        tn.add_transform_namespace(&vw, "Y=sqrt(C)"),
        Err(TransformError::NotFloatNamespace('C'))
    );
    // a transformed namespace is not declared as carrying numbers
    assert_eq!(
        tn.add_transform_namespace(&vw, "Y=sqrt(X)"),
        Err(TransformError::NotFloatNamespace('X'))
    );
    assert_eq!(tn.add_transform_namespace(&vw, "B=sqrt(A)"), Err(TransformError::TargetExists('B')));
    assert_eq!(tn.add_transform_namespace(&vw, "X=sqrt(A)"), Err(TransformError::TargetExists('X')));
    assert_eq!(tn.add_transform_namespace(&vw, "Y=log(A)"), Err(TransformError::UnknownFunction));
    assert_eq!(tn.add_transform_namespace(&vw, "Y=Sqrt(A)"), Err(TransformError::UnknownFunction));
    // the checks come in order: source before target before function
    assert_eq!(
        tn.add_transform_namespace(&vw, "B=log(Q)"),
        Err(TransformError::UnknownNamespace('Q'))
    );
    assert_eq!(tn.add_transform_namespace(&vw, "B=log(A)"), Err(TransformError::TargetExists('B')));
    assert_eq!(tn.v, before);
}

#[test]
fn test_source_with_marked_index_is_refused() {
    let vw = VwNamespaceMap::new(vec![entry('M', 0x8000_0005, true)]);
    let mut tn = TransformNamespaces::new();
    assert_eq!(
        tn.add_transform_namespace(&vw, "X=sqrt(M)"),
        Err(TransformError::AlreadyTransformed('M'))
    );
    assert!(tn.v.is_empty());
}

#[test]
fn test_text_of_another_shape_declares_nothing() {
    let vw = vw();
    let mut tn = TransformNamespaces::new();
    for text in [
        "",
        "X",
        "X=sqrt",
        "X=sqrt()",
        "XY=sqrt(A)",
        "X=sqrt(AB)",
        "X=(A)",
        "X=sq rt(A)",
        " X=sqrt(A)",
        "X=sqrt(A) ",
        "X=sqrt(A)\n",
        "X=sqrt(A)Y=sqrt(B)",
        "X:sqrt(A)",
        "Q=sqrt(Q",
    ] {
        assert_eq!(tn.add_transform_namespace(&vw, text), Ok(()), "{:?}", text);
        assert!(tn.v.is_empty(), "{:?}", text);
    }
}

#[test]
fn test_add_declared_transform() {
    let vw = vw();
    let mut tn = TransformNamespaces::new();
    assert_eq!(tn.add_declared_transform(&vw, None), Ok(()));
    assert_eq!(tn.add_declared_transform(&vw, groups(&["X=sqrt(A)", "X", "sqrt"])), Ok(()));
    assert_eq!(tn.add_declared_transform(&vw, groups(&["", "XY", "sqrt", "A"])), Ok(()));
    assert_eq!(tn.add_declared_transform(&vw, groups(&["", "X", "sqrt", ""])), Ok(()));
    let absent = Some(vec![Some("".to_string()), Some("X".to_string()), None, Some("A".to_string())]);
    assert_eq!(tn.add_declared_transform(&vw, absent), Ok(()));
    assert!(tn.v.is_empty());
    assert_eq!(tn.add_declared_transform(&vw, groups(&["anything", "X", "sqrt", "A"])), Ok(()));
    assert_eq!(tn.v.len(), 1);
    assert_eq!(tn.v[0].to_namespace_char, 'X');
    assert_eq!(tn.v[0].from_namespace_char, 'A');
    assert_eq!(
        tn.add_declared_transform(&vw, groups(&["", "Y", "", "A"])),
        Err(TransformError::UnknownFunction)
    );
    assert_eq!(
        tn.add_declared_transform(&vw, groups(&["", "Y", "sqrt", "Z"])),
        Err(TransformError::UnknownNamespace('Z'))
    );
}

#[test]
fn test_get_namespace_id() {
    let vw = vw();
    let mut tn = TransformNamespaces::new();
    tn.add_transform_namespace(&vw, "X=sqrt(A)").unwrap();
    tn.add_transform_namespace(&vw, "Y=sqrt(B)").unwrap();
    // a second transform for a target that is there already: the first one counts
    tn.v.push(NamespaceTransform {
        to_namespace_char: 'X',
        to_namespace_index: 77,
        from_namespace_char: 'A',
        from_namespace_index: 0,
        function: TransformFunction::Sqrt,
    });
    assert_eq!(get_namespace_id(&tn, &vw, 'A'), Ok(0));
    assert_eq!(get_namespace_id(&tn, &vw, 'C'), Ok(2));
    assert_eq!(get_namespace_id(&tn, &vw, 'X'), Ok(0x8000_0000));
    assert_eq!(get_namespace_id(&tn, &vw, 'Y'), Ok(0x8000_0001));
    assert_eq!(get_namespace_id(&tn, &vw, 'Z'), Err(TransformError::UnknownNamespace('Z')));
    // a declared namespace wins over a transform
    tn.v[1].to_namespace_char = 'C';
    assert_eq!(get_namespace_id(&tn, &vw, 'C'), Ok(2));
}

#[test]
fn test_transform_of() {
    let vw = vw();
    let mut tn = TransformNamespaces::new();
    tn.add_transform_namespace(&vw, "X=sqrt(A)").unwrap();
    tn.add_transform_namespace(&vw, "Y=sqrt(B)").unwrap();
    assert_eq!(tn.transform_of(0x8000_0000), Some(tn.v[0]));
    assert_eq!(tn.transform_of(0x8000_0001), Some(tn.v[1]));
    assert_eq!(tn.transform_of(1), Some(tn.v[1]));
    assert_eq!(tn.transform_of(0x8000_0002), None);
    assert_eq!(tn.transform_of(u32::MAX), None);
}

#[test]
fn test_pattern() {
    assert_eq!(namespace_transform_pattern(), r"^(.)=(\w+)\((.)\)$");
}

#[test]
fn test_emit_u32_known_hashes() {
    let weight = Scalar::from_bits(2.5f32.to_bits());
    assert_eq!(emit_u32(0, weight, 0), (0x2362F9DE, weight));
    assert_eq!(emit_u32(0xFFFF_FFFF, weight, 0), (0x76293B50, weight));
    assert_eq!(emit_u32(0x8765_4321, weight, 0), (0xF55B516B & 0x7FFF_FFFF, weight));
    assert_eq!(emit_u32(0x8765_4321, weight, 0x5082EDEE), (0x2362F9DE, weight));
}

#[test]
fn test_emit_u32_is_the_masked_hash_of_the_little_endian_bytes() {
    let weight = Scalar::from_bits(1.0f32.to_bits());
    let mut x: u32 = 1;
    for _ in 0..200 {
        x = x.wrapping_mul(1664525).wrapping_add(1013904223);
        let seed = x.rotate_left(7);
        let expected = fasthash::murmur3::hash32_with_seed(x.to_le_bytes(), seed) & 0x7FFF_FFFF;
        let (hash, value) = emit_u32(x, weight, seed);
        assert_eq!(hash, expected);
        assert_eq!(value, weight);
        assert_eq!(hash & 0x8000_0000, 0);
    }
}
