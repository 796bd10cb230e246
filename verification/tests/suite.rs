use vector_state::field::{FieldInput, IndexedField, Lit, MetaItem};
use vector_state::Varint;

fn state_field(name_index: usize, ty: &str, tag: &str, default: Option<&str>) -> IndexedField {
    let mut items = vec![MetaItem::NameValue {
        path: "tag".to_string(),
        lit: Lit::Int { text: tag.to_string(), digits: tag.to_string() },
    }];
    if let Some(d) = default {
        items.push(MetaItem::NameValue { path: "default".to_string(), lit: Lit::Str { value: d.to_string() } });
    }
    let input = FieldInput { name: None, ty: ty.to_string(), items };
    let mut errors = Vec::new();
    let f = IndexedField::parse(&input, name_index, &mut errors).unwrap();
    assert!(errors.is_empty());
    f
}

// What the generated `size` of `Point(Path, i32, i32)` computes.
fn point_size(x: i32, y: i32) -> u32 {
    let mut size = 0u32;
    size += (0u32 << 3 | 0u32).size() as u32;
    size += x.size() as u32;
    size += (1u32 << 3 | 0u32).size() as u32;
    size += y.size() as u32;
    size
}

// What the generated `serialize` of `Point(Path, i32, i32)` writes.
fn point_bytes(x: i32, y: i32) -> Vec<u8> {
    let mut w = Vec::new();
    (0u32 << 3 | 0u32).serialize(&mut w);
    x.serialize(&mut w);
    (1u32 << 3 | 0u32).serialize(&mut w);
    y.serialize(&mut w);
    w
}

#[test]
fn test() {
    let x = state_field(1, "i32", "0", Some("5"));
    let y = state_field(2, "i32", "1", Some("10"));
    assert_eq!(x.to_init(), "1: 5");
    assert_eq!(y.to_init(), "2: 10");
    assert_eq!(x.to_sizer(), "size += (0u32 << 3 | 0u32).size(); size += self.1.size();");
    assert_eq!(y.to_serializer(), "(1u32 << 3 | 0u32).serialize(writer)?; self.2.serialize(writer)?;");

    // point_a = Point(path, 100, 10)
    assert_eq!(point_size(100, 10), 4);
    assert_eq!(point_bytes(100, 10), vec![0x00, 0xc8, 0x01, 0x08, 0x14]);
    // point_b = Point(path, 5, 200)
    assert_eq!(point_size(5, 200), 5);
    assert_eq!(point_bytes(5, 200), vec![0x00, 0x0a, 0x08, 0x90, 0x03]);

    let a = state_field(1, "Point", "0", None);
    let b = state_field(2, "Point", "1", None);
    assert_eq!(a.to_init(), "1: <Point>::new(path.derive(0u16))");
    assert_eq!(
        b.to_sizer(),
        "size += (1u32 << 3 | 2u32).size(); size += self.2.size().size(); size += self.2.size();"
    );
    // segment = Segment(path, point_a, point_b)
    let mut size = 0u32;
    for (tag, inner) in [(0u32, point_size(100, 10)), (1u32, point_size(5, 200))] {
        size += (tag << 3 | 2u32).size() as u32;
        size += inner.size() as u32;
        size += inner;
    }
    assert_eq!(size, 13);
}
