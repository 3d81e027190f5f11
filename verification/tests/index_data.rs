use mesh_renderer::upload::index_data;

#[test]
fn index_data_holds_four_bytes_per_index() {
    let indices = [0u32, 1, 2, 0x01020304];
    let data = index_data(&indices);
    assert_eq!(data.size, 16);
    assert_eq!(data.bytes.len(), 16);
    let mut expected = Vec::new();
    for i in indices {
        expected.extend_from_slice(&i.to_ne_bytes());
    }
    assert_eq!(data.bytes, expected);
}

#[test]
fn index_data_of_the_cube_has_the_cube_size() {
    let indices: [u32; 36] = [
        0, 1, 2, 0, 2, 3, 4, 6, 5, 4, 7, 6, 0, 5, 1, 0, 4, 5, 3, 2, 6, 3, 6, 7, 0, 3, 7, 0, 7, 4,
        1, 5, 6, 1, 6, 2,
    ];
    let data = index_data(&indices);
    assert_eq!(data.size, 144);
    assert_eq!(&data.bytes[20..24], &3u32.to_ne_bytes());
}

#[test]
fn empty_index_data_is_empty() {
    let data = index_data(&[]);
    assert_eq!(data.size, 0);
    assert!(data.bytes.is_empty());
}
