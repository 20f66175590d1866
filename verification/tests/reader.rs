use tl::reader::Reader;

#[test]
fn reader_it_works() {
    let data = [1_u8, 2, 3, 4];
    let mut reader = Reader::new(&data);

    assert_eq!(reader.read(2).unwrap(), vec![1, 2]);
    reader.read(3).unwrap_err();
    assert_eq!(reader.read(2).unwrap(), vec![3, 4]);
    reader.read(1).unwrap_err();

    reader.pos = 0;

    assert_eq!(reader.read(3).unwrap(), vec![1, 2, 3]);
    assert_eq!(reader.read(1).unwrap(), vec![4]);
    assert_eq!(reader.read(0).unwrap(), vec![]);
    reader.read(1).unwrap_err();

    reader.pos = 0;

    assert_eq!(reader.read_to_vec(3).unwrap(), vec![1, 2, 3]);
    assert_eq!(reader.read_to_vec(1).unwrap(), vec![4]);
    assert_eq!(reader.read_to_vec(0).unwrap(), vec![]);
    reader.read_to_vec(1).unwrap_err();
}
