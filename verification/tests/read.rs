use tl::Read;

#[test]
fn read_it_works() {
    let data = [1_u8, 2, 3, 4];

    let mut src = &data as &[u8];

    assert_eq!(src.read(2).unwrap(), vec![1, 2]);
    src.read(3).unwrap_err();
    assert_eq!(src.read(2).unwrap(), vec![3, 4]);
    src.read(1).unwrap_err();

    let mut src = &data as &[u8];

    assert_eq!(src.read(3).unwrap(), vec![1, 2, 3]);
    assert_eq!(src.read(1).unwrap(), vec![4]);
    assert_eq!(src.read(0).unwrap(), vec![]);
    src.read(1).unwrap_err();

    let mut src = &data as &[u8];

    assert_eq!(src.read_to_vec(3).unwrap(), vec![1, 2, 3]);
    assert_eq!(src.read_to_vec(1).unwrap(), vec![4]);
    assert_eq!(src.read_to_vec(0).unwrap(), vec![]);
    src.read_to_vec(1).unwrap_err();
}
