use sparse_vector::SparseVec;

#[test]
fn example_scenario() {
    let mut v = SparseVec::new(5);
    let mut e = v.edit(0);
    e.set(1);
    e.commit();
    let mut e = v.edit(2);
    e.set(3);
    e.commit();
    let mut e = v.edit(4);
    e.set(5);
    e.commit();
    assert_eq!(v.to_vec(), vec![1, 0, 3, 0, 5]);

    let mut reader = v.sparse_reader();
    let mut seen = Vec::new();
    while let Some(elm) = reader.next() {
        seen.push((elm.index(), *elm.value()));
    }
    assert_eq!(seen, vec![(0, 1), (2, 3), (4, 5)]);

    let splice = v.splice(1..3, vec![42, 43, 44]);
    splice.commit();
    assert_eq!(v.to_vec(), vec![1, 42, 43, 44, 0, 5]);
    assert_eq!(v.len(), 6);
}
