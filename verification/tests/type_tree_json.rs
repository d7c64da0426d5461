use io_unity::type_tree::type_tree_json::{get_type_object_args_by_version_class_id, InfoJsonStore};

#[test]
fn test_json() {
    let time = std::time::Instant::now();
    let store = InfoJsonStore::new();

    let args = get_type_object_args_by_version_class_id(&store, &"3.4.0".to_string(), 1);
    println!("{:?}", args);
    println!("Read use {:?}", time.elapsed());
    assert!(args.is_none());

    let args = get_type_object_args_by_version_class_id(&store, &"3.4.0".to_string(), 2);
    println!("{:?}", args);
    println!("Read use {:?}", time.elapsed());
    assert!(args.is_none());
}
