#[test]
fn deser_error() {}
