use jvm_rust::desc::{DescriptorParser, JType};

#[test]
fn test() {
    let desc = "([[Ljava/lang/Object;IIJ)V".as_bytes().to_vec();

    let mut p = DescriptorParser::new(&desc);

    println!("{:#?}", p.parse_method())
}

#[test]
fn method_test() {
    let method = "(Ljava.lang.Object;[[IIIF)V";
    let mut parser = DescriptorParser::new(method.as_bytes());
    let params = parser.parse_method();

    println!("{:?}", params);
}

#[test]
fn nan_test() {
    let l = f32::NAN;

    println!("{}", l == l);
}

#[test]
fn test_ptr_size() {
    println!("pointer size = {}", std::mem::size_of::<usize>())
}

#[test]
fn lib_it_works() {
    let result = 2 + 2;
    assert_eq!(result, 4);
}

#[test]
fn descriptor_no_arguments() {
    let d = DescriptorParser::new("()V".as_bytes()).parse_method().unwrap();
    assert_eq!(d.arg_slots, 0);
    assert_eq!(d.params.len(), 0);
    assert!(matches!(d.ret, JType::V));
}
