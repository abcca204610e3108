use jvm_rust::error::VmError;
use jvm_rust::frame::MemberRef;
use jvm_rust::ins::field::field_with;
use jvm_rust::ins::invoke::invoke_with;
use jvm_rust::ins::object::{new_with, type_with};
use jvm_rust::loader::Entry;
use jvm_rust::resolve::Resolved;
use jvm_rust::vm::{Jvm, Step};

// ---------------------------------------------------------------------
// A small assembler of class files.

struct ClassBuilder {
    pool: Vec<u8>,
    count: u16,
    fields: Vec<u8>,
    n_fields: u16,
    methods: Vec<u8>,
    n_methods: u16,
    interfaces: Vec<u16>,
}

impl ClassBuilder {
    fn new() -> Self {
        ClassBuilder {
            pool: Vec::new(),
            count: 1,
            fields: Vec::new(),
            n_fields: 0,
            methods: Vec::new(),
            n_methods: 0,
            interfaces: Vec::new(),
        }
    }

    fn implements(&mut self, name: &str) {
        let c = self.class(name);
        self.interfaces.push(c);
    }

    fn iface_method_ref(&mut self, class: &str, name: &str, desc: &str) -> u16 {
        self.member(11, class, name, desc)
    }

    fn entry(&mut self, bytes: &[u8], slots: u16) -> u16 {
        let i = self.count;
        self.pool.extend_from_slice(bytes);
        self.count += slots;
        i
    }

    fn utf8(&mut self, s: &str) -> u16 {
        let mut b = vec![1u8];
        b.extend_from_slice(&(s.len() as u16).to_be_bytes());
        b.extend_from_slice(s.as_bytes());
        self.entry(&b, 1)
    }

    fn integer(&mut self, v: i32) -> u16 {
        let mut b = vec![3u8];
        b.extend_from_slice(&v.to_be_bytes());
        self.entry(&b, 1)
    }

    fn long(&mut self, v: i64) -> u16 {
        let mut b = vec![5u8];
        b.extend_from_slice(&v.to_be_bytes());
        self.entry(&b, 2)
    }

    fn class(&mut self, name: &str) -> u16 {
        let n = self.utf8(name);
        let mut b = vec![7u8];
        b.extend_from_slice(&n.to_be_bytes());
        self.entry(&b, 1)
    }

    fn string(&mut self, s: &str) -> u16 {
        let n = self.utf8(s);
        let mut b = vec![8u8];
        b.extend_from_slice(&n.to_be_bytes());
        self.entry(&b, 1)
    }

    fn name_and_type(&mut self, name: &str, desc: &str) -> u16 {
        let n = self.utf8(name);
        let d = self.utf8(desc);
        let mut b = vec![12u8];
        b.extend_from_slice(&n.to_be_bytes());
        b.extend_from_slice(&d.to_be_bytes());
        self.entry(&b, 1)
    }

    fn member(&mut self, tag: u8, class: &str, name: &str, desc: &str) -> u16 {
        let c = self.class(class);
        let nt = self.name_and_type(name, desc);
        let mut b = vec![tag];
        b.extend_from_slice(&c.to_be_bytes());
        b.extend_from_slice(&nt.to_be_bytes());
        self.entry(&b, 1)
    }

    fn field_ref(&mut self, class: &str, name: &str, desc: &str) -> u16 {
        self.member(9, class, name, desc)
    }

    fn method_ref(&mut self, class: &str, name: &str, desc: &str) -> u16 {
        self.member(10, class, name, desc)
    }

    fn field(&mut self, access: u16, name: &str, desc: &str, constant: Option<u16>) {
        let n = self.utf8(name);
        let d = self.utf8(desc);
        let cv = self.utf8("ConstantValue");
        self.fields.extend_from_slice(&access.to_be_bytes());
        self.fields.extend_from_slice(&n.to_be_bytes());
        self.fields.extend_from_slice(&d.to_be_bytes());
        match constant {
            Some(i) => {
                self.fields.extend_from_slice(&1u16.to_be_bytes());
                self.fields.extend_from_slice(&cv.to_be_bytes());
                self.fields.extend_from_slice(&2u32.to_be_bytes());
                self.fields.extend_from_slice(&i.to_be_bytes());
            }
            None => self.fields.extend_from_slice(&0u16.to_be_bytes()),
        }
        self.n_fields += 1;
    }

    fn method(&mut self, access: u16, name: &str, desc: &str, max_stack: u16, max_locals: u16, code: &[u8]) {
        let n = self.utf8(name);
        let d = self.utf8(desc);
        let c = self.utf8("Code");
        self.methods.extend_from_slice(&access.to_be_bytes());
        self.methods.extend_from_slice(&n.to_be_bytes());
        self.methods.extend_from_slice(&d.to_be_bytes());
        self.methods.extend_from_slice(&1u16.to_be_bytes());
        self.methods.extend_from_slice(&c.to_be_bytes());
        self.methods.extend_from_slice(&((12 + code.len()) as u32).to_be_bytes());
        self.methods.extend_from_slice(&max_stack.to_be_bytes());
        self.methods.extend_from_slice(&max_locals.to_be_bytes());
        self.methods.extend_from_slice(&(code.len() as u32).to_be_bytes());
        self.methods.extend_from_slice(code);
        self.methods.extend_from_slice(&0u16.to_be_bytes());
        self.methods.extend_from_slice(&0u16.to_be_bytes());
        self.n_methods += 1;
    }

    fn native(&mut self, access: u16, name: &str, desc: &str) {
        let n = self.utf8(name);
        let d = self.utf8(desc);
        self.methods.extend_from_slice(&access.to_be_bytes());
        self.methods.extend_from_slice(&n.to_be_bytes());
        self.methods.extend_from_slice(&d.to_be_bytes());
        self.methods.extend_from_slice(&0u16.to_be_bytes());
        self.n_methods += 1;
    }

    fn build(mut self, access: u16, this: &str, sup: Option<&str>) -> Vec<u8> {
        let t = self.class(this);
        let s = match sup {
            Some(n) => self.class(n),
            None => 0,
        };
        let mut b = vec![0xCA, 0xFE, 0xBA, 0xBE, 0, 0, 0, 52];
        b.extend_from_slice(&self.count.to_be_bytes());
        b.extend_from_slice(&self.pool);
        b.extend_from_slice(&access.to_be_bytes());
        b.extend_from_slice(&t.to_be_bytes());
        b.extend_from_slice(&s.to_be_bytes());
        b.extend_from_slice(&(self.interfaces.len() as u16).to_be_bytes());
        for i in self.interfaces.iter() {
            b.extend_from_slice(&i.to_be_bytes());
        }
        b.extend_from_slice(&self.n_fields.to_be_bytes());
        b.extend_from_slice(&self.fields);
        b.extend_from_slice(&self.n_methods.to_be_bytes());
        b.extend_from_slice(&self.methods);
        b.extend_from_slice(&0u16.to_be_bytes());
        b
    }
}

fn hi(i: u16) -> u8 {
    (i >> 8) as u8
}

fn lo(i: u16) -> u8 {
    (i & 0xff) as u8
}

// ---------------------------------------------------------------------
// A class path in memory.

struct MapEntry {
    classes: Vec<(String, Vec<u8>)>,
}

impl Entry for MapEntry {
    fn read_class(&self, name: &str) -> Option<Vec<u8>> {
        for (n, b) in self.classes.iter() {
            if n == name {
                return Some(b.clone());
            }
        }
        None
    }
}

fn base_classes() -> Vec<(String, Vec<u8>)> {
    let object = ClassBuilder::new().build(0x0021, "java/lang/Object", None);
    let mut s = ClassBuilder::new();
    s.field(0x0012, "value", "[C", None);
    let string = s.build(0x0031, "java/lang/String", Some("java/lang/Object"));
    let class = ClassBuilder::new().build(0x0031, "java/lang/Class", Some("java/lang/Object"));
    vec![
        ("java/lang/Object".to_string(), object),
        ("java/lang/String".to_string(), string),
        ("java/lang/Class".to_string(), class),
    ]
}

const STATIC: u16 = 0x0008;
const PUBLIC_STATIC: u16 = 0x0009;
const STATIC_NATIVE: u16 = 0x0109;
const MAIN_DESC: &str = "([Ljava/lang/String;)V";

fn fpu(op: u8, a: u64, b: u64) -> u64 {
    let fa = f32::from_bits(a as u32);
    let fb = f32::from_bits(b as u32);
    let da = f64::from_bits(a);
    let db = f64::from_bits(b);
    match op {
        0x62 => (fa + fb).to_bits() as u64,
        0x66 => (fa - fb).to_bits() as u64,
        0x6a => (fa * fb).to_bits() as u64,
        0x6e => (fa / fb).to_bits() as u64,
        0x63 => (da + db).to_bits(),
        0x6b => (da * db).to_bits(),
        0x86 => ((a as u32 as i32) as f32).to_bits() as u64,
        0x87 => ((a as u32 as i32) as f64).to_bits(),
        0x8b => (fa as i32) as u32 as u64,
        0x8e => (da as i32) as u32 as u64,
        0x95 | 0x96 => {
            let r: i32 = if fa > fb {
                1
            } else if fa == fb {
                0
            } else if fa < fb {
                -1
            } else if op == 0x96 {
                1
            } else {
                -1
            };
            r as u32 as u64
        }
        _ => 0,
    }
}

/// Runs the machine and performs the natives of the tests: `print(I)V`
/// records its argument.
fn drive(jvm: &mut Jvm, entry: &MapEntry, out: &mut Vec<i32>) -> Result<(), VmError> {
    let mut rounds = 0;
    loop {
        rounds += 1;
        assert!(rounds < 1000, "the machine does not come to an end");
        match jvm.run(entry, &fpu, 100_000)? {
            Step::Done => return Ok(()),
            Step::Continue => {}
            Step::Native(m) => {
                let name = jvm.loader.classes[m.class].methods[m.index].name.clone();
                let desc = jvm.loader.classes[m.class].methods[m.index].desc.clone();
                match (name.as_str(), desc.as_str()) {
                    ("print", "(I)V") => out.push(jvm.thread.stack.get_local(0) as u32 as i32),
                    ("answer", "()I") => jvm.thread.stack.push_u32(42),
                    ("twice", "(J)J") => {
                        let v = jvm.thread.stack.get_local(0);
                        jvm.thread.stack.push_u64(v.wrapping_mul(2));
                    }
                    _ => return Err(VmError::MissingNative),
                }
            }
        }
    }
}

fn run_main(classes: Vec<(String, Vec<u8>)>, main: &str) -> Result<Vec<i32>, VmError> {
    let mut all = base_classes();
    all.extend(classes);
    let entry = MapEntry { classes: all };
    let mut jvm = Jvm::new(&entry)?;
    jvm.start_class(&entry, main)?;
    let mut out = Vec::new();
    drive(&mut jvm, &entry, &mut out)?;
    Ok(out)
}

/// A class `T` with the native `print(I)V` and the given `main`.
fn with_main(build: impl FnOnce(&mut ClassBuilder) -> (u16, u16, Vec<u8>)) -> Vec<u8> {
    let mut t = ClassBuilder::new();
    t.native(STATIC_NATIVE, "print", "(I)V");
    let (max_stack, max_locals, code) = build(&mut t);
    t.method(PUBLIC_STATIC, "main", MAIN_DESC, max_stack, max_locals, &code);
    t.build(0x0021, "T", Some("java/lang/Object"))
}

// ---------------------------------------------------------------------
// Whole programs.

#[test]
fn arithmetic_return() {
    let mut t = ClassBuilder::new();
    t.native(STATIC_NATIVE, "print", "(I)V");
    t.method(PUBLIC_STATIC, "sum", "(II)I", 2, 2, &[0x1a, 0x1b, 0x60, 0xac]);
    let sum = t.method_ref("T", "sum", "(II)I");
    let print = t.method_ref("T", "print", "(I)V");
    let code = vec![0x05, 0x06, 0xb8, hi(sum), lo(sum), 0xb8, hi(print), lo(print), 0xb1];
    t.method(PUBLIC_STATIC, "main", MAIN_DESC, 2, 1, &code);
    let bytes = t.build(0x0021, "T", Some("java/lang/Object"));
    let out = run_main(vec![("T".to_string(), bytes)], "T").unwrap();
    assert_eq!(out, vec![5]);
}

#[test]
fn virtual_dispatch() {
    let mut a = ClassBuilder::new();
    a.method(0x0001, "f", "()I", 1, 1, &[0x04, 0xac]);
    let a = a.build(0x0021, "Alpha", Some("java/lang/Object"));
    let mut b = ClassBuilder::new();
    b.method(0x0001, "f", "()I", 1, 1, &[0x05, 0xac]);
    let b = b.build(0x0021, "Beta", Some("Alpha"));
    let t = with_main(|t| {
        let cb = t.class("Beta");
        let f = t.method_ref("Alpha", "f", "()I");
        let print = t.method_ref("T", "print", "(I)V");
        (
            1,
            2,
            vec![0xbb, hi(cb), lo(cb), 0x4c, 0x2b, 0xb6, hi(f), lo(f), 0xb8, hi(print), lo(print), 0xb1],
        )
    });
    let out = run_main(
        vec![("Alpha".to_string(), a), ("Beta".to_string(), b), ("T".to_string(), t)],
        "T",
    )
    .unwrap();
    assert_eq!(out, vec![2]);
}

#[test]
fn static_initialization_order() {
    let mut c = ClassBuilder::new();
    c.field(STATIC, "x", "I", None);
    let dy = c.field_ref("Delta", "y", "I");
    let cx = c.field_ref("Gamma", "x", "I");
    let print = c.method_ref("T", "print", "(I)V");
    c.method(
        STATIC,
        "<clinit>",
        "()V",
        2,
        0,
        &[0xb2, hi(dy), lo(dy), 0x04, 0x60, 0xb3, hi(cx), lo(cx), 0x10, 101, 0xb8, hi(print), lo(print), 0xb1],
    );
    let c = c.build(0x0021, "Gamma", Some("java/lang/Object"));
    let mut d = ClassBuilder::new();
    d.field(STATIC, "y", "I", None);
    let dy = d.field_ref("Delta", "y", "I");
    let print = d.method_ref("T", "print", "(I)V");
    d.method(
        STATIC,
        "<clinit>",
        "()V",
        1,
        0,
        &[0x10, 10, 0xb3, hi(dy), lo(dy), 0x10, 100, 0xb8, hi(print), lo(print), 0xb1],
    );
    let d = d.build(0x0021, "Delta", Some("java/lang/Object"));
    let t = with_main(|t| {
        let cx = t.field_ref("Gamma", "x", "I");
        let print = t.method_ref("T", "print", "(I)V");
        (1, 1, vec![0xb2, hi(cx), lo(cx), 0xb8, hi(print), lo(print), 0xb1])
    });
    let out = run_main(
        vec![("Gamma".to_string(), c), ("Delta".to_string(), d), ("T".to_string(), t)],
        "T",
    )
    .unwrap();
    // The initializer of Delta ends (100) before that of Gamma (101),
    // and the first read of Gamma.x sees 11.
    assert_eq!(out, vec![100, 101, 11]);
}

#[test]
fn array_length_and_iteration() {
    let t = with_main(|t| {
        let print = t.method_ref("T", "print", "(I)V");
        let mut code = vec![0x08, 0xbc, 10, 0x4c];
        for i in 0..5u8 {
            // aload_1, iconst_i, iconst_(i + 1) or bipush, iastore
            code.extend_from_slice(&[0x2b, 0x03 + i, 0x10, i + 1, 0x4f]);
        }
        // sum = 0; i = 0
        code.extend_from_slice(&[0x03, 0x3d, 0x03, 0x3e]);
        let top = code.len() as i16;
        // if (i >= 5) goto end
        code.extend_from_slice(&[0x1d, 0x08, 0xa2, 0, 0]);
        let branch = code.len() - 3;
        // sum += a[i]; i++
        code.extend_from_slice(&[0x1c, 0x2b, 0x1d, 0x2e, 0x60, 0x3d, 0x84, 3, 1]);
        let back = code.len() as i16;
        let off = (top - back) as u16;
        code.extend_from_slice(&[0xa7, hi(off), lo(off)]);
        let end = code.len();
        let fwd = (end - branch) as u16;
        code[branch + 1] = hi(fwd);
        code[branch + 2] = lo(fwd);
        code.extend_from_slice(&[0x1c, 0xb8, hi(print), lo(print), 0xb1]);
        (3, 4, code)
    });
    let out = run_main(vec![("T".to_string(), t)], "T").unwrap();
    assert_eq!(out, vec![15]);
}

#[test]
fn string_intern() {
    let t = with_main(|t| {
        let s1 = t.string("abc");
        let s2 = t.string("abc");
        let print = t.method_ref("T", "print", "(I)V");
        (
            2,
            1,
            vec![
                0x12, lo(s1), 0x12, lo(s2), 0xa5, 0, 8, 0x03, 0xb8, hi(print), lo(print), 0xb1,
                0x04, 0xb8, hi(print), lo(print), 0xb1,
            ],
        )
    });
    let out = run_main(vec![("T".to_string(), t)], "T").unwrap();
    assert_eq!(out, vec![1]);
}

#[test]
fn multi_dimensional_allocation() {
    let t = with_main(|t| {
        let c = t.class("[[I");
        let print = t.method_ref("T", "print", "(I)V");
        (
            2,
            2,
            vec![
                0x05, 0x06, 0xc5, hi(c), lo(c), 2, 0x4c, 0x2b, 0xbe, 0xb8, hi(print), lo(print),
                0x2b, 0x03, 0x32, 0xbe, 0xb8, hi(print), lo(print), 0x2b, 0x04, 0x32, 0xbe, 0xb8,
                hi(print), lo(print), 0xb1,
            ],
        )
    });
    let out = run_main(vec![("T".to_string(), t)], "T").unwrap();
    assert_eq!(out, vec![2, 3, 3]);
}

// ---------------------------------------------------------------------
// More of the machine.

#[test]
fn float_addition_goes_through_the_host() {
    let t = with_main(|t| {
        let print = t.method_ref("T", "print", "(I)V");
        // fconst_1, fconst_2, fadd, f2i, print
        (2, 1, vec![0x0c, 0x0d, 0x62, 0x8b, 0xb8, hi(print), lo(print), 0xb1])
    });
    let out = run_main(vec![("T".to_string(), t)], "T").unwrap();
    assert_eq!(out, vec![3]);
}

#[test]
fn integer_division_by_zero_is_an_error() {
    let t = with_main(|_| (2, 1, vec![0x04, 0x03, 0x6c, 0xb1]));
    let r = run_main(vec![("T".to_string(), t)], "T");
    assert_eq!(r, Err(VmError::Arithmetic));
}

#[test]
fn operand_stack_is_bounded_by_max_stack() {
    // max_stack is 1 and the second push does not fit.
    let t = with_main(|_| (1, 1, vec![0x04, 0x04, 0xb1]));
    let r = run_main(vec![("T".to_string(), t)], "T");
    assert_eq!(r, Err(VmError::OperandStack));
}

#[test]
fn local_index_is_bounded_by_max_locals() {
    // iload 7 with a single local.
    let t = with_main(|_| (1, 1, vec![0x15, 7, 0xb1]));
    let r = run_main(vec![("T".to_string(), t)], "T");
    assert_eq!(r, Err(VmError::LocalIndex));
}

#[test]
fn unknown_opcode_is_an_error() {
    let t = with_main(|_| (1, 1, vec![0xba, 0, 0, 0, 0]));
    let r = run_main(vec![("T".to_string(), t)], "T");
    assert_eq!(r, Err(VmError::UnknownOpcode));
}

#[test]
fn null_receiver_is_an_error() {
    let mut a = ClassBuilder::new();
    a.method(0x0001, "f", "()I", 1, 1, &[0x04, 0xac]);
    let a = a.build(0x0021, "Alpha", Some("java/lang/Object"));
    let t = with_main(|t| {
        let f = t.method_ref("Alpha", "f", "()I");
        (1, 1, vec![0x01, 0xb6, hi(f), lo(f), 0xb1])
    });
    let r = run_main(vec![("Alpha".to_string(), a), ("T".to_string(), t)], "T");
    assert_eq!(r, Err(VmError::NullPointer));
}

#[test]
fn negative_array_size_is_an_error() {
    let t = with_main(|_| (1, 1, vec![0x02, 0xbc, 10, 0xb1]));
    let r = run_main(vec![("T".to_string(), t)], "T");
    assert_eq!(r, Err(VmError::NegativeArraySize));
}

#[test]
fn array_index_out_of_bounds_is_an_error() {
    // new int[1]; a[3]
    let t = with_main(|_| (2, 1, vec![0x04, 0xbc, 10, 0x06, 0x2e, 0xb1]));
    let r = run_main(vec![("T".to_string(), t)], "T");
    assert_eq!(r, Err(VmError::ArrayIndexOutOfBounds));
}

#[test]
fn checkcast_of_another_class_is_an_error() {
    let a = ClassBuilder::new().build(0x0021, "Alpha", Some("java/lang/Object"));
    let b = ClassBuilder::new().build(0x0021, "Beta", Some("java/lang/Object"));
    let t = with_main(|t| {
        let ca = t.class("Alpha");
        let cb = t.class("Beta");
        (1, 1, vec![0xbb, hi(ca), lo(ca), 0xc0, hi(cb), lo(cb), 0xb1])
    });
    let r = run_main(
        vec![("Alpha".to_string(), a), ("Beta".to_string(), b), ("T".to_string(), t)],
        "T",
    );
    assert_eq!(r, Err(VmError::ClassCast));
}

#[test]
fn instanceof_follows_the_class_chain() {
    let a = ClassBuilder::new().build(0x0021, "Alpha", Some("java/lang/Object"));
    let b = ClassBuilder::new().build(0x0021, "Beta", Some("Alpha"));
    let t = with_main(|t| {
        let ca = t.class("Alpha");
        let cb = t.class("Beta");
        let print = t.method_ref("T", "print", "(I)V");
        (
            1,
            1,
            vec![
                0xbb, hi(cb), lo(cb), 0xc1, hi(ca), lo(ca), 0xb8, hi(print), lo(print), 0xbb,
                hi(ca), lo(ca), 0xc1, hi(cb), lo(cb), 0xb8, hi(print), lo(print), 0x01, 0xc1,
                hi(ca), lo(ca), 0xb8, hi(print), lo(print), 0xb1,
            ],
        )
    });
    let out = run_main(
        vec![("Alpha".to_string(), a), ("Beta".to_string(), b), ("T".to_string(), t)],
        "T",
    )
    .unwrap();
    assert_eq!(out, vec![1, 0, 0]);
}

#[test]
fn missing_class_is_an_error() {
    let r = run_main(vec![], "Nowhere");
    assert_eq!(r, Err(VmError::ClassNotFound));
}

#[test]
fn class_without_main_is_an_error() {
    let a = ClassBuilder::new().build(0x0021, "Alpha", Some("java/lang/Object"));
    let r = run_main(vec![("Alpha".to_string(), a)], "Alpha");
    assert_eq!(r, Err(VmError::NoSuchMember));
}

#[test]
fn bad_magic_is_an_error() {
    let mut a = ClassBuilder::new().build(0x0021, "Alpha", Some("java/lang/Object"));
    a[0] = 0xCB;
    let r = run_main(vec![("Alpha".to_string(), a)], "Alpha");
    assert_eq!(r, Err(VmError::ClassFormat));
}

fn switch_program(key: u8, lookup: bool) -> Result<Vec<i32>, VmError> {
    let t = with_main(|t| {
        let print = t.method_ref("T", "print", "(I)V");
        // 0: push the key; 1: the switch, padded to offset 4.
        let mut code = vec![0x10, key, if lookup { 0xab } else { 0xaa }, 0];
        // The operands end at offset 24; the three cases lie at 24, 29
        // and 34, and all meet at 36. Offsets count from the switch at 2.
        if lookup {
            for v in [32i32, 2, 7, 22, 9, 27] {
                code.extend_from_slice(&v.to_be_bytes());
            }
            assert_eq!(code.len(), 28);
            code.truncate(28);
        } else {
            for v in [32i32, 7, 8, 22, 27] {
                code.extend_from_slice(&v.to_be_bytes());
            }
        }
        while code.len() < 24 {
            code.push(0);
        }
        let base = code.len() as i32 - 24;
        // With pairs the operands are four bytes longer: shift the cases.
        let fix = |code: &mut Vec<u8>, at: usize| {
            let mut w = [0u8; 4];
            w.copy_from_slice(&code[at..at + 4]);
            let v = i32::from_be_bytes(w) + base;
            code[at..at + 4].copy_from_slice(&v.to_be_bytes());
        };
        if lookup {
            fix(&mut code, 4);
            fix(&mut code, 16);
            fix(&mut code, 24);
        }
        code.extend_from_slice(&[0x10, 10, 0xa7, 0, 10, 0x10, 20, 0xa7, 0, 5, 0x10, 30]);
        code.extend_from_slice(&[0xb8, hi(print), lo(print), 0xb1]);
        (2, 1, code)
    });
    run_main(vec![("T".to_string(), t)], "T")
}

#[test]
fn tableswitch_picks_the_listed_offset() {
    assert_eq!(switch_program(7, false), Ok(vec![10]));
    assert_eq!(switch_program(8, false), Ok(vec![20]));
    assert_eq!(switch_program(9, false), Ok(vec![30]));
    assert_eq!(switch_program(6, false), Ok(vec![30]));
}

#[test]
fn lookupswitch_picks_the_pair_of_the_key() {
    assert_eq!(switch_program(7, true), Ok(vec![10]));
    assert_eq!(switch_program(9, true), Ok(vec![20]));
    assert_eq!(switch_program(8, true), Ok(vec![30]));
}

#[test]
fn constant_static_field_is_seeded() {
    let mut c = ClassBuilder::new();
    let k = c.integer(77);
    c.field(0x0018, "K", "I", Some(k));
    let c = c.build(0x0021, "Gamma", Some("java/lang/Object"));
    let t = with_main(|t| {
        let ck = t.field_ref("Gamma", "K", "I");
        let print = t.method_ref("T", "print", "(I)V");
        (1, 1, vec![0xb2, hi(ck), lo(ck), 0xb8, hi(print), lo(print), 0xb1])
    });
    let out = run_main(vec![("Gamma".to_string(), c), ("T".to_string(), t)], "T").unwrap();
    assert_eq!(out, vec![77]);
}

#[test]
fn instance_fields_of_the_superclass_come_first() {
    let mut a = ClassBuilder::new();
    a.field(0x0001, "p", "I", None);
    a.field(0x0009, "s", "I", None);
    a.field(0x0001, "q", "J", None);
    let a = a.build(0x0021, "Alpha", Some("java/lang/Object"));
    let mut b = ClassBuilder::new();
    b.field(0x0001, "r", "I", None);
    let b = b.build(0x0021, "Beta", Some("Alpha"));
    let mut all = base_classes();
    all.push(("Alpha".to_string(), a));
    all.push(("Beta".to_string(), b));
    let entry = MapEntry { classes: all };
    let mut jvm = Jvm::new(&entry).unwrap();
    let ib = jvm.loader.load(&mut jvm.heap, &entry, "Beta").unwrap();
    let ia = jvm.loader.find("Alpha").unwrap();
    let ca = &jvm.loader.classes[ia];
    let cb = &jvm.loader.classes[ib];
    assert_eq!(ca.ins_fields.len(), 2);
    assert_eq!(cb.ins_fields.len(), 3);
    assert_eq!(&cb.ins_fields[..2], &ca.ins_fields[..]);
    assert_eq!(cb.ins_fields[2], MemberRef { class: ib, index: 0 });
    assert_eq!(cb.fields[0].id, 2);
    assert_eq!(ca.static_fields, vec![1]);
    assert_eq!(ca.static_vars.len(), ca.static_fields.len());
    assert_eq!(cb.static_vars.len(), cb.static_fields.len());
    assert_eq!(ca.fields[1].id, 0);
    assert_eq!(ca.fields[2].id, 1);
}

#[test]
fn wide_pool_entries_are_followed_by_a_blank() {
    let mut a = ClassBuilder::new();
    let l = a.long(0x0102030405060708);
    a.utf8("after");
    let a = a.build(0x0021, "Alpha", Some("java/lang/Object"));
    let file = jvm_rust::classfile::ClassFile::new(a).unwrap();
    assert!(matches!(file.cp.infos[l as usize], jvm_rust::cp::ConstantInfo::Long(0x0102030405060708)));
    assert!(matches!(file.cp.infos[l as usize + 1], jvm_rust::cp::ConstantInfo::Blank));
    assert_eq!(file.cp.u64(l as usize), Some(0x0102030405060708));
    assert_eq!(file.cp.utf8(l as usize + 2), Some("after"));
    assert_eq!(file.cp.utf8(0), None);
}

#[test]
fn class_initialization_happens_once() {
    let mut c = ClassBuilder::new();
    c.method(STATIC, "<clinit>", "()V", 0, 0, &[0xb1]);
    let c = c.build(0x0021, "Gamma", Some("java/lang/Object"));
    let mut all = base_classes();
    all.push(("Gamma".to_string(), c));
    let entry = MapEntry { classes: all };
    let mut jvm = Jvm::new(&entry).unwrap();
    let id = jvm.loader.load(&mut jvm.heap, &entry, "Gamma").unwrap();
    assert_eq!(jvm.thread.clinit(&mut jvm.loader, id), Ok(true));
    assert_eq!(jvm.thread.stack.size(), 1);
    assert_eq!(jvm.thread.clinit(&mut jvm.loader, id), Ok(false));
    assert_eq!(jvm.thread.stack.size(), 1);
}

#[test]
fn symbolic_references_are_resolved_once() {
    let a = ClassBuilder::new().build(0x0021, "Alpha", Some("java/lang/Object"));
    let mut t = ClassBuilder::new();
    let ca = t.class("Alpha");
    let t = t.build(0x0021, "T", Some("java/lang/Object"));
    let mut all = base_classes();
    all.push(("Alpha".to_string(), a));
    all.push(("T".to_string(), t));
    let entry = MapEntry { classes: all };
    let mut jvm = Jvm::new(&entry).unwrap();
    let it = jvm.loader.load(&mut jvm.heap, &entry, "T").unwrap();
    let r1 = jvm.heap.class_ref(&mut jvm.loader, &entry, it, ca as usize).unwrap();
    let classes = jvm.loader.classes.len();
    // Even with nothing to load from, the second resolution answers
    // from the slot.
    let none = MapEntry { classes: Vec::new() };
    let r2 = jvm.heap.class_ref(&mut jvm.loader, &none, it, ca as usize).unwrap();
    assert_eq!(r1, r2);
    assert_eq!(jvm.loader.classes.len(), classes);
    assert_eq!(jvm.loader.find("Alpha"), Some(r1.class));
}

#[test]
fn primitive_arrays_have_their_length_and_are_zero() {
    let entry = MapEntry { classes: base_classes() };
    let mut jvm = Jvm::new(&entry).unwrap();
    let widths = [1usize, 2, 4, 8, 1, 2, 4, 8];
    for k in 0..8 {
        let o = jvm.heap.new_primitive_array(k, 7).unwrap();
        assert_eq!(jvm.heap.array_len(o), Ok(7));
        for i in 0..7 {
            assert_eq!(jvm.heap.load(o, i), Ok(0));
        }
        let _ = jvm.heap.store(o, 0, 0x1122334455667788);
        let kept = match widths[k as usize] {
            1 => 0x88,
            2 => 0x7788,
            4 => 0x55667788,
            _ => 0x1122334455667788,
        };
        assert_eq!(jvm.heap.load(o, 0), Ok(kept));
    }
    assert_eq!(jvm.heap.new_primitive_array(8, 1), Err(VmError::ClassFormat));
    assert_eq!(jvm.heap.load(0, 0), Err(VmError::NullPointer));
}

#[test]
fn interned_strings_are_one_object() {
    let entry = MapEntry { classes: base_classes() };
    let mut jvm = Jvm::new(&entry).unwrap();
    let a = jvm.heap.new_jstr(&jvm.loader, "h\u{e9}llo \u{1F600}").unwrap();
    let n = jvm.heap.objects.len();
    let b = jvm.heap.new_jstr(&jvm.loader, "h\u{e9}llo \u{1F600}").unwrap();
    assert_eq!(a, b);
    assert_eq!(jvm.heap.objects.len(), n);
    let c = jvm.heap.new_jstr(&jvm.loader, "other").unwrap();
    assert_ne!(a, c);
    // The text comes back through its UTF-16 units: 5 + 1 + 2 of them.
    assert_eq!(jvm.heap.jstring(a).unwrap(), "h\u{e9}llo \u{1F600}");
    let arr = jvm.heap.load(a, 0).unwrap();
    assert_eq!(jvm.heap.array_len(arr), Ok(8));
    assert_eq!(jvm.heap.get_field(&jvm.loader, a, "value"), Ok(arr));
    assert_eq!(jvm.heap.get_field(&jvm.loader, a, "nothing"), Ok(0));
}

#[test]
fn array_classes_are_made_on_the_fly() {
    let entry = MapEntry { classes: base_classes() };
    let mut jvm = Jvm::new(&entry).unwrap();
    let id = jvm.loader.load(&mut jvm.heap, &entry, "[[Ljava/lang/String;").unwrap();
    let c = &jvm.loader.classes[id];
    assert_eq!(c.name, "[[Ljava/lang/String;");
    assert_eq!(c.desc, "[[Ljava/lang/String;");
    assert_eq!(c.dim, 2);
    assert!(c.initialized);
    assert_eq!(c.super_class, jvm.loader.find("java/lang/Object"));
    assert_eq!(c.element_class, jvm.loader.find("java/lang/String"));
    assert_ne!(c.j_class, 0);
    // The mirror holds the id of its class in its last cell.
    assert_eq!(jvm.heap.extra(c.j_class), Ok(id as u64));
    assert_eq!(jvm.loader.load(&mut jvm.heap, &entry, "[[Ljava/lang/String;"), Ok(id));
}

#[test]
fn instance_fields_are_read_and_written() {
    let mut p = ClassBuilder::new();
    p.field(0x0001, "v", "I", None);
    p.field(0x0001, "w", "J", None);
    let p = p.build(0x0021, "Point", Some("java/lang/Object"));
    let t = with_main(|t| {
        let c = t.class("Point");
        let v = t.field_ref("Point", "v", "I");
        let w = t.field_ref("Point", "w", "J");
        let k = t.long(5_000_000_000);
        let print = t.method_ref("T", "print", "(I)V");
        (
            3,
            2,
            vec![
                0xbb, hi(c), lo(c), 0x59, 0x4c, 0x10, 42, 0xb5, hi(v), lo(v), 0x2b, 0x14, hi(k),
                lo(k), 0xb5, hi(w), lo(w), 0x2b, 0xb4, hi(v), lo(v), 0xb8, hi(print), lo(print),
                0x2b, 0xb4, hi(w), lo(w), 0x88, 0xb8, hi(print), lo(print), 0xb1,
            ],
        )
    });
    let out = run_main(vec![("Point".to_string(), p), ("T".to_string(), t)], "T").unwrap();
    assert_eq!(out, vec![42, 705032704]);
}

#[test]
fn null_object_is_an_error() {
    let mut p = ClassBuilder::new();
    p.field(0x0001, "v", "I", None);
    let p = p.build(0x0021, "Point", Some("java/lang/Object"));
    let t = with_main(|t| {
        let v = t.field_ref("Point", "v", "I");
        (1, 1, vec![0x01, 0xb4, hi(v), lo(v), 0xb1])
    });
    let r = run_main(vec![("Point".to_string(), p), ("T".to_string(), t)], "T");
    assert_eq!(r, Err(VmError::NullPointer));
}

#[test]
fn arguments_are_passed_with_the_receiver_first() {
    let mut q = ClassBuilder::new();
    // int add(int a, long b) { return a + (int) b; }
    q.method(0x0001, "add", "(IJ)I", 3, 4, &[0x1b, 0x20, 0x88, 0x60, 0xac]);
    let q = q.build(0x0021, "Adder", Some("java/lang/Object"));
    let t = with_main(|t| {
        let c = t.class("Adder");
        let add = t.method_ref("Adder", "add", "(IJ)I");
        let k = t.long(35);
        let print = t.method_ref("T", "print", "(I)V");
        (
            4,
            1,
            vec![
                0xbb, hi(c), lo(c), 0x10, 7, 0x14, hi(k), lo(k), 0xb7, hi(add), lo(add), 0xb8,
                hi(print), lo(print), 0xb1,
            ],
        )
    });
    let out = run_main(vec![("Adder".to_string(), q), ("T".to_string(), t)], "T").unwrap();
    assert_eq!(out, vec![42]);
}

#[test]
fn interface_methods_are_invoked() {
    let mut i = ClassBuilder::new();
    i.native(0x0401, "g", "()I");
    let i = i.build(0x0601, "Shape", Some("java/lang/Object"));
    let mut r = ClassBuilder::new();
    r.implements("Shape");
    r.method(0x0001, "g", "()I", 1, 1, &[0x10, 9, 0xac]);
    let r = r.build(0x0021, "Round", Some("java/lang/Object"));
    let t = with_main(|t| {
        let c = t.class("Round");
        let shape = t.class("Shape");
        let g = t.iface_method_ref("Shape", "g", "()I");
        let print = t.method_ref("T", "print", "(I)V");
        (
            1,
            2,
            vec![
                0xbb, hi(c), lo(c), 0x4c, 0x2b, 0xb9, hi(g), lo(g), 1, 0, 0xb8, hi(print),
                lo(print), 0x2b, 0xc1, hi(shape), lo(shape), 0xb8, hi(print), lo(print), 0xb1,
            ],
        )
    });
    let out = run_main(
        vec![("Shape".to_string(), i), ("Round".to_string(), r), ("T".to_string(), t)],
        "T",
    )
    .unwrap();
    assert_eq!(out, vec![9, 1]);
}

#[test]
fn reference_arrays_hold_references() {
    let t = with_main(|t| {
        let c = t.class("java/lang/String");
        let s = t.string("x");
        let print = t.method_ref("T", "print", "(I)V");
        (
            3,
            2,
            vec![
                0x05, 0xbd, hi(c), lo(c), 0x4c, 0x2b, 0x04, 0x12, lo(s), 0x53, 0x2b, 0xbe, 0xb8,
                hi(print), lo(print), 0x2b, 0x04, 0x32, 0x12, lo(s), 0xa6, 0, 8, 0x04, 0xb8,
                hi(print), lo(print), 0xb1, 0x03, 0xb8, hi(print), lo(print), 0xb1,
            ],
        )
    });
    let out = run_main(vec![("T".to_string(), t)], "T").unwrap();
    assert_eq!(out, vec![2, 1]);
}

#[test]
fn class_constants_push_the_mirror() {
    let t = with_main(|t| {
        let c = t.class("T");
        let print = t.method_ref("T", "print", "(I)V");
        (
            2,
            1,
            vec![
                0x12, lo(c), 0x12, lo(c), 0xa5, 0, 8, 0x03, 0xb8, hi(print), lo(print), 0xb1,
                0x12, lo(c), 0xc7, 0, 8, 0x05, 0xb8, hi(print), lo(print), 0xb1, 0x04, 0xb8,
                hi(print), lo(print), 0xb1,
            ],
        )
    });
    let out = run_main(vec![("T".to_string(), t)], "T").unwrap();
    assert_eq!(out, vec![1]);
}

#[test]
fn a_class_constant_initializes_the_class() {
    let mut g = ClassBuilder::new();
    let print = g.method_ref("T", "print", "(I)V");
    g.method(STATIC, "<clinit>", "()V", 1, 0, &[0x10, 7, 0xb8, hi(print), lo(print), 0xb1]);
    let g = g.build(0x0021, "Gamma", Some("java/lang/Object"));
    let t = with_main(|t| {
        let c = t.class("Gamma");
        let print = t.method_ref("T", "print", "(I)V");
        (
            1,
            1,
            vec![
                0x12, lo(c), 0x57, 0x12, lo(c), 0x57, 0x10, 8, 0xb8, hi(print), lo(print), 0xb1,
            ],
        )
    });
    let out = run_main(vec![("Gamma".to_string(), g), ("T".to_string(), t)], "T").unwrap();
    assert_eq!(out, vec![7, 8]);
}

#[test]
fn natives_return_values_through_their_trampoline() {
    let mut t = ClassBuilder::new();
    t.native(STATIC_NATIVE, "print", "(I)V");
    t.native(STATIC_NATIVE, "answer", "()I");
    t.native(STATIC_NATIVE, "twice", "(J)J");
    let answer = t.method_ref("T", "answer", "()I");
    let twice = t.method_ref("T", "twice", "(J)J");
    let print = t.method_ref("T", "print", "(I)V");
    let k = t.long(0x1_0000_0015);
    let code = vec![
        0xb8, hi(answer), lo(answer), 0xb8, hi(print), lo(print), 0x14, hi(k), lo(k), 0xb8,
        hi(twice), lo(twice), 0x5c, 0x88, 0xb8, hi(print), lo(print), 0x10, 32, 0x7d, 0x88, 0xb8,
        hi(print), lo(print), 0xb1,
    ];
    t.method(PUBLIC_STATIC, "main", MAIN_DESC, 4, 1, &code);
    let bytes = t.build(0x0021, "T", Some("java/lang/Object"));
    let out = run_main(vec![("T".to_string(), bytes)], "T").unwrap();
    // twice(0x1_0000_0015) is 0x2_0000_002a: its low half 42, its high
    // half 2.
    assert_eq!(out, vec![42, 42, 2]);
}

#[test]
fn wide_increment_and_long_comparison() {
    let t = with_main(|t| {
        let print = t.method_ref("T", "print", "(I)V");
        (
            4,
            300,
            vec![
                // local 299 = 5; wide iinc 299 by -300; print
                0x08, 0xc4, 0x36, 0x01, 0x2b, 0xc4, 0x84, 0x01, 0x2b, 0xfe, 0xd4, 0xc4, 0x15, 0x01,
                0x2b, 0xb8, hi(print), lo(print),
                // compare 1L with 0L; print
                0x0a, 0x09, 0x94, 0xb8, hi(print), lo(print),
                // i2b of 200; print
                0x11, 0, 200, 0x91, 0xb8, hi(print), lo(print), 0xb1,
            ],
        )
    });
    let out = run_main(vec![("T".to_string(), t)], "T").unwrap();
    assert_eq!(out, vec![-295, 1, -56]);
}

#[test]
fn a_circular_hierarchy_is_an_error() {
    let x = ClassBuilder::new().build(0x0021, "Xa", Some("Ya"));
    let y = ClassBuilder::new().build(0x0021, "Ya", Some("Xa"));
    let r = run_main(vec![("Xa".to_string(), x), ("Ya".to_string(), y)], "Xa");
    assert_eq!(r, Err(VmError::LinkDepth));
}

#[test]
fn a_reference_to_nothing_is_an_error() {
    let entry = MapEntry { classes: base_classes() };
    let jvm = Jvm::new(&entry).unwrap();
    let beyond = jvm.heap.objects.len() as u64 + 1;
    assert_eq!(jvm.heap.load(beyond, 0), Err(VmError::InvalidReference));
    assert_eq!(jvm.heap.array_len(beyond), Err(VmError::InvalidReference));
    assert!(jvm.is_sound());
}

#[test]
fn the_primitive_classes_and_their_arrays_are_in_place() {
    let entry = MapEntry { classes: base_classes() };
    let jvm = Jvm::new(&entry).unwrap();
    let kinds = [
        ("boolean", "Z"),
        ("char", "C"),
        ("float", "F"),
        ("double", "D"),
        ("byte", "B"),
        ("short", "S"),
        ("int", "I"),
        ("long", "J"),
    ];
    assert_eq!(jvm.heap.primitives.len(), 8);
    assert_eq!(jvm.heap.primitive_array.len(), 8);
    for (k, (name, letter)) in kinds.iter().enumerate() {
        let id = jvm.loader.find(name).unwrap();
        assert_eq!(jvm.loader.find(letter), Some(id));
        assert_eq!(jvm.heap.primitives[k], id);
        let c = &jvm.loader.classes[id];
        assert_eq!(c.name, *name);
        assert_eq!(c.desc, *letter);
        assert!(c.initialized);
        assert_eq!(c.super_class, None);
        let array = jvm.loader.find(&format!("[{}", letter)).unwrap();
        assert_eq!(jvm.heap.primitive_array[k], array);
        let a = &jvm.loader.classes[array];
        assert_eq!(a.dim, 1);
        assert_eq!(a.element_class, Some(id));
        assert_eq!(a.super_class, jvm.loader.find("java/lang/Object"));
        assert!(a.initialized);
    }
    assert_eq!(jvm.loader.jstring, jvm.loader.find("java/lang/String"));
    assert_eq!(jvm.loader.jclass, jvm.loader.find("java/lang/Class"));
}

#[test]
fn a_class_under_the_name_of_a_primitive_is_refused() {
    let object = ClassBuilder::new().build(0x0021, "java/lang/Object", None);
    let mut s = ClassBuilder::new();
    s.implements("I");
    let string = s.build(0x0031, "java/lang/String", Some("java/lang/Object"));
    let class = ClassBuilder::new().build(0x0031, "java/lang/Class", Some("java/lang/Object"));
    let i = ClassBuilder::new().build(0x0601, "I", Some("java/lang/Object"));
    let entry = MapEntry {
        classes: vec![
            ("java/lang/Object".to_string(), object),
            ("java/lang/String".to_string(), string),
            ("java/lang/Class".to_string(), class),
            ("I".to_string(), i),
        ],
    };
    assert_eq!(Jvm::new(&entry).err(), Some(VmError::ClassFormat));
}

#[test]
fn a_class_is_defined_from_its_bytes() {
    let entry = MapEntry { classes: base_classes() };
    let mut jvm = Jvm::new(&entry).unwrap();
    let mut solo = ClassBuilder::new();
    solo.field(STATIC, "n", "I", None);
    let bytes = solo.build(0x0021, "Solo", Some("java/lang/Object"));
    let before = jvm.loader.classes.len();
    let id = jvm.loader.define(&mut jvm.heap, &entry, "Solo", bytes.clone()).unwrap();
    assert_eq!(id, before);
    assert_eq!(jvm.loader.find("Solo"), Some(id));
    assert_eq!(jvm.loader.classes[id].name, "Solo");
    assert_eq!(jvm.loader.classes[id].static_vars, vec![0]);
    // The name is taken now.
    assert_eq!(jvm.loader.define(&mut jvm.heap, &entry, "Solo", bytes), Err(VmError::LinkDepth));
    assert_eq!(jvm.loader.classes.len(), before + 1);
    // Bytes that are no class file, and a method whose descriptor does
    // not parse.
    assert_eq!(
        jvm.loader.define(&mut jvm.heap, &entry, "Junk", vec![1, 2, 3]),
        Err(VmError::ClassFormat)
    );
    let mut bad = ClassBuilder::new();
    bad.method(STATIC, "m", "(I", 0, 1, &[0xb1]);
    let bad = bad.build(0x0021, "Bad", Some("java/lang/Object"));
    assert_eq!(jvm.loader.define(&mut jvm.heap, &entry, "Bad", bad), Err(VmError::ClassFormat));
    assert_eq!(jvm.loader.find("Bad"), None);
}

#[test]
fn an_array_name_that_is_no_descriptor_is_refused() {
    let entry = MapEntry { classes: base_classes() };
    let mut jvm = Jvm::new(&entry).unwrap();
    let n = jvm.loader.classes.len();
    assert_eq!(jvm.loader.load(&mut jvm.heap, &entry, "[Q"), Err(VmError::ClassFormat));
    assert_eq!(jvm.loader.load(&mut jvm.heap, &entry, "["), Err(VmError::ClassFormat));
    assert_eq!(jvm.loader.classes.len(), n);
    // With the element class loaded the array class is made.
    let id = jvm.loader.load(&mut jvm.heap, &entry, "[[I").unwrap();
    assert_eq!(id, n);
    assert_eq!(jvm.loader.classes[id].dim, 2);
}

#[test]
fn starting_a_loaded_class_pushes_the_frame_of_main() {
    let t = with_main(|_| (2, 3, vec![0xb1]));
    let mut all = base_classes();
    all.push(("T".to_string(), t));
    let entry = MapEntry { classes: all };
    let mut jvm = Jvm::new(&entry).unwrap();
    let object = jvm.loader.find("java/lang/Object").unwrap();
    assert_eq!(jvm.start(object), Err(VmError::NoSuchMember));
    assert_eq!(jvm.thread.stack.size(), 0);
    let id = jvm.loader.load(&mut jvm.heap, &entry, "T").unwrap();
    assert_eq!(jvm.start(id), Ok(()));
    assert_eq!(jvm.thread.stack.size(), 1);
    let f = jvm.thread.stack.cur_frame();
    assert_eq!(f.method.class, id);
    assert_eq!(jvm.loader.classes[id].methods[f.method.index].name, "main");
    assert_eq!(f.max_locals, 3);
    assert_eq!(f.max_stack, 2);
    assert_eq!(f.next_pc, 0);
    assert_eq!(jvm.start_class(&entry, "T"), Ok(()));
    assert_eq!(jvm.thread.stack.size(), 2);
}

#[test]
fn a_loaded_class_is_initialized_on_request() {
    let mut c = ClassBuilder::new();
    c.method(STATIC, "<clinit>", "()V", 0, 0, &[0xb1]);
    let c = c.build(0x0021, "Gamma", Some("java/lang/Object"));
    let mut all = base_classes();
    all.push(("Gamma".to_string(), c));
    let entry = MapEntry { classes: all };
    let mut jvm = Jvm::new(&entry).unwrap();
    assert_eq!(jvm.init_class(&entry, "Gamma"), Ok(true));
    assert_eq!(jvm.thread.stack.size(), 1);
    assert_eq!(jvm.init_class(&entry, "Gamma"), Ok(false));
    assert_eq!(jvm.thread.stack.size(), 1);
    assert_eq!(jvm.init_class(&entry, "Nowhere"), Err(VmError::ClassNotFound));
}

#[test]
fn units_of_no_text_are_no_string() {
    let entry = MapEntry { classes: base_classes() };
    let mut jvm = Jvm::new(&entry).unwrap();
    let s = jvm.heap.new_jstr(&jvm.loader, "ab").unwrap();
    let arr = jvm.heap.load(s, 0).unwrap();
    // A high surrogate with nothing behind it.
    assert_eq!(jvm.heap.store(arr, 1, 0xd800), Ok(()));
    assert_eq!(jvm.heap.jstring(s), Err(VmError::InvalidReference));
    assert_eq!(jvm.heap.store(arr, 1, 0x63), Ok(()));
    assert_eq!(jvm.heap.jstring(s).unwrap(), "ac");
    assert_eq!(jvm.heap.jstring(0), Err(VmError::NullPointer));
}

#[test]
fn a_method_of_an_object_is_called_with_its_arguments() {
    let mut p = ClassBuilder::new();
    p.method(0x0001, "f", "(I)I", 1, 2, &[0x1b, 0xac]);
    let p = p.build(0x0021, "Point", Some("java/lang/Object"));
    let mut all = base_classes();
    all.push(("Point".to_string(), p));
    let entry = MapEntry { classes: all };
    let mut jvm = Jvm::new(&entry).unwrap();
    let id = jvm.loader.load(&mut jvm.heap, &entry, "Point").unwrap();
    let o = jvm.heap.new_obj(&jvm.loader, id).unwrap();
    let args = vec![o, 7];
    assert_eq!(
        jvm.thread.invoke_obj(&jvm.loader, &jvm.heap, 0, "f", "(I)I", &args, true),
        Err(VmError::NullPointer)
    );
    assert_eq!(
        jvm.thread.invoke_obj(&jvm.loader, &jvm.heap, o, "g", "(I)I", &args, true),
        Err(VmError::NoSuchMember)
    );
    let many = vec![o, 7, 8];
    assert_eq!(
        jvm.thread.invoke_obj(&jvm.loader, &jvm.heap, o, "f", "(I)I", &many, true),
        Err(VmError::LocalIndex)
    );
    assert_eq!(jvm.thread.stack.size(), 0);
    assert_eq!(jvm.thread.invoke_obj(&jvm.loader, &jvm.heap, o, "f", "(I)I", &args, true), Ok(()));
    assert_eq!(jvm.thread.stack.size(), 1);
    assert_eq!(jvm.thread.stack.get_local(0), o);
    assert_eq!(jvm.thread.stack.get_local(1), 7);
    assert!(jvm.thread.stack.cur_frame().no_ret);
    let mut out = Vec::new();
    drive(&mut jvm, &entry, &mut out).unwrap();
    assert_eq!(jvm.thread.stack.size(), 0);
}

#[test]
fn arrays_of_loaded_classes_are_made_without_loading() {
    let entry = MapEntry { classes: base_classes() };
    let mut jvm = Jvm::new(&entry).unwrap();
    let n = jvm.loader.classes.len();
    let a = jvm.heap.new_array(&mut jvm.loader, &entry, "int", 3).unwrap();
    assert_eq!(jvm.loader.classes.len(), n);
    assert_eq!(jvm.heap.class_of(a), Ok(jvm.heap.primitive_array[6]));
    assert_eq!(jvm.heap.array_len(a), Ok(3));
    assert_eq!(jvm.heap.load(a, 2), Ok(0));
    let b = jvm.heap.new_array(&mut jvm.loader, &entry, "java/lang/String", 2).unwrap();
    assert_eq!(jvm.heap.class_of(b), Ok(jvm.loader.find("[Ljava/lang/String;").unwrap()));
    assert_eq!(jvm.loader.classes.len(), n + 1);
    assert_eq!(
        jvm.heap.new_array(&mut jvm.loader, &entry, "Nowhere", 2),
        Err(VmError::ClassNotFound)
    );
}

#[test]
fn a_run_is_made_of_steps() {
    let t = with_main(|_| (1, 1, vec![0x04, 0x57, 0x05, 0x57, 0xb1]));
    let mut all = base_classes();
    all.push(("T".to_string(), t));
    let entry = MapEntry { classes: all };
    let mut one = Jvm::new(&entry).unwrap();
    let mut other = Jvm::new(&entry).unwrap();
    one.start_class(&entry, "T").unwrap();
    other.start_class(&entry, "T").unwrap();
    // Three steps at once, and one by one.
    assert_eq!(one.run(&entry, &fpu, 3), Ok(Step::Continue));
    for _ in 0..3 {
        assert_eq!(other.step(&entry, &fpu), Ok(Step::Continue));
    }
    assert_eq!(one.thread.stack.cur_frame().next_pc, 3);
    assert_eq!(other.thread.stack.cur_frame().next_pc, 3);
    assert_eq!(one.thread.stack.depth(), 1);
    assert_eq!(other.thread.stack.depth(), 1);
    // No fuel, no step.
    assert_eq!(one.run(&entry, &fpu, 0), Ok(Step::Continue));
    assert_eq!(one.thread.stack.cur_frame().next_pc, 3);
    assert_eq!(one.run(&entry, &fpu, 10), Ok(Step::Done));
    assert_eq!(one.thread.stack.size(), 0);
    assert_eq!(one.run_class(&entry, &fpu, "T", 100), Ok(Step::Done));
    assert_eq!(one.run_class(&entry, &fpu, "Nowhere", 100), Err(VmError::ClassNotFound));
}

/// A machine with the class `T`, whose `main` is `code`, started.
fn started(extra: Vec<(String, Vec<u8>)>, t: Vec<u8>) -> (Jvm, MapEntry) {
    let mut all = base_classes();
    all.extend(extra);
    all.push(("T".to_string(), t));
    let entry = MapEntry { classes: all };
    let mut jvm = Jvm::new(&entry).unwrap();
    jvm.start_class(&entry, "T").unwrap();
    (jvm, entry)
}

#[test]
fn a_field_instruction_acts_on_what_its_reference_resolved_to() {
    let mut t = ClassBuilder::new();
    t.field(STATIC, "n", "I", None);
    let n = t.field_ref("T", "n", "I");
    // putstatic T.n with nothing on the stack
    t.method(PUBLIC_STATIC, "main", MAIN_DESC, 1, 1, &[0xb3, hi(n), lo(n), 0xb1]);
    let t = t.build(0x0021, "T", Some("java/lang/Object"));
    let (mut jvm, _entry) = started(vec![], t);
    let id = jvm.loader.find("T").unwrap();
    let ins = jvm.fetch().unwrap();
    jvm.thread.pc = ins.pc;
    // No field behind the reference.
    let nothing = Resolved { class: id, member: None };
    assert_eq!(
        field_with(&ins, &mut jvm.thread, &mut jvm.heap, &mut jvm.loader, nothing),
        Err(VmError::NoSuchMember)
    );
    // The class is not initialized: the instruction is left for later.
    let res = Resolved { class: id, member: Some(MemberRef { class: id, index: 0 }) };
    assert!(!jvm.loader.classes[id].initialized);
    assert_eq!(field_with(&ins, &mut jvm.thread, &mut jvm.heap, &mut jvm.loader, res), Ok(()));
    assert!(jvm.loader.classes[id].initialized);
    assert_eq!(jvm.thread.stack.cur_frame().next_pc, 0);
    // Now it finds no operand.
    assert_eq!(
        field_with(&ins, &mut jvm.thread, &mut jvm.heap, &mut jvm.loader, res),
        Err(VmError::OperandStack)
    );
    jvm.thread.stack.push_u32(9);
    assert_eq!(field_with(&ins, &mut jvm.thread, &mut jvm.heap, &mut jvm.loader, res), Ok(()));
    assert_eq!(jvm.loader.classes[id].static_vars, vec![9]);
    assert_eq!(jvm.thread.stack.depth(), 0);
    assert_eq!(jvm.thread.stack.cur_frame().next_pc, 3);
}

#[test]
fn an_invocation_acts_on_what_its_reference_resolved_to() {
    let mut t = ClassBuilder::new();
    let f = t.method_ref("T", "f", "(I)I");
    t.method(STATIC, "f", "(I)I", 1, 1, &[0x1a, 0xac]);
    t.method(PUBLIC_STATIC, "main", MAIN_DESC, 1, 1, &[0xb8, hi(f), lo(f), 0x57, 0xb1]);
    let t = t.build(0x0021, "T", Some("java/lang/Object"));
    let (mut jvm, _entry) = started(vec![], t);
    let id = jvm.loader.find("T").unwrap();
    jvm.loader.mark_initialized(id);
    let ins = jvm.fetch().unwrap();
    jvm.thread.pc = ins.pc;
    let nothing = Resolved { class: id, member: None };
    assert_eq!(
        invoke_with(&ins, &mut jvm.thread, &jvm.heap, &mut jvm.loader, nothing),
        Err(VmError::NoSuchMember)
    );
    let res = Resolved { class: id, member: Some(MemberRef { class: id, index: 0 }) };
    assert_eq!(
        invoke_with(&ins, &mut jvm.thread, &jvm.heap, &mut jvm.loader, res),
        Err(VmError::OperandStack)
    );
    assert_eq!(jvm.thread.stack.size(), 1);
    jvm.thread.stack.push_u32(5);
    assert_eq!(invoke_with(&ins, &mut jvm.thread, &jvm.heap, &mut jvm.loader, res), Ok(()));
    assert_eq!(jvm.thread.stack.size(), 2);
    assert_eq!(jvm.thread.stack.get_local(0), 5);
    assert_eq!(jvm.thread.stack.prev_frame().next_pc, 3);
    assert_eq!(jvm.thread.stack.prev_frame().stack_size, 0);
}

#[test]
fn a_call_without_room_for_its_frame_changes_nothing() {
    let mut t = ClassBuilder::new();
    let f = t.method_ref("T", "f", "()V");
    // f calls itself for ever.
    t.method(STATIC, "f", "()V", 0, 0, &[0xb8, hi(f), lo(f), 0xb1]);
    t.method(PUBLIC_STATIC, "main", MAIN_DESC, 0, 1, &[0xb8, hi(f), lo(f), 0xb1]);
    let t = t.build(0x0021, "T", Some("java/lang/Object"));
    let (mut jvm, entry) = started(vec![], t);
    assert_eq!(jvm.run(&entry, &fpu, 100_000), Err(VmError::StackOverflow));
    assert_eq!(jvm.thread.stack.size(), 1024);
    // The frame on top still stands before its call.
    assert_eq!(jvm.thread.stack.cur_frame().next_pc, 0);
    assert_eq!(jvm.step(&entry, &fpu), Err(VmError::StackOverflow));
    assert_eq!(jvm.thread.stack.size(), 1024);
}

#[test]
fn a_new_acts_on_what_its_reference_resolved_to() {
    let mut p = ClassBuilder::new();
    p.field(0x0001, "x", "I", None);
    p.field(0x0001, "y", "J", None);
    let p = p.build(0x0021, "Point", Some("java/lang/Object"));
    let t = with_main(|t| {
        let c = t.class("Point");
        (1, 1, vec![0xbb, hi(c), lo(c), 0x57, 0xb1])
    });
    let (mut jvm, entry) = started(vec![("Point".to_string(), p)], t);
    let id = jvm.loader.load(&mut jvm.heap, &entry, "Point").unwrap();
    let ins = jvm.fetch().unwrap();
    jvm.thread.pc = ins.pc;
    let res = Resolved { class: id, member: None };
    // First the class is initialized, then the object is made.
    assert_eq!(new_with(&ins, &mut jvm.thread, &mut jvm.heap, &mut jvm.loader, res), Ok(()));
    assert_eq!(jvm.thread.stack.depth(), 0);
    assert!(jvm.loader.classes[id].initialized);
    let n = jvm.heap.objects.len();
    assert_eq!(new_with(&ins, &mut jvm.thread, &mut jvm.heap, &mut jvm.loader, res), Ok(()));
    assert_eq!(jvm.heap.objects.len(), n + 1);
    let o = jvm.thread.stack.peek(1);
    assert_eq!(o, (n + 1) as u64);
    assert_eq!(jvm.heap.class_of(o), Ok(id));
    assert_eq!(jvm.heap.array_len(o), Ok(2));
    assert_eq!(jvm.heap.load(o, 1), Ok(0));
    // The stack is full now.
    assert_eq!(
        new_with(&ins, &mut jvm.thread, &mut jvm.heap, &mut jvm.loader, res),
        Err(VmError::OperandStack)
    );
    assert_eq!(jvm.heap.objects.len(), n + 1);
}

#[test]
fn a_type_test_acts_on_the_class_it_is_given() {
    let alpha = ClassBuilder::new().build(0x0021, "Alpha", Some("java/lang/Object"));
    let beta = ClassBuilder::new().build(0x0021, "Beta", Some("Alpha"));
    let t = with_main(|t| {
        let c = t.class("Alpha");
        (1, 1, vec![0xc1, hi(c), lo(c), 0xc0, hi(c), lo(c), 0xb1])
    });
    let (mut jvm, entry) =
        started(vec![("Alpha".to_string(), alpha), ("Beta".to_string(), beta)], t);
    let a = jvm.loader.load(&mut jvm.heap, &entry, "Alpha").unwrap();
    let b = jvm.loader.load(&mut jvm.heap, &entry, "Beta").unwrap();
    let instance_of = jvm.fetch().unwrap();
    assert_eq!(instance_of.op, 0xc1);
    assert_eq!(
        type_with(&instance_of, &mut jvm.thread.stack, &jvm.heap, &jvm.loader, a),
        Err(VmError::OperandStack)
    );
    let o = jvm.heap.new_obj(&jvm.loader, b).unwrap();
    jvm.thread.stack.push_slot(o);
    assert_eq!(type_with(&instance_of, &mut jvm.thread.stack, &jvm.heap, &jvm.loader, a), Ok(()));
    assert_eq!(jvm.thread.stack.peek(1), 1);
    assert_eq!(jvm.thread.stack.cur_frame().next_pc, 3);
    let check_cast = jvm.fetch().unwrap();
    assert_eq!(check_cast.op, 0xc0);
    // The cell on top holds 1, which refers to an object of another
    // class.
    let first = jvm.heap.class_of(1).unwrap();
    assert_ne!(first, a);
    assert_eq!(
        type_with(&check_cast, &mut jvm.thread.stack, &jvm.heap, &jvm.loader, a),
        Err(VmError::ClassCast)
    );
    jvm.thread.stack.drop(1);
    jvm.thread.stack.push_slot(0);
    assert_eq!(type_with(&check_cast, &mut jvm.thread.stack, &jvm.heap, &jvm.loader, a), Ok(()));
    assert_eq!(jvm.thread.stack.peek(1), 0);
    jvm.thread.stack.drop(1);
    jvm.thread.stack.push_slot(o);
    assert_eq!(type_with(&check_cast, &mut jvm.thread.stack, &jvm.heap, &jvm.loader, b), Ok(()));
    assert_eq!(jvm.thread.stack.peek(1), o);
    jvm.thread.stack.drop(1);
    jvm.thread.stack.push_slot(0xffff_ffff);
    assert_eq!(
        type_with(&check_cast, &mut jvm.thread.stack, &jvm.heap, &jvm.loader, a),
        Err(VmError::InvalidReference)
    );
}

#[test]
fn arrays_of_several_dimensions_are_made_of_loaded_classes() {
    let entry = MapEntry { classes: base_classes() };
    let mut jvm = Jvm::new(&entry).unwrap();
    let outer = jvm.loader.load(&mut jvm.heap, &entry, "[[I").unwrap();
    let n = jvm.loader.classes.len();
    let sizes = vec![2, 3];
    let o = jvm.heap.new_multi_dim(&mut jvm.loader, &entry, outer, &sizes, 0).unwrap();
    assert_eq!(jvm.loader.classes.len(), n);
    assert_eq!(jvm.heap.class_of(o), Ok(outer));
    assert_eq!(jvm.heap.array_len(o), Ok(2));
    for k in 0..2 {
        let inner = jvm.heap.load(o, k).unwrap();
        assert_eq!(jvm.heap.array_len(inner), Ok(3));
        assert_eq!(jvm.heap.class_of(inner), Ok(jvm.heap.primitive_array[6]));
        assert_eq!(jvm.heap.load(inner, 2), Ok(0));
    }
    assert_eq!(
        jvm.heap.new_multi_dim(&mut jvm.loader, &entry, outer, &sizes, 2),
        Err(VmError::ClassFormat)
    );
}

#[test]
fn a_class_is_defined_from_what_the_class_path_gave() {
    let entry = MapEntry { classes: base_classes() };
    let mut jvm = Jvm::new(&entry).unwrap();
    let n = jvm.loader.classes.len();
    assert_eq!(
        jvm.loader.define_read(&mut jvm.heap, &entry, "Solo", None, 8),
        Err(VmError::ClassNotFound)
    );
    assert_eq!(jvm.loader.classes.len(), n);
    let bytes = ClassBuilder::new().build(0x0021, "Solo", Some("java/lang/Object"));
    assert_eq!(jvm.loader.define_read(&mut jvm.heap, &entry, "Solo", Some(bytes), 8), Ok(n));
    assert_eq!(jvm.loader.find("Solo"), Some(n));
    assert_eq!(jvm.loader.classes[n].super_class, jvm.loader.find("java/lang/Object"));
}

#[test]
fn every_class_has_its_mirror_once_the_machine_is_made() {
    let p = ClassBuilder::new().build(0x0021, "Point", Some("java/lang/Object"));
    let mut all = base_classes();
    all.push(("Point".to_string(), p));
    let entry = MapEntry { classes: all };
    let mut jvm = Jvm::new(&entry).unwrap();
    assert!(jvm.loader.classes.iter().all(|c| c.j_class != 0));
    let id = jvm.loader.load(&mut jvm.heap, &entry, "Point").unwrap();
    assert_ne!(jvm.loader.classes[id].j_class, 0);
    assert_eq!(jvm.heap.extra(jvm.loader.classes[id].j_class), Ok(id as u64));
    let a = jvm.loader.load(&mut jvm.heap, &entry, "[[LPoint;").unwrap();
    assert_ne!(jvm.loader.classes[a].j_class, 0);
    assert_eq!(jvm.loader.classes.len(), a + 1);
    let bytes = ClassBuilder::new().build(0x0021, "Solo", Some("Point"));
    let s = jvm.loader.define(&mut jvm.heap, &entry, "Solo", bytes).unwrap();
    assert_ne!(jvm.loader.classes[s].j_class, 0);
    assert!(jvm.loader.classes.iter().all(|c| c.j_class != 0));
}

#[test]
fn the_classes_of_strings_and_mirrors_are_those_of_the_class_path() {
    let entry = MapEntry { classes: base_classes() };
    let jvm = Jvm::new(&entry).unwrap();
    let s = jvm.loader.jstring.unwrap();
    let c = jvm.loader.jclass.unwrap();
    assert!(c > s);
    assert_eq!(jvm.loader.classes[s].name, "java/lang/String");
    assert_eq!(jvm.loader.classes[s].fields.len(), 1);
    assert_eq!(jvm.loader.classes[s].fields[0].name, "value");
    assert_eq!(jvm.loader.classes[s].access_flags.0, 0x0031);
    assert_eq!(jvm.loader.classes[c].name, "java/lang/Class");
    assert_eq!(jvm.loader.classes[c].super_class, jvm.loader.find("java/lang/Object"));
}

#[test]
fn an_initialization_without_room_for_its_frames_does_nothing() {
    let mut g = ClassBuilder::new();
    g.method(STATIC, "<clinit>", "()V", 0, 0, &[0xb1]);
    let g = g.build(0x0021, "Gamma", Some("java/lang/Object"));
    let mut t = ClassBuilder::new();
    let f = t.method_ref("T", "f", "()V");
    t.method(STATIC, "f", "()V", 0, 0, &[0xb8, hi(f), lo(f), 0xb1]);
    t.method(PUBLIC_STATIC, "main", MAIN_DESC, 0, 1, &[0xb8, hi(f), lo(f), 0xb1]);
    let t = t.build(0x0021, "T", Some("java/lang/Object"));
    let (mut jvm, entry) = started(vec![("Gamma".to_string(), g)], t);
    let id = jvm.loader.load(&mut jvm.heap, &entry, "Gamma").unwrap();
    assert!(jvm.thread.init_fits(&jvm.loader, id));
    assert_eq!(jvm.run(&entry, &fpu, 100_000), Err(VmError::StackOverflow));
    assert_eq!(jvm.thread.stack.size(), 1024);
    assert_eq!(jvm.thread.stack.cells_used(), 1);
    assert!(!jvm.thread.init_fits(&jvm.loader, id));
    let pc = jvm.thread.stack.cur_frame().next_pc;
    assert_eq!(jvm.thread.clinit(&mut jvm.loader, id), Err(VmError::StackOverflow));
    assert!(!jvm.loader.classes[id].initialized);
    assert_eq!(jvm.thread.stack.size(), 1024);
    assert_eq!(jvm.thread.stack.cur_frame().next_pc, pc);
}

#[test]
fn the_inner_arrays_of_an_allocation_are_arrays_of_their_own() {
    let entry = MapEntry { classes: base_classes() };
    let mut jvm = Jvm::new(&entry).unwrap();
    let outer = jvm.loader.load(&mut jvm.heap, &entry, "[[[I").unwrap();
    let middle = jvm.loader.find("[[I");
    assert_eq!(middle, None);
    let sizes = vec![2, 2, 3];
    let o = jvm.heap.new_multi_dim(&mut jvm.loader, &entry, outer, &sizes, 0).unwrap();
    let middle = jvm.loader.find("[[I").unwrap();
    let a = jvm.heap.load(o, 0).unwrap();
    let b = jvm.heap.load(o, 1).unwrap();
    assert_ne!(a, b);
    assert_ne!(a, o);
    assert_ne!(a, 0);
    assert_eq!(jvm.heap.class_of(a), Ok(middle));
    assert_eq!(jvm.heap.class_of(b), Ok(middle));
    let mut seen = vec![o, a, b];
    for m in [a, b] {
        assert_eq!(jvm.heap.array_len(m), Ok(2));
        for k in 0..2 {
            let leaf = jvm.heap.load(m, k).unwrap();
            assert!(!seen.contains(&leaf));
            seen.push(leaf);
            assert_eq!(jvm.heap.class_of(leaf), Ok(jvm.heap.primitive_array[6]));
            assert_eq!(jvm.heap.array_len(leaf), Ok(3));
            for j in 0..3 {
                assert_eq!(jvm.heap.load(leaf, j), Ok(0));
            }
            // Four bytes to an element.
            assert_eq!(jvm.heap.store(leaf, 0, 0x1_0000_0007), Ok(()));
            assert_eq!(jvm.heap.load(leaf, 0), Ok(7));
        }
    }
    // Of two lengths only, the inner arrays hold null references.
    let two = vec![2, 2];
    let p = jvm.heap.new_multi_dim(&mut jvm.loader, &entry, outer, &two, 0).unwrap();
    let q = jvm.heap.load(p, 1).unwrap();
    assert_eq!(jvm.heap.class_of(q), Ok(middle));
    assert_eq!(jvm.heap.load(q, 0), Ok(0));
    assert_eq!(jvm.heap.load(q, 1), Ok(0));
}

#[test]
fn an_instruction_resolves_a_reference_to_a_loaded_class_without_fail() {
    let mut p = ClassBuilder::new();
    p.field(STATIC, "n", "I", None);
    let p = p.build(0x0021, "Point", Some("java/lang/Object"));
    let t = with_main(|t| {
        let n = t.field_ref("Point", "n", "I");
        let c = t.class("Point");
        (
            1,
            1,
            vec![
                0xb2, hi(n), lo(n), 0x57, 0xbb, hi(c), lo(c), 0x57, 0x04, 0xbd, hi(c), lo(c),
                0x57, 0xb1,
            ],
        )
    });
    let (mut jvm, _) = started(vec![("Point".to_string(), p.clone())], t);
    // A class path that has nothing any more.
    let empty = MapEntry { classes: vec![] };
    let ids = jvm.loader.classes.len();
    // Point is not loaded: the first instruction fails, and the frame
    // stays as it was.
    assert_eq!(jvm.step(&empty, &fpu), Err(VmError::ClassNotFound));
    assert_eq!(jvm.thread.stack.cur_frame().next_pc, 0);
    assert_eq!(jvm.thread.stack.depth(), 0);
    assert_eq!(jvm.loader.classes.len(), ids);
    // With Point loaded nothing is asked of the class path.
    let full = MapEntry { classes: vec![("Point".to_string(), p)] };
    let point = jvm.loader.load(&mut jvm.heap, &full, "Point").unwrap();
    jvm.loader.load(&mut jvm.heap, &full, "[LPoint;").unwrap();
    // getstatic: first the initialization, then the value.
    assert_eq!(jvm.step(&empty, &fpu), Ok(Step::Continue));
    assert!(jvm.loader.classes[point].initialized);
    assert_eq!(jvm.step(&empty, &fpu), Ok(Step::Continue));
    assert_eq!(jvm.thread.stack.depth(), 1);
    assert_eq!(jvm.step(&empty, &fpu), Ok(Step::Continue));
    // new, pop, iconst_1, anewarray, pop, return.
    assert_eq!(jvm.step(&empty, &fpu), Ok(Step::Continue));
    let o = jvm.thread.stack.peek(1);
    assert_eq!(jvm.heap.class_of(o), Ok(point));
    assert_eq!(jvm.step(&empty, &fpu), Ok(Step::Continue));
    assert_eq!(jvm.step(&empty, &fpu), Ok(Step::Continue));
    assert_eq!(jvm.step(&empty, &fpu), Ok(Step::Continue));
    let a = jvm.thread.stack.peek(1);
    assert_eq!(jvm.heap.class_of(a), Ok(jvm.loader.find("[LPoint;").unwrap()));
    assert_eq!(jvm.heap.array_len(a), Ok(1));
    assert_eq!(jvm.step(&empty, &fpu), Ok(Step::Continue));
    assert_eq!(jvm.step(&empty, &fpu), Ok(Step::Continue));
    assert_eq!(jvm.step(&empty, &fpu), Ok(Step::Done));
}
