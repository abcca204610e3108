use jvm_rust::class::ClassLoader;
use jvm_rust::classfile::ClassFile;
use jvm_rust::desc::{DescriptorParser, JType, JTypeDescriptor};
use jvm_rust::entry::{
    class_file_name, class_in_archive, is_archive, is_jar, new_entry, norm_path, norm_path_with,
    pick_entry, segment, split_paths, wildcard_dir, CompositeEntry, EntryPlan, Segment,
};
use jvm_rust::error::VmError;
use jvm_rust::flags::AccessFlags;
use jvm_rust::frame::{JStack, MemberRef, INITIAL_CELLS};
use jvm_rust::ins::alu::{
    i2b, i2c, i2l, i2s, iadd, idiv, imul, ineg, irem, ishl, ishr, isub, iushr, l2i, ladd, ldiv,
    lmul, lneg, lorder, lrem, lshl, lshr, lsub, lushr, target_of,
};
use jvm_rust::ins::decode::{decode, LookupSwitch, Switch, TableSwitch};
use jvm_rust::loader::Entry;
use jvm_rust::natives::{hash, NativeMethod, NativeRegistry};
use jvm_rust::reader::{BytesReader, ClassFileParser};
use jvm_rust::slots::{OpStack, Slots};
use jvm_rust::text::str_eq;
use jvm_rust::vm::Jvm;
use std::io::Write;

// ---------------------------------------------------------------------
// Readers.

#[test]
fn bytes_reader_reads_big_endian() {
    let code = [0x12u8, 0x34, 0x56, 0x78, 0xff, 0xfe, 0xff, 0xff, 0xff, 0xfd];
    let mut rd = BytesReader { bytes: &code, pc: 0 };
    assert_eq!(rd.u8(), 0x12);
    assert_eq!(rd.u16(), 0x3456);
    assert_eq!(rd.pc, 3);
    assert_eq!(rd.u8(), 0x78);
    assert_eq!(rd.i16(), -2);
    assert_eq!(rd.i32(), -3);
    assert_eq!(rd.pc, 10);
    assert!(rd.has(0));
    assert!(!rd.has(1));
    let mut rd = BytesReader { bytes: &code, pc: 0 };
    assert_eq!(rd.u32(), 0x12345678);
}

#[test]
fn skip_padding_stops_at_the_next_multiple_of_four() {
    let code = [0u8; 16];
    for (from, to) in [(0u32, 0u32), (1, 4), (2, 4), (3, 4), (4, 4), (5, 8), (7, 8), (9, 12)] {
        let mut rd = BytesReader { bytes: &code, pc: from };
        rd.skip_padding();
        assert_eq!(rd.pc, to);
    }
}

#[test]
fn read_i32s_reads_in_order() {
    let code = [0u8, 0, 0, 1, 0xff, 0xff, 0xff, 0xff, 0x80, 0, 0, 0];
    let mut rd = BytesReader { bytes: &code, pc: 0 };
    assert_eq!(rd.read_i32s(3), vec![1, -1, i32::MIN]);
    assert_eq!(rd.pc, 12);
}

#[test]
fn class_file_parser_reads_big_endian() {
    let mut p = ClassFileParser::new(vec![0xCA, 0xFE, 0xBA, 0xBE, 1, 2, 3, 4, 5, 6, 7, 8, 9, 10, 11]);
    assert_eq!(p.u32(), 0xCAFEBABE);
    assert_eq!(p.u64(), 0x0102030405060708);
    assert_eq!(p.u8(), 9);
    assert!(p.has(2));
    assert!(!p.has(3));
    assert_eq!(p.bytes(2), vec![10, 11]);
    assert_eq!(p.off, 15);
    let mut p = ClassFileParser::new(vec![0x01, 0x02]);
    assert_eq!(p.u16(), 0x0102);
}

// ---------------------------------------------------------------------
// Descriptors.

#[test]
fn descriptor_without_arguments() {
    let d = DescriptorParser::new("()V".as_bytes()).parse_method().unwrap();
    assert_eq!(d.arg_slots, 0);
    assert_eq!(d.params.len(), 0);
    assert!(matches!(d.ret, JType::V));
}

#[test]
fn descriptor_with_narrow_and_wide() {
    let d = DescriptorParser::new("(IJ)V".as_bytes()).parse_method().unwrap();
    assert_eq!(d.arg_slots, 3);
    assert_eq!(d.params.len(), 2);
    assert!(matches!(d.params[0], JType::FI('I')));
    assert!(matches!(d.params[1], JType::DJ('J')));
    assert!(matches!(d.ret, JType::V));
}

#[test]
fn descriptor_with_an_array_of_two_dimensions() {
    let desc = "([[Ljava/lang/Object;IIJ)V";
    let d = DescriptorParser::new(desc.as_bytes()).parse_method().unwrap();
    assert_eq!(d.arg_slots, 5);
    assert_eq!(d.params.len(), 4);
    match &d.params[0] {
        JType::A(s) => assert_eq!(s, "[[Ljava/lang/Object;"),
        _ => panic!("the first parameter is an array"),
    }
    let mut p = DescriptorParser::new(desc.as_bytes());
    p.off = 1;
    let (dims, full, element) = p.parse_arr().unwrap();
    assert_eq!(dims, 2);
    assert_eq!(full.class(), "[[Ljava/lang/Object;");
    assert_eq!(element.class(), "java/lang/Object");
    assert_eq!(p.off, 21);
}

#[test]
fn descriptor_returns_and_classes() {
    let d = DescriptorParser::new("(D[BLjava/lang/String;)[J".as_bytes()).parse_method().unwrap();
    assert_eq!(d.arg_slots, 4);
    assert_eq!(d.ret.class(), "[J");
    assert_eq!(d.params[2].class(), "java/lang/String");
    assert_eq!(d.params[0].class(), "D");
    assert_eq!(JType::V.class(), "V");
    assert_eq!(JType::FI('Z').class(), "Z");
}

#[test]
fn malformed_descriptors_are_refused() {
    for bad in ["", "I", "(", "(I", "(I)", "(Ljava/lang/Object)V", "(Q)V", "(I)Q", "([)V"] {
        assert!(DescriptorParser::new(bad.as_bytes()).parse_method().is_none(), "{}", bad);
    }
    assert!(DescriptorParser::new("V".as_bytes()).parse_no_array().is_some());
    assert!(DescriptorParser::new("Lx".as_bytes()).parse_no_array().is_none());
    let many = "[".repeat(256) + "I";
    assert!(DescriptorParser::new(many.as_bytes()).parse_arr().is_none());
    let most = "[".repeat(255) + "I";
    assert_eq!(DescriptorParser::new(most.as_bytes()).parse_arr().unwrap().0, 255);
}

#[test]
fn slots_of_field_descriptors() {
    for d in ["Z", "B", "C", "S", "I", "F"] {
        assert_eq!(d.slots(), 1);
    }
    assert_eq!("D".slots(), 2);
    assert_eq!("J".slots(), 2);
    assert_eq!("Ljava/lang/Object;".slots(), -1);
    assert_eq!("[I".slots(), -1);
    assert_eq!("".slots(), -1);
}

// ---------------------------------------------------------------------
// Slots and operand stacks.

#[test]
fn test_local_vars() {
    let mut v: Vec<u64> = vec![0u64; 32];
    v.set_u32(0, 100);
    v.set_u32(1, -100i32 as u32);
    v.set_u64(2, 2997924580u64);
    v.set_u64(4, -2997924580i64 as u64);
    v.set_u32(6, 3.1415926f32.to_bits());
    v.set_u64(7, 2.71828182845f64.to_bits());

    assert_eq!(v.get_u32(0), 100u32);
    assert_eq!(v.get_u32(1), -100i32 as u32);
    assert_eq!(v.get_u64(2), 2997924580u64);
    assert_eq!(v.get_u64(4), -2997924580i64 as u64);
    assert_eq!(f32::from_bits(v.get_u32(6)), 3.1415926f32);
    assert_eq!(f64::from_bits(v.get_u64(7)), 2.71828182845f64);
    v.set_i32(8, -7);
    assert_eq!(v.get_i32(8), -7);
    assert_eq!(v.get_cell(8), 0xffff_fff9);
    assert_eq!(v.get_i64(4), -2997924580i64);
    v.set_cell(9, 5);
    assert_eq!(v.get_cell(9), 5);
}

#[test]
fn test_op_stack() {
    let v: Vec<u64> = vec![0u64; 32];
    let mut s = OpStack { slots: v, size: 0 };

    s.push_u32(100);
    s.push_u32(-100i32 as u32);
    s.push_u64(2997924580u64);
    s.push_u64(-2997924580i64 as u64);
    s.push_u32(3.1415926f32.to_bits());
    s.push_u64(2.71828182845f64.to_bits());

    assert_eq!(f64::from_bits(s.pop_u64()), 2.71828182845f64);
    assert_eq!(f32::from_bits(s.pop_u32()), 3.1415926f32);
    assert_eq!(s.pop_u64(), -2997924580i64 as u64);
    assert_eq!(s.pop_u64(), 2997924580u64);
    assert_eq!(s.pop_u32(), -100i32 as u32);
    assert_eq!(s.pop_u32(), 100);
}

#[test]
fn op_stack_signed_values_and_cells() {
    let mut s = OpStack::new(8);
    s.push_i32(-5);
    assert_eq!(s.size, 1);
    assert_eq!(s.slots[0], 0xffff_fffb);
    s.push_i64(-6);
    assert_eq!(s.size, 3);
    s.push_nil();
    s.push_cell(0xdead_beef_0000_0001);
    assert_eq!(s.pop_cell(), 0xdead_beef_0000_0001);
    assert_eq!(s.pop_cell(), 0);
    assert_eq!(s.pop_i64(), -6);
    assert_eq!(s.pop_i32(), -5);
    assert_eq!(s.size, 0);
}

// ---------------------------------------------------------------------
// Frames.

fn frame_with(cells: &[u64], max_stack: usize) -> JStack {
    let mut st = JStack::new();
    st.push_frame(MemberRef { class: 0, index: 0 }, 2, max_stack).unwrap();
    for c in cells {
        st.push_slot(*c);
    }
    st
}

fn cells_of(st: &JStack) -> Vec<u64> {
    let d = st.depth();
    (0..d).map(|i| st.peek(d - i)).collect()
}

#[test]
fn dup_family_follows_its_pictures() {
    let mut st = frame_with(&[1], 8);
    st.dup();
    assert_eq!(cells_of(&st), vec![1, 1]);
    let mut st = frame_with(&[2, 1], 8);
    st.dup_x1();
    assert_eq!(cells_of(&st), vec![1, 2, 1]);
    let mut st = frame_with(&[3, 2, 1], 8);
    st.dup_x2();
    assert_eq!(cells_of(&st), vec![1, 3, 2, 1]);
    let mut st = frame_with(&[2, 1], 8);
    st.dup2();
    assert_eq!(cells_of(&st), vec![2, 1, 2, 1]);
    let mut st = frame_with(&[3, 2, 1], 8);
    st.dup2_x1();
    assert_eq!(cells_of(&st), vec![2, 1, 3, 2, 1]);
    let mut st = frame_with(&[4, 3, 2, 1], 8);
    st.dup2_x2();
    assert_eq!(cells_of(&st), vec![2, 1, 4, 3, 2, 1]);
    let mut st = frame_with(&[2, 1], 8);
    st.swap();
    assert_eq!(cells_of(&st), vec![1, 2]);
}

#[test]
fn frames_share_the_arena_and_pass_arguments() {
    let mut st = JStack::new();
    assert!(st.is_empty());
    st.push_frame(MemberRef { class: 1, index: 2 }, 1, 4).unwrap();
    st.set_local(0, 9);
    st.push_u32(7);
    st.push_u64(0x1_0000_0001);
    st.push_slot(5);
    assert_eq!(st.depth(), 4);
    assert_eq!(st.room(), 0);
    // A frame larger than the whole first arena makes the arena grow;
    // the frame below keeps what it holds.
    st.push_frame(MemberRef { class: 3, index: 4 }, 10_000, 2).unwrap();
    assert_eq!(st.size(), 2);
    assert_eq!(st.get_local(0), 0);
    assert_eq!(st.cur_frame().id, 1);
    assert_eq!(st.prev_frame().method, MemberRef { class: 1, index: 2 });
    st.pass_args(3);
    assert_eq!(st.get_local(0), 0x1_0000_0001);
    assert_eq!(st.get_local(2), 5);
    assert_eq!(st.get_local(3), 0);
    assert_eq!(st.prev_frame().stack_size, 1);
    st.pop_frame();
    assert_eq!(st.depth(), 1);
    assert_eq!(st.pop_u32(), 7);
    assert_eq!(st.get_local(0), 9);
    st.pop_frame();
    assert!(st.is_empty());
}

#[test]
fn the_frame_table_is_bounded() {
    let mut st = JStack::new();
    for _ in 0..1024 {
        assert_eq!(st.push_frame(MemberRef { class: 0, index: 0 }, 1, 1), Ok(()));
    }
    assert_eq!(st.push_frame(MemberRef { class: 0, index: 0 }, 1, 1), Err(VmError::StackOverflow));
    assert_eq!(st.size(), 1024);
}

#[test]
fn pop_slots_gives_the_lowest_first() {
    let mut st = frame_with(&[1, 2, 3, 4], 8);
    assert_eq!(st.pop_slots(3), vec![2, 3, 4]);
    assert_eq!(st.depth(), 1);
}

// ---------------------------------------------------------------------
// Arithmetic.

#[test]
fn integer_arithmetic_wraps() {
    assert_eq!(iadd(0x7fff_ffff, 1), 0x8000_0000);
    assert_eq!(isub(0, 1), 0xffff_ffff);
    assert_eq!(imul(0x10000, 0x10000), 0);
    assert_eq!(imul(-3i32 as u32, 5), -15i32 as u32);
    assert_eq!(ineg(0x8000_0000), 0x8000_0000);
    assert_eq!(ineg(5), -5i32 as u32);
    assert_eq!(ladd(u64::MAX, 2), 1);
    assert_eq!(lsub(1, 2), u64::MAX);
    assert_eq!(lmul(-4i64 as u64, 6), -24i64 as u64);
    assert_eq!(lneg(1), u64::MAX);
}

#[test]
fn division_rounds_toward_zero() {
    assert_eq!(idiv(-7i32 as u32, 2), Ok(-3i32 as u32));
    assert_eq!(irem(-7i32 as u32, 2), Ok(-1i32 as u32));
    assert_eq!(idiv(7, -2i32 as u32), Ok(-3i32 as u32));
    assert_eq!(irem(7, -2i32 as u32), Ok(1));
    assert_eq!(idiv(0x8000_0000, -1i32 as u32), Ok(0x8000_0000));
    assert_eq!(irem(0x8000_0000, -1i32 as u32), Ok(0));
    assert_eq!(idiv(1, 0), Err(VmError::Arithmetic));
    assert_eq!(irem(1, 0), Err(VmError::Arithmetic));
    assert_eq!(ldiv(-9i64 as u64, 4), Ok(-2i64 as u64));
    assert_eq!(lrem(-9i64 as u64, 4), Ok(-1i64 as u64));
    assert_eq!(ldiv(1u64 << 63, u64::MAX), Ok(1u64 << 63));
    assert_eq!(ldiv(1, 0), Err(VmError::Arithmetic));
    assert_eq!(lrem(1, 0), Err(VmError::Arithmetic));
}

#[test]
fn shifts_mask_their_count() {
    assert_eq!(ishl(1, 33), 2);
    assert_eq!(ishr(-8i32 as u32, 1), -4i32 as u32);
    assert_eq!(iushr(-8i32 as u32, 1), 0x7fff_fffc);
    assert_eq!(iushr(0x8000_0000, 63), 1);
    assert_eq!(lshl(1, 65), 2);
    assert_eq!(lshr(-8i64 as u64, 1), -4i64 as u64);
    assert_eq!(lushr(-8i64 as u64, 1), 0x7fff_ffff_ffff_fffc);
}

#[test]
fn conversions_and_comparison() {
    assert_eq!(i2l(-1i32 as u32), u64::MAX);
    assert_eq!(i2l(5), 5);
    assert_eq!(l2i(0x1_2345_6789), 0x2345_6789);
    assert_eq!(i2b(0x1ff), -1i32 as u32);
    assert_eq!(i2b(0x17f), 0x7f);
    assert_eq!(i2c(0x1_ffff), 0xffff);
    assert_eq!(i2s(0x1_8000), -32768i32 as u32);
    assert_eq!(lorder(1, 2), -1i32 as u32);
    assert_eq!(lorder(2, 2), 0);
    assert_eq!(lorder(1, u64::MAX), 1);
    assert_eq!(target_of(10, -4), 6);
    assert_eq!(target_of(10, 4), 14);
    assert_eq!(target_of(0, -1), u32::MAX);
}

// ---------------------------------------------------------------------
// Decoding.

#[test]
fn instructions_are_decoded_with_their_operands() {
    let code = [0x10u8, 0xfe, 0x11, 0xff, 0xfe, 0xc4, 0x15, 0x01, 0x02, 0x84, 3, 0xff, 0xc4, 0x84, 0, 3, 0xff, 0xfe, 0xb9, 0, 9, 2, 0, 0xc5, 0, 7, 3];
    let mut rd = BytesReader { bytes: &code, pc: 0 };
    let i = decode(&mut rd).unwrap();
    assert_eq!((i.op, i.b, i.pc, i.next), (0x10, -2, 0, 2));
    let i = decode(&mut rd).unwrap();
    assert_eq!((i.op, i.b, i.next), (0x11, -2, 5));
    let i = decode(&mut rd).unwrap();
    assert_eq!((i.op, i.wide, i.a, i.pc, i.next), (0x15, true, 0x0102, 5, 9));
    let i = decode(&mut rd).unwrap();
    assert_eq!((i.op, i.wide, i.a, i.b, i.next), (0x84, false, 3, -1, 12));
    let i = decode(&mut rd).unwrap();
    assert_eq!((i.op, i.wide, i.a, i.b, i.next), (0x84, true, 3, -2, 18));
    let i = decode(&mut rd).unwrap();
    assert_eq!((i.op, i.a, i.next), (0xb9, 9, 23));
    let i = decode(&mut rd).unwrap();
    assert_eq!((i.op, i.a, i.b, i.next), (0xc5, 7, 3, 27));
    assert_eq!(decode(&mut rd).err(), Some(VmError::CodeRange));
    let mut rd = BytesReader { bytes: &[0x11, 0], pc: 0 };
    assert_eq!(decode(&mut rd).err(), Some(VmError::CodeRange));
}

#[test]
fn switches_are_read_behind_their_padding() {
    let mut code = vec![0xaau8, 0, 0, 0];
    for v in [100i32, -1, 1, 10, 20, 30] {
        code.extend_from_slice(&v.to_be_bytes());
    }
    let mut rd = BytesReader { bytes: &code, pc: 1 };
    let t = TableSwitch::read_from(&mut rd).unwrap();
    assert_eq!((t.default_off, t.low, t.high), (100, -1, 1));
    assert_eq!(t.jumps, vec![10, 20, 30]);
    assert_eq!(rd.pc, 28);
    assert_eq!(t.target(-1), 10);
    assert_eq!(t.target(1), 30);
    assert_eq!(t.target(2), 100);
    assert_eq!(t.target(-2), 100);
    let sw = Switch::Table(t);
    assert_eq!(sw.target(0), 20);

    let mut code = vec![0xabu8, 0, 0, 0];
    for v in [7i32, 2, 5, 50, -9, 90] {
        code.extend_from_slice(&v.to_be_bytes());
    }
    let mut rd = BytesReader { bytes: &code, pc: 1 };
    let l = LookupSwitch::read_from(&mut rd).unwrap();
    assert_eq!((l.default_off, l.n), (7, 2));
    assert_eq!(l.match_offs, vec![5, 50, -9, 90]);
    assert_eq!(l.target(5), 50);
    assert_eq!(l.target(-9), 90);
    assert_eq!(l.target(50), 7);

    // high below low, and a table that is cut short
    let mut code = vec![0u8; 4];
    for v in [0i32, 5, 3] {
        code.extend_from_slice(&v.to_be_bytes());
    }
    let mut rd = BytesReader { bytes: &code, pc: 1 };
    assert_eq!(TableSwitch::read_from(&mut rd).err(), Some(VmError::ClassFormat));
    let mut code = vec![0u8; 4];
    for v in [0i32, 0, 3, 1] {
        code.extend_from_slice(&v.to_be_bytes());
    }
    let mut rd = BytesReader { bytes: &code, pc: 1 };
    assert_eq!(TableSwitch::read_from(&mut rd).err(), Some(VmError::CodeRange));
}

// ---------------------------------------------------------------------
// Class files.

fn tiny_class(utf8: &[u8]) -> Vec<u8> {
    // A pool of: 1 utf8 (given), 2 class -> 1; no members.
    let mut b = vec![0xCA, 0xFE, 0xBA, 0xBE, 0, 3, 0, 52, 0, 3, 1];
    b.extend_from_slice(&(utf8.len() as u16).to_be_bytes());
    b.extend_from_slice(utf8);
    b.extend_from_slice(&[7, 0, 1]);
    b.extend_from_slice(&[0, 0x21, 0, 2, 0, 0, 0, 0, 0, 0, 0, 0, 0, 0]);
    b
}

#[test]
fn class_file_is_decoded() {
    let f = ClassFile::new(tiny_class(b"pkg/Name")).unwrap();
    assert_eq!(f.magic, 0xCAFEBABE);
    assert_eq!((f.minor_version, f.major_version), (3, 52));
    assert_eq!(f.cp.len(), 3);
    assert_eq!(f.this_class(), Some("pkg/Name"));
    assert_eq!(f.super_class(), Some(""));
    assert_eq!(f.interface_len(), 0);
    assert_eq!(f.cp.class(1), None);
    assert_eq!(f.cp.class(2), Some("pkg/Name"));
    assert_eq!(f.cp.class(3), None);
}

#[test]
fn modified_utf8_is_decoded() {
    // U+0000 as C0 80 and U+1F600 as a surrogate pair of three bytes each.
    let f = ClassFile::new(tiny_class(&[b'a', 0xC0, 0x80, 0xED, 0xA0, 0xBD, 0xED, 0xB8, 0x80, b'z'])).unwrap();
    assert_eq!(f.cp.utf8(1), Some("a\u{0}\u{1F600}z"));
}

#[test]
fn broken_class_files_are_refused() {
    let good = tiny_class(b"X");
    for cut in 0..good.len() {
        assert_eq!(ClassFile::new(good[..cut].to_vec()).err(), Some(VmError::ClassFormat), "{}", cut);
    }
    let mut bad = good.clone();
    bad[3] = 0;
    assert_eq!(ClassFile::new(bad).err(), Some(VmError::ClassFormat));
    let mut bad = good.clone();
    bad[10] = 2;
    assert_eq!(ClassFile::new(bad).err(), Some(VmError::ClassFormat));
    // bytes that are no text
    assert_eq!(ClassFile::new(tiny_class(&[0xff, 0xfe])).err(), Some(VmError::ClassFormat));
}

#[test]
fn access_flags_are_bits() {
    let f = AccessFlags(0x0109);
    assert!(f.is_public() && f.is_static() && f.is_native());
    assert!(!f.is_private() && !f.is_final() && !f.is_iface() && !f.is_abstract());
    let g = AccessFlags(0x7ef6);
    assert!(g.is_private() && g.is_protected() && g.is_final() && g.is_super() && g.is_sync());
    assert!(g.is_volatile() && g.is_bridge() && g.is_transient() && g.is_varargs());
    assert!(g.is_iface() && g.is_abstract() && g.is_strict() && g.is_synthetic());
    assert!(g.is_annotation() && g.is_enum());
    assert!(!g.is_public() && !g.is_static() && !g.is_native());
}

// ---------------------------------------------------------------------
// The class path.

fn show(s: &Segment) -> String {
    match s {
        Segment::Directory(p) => format!("dir {}", p),
        Segment::Archive(p) => format!("zip {}", p),
        Segment::Wildcard(p) => format!("all {}", p),
    }
}

#[test]
fn class_paths_are_classified() {
    assert_eq!(show(&segment("lib/*")), "all lib/");
    assert_eq!(show(&segment("*")), "all ");
    for a in ["x.jar", "x.JAR", "x.zip", "x.ZIP", ".jar"] {
        assert_eq!(show(&segment(a)), format!("zip {}", a));
        assert!(is_archive(a));
    }
    for d in ["", ".", "x.Jar", "jar", "x.jar/", "dir"] {
        assert_eq!(show(&segment(d)), format!("dir {}", d));
        assert!(!is_archive(d));
    }
    assert!(is_jar("a.jar") && is_jar("b.JAR"));
    assert!(!is_jar("a.zip") && !is_jar("jar") && !is_jar(""));
    match new_entry("lib/*") {
        EntryPlan::One(s) => assert_eq!(show(&s), "all lib/"),
        EntryPlan::Many(_) => panic!("one segment"),
    }
    match new_entry(".:test/rt.jar:lib/*:") {
        EntryPlan::Many(v) => {
            let all: Vec<String> = v.iter().map(show).collect();
            assert_eq!(all, vec!["dir .", "zip test/rt.jar", "all lib/", "dir "]);
        }
        EntryPlan::One(_) => panic!("several segments"),
    }
}

#[test]
fn class_paths_are_split() {
    assert_eq!(split_paths("a:b:c"), vec!["a", "b", "c"]);
    assert_eq!(split_paths(""), vec![""]);
    assert_eq!(split_paths(":"), vec!["", ""]);
    assert_eq!(split_paths("\u{e9}t:\u{1F600}:"), vec!["\u{e9}t", "\u{1F600}", ""]);
    assert_eq!(wildcard_dir("lib/*"), "lib/");
    assert_eq!(wildcard_dir(""), "");
    assert_eq!(class_file_name("java/lang/Object"), "java/lang/Object.class");
}

#[test]
fn paths_are_normalized() {
    assert_eq!(norm_path_with("a/b\\c", '|'), "a|b|c");
    assert_eq!(norm_path_with("", '|'), "");
    let n = norm_path("a/b\\c");
    assert!(n == "a/b/c" || n == "a\\b\\c");
    assert_eq!(n, format!("a{0}b{0}c", std::path::MAIN_SEPARATOR));
}

struct One(&'static str, u8);

impl Entry for One {
    fn read_class(&self, name: &str) -> Option<Vec<u8>> {
        if name == self.0 {
            Some(vec![self.1])
        } else {
            None
        }
    }
}

#[test]
fn composite_entry_gives_the_first_hit() {
    let c = CompositeEntry { children: vec![One("a", 1), One("b", 2), One("a", 3)] };
    assert_eq!(c.read_class("a"), Some(vec![1]));
    assert_eq!(c.read_class("b"), Some(vec![2]));
    assert_eq!(c.read_class("c"), None);
}

#[test]
fn classes_are_found_in_archives() {
    let mut w = zip::ZipWriter::new(std::io::Cursor::new(Vec::new()));
    let options = zip::write::SimpleFileOptions::default();
    w.start_file("a/First.class", options).unwrap();
    w.write_all(&[1, 2, 3]).unwrap();
    w.start_file("a/Second.class", options).unwrap();
    w.write_all(&vec![7u8; 5000]).unwrap();
    w.start_file("a/Second", options).unwrap();
    w.write_all(&[9]).unwrap();
    let bytes = w.finish().unwrap().into_inner();
    assert_eq!(class_in_archive(&bytes, "a/First"), Some(vec![1, 2, 3]));
    assert_eq!(class_in_archive(&bytes, "a/Second"), Some(vec![7u8; 5000]));
    assert_eq!(class_in_archive(&bytes, "a/Third"), None);
    assert_eq!(class_in_archive(&bytes, "a/Second.class"), None);
    assert_eq!(class_in_archive(&[1, 2, 3], "a/First"), None);
    let names = vec![None, Some("x".to_string()), Some("y".to_string()), Some("x".to_string())];
    assert_eq!(pick_entry(&names, "x"), Some(1));
    assert_eq!(pick_entry(&names, "y"), Some(2));
    assert_eq!(pick_entry(&names, "z"), None);
}

// ---------------------------------------------------------------------
// Natives.

struct Host(&'static str, &'static str, &'static str, u32);

impl NativeMethod for Host {
    fn class_name(&self) -> &str {
        self.0
    }

    fn method_name(&self) -> &str {
        self.1
    }

    fn desc(&self) -> &str {
        self.2
    }

    fn exec(&self, jvm: &mut Jvm) -> Result<(), VmError> {
        jvm.thread.stack.push_u32(self.3);
        Ok(())
    }
}

#[test]
fn natives_are_found_under_their_key() {
    assert_eq!(hash("java/lang/System", "arraycopy", "(II)V"), "java/lang/System_arraycopy_(II)V");
    let mut r: NativeRegistry<Host> = NativeRegistry::new();
    assert_eq!(r.register(Host("a/B", "f", "(IJ)V", 1)), Ok(()));
    assert_eq!(r.register(Host("a/B", "g", "()I", 2)), Ok(()));
    assert_eq!(r.register(Host("a/B", "f", "(IJ)V", 3)), Ok(()));
    assert_eq!(r.register(Host("a/B", "h", "(", 4)), Err(VmError::ClassFormat));
    assert_eq!(r.data.len(), 2);
    let f = r.find("a/B", "f", "(IJ)V").ok().unwrap();
    assert_eq!(f.inner.3, 3);
    assert_eq!(f.desc.arg_slots, 3);
    assert_eq!(r.find("a/B", "g", "()I").ok().unwrap().inner.3, 2);
    assert_eq!(r.find("a/B", "h", "(").err(), Some(VmError::MissingNative));
    assert_eq!(r.find("a/B_f", "", "(IJ)V").err(), Some(VmError::MissingNative));
}

// ---------------------------------------------------------------------
// Errors and text.

#[test]
fn errors_have_their_names() {
    assert_eq!(VmError::NullPointer.name(), "java.lang.NullPointerException");
    assert_eq!(VmError::NegativeArraySize.name(), "java.lang.NegativeArraySize");
    assert_eq!(VmError::ArrayIndexOutOfBounds.name(), "ArrayIndexOutOfBounds");
    assert_eq!(VmError::ClassCast.name(), "java.lang.ClassCastException");
    assert_eq!(VmError::ClassFormat.to_err().0, "java.lang.ClassFormatError");
    assert_eq!(VmError::MissingNative.to_err().message(), "native method not found");
    let all = [
        VmError::ClassFormat,
        VmError::ClassNotFound,
        VmError::NullPointer,
        VmError::NegativeArraySize,
        VmError::ArrayIndexOutOfBounds,
        VmError::ClassCast,
        VmError::UnknownOpcode,
        VmError::MissingNative,
        VmError::Arithmetic,
        VmError::StackOverflow,
        VmError::OperandStack,
        VmError::LocalIndex,
        VmError::CodeRange,
        VmError::InvalidReference,
        VmError::NoSuchMember,
        VmError::LinkDepth,
    ];
    for (i, a) in all.iter().enumerate() {
        for b in all.iter().skip(i + 1) {
            assert_ne!(a.name(), b.name());
        }
    }
}

#[test]
fn strings_are_compared_by_their_characters() {
    assert!(str_eq("", ""));
    assert!(str_eq("h\u{e9}", "h\u{e9}"));
    assert!(!str_eq("a", "b"));
    assert!(!str_eq("a", "ab"));
}

#[test]
fn an_empty_table_finds_nothing() {
    let l = ClassLoader::new();
    assert_eq!(l.find("java/lang/Object"), None);
    assert!(l.get(0).is_none());
    assert_eq!(l.lookup_method(0, "f", "()V"), None);
    assert_eq!(l.lookup_field(0, "f", "I"), None);
    assert!(l.is_assignable(3, 3));
    assert!(!l.is_assignable(3, 4));
}

// ---------------------------------------------------------------------
// Soundness at run time.

#[test]
fn soundness_is_tested_at_run_time() {
    let mut st = JStack::new();
    assert!(st.is_sound());
    st.push_frame(MemberRef { class: 0, index: 0 }, 2, 2).unwrap();
    st.push_frame(MemberRef { class: 0, index: 0 }, 1, 1).unwrap();
    assert!(st.is_sound());
    st.frames[1].stack_size = 2;
    assert!(!st.is_sound());
    st.frames[1].stack_size = 1;
    assert!(st.is_sound());
    st.frames[1].local_base = 5;
    assert!(!st.is_sound());
    st.frames[1].local_base = 4;
    st.frames[0].id = 7;
    assert!(!st.is_sound());

    let mut l = ClassLoader::new();
    assert!(l.is_sound());
    l.jclass = Some(0);
    assert!(!l.is_sound());
    l.jclass = None;
    l.loaded.push(("x".to_string(), 0));
    assert!(!l.is_sound());
}

#[test]
fn a_new_stack_has_no_frame_and_an_arena_of_zeros() {
    let st = JStack::new();
    assert!(st.is_empty());
    assert_eq!(st.size(), 0);
    assert_eq!(st.frames.len(), 0);
    assert_eq!(st.stack_data.len(), INITIAL_CELLS);
    assert_eq!(INITIAL_CELLS, 8192);
    assert!(st.stack_data.iter().all(|c| *c == 0));
}

#[test]
fn a_composite_entry_without_children_has_no_class() {
    let c: CompositeEntry<One> = CompositeEntry { children: vec![] };
    assert_eq!(c.read_class("a"), None);
}
