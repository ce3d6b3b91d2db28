use firework::symbols::{describe_frame, find_symbol, Frame, KernSymbol};

fn table() -> Vec<KernSymbol> {
    vec![
        KernSymbol { start: 0x1000, end: 0x1100, name: "_ZN4core3fmt5write17h0123456789abcdefE".to_string() },
        KernSymbol { start: 0x1100, end: 0x1180, name: "kernel_main".to_string() },
        KernSymbol { start: 0x1000, end: 0x2000, name: "whole_text".to_string() },
    ]
}

#[test]
fn finds_the_first_symbol_holding_the_address() {
    let t = table();
    assert_eq!(find_symbol(&t, 0x1000), Some(0));
    assert_eq!(find_symbol(&t, 0x10FF), Some(0));
    assert_eq!(find_symbol(&t, 0x1100), Some(1));
    assert_eq!(find_symbol(&t, 0x1180), Some(2));
    assert_eq!(find_symbol(&t, 0x2000), None);
    assert_eq!(find_symbol(&t, 0xFFF), None);
    assert_eq!(find_symbol(&Vec::new(), 0x1000), None);
}

#[test]
fn frames_show_demangled_names_and_offsets() {
    let t = table();
    match describe_frame(&t, 0x1042) {
        Frame::Known { start, offset, name } => {
            assert_eq!(start, 0x1000);
            assert_eq!(offset, 0x42);
            assert_eq!(name, "core::fmt::write");
        }
        other => panic!("unexpected frame {other:?}"),
    }
}

#[test]
fn frames_keep_names_that_are_not_mangled() {
    let t = table();
    match describe_frame(&t, 0x1101) {
        Frame::Known { start, offset, name } => {
            assert_eq!((start, offset), (0x1100, 1));
            assert_eq!(name, "kernel_main");
        }
        other => panic!("unexpected frame {other:?}"),
    }
}

#[test]
fn unknown_addresses() {
    let t = table();
    match describe_frame(&t, 0x5000) {
        Frame::Unknown { ip } => assert_eq!(ip, 0x5000),
        other => panic!("unexpected frame {other:?}"),
    }
}

#[test]
fn a_panic_while_reporting_one_halts() {
    let mut in_panic = false;
    assert_eq!(firework::symbols::enter_panic(&mut in_panic), firework::symbols::PanicStep::Report);
    assert!(in_panic);
    assert_eq!(firework::symbols::enter_panic(&mut in_panic), firework::symbols::PanicStep::Halt);
    assert!(in_panic);
}
