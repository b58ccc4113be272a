//! Tests of the disassembler's exact rendering and of the verified text
//! helpers it is built on.

use synacor_vm::machine::Machine;
use synacor_vm::text::parse_dec_u16;
use synacor_vm::text::parse_hex_u16;
use synacor_vm::text::push_dec;
use synacor_vm::text::push_hex;
use synacor_vm::text::push_hex_0x;
use synacor_vm::text::push_hex_0x4;
use synacor_vm::text::push_hex_sp4;
use synacor_vm::text::split_spaces;

fn prog_bytes(words: &[u16]) -> Vec<u8> {
    let mut bytes = Vec::new();
    for w in words {
        bytes.push((w % 256) as u8);
        bytes.push((w / 256) as u8);
    }
    bytes
}

#[test]
fn disassembles_mixed_lengths() {
    let m = Machine::new(prog_bytes(&[9, 32768, 32769, 60, 19, 32768, 0]));
    let text = m.disassemble_range(0, 3);
    assert_eq!(
        text,
        "0x0000: add  8000 8001   3c\n0x0004: out  8000\n0x0006: halt\n"
    );
}

#[test]
fn disassembles_mult_mnemonic() {
    let m = Machine::new(prog_bytes(&[10, 32768, 2, 3]));
    assert_eq!(m.disassemble_range(0, 1), "0x0000: mult 8000    2    3\n");
}

#[test]
fn disassembles_invalid_opcode() {
    let m = Machine::new(prog_bytes(&[22, 1]));
    let text = m.disassemble_range(0, 2);
    assert_eq!(text, "0x0000: ????\n0x0001: set     0    0\n");
}

#[test]
fn disassembly_stops_at_end_of_memory() {
    let m = Machine::new(Vec::new());
    assert_eq!(m.disassemble_range(0x7ffd, 5), "");
    let tail = m.disassemble_range(0x7ffc, 5);
    assert_eq!(tail, "0x7ffc: halt\n");
}

#[test]
fn disassemble_all_covers_whole_space() {
    let m = Machine::new(Vec::new());
    let text = m.disassemble_all();
    // all-zero memory: one halt line per address
    assert_eq!(text.lines().count(), 0x7ffd);
    assert!(text.starts_with("0x0000: halt\n"));
    assert!(text.ends_with("0x7ffc: halt\n"));
}

#[test]
fn renders_decimal() {
    let mut s = String::new();
    push_dec(&mut s, 0);
    s.push(' ');
    push_dec(&mut s, 65554);
    assert_eq!(s, "0 65554");
}

#[test]
fn renders_hex_shapes() {
    let mut s = String::new();
    push_hex(&mut s, 0xbeef);
    assert_eq!(s, "beef");
    let mut s = String::new();
    push_hex_0x(&mut s, 0x41);
    assert_eq!(s, "0x41");
    let mut s = String::new();
    push_hex_0x4(&mut s, 0x41);
    assert_eq!(s, "0x0041");
    let mut s = String::new();
    push_hex_sp4(&mut s, 0x3c);
    assert_eq!(s, "  3c");
    let mut s = String::new();
    push_hex_sp4(&mut s, 0x8000);
    assert_eq!(s, "8000");
    let mut s = String::new();
    push_hex_0x4(&mut s, 0);
    assert_eq!(s, "0x0000");
}

#[test]
fn parses_decimal() {
    assert_eq!(parse_dec_u16("0"), Some(0));
    assert_eq!(parse_dec_u16("65535"), Some(65535));
    assert_eq!(parse_dec_u16("65536"), None);
    assert_eq!(parse_dec_u16("99999999999999999999"), None);
    assert_eq!(parse_dec_u16(""), None);
    assert_eq!(parse_dec_u16("12a"), None);
    assert_eq!(parse_dec_u16("-3"), None);
    assert_eq!(parse_dec_u16("007"), Some(7));
}

#[test]
fn parses_hex() {
    assert_eq!(parse_hex_u16("0"), Some(0));
    assert_eq!(parse_hex_u16("ffff"), Some(0xffff));
    assert_eq!(parse_hex_u16("FFFF"), Some(0xffff));
    assert_eq!(parse_hex_u16("3c"), Some(0x3c));
    assert_eq!(parse_hex_u16("10000"), None);
    assert_eq!(parse_hex_u16(""), None);
    assert_eq!(parse_hex_u16("0x41"), None);
    assert_eq!(parse_hex_u16("g"), None);
}

#[test]
fn splits_on_every_space() {
    let toks = split_spaces("set 0 65");
    assert_eq!(toks, vec!["set", "0", "65"]);
    assert_eq!(split_spaces(""), vec![""]);
    assert_eq!(split_spaces(" set"), vec!["", "set"]);
    assert_eq!(split_spaces("a  b"), vec!["a", "", "b"]);
}
