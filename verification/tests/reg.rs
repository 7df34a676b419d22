use reg_atomic::reg::atomic::{RegMemory, RwRegAtomic, WRwRegFieldBitAtomic, WRwRegFieldBitsAtomic};
use reg_atomic::reg::field::Field;
use reg_atomic::reg::tokens::{RegDescr, RegTokens};

const SCR: u32 = 0xE000_ED10;
const CTRL: u32 = 0xE000_E010;

fn descr(addr: u32, reset: u32) -> RegDescr {
    RegDescr {
        addr,
        width: 32,
        reset,
        atomic: true,
    }
}

#[test]
fn single_writer_refused() {
    let mut tokens = RegTokens::new();
    let first = tokens.take_rw(descr(SCR, 0));
    assert!(first.is_some());
    // A second independent write-capable token for the same address is
    // refused before any hardware access could occur.
    let second = tokens.take_rw(descr(SCR, 0));
    assert!(second.is_none());
    // Another address is still available.
    let other = tokens.take_rw(descr(CTRL, 0));
    assert!(other.is_some());
}

#[test]
fn reset_value_kept() {
    let mut tokens = RegTokens::new();
    let token = tokens.take_rw(descr(CTRL, 0x0000_0004)).unwrap();
    assert_eq!(token.reset_value(), 0x0000_0004);
}

#[test]
fn load_store_roundtrip() {
    let mut tokens = RegTokens::new();
    let token = tokens.take_rw(descr(SCR, 0)).unwrap();
    let mut mem = RegMemory::new(SCR, 0x1234_5678);
    assert_eq!(token.load(&mem), 0x1234_5678);
    token.store(&mut mem, 0xCAFE_F00D);
    assert_eq!(token.load(&mem), 0xCAFE_F00D);
}

#[test]
fn modify_uncontended() {
    let mut tokens = RegTokens::new();
    let token = tokens.take_rw(descr(SCR, 0)).unwrap();
    let mut mem = RegMemory::new(SCR, 40);
    token.modify(&mut mem, |v| v.wrapping_add(2));
    assert_eq!(mem.value, 42);
    assert_eq!(mem.loads, 1);
    assert_eq!(mem.stores, 1);
}

#[test]
fn modify_reg_sees_token() {
    let mut tokens = RegTokens::new();
    let token = tokens.take_rw(descr(CTRL, 0)).unwrap();
    let mut mem = RegMemory::new(CTRL, 0);
    token.modify_reg(&mut mem, |t, v| v | t.reset_value() | 0x1);
    assert_eq!(mem.value, 0x1);
}

#[test]
fn retry_under_contention() {
    let mut tokens = RegTokens::new();
    let token = tokens.take_rw(descr(SCR, 0)).unwrap();
    let mut mem = RegMemory::new(SCR, 5);
    // Two preempting stores force two consecutive store-conditional
    // failures: three loads, one successful store, and the final value is
    // the transform applied once to the value present immediately before
    // the successful store.
    mem.push_intruder(7);
    mem.push_intruder(9);
    token.modify(&mut mem, |v| v.wrapping_add(1));
    assert_eq!(mem.loads, 3);
    assert_eq!(mem.stores, 1);
    assert_eq!(mem.value, 10);
    assert!(mem.intruders.is_empty());
}

#[test]
fn field_isolation() {
    let mut tokens = RegTokens::new();
    let token = tokens.take_rw(descr(CTRL, 0)).unwrap();
    let enable = token.field_token(Field::new(0, 1));
    let scale = token.field_token(Field::new(4, 8));
    let mut mem = RegMemory::new(CTRL, 0x8000_0000);
    enable.set_bit(&mut mem);
    scale.write_bits(&mut mem, 0x1AB);
    // Both fields are independently correct: the bit is still set, the
    // multi-bit field holds the written (truncated) value, and the bit
    // outside both fields survived.
    assert_eq!(mem.value, 0x8000_0AB1);
}

#[test]
fn field_isolation_under_contention() {
    let mut tokens = RegTokens::new();
    let token = tokens.take_rw(descr(CTRL, 0)).unwrap();
    let enable = token.field_token(Field::new(0, 1));
    let mut mem = RegMemory::new(CTRL, 0);
    // A preempting writer lands a different field's update between our
    // load and store; the retry makes our set_bit see it, so neither
    // field's update is lost.
    mem.push_intruder(0x0000_0AB0);
    enable.set_bit(&mut mem);
    assert_eq!(mem.value, 0x0000_0AB1);
    assert_eq!(mem.loads, 2);
    assert_eq!(mem.stores, 1);
}

#[test]
fn clear_and_write_bits_truncate() {
    let mut tokens = RegTokens::new();
    let token = tokens.take_rw(descr(SCR, 0)).unwrap();
    let flag = token.field_token(Field::new(3, 1));
    let nibble = token.field_token(Field::new(8, 4));
    let mut mem = RegMemory::new(SCR, 0xFFFF_FFFF);
    flag.clear_bit(&mut mem);
    assert_eq!(mem.value, 0xFFFF_FFF7);
    nibble.write_bits(&mut mem, 0xF5);
    // Only the low four bits of 0xF5 land in the field.
    assert_eq!(mem.value, 0xFFFF_F5F7);
}

#[test]
fn toggle_twice_restores() {
    let mut tokens = RegTokens::new();
    let token = tokens.take_rw(descr(SCR, 0)).unwrap();
    let flag = token.field_token(Field::new(3, 1));
    let mut mem = RegMemory::new(SCR, 0x0000_00F0);
    flag.toggle_bit(&mut mem);
    assert_eq!(mem.value, 0x0000_00F8);
    flag.toggle_bit(&mut mem);
    assert_eq!(mem.value, 0x0000_00F0);
}

#[test]
fn modify_unsync_plain() {
    let mut tokens = RegTokens::new();
    let token = tokens.take_rw(descr(SCR, 0)).unwrap();
    let mut mem = RegMemory::new(SCR, 1);
    token.modify_unsync(&mut mem, |v| v << 4);
    assert_eq!(mem.value, 16);
    // The plain variant runs outside the exclusive protocol.
    assert_eq!(mem.loads, 0);
    assert_eq!(mem.stores, 0);
}

#[test]
fn readers_duplicate_freely() {
    let mut tokens = RegTokens::new();
    let token = tokens.take_rw(descr(SCR, 0)).unwrap();
    let reader = token.reader();
    let reader_copy = reader;
    let mem = RegMemory::new(SCR, 99);
    assert_eq!(reader.load(&mem), 99);
    assert_eq!(reader_copy.load(&mem), 99);
}

#[test]
fn snapshot_helpers_pure() {
    let flag = Field::new(0, 1);
    let v: u32 = 0b1010;
    assert_eq!(flag.set(v), 0b1011);
    assert_eq!(flag.clear(v), 0b1010);
    assert_eq!(flag.toggle(v), 0b1011);
    assert_eq!(flag.toggle(flag.toggle(v)), v);
    let wide = Field::new(1, 2);
    assert_eq!(wide.write(v, 0b01), 0b1010 & !0b110 | 0b010);
    assert_eq!(wide.read(0b1010), 0b01);
    assert_eq!(Field::new(4, 8).mask_value(), 0xFF0);
}

#[test]
fn field_read_extracts() {
    let field = Field::new(8, 8);
    assert_eq!(field.read(0x00AB_CD00), 0xCD);
    assert_eq!(field.write(0, 0xCD), 0x0000_CD00);
}
