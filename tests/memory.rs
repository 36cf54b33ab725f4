use chip8::memory::Memory;
use chip8::register::Register;

#[test]
fn test_set8() {
    let mut memory = Memory::new();
    memory.set8(Register::V0.offset(), 0x12);
    assert_eq!(memory.get8(Register::V0.offset()), 0x12);
}

#[test]
fn test_set16_1() {
    let mut memory = Memory::new();
    memory.set16(Register::PC.offset(), 0x200);
    assert_eq!(memory.get16(Register::PC.offset()), 0x200);
}

#[test]
fn test_set16_2() {
    let mut memory = Memory::new();
    memory.set16(0x206, 0xD015);
    assert_eq!(memory.get16(0x206), 0xD015);
}

#[test]
fn test_get_framebuffer_value() {
    let mut memory = Memory::new();
    memory.set8_framebuffer(10, 10, 0b10011001);
    assert_eq!(memory.get8_framebuffer(10, 10), 0b10011001);
}

#[test]
fn set16_is_big_endian() {
    let mut memory = Memory::new();
    memory.set16(0x300, 0xABCD);
    assert_eq!(memory.get8(0x300), 0xAB);
    assert_eq!(memory.get8(0x301), 0xCD);
    memory.set8(0xFFE, 0x12);
    memory.set8(0xFFF, 0x34);
    assert_eq!(memory.get16(0xFFE), 0x1234);
}

#[test]
fn framebuffer_location_is_row_major() {
    let memory = Memory::new();
    assert_eq!(memory.get_framebuffer_location(0, 0), 0);
    assert_eq!(memory.get_framebuffer_location(5, 0), 5);
    assert_eq!(memory.get_framebuffer_location(3, 2), 131);
    assert_eq!(memory.get_framebuffer_location(63, 31), 2047);
}

#[test]
fn clear_framebuffer_touches_only_pixels() {
    let mut memory = Memory::new();
    for x in 0..64u8 {
        for y in 0..32u8 {
            memory.set8_framebuffer(x, y, 1);
        }
    }
    memory.set8(0, 0x02);
    memory.set8(19, 0x01);
    memory.set8(0xFFF, 0x77);
    memory.clear_framebuffer();
    for x in 0..64u8 {
        for y in 0..32u8 {
            assert_eq!(memory.get8_framebuffer(x, y), 0);
        }
    }
    assert_eq!(memory.get8(0), 0x02);
    assert_eq!(memory.get8(19), 0x01);
    assert_eq!(memory.get8(0xFFF), 0x77);
}

#[test]
fn new_memory_is_zeroed() {
    let memory = Memory::new();
    for i in 0..4096usize {
        assert_eq!(memory.get8(i), 0);
    }
    assert_eq!(memory.get8_framebuffer(63, 31), 0);
}
