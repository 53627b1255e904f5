#![allow(non_snake_case)]
use chip8_toolchain::assembler::Assembler;
use chip8_toolchain::chip8::Chip8;
use chip8_toolchain::chip8::Chip8State;
use chip8_toolchain::chip8::Instruction;
use chip8_toolchain::compiler::Compiler;
use chip8_toolchain::disasm::get_args_disasm_nnn;
use chip8_toolchain::disasm::get_args_disasm_x;
use chip8_toolchain::disasm::get_args_disasm_xkk;
use chip8_toolchain::disasm::get_args_disasm_xy;
use chip8_toolchain::disasm::get_args_disasm_xyn;
use chip8_toolchain::lexer::Lexer;
use chip8_toolchain::machine::Chip8Error;
use chip8_toolchain::machine::Operation;

fn loaded(code: &[u8]) -> Chip8 {
    let mut c8 = Chip8::new();
    c8.load_rom_from_bytes(code);
    c8
}

#[test]
pub fn test_00E0() {
    let mut c8 = Chip8::new();
    let clone = c8.framebuffer().clone();

    c8.OP_00E0();

    assert_eq!(clone, *c8.framebuffer());
}

#[test]
pub fn test_00EE() {
    let mut c8 = Chip8::new();

    let code: [u8; 4] = [0x22, 0x02, 0x00, 0xEE]; //CALL 202, RET
    c8.load_rom_from_bytes(&code);
    c8.clock().unwrap();
    c8.clock().unwrap();

    assert_eq!(c8.sp(), 0);
    assert_eq!(c8.pc(), 0x202);
}

#[test]
pub fn test_1nnn() {
    let mut c8 = Chip8::new();
    let code: [u8; 2] = [0x12, 0x8C]; //JP, 28C
    c8.load_rom_from_bytes(&code);
    c8.clock().unwrap();
    assert_eq!(c8.pc(), 0x28C);
}

#[test]
pub fn test_2nnn() {
    let mut c8 = Chip8::new();
    let code: [u8; 2] = [0x24, 0x00]; //CALL 400
    c8.load_rom_from_bytes(&code);
    c8.clock().unwrap();

    assert_eq!(c8.sp(), 1);
    assert_eq!(c8.pc(), 0x400);
    assert_eq!(c8.stack()[(c8.sp() - 1) as usize], 0x202);
}

#[test]
pub fn test_3xkk() {
    let mut c8 = Chip8::new();
    let code: [u8; 2] = [0x35, 0x0]; //SE V5, 0
    c8.load_rom_from_bytes(&code);
    c8.clock().unwrap();

    assert_eq!(c8.pc(), 0x204);
}

#[test]
pub fn test_4xkk() {
    let mut c8 = Chip8::new();
    let code: [u8; 2] = [0x45, 0x07]; //SNE V5, 7
    c8.load_rom_from_bytes(&code);
    c8.clock().unwrap();

    assert_eq!(c8.pc(), 0x204);
}

#[test]
pub fn test_5xy0() {
    let mut c8 = Chip8::new();
    let code: [u8; 2] = [0x55, 0x70]; //SE V5, V7
    c8.load_rom_from_bytes(&code);
    c8.clock().unwrap();

    assert_eq!(c8.pc(), 0x204);
}

#[test]
pub fn test_6xkk() {
    let mut c8 = Chip8::new();
    let code: [u8; 2] = [0x63, 0x65]; //LD V3, 65
    c8.load_rom_from_bytes(&code);
    c8.clock().unwrap();

    assert_eq!(c8.V()[0x3], 0x65);
}

#[test]
pub fn test_7xkk() {
    let mut c8 = Chip8::new();
    let code: [u8; 2] = [0x73, 0x20]; //ADD V3, 20
    c8.load_rom_from_bytes(&code);
    c8.clock().unwrap();

    assert_eq!(c8.V()[0x3], 0x20);
}

#[test]
pub fn test_8xy0() {
    let mut c8 = Chip8::new();
    let code: [u8; 2] = [0x85, 0x70]; //LD V5, V7
    c8.load_rom_from_bytes(&code);
    c8.clock().unwrap();

    assert_eq!(c8.V()[0x5], 0x0);
}

#[test]
pub fn test_8xy1() {
    let mut c8 = Chip8::new();
    let code: [u8; 2] = [0x85, 0x71]; //OR V5, V7
    c8.load_rom_from_bytes(&code);
    c8.clock().unwrap();

    assert_eq!(c8.V()[0x5], 0x0 | 0x0);
}

#[test]
pub fn test_8xy2() {
    let mut c8 = Chip8::new();
    let code: [u8; 2] = [0x85, 0x72]; //AND V5, V7
    c8.load_rom_from_bytes(&code);
    c8.clock().unwrap();

    assert_eq!(c8.V()[0x5], 0x0 & 0x0);
}

#[test]
pub fn test_8xy3() {
    let mut c8 = Chip8::new();
    let code: [u8; 2] = [0x85, 0x73]; //XOR V5, V7
    c8.load_rom_from_bytes(&code);
    c8.clock().unwrap();

    assert_eq!(c8.V()[0x5], 0x0 ^ 0x0);
}

#[test]
pub fn test_8xy4() {
    let mut c8 = Chip8::new();
    let code: [u8; 2] = [0x85, 0x74]; //ADD V5, V7
    c8.load_rom_from_bytes(&code);
    c8.clock().unwrap();

    assert_eq!(c8.V()[0x5], 0x0 + 0x0);
}

#[test]
pub fn test_8xy5() {
    let mut c8 = Chip8::new();
    let code: [u8; 2] = [0x85, 0x75]; //SUB V5, V7
    c8.load_rom_from_bytes(&code);
    c8.clock().unwrap();

    assert_eq!(c8.V()[0x5], 0x0 - 0x0);
}

#[test]
pub fn test_8xy6() {
    let mut c8 = Chip8::new();
    let code: [u8; 2] = [0x85, 0x06]; //SHR V5
    c8.load_rom_from_bytes(&code);
    c8.clock().unwrap();

    assert_eq!(c8.V()[0x5], 0x0 >> 1);
}

#[test]
pub fn test_8xy7() {
    let mut c8 = Chip8::new();
    let code: [u8; 2] = [0x85, 0x77]; //SHR V5
    c8.load_rom_from_bytes(&code);
    c8.clock().unwrap();

    assert_eq!(c8.V()[0x5], 0x0 - 0x0);
}

#[test]
pub fn test_8xyE() {
    let mut c8 = Chip8::new();
    let code: [u8; 2] = [0x85, 0x7E]; //SHL V5
    c8.load_rom_from_bytes(&code);
    c8.clock().unwrap();

    assert_eq!(c8.V()[0x5], 0x0 << 1);
}

#[test]
pub fn test_9xy0() {
    let mut c8 = Chip8::new();
    let code: [u8; 2] = [0x85, 0x70]; //SNE V5, V7
    c8.load_rom_from_bytes(&code);
    c8.clock().unwrap();

    assert_eq!(c8.pc(), 0x202);
}

#[test]
pub fn test_Annn() {
    let mut c8 = Chip8::new();
    let code: [u8; 2] = [0xA5, 0x70]; //LD I, 570
    c8.load_rom_from_bytes(&code);
    c8.clock().unwrap();

    assert_eq!(c8.I(), 0x570);
}

#[test]
pub fn test_Bnnn() {
    let mut c8 = Chip8::new();
    let code: [u8; 2] = [0xB5, 0x70]; //JP V0, 570
    c8.load_rom_from_bytes(&code);
    c8.clock().unwrap();

    assert_eq!(c8.pc(), 0x570);
}

#[test]
pub fn test_Cxkk() {
    let mut c8 = Chip8::new();
    let code: [u8; 2] = [0xC0, 0x00]; //RND V0, 00
    c8.load_rom_from_bytes(&code);
    c8.clock().unwrap();

    assert_eq!(c8.V()[0], 0);
}

#[test]
pub fn test_Dxyn() {
    let mut c8 = Chip8::new();
    let code: [u8; 2] = [0xD0, 0x01]; //DRW V0, V0, 1
    c8.load_rom_from_bytes(&code);
    c8.clock().unwrap();

    assert_eq!(c8.framebuffer()[0], 0xFFFFFFFF);
}

#[test]
pub fn test_Ex9E() {
    let mut c8 = Chip8::new();
    let code: [u8; 2] = [0xE0, 0x9E]; //SKP V0
    c8.load_rom_from_bytes(&code);
    c8.clock().unwrap();

    assert_eq!(c8.pc(), 0x202);
}

#[test]
pub fn test_ExA1() {
    let mut c8 = Chip8::new();
    let code: [u8; 2] = [0xE0, 0xA1]; //SKNP V0
    c8.load_rom_from_bytes(&code);
    c8.clock().unwrap();

    assert_eq!(c8.pc(), 0x204);
}

#[test]
pub fn test_Fx07() {
    let mut c8 = Chip8::new();
    let code: [u8; 6] = [0x60, 0x05, 0xF0, 0x15, 0xF0, 0x07]; //LD V0, 5; LD DT, V0; LD V0, DT
    c8.load_rom_from_bytes(&code);
    c8.clock().unwrap();
    c8.clock().unwrap();
    c8.clock().unwrap();

    assert_eq!(c8.V()[0], 0x4);
}

#[test]
pub fn test_Fx0A() {
    let mut c8 = Chip8::new();
    let code: [u8; 2] = [0xF0, 0x0A]; //LD V0, K
    c8.load_rom_from_bytes(&code);
    c8.clock().unwrap();
    c8.clock().unwrap();
    c8.clock().unwrap();

    assert_eq!(c8.pc(), 0x200);
}

#[test]
pub fn test_Fx15() {
    let mut c8 = Chip8::new();
    let code: [u8; 4] = [0x60, 0x05, 0xF0, 0x15]; //LD V0, 5; LD DT, V0;
    c8.load_rom_from_bytes(&code);
    c8.clock().unwrap();
    c8.clock().unwrap();

    assert_eq!(c8.delay_timer(), 0x4);
}

#[test]
pub fn test_Fx18() {
    let mut c8 = Chip8::new();
    let code: [u8; 4] = [0x60, 0x05, 0xF0, 0x18]; //LD V0, 5; LD ST, V0;
    c8.load_rom_from_bytes(&code);
    c8.clock().unwrap();
    c8.clock().unwrap();

    assert_eq!(c8.sound_timer(), 0x4);
}

#[test]
pub fn test_Fx1E() {
    let mut c8 = Chip8::new();
    let code: [u8; 4] = [0x60, 0x05, 0xF0, 0x1E]; //LD V0, 5; ADD I, Vx
    c8.load_rom_from_bytes(&code);
    c8.clock().unwrap();
    c8.clock().unwrap();

    assert_eq!(c8.I(), 5);
}

#[test]
pub fn test_Fx29() {
    let mut c8 = Chip8::new();
    let code: [u8; 4] = [0x60, 0x05, 0xF0, 0x29]; //LD V0, 5; LD F, V0
    c8.load_rom_from_bytes(&code);
    c8.clock().unwrap();
    c8.clock().unwrap();

    assert_eq!(c8.I(), 25);
}

#[test]
pub fn test_Fx33() {
    let mut c8 = Chip8::new();
    let code: [u8; 4] = [0x60, 0x80, 0xF0, 0x33]; //LD V0, 80; LD B, V0
    c8.load_rom_from_bytes(&code);
    c8.clock().unwrap();
    c8.clock().unwrap();

    assert_eq!(c8.read(c8.I()), 1);
    assert_eq!(c8.read(c8.I() + 1), 2);
    assert_eq!(c8.read(c8.I() + 2), 8);
}

#[test]
pub fn test_Fx55() {
    let mut c8 = Chip8::new();
    let code: [u8; 2] = [0xF8, 0x55]; //LD [I], V8
    c8.load_rom_from_bytes(&code);
    c8.clock().unwrap();

    assert_eq!(c8.I(), 0x9);
}

#[test]
pub fn test_Fx65() {
    let mut c8 = Chip8::new();
    let code: [u8; 2] = [0xF8, 0x65]; //LD V8, [I]
    c8.load_rom_from_bytes(&code);
    c8.clock().unwrap();

    assert_eq!(c8.I(), 0x9);
}

#[test]
pub fn test_disasm_1nnn() {
    let mut c8 = Chip8::new();
    let code: [u8; 2] = [0x15, 0x5D]; //JP 55D
    c8.load_rom_from_bytes(&code);
    c8.disassemble();

    assert_eq!("JP 55D", c8.disasm_at(0x200).unwrap());
}

#[test]
pub fn test_disasm_nnnk() {
    assert_eq!("6AD", get_args_disasm_nnn(0xA6AD));
}

#[test]
pub fn test_disasm_xkk() {
    assert_eq!("V2, 2C", get_args_disasm_xkk(0x622C));
}

#[test]
pub fn test_disasm() {
    let c8 = Chip8::new();

    assert_eq!("JP 47C", c8.get_disasm(0x147C));

    assert_eq!("CLS", c8.get_disasm(0x00E0));

    assert_eq!("SE V5, D0", c8.get_disasm(0x35D0));

    assert_eq!("LD [I], V9", c8.get_disasm(0xF955));
}

#[test]
pub fn disasm_operands() {
    assert_eq!("VA, VB", get_args_disasm_xy(0x8AB4));
    assert_eq!("V1, V2, F", get_args_disasm_xyn(0xD12F));
    assert_eq!("VF", get_args_disasm_x(0xFF07));
    assert_eq!("0", get_args_disasm_nnn(0x1000));
    assert_eq!("FFF", get_args_disasm_nnn(0x1FFF));
    assert_eq!("V0, 0", get_args_disasm_xkk(0x6000));
}

#[test]
pub fn disasm_of_every_instruction() {
    let c8 = Chip8::new();
    let cases: [(u16, &str); 40] = [
        (0x00E0, "CLS"),
        (0x00EE, "RET"),
        (0x0123, "null"),
        (0x000F, "null"),
        (0x12AB, "JP 2AB"),
        (0x2204, "CALL 204"),
        (0x3A10, "SE VA, 10"),
        (0x4A10, "SNE VA, 10"),
        (0x5AB0, "SE VA, VB"),
        (0x6A05, "LD VA, 5"),
        (0x7AFF, "ADD VA, FF"),
        (0x8120, "LD V1, V2"),
        (0x8121, "OR V1, V2"),
        (0x8122, "AND V1, V2"),
        (0x8123, "XOR V1, V2"),
        (0x8124, "ADD V1, V2"),
        (0x8125, "SUB V1, V2"),
        (0x8126, "SHR V1, V2"),
        (0x8127, "SUBN V1, V2"),
        (0x812E, "SHL V1, V2"),
        (0x8128, "null"),
        (0x812F, "null"),
        (0x9120, "SNE V1, V2"),
        (0xA123, "LD I, 123"),
        (0xB123, "JP V0, 123"),
        (0xC10F, "RND V1, F"),
        (0xD125, "DRW V1, V2, 5"),
        (0xE19E, "SKP V1"),
        (0xE1A1, "SKNP V1"),
        (0xE100, "null"),
        (0xF107, "LD V1, DT"),
        (0xF10A, "LD V1, K"),
        (0xF115, "LD DT, V1"),
        (0xF118, "LD ST, V1"),
        (0xF11E, "ADD I, V1"),
        (0xF129, "LD F, V1"),
        (0xF133, "LD B, V1"),
        (0xF155, "LD [I], V1"),
        (0xF165, "LD V1, [I]"),
        (0xF1FF, "null"),
    ];
    for (opcode, text) in cases.iter() {
        assert_eq!(*text, c8.get_disasm(*opcode), "{:04X}", opcode);
    }
}

#[test]
pub fn disassemble_covers_program_memory() {
    let mut c8 = loaded(&[0x60, 0x0E, 0x61, 0x0E, 0x80, 0x14]);
    c8.disassemble();
    assert_eq!(c8.disasm_map().len(), (0x1000 - 0x200) / 2);
    assert_eq!(c8.disasm_at(0x200).unwrap(), "LD V0, E");
    assert_eq!(c8.disasm_at(0x202).unwrap(), "LD V1, E");
    assert_eq!(c8.disasm_at(0x204).unwrap(), "ADD V0, V1");
    assert_eq!(c8.disasm_at(0x206).unwrap(), "CLS");
    assert_eq!(c8.disasm_at(0xFFE).unwrap(), "CLS");
    assert!(c8.disasm_at(0x201).is_none());
    assert!(c8.disasm_at(0x1FE).is_none());
    assert!(c8.disasm_at(0x1000).is_none());
    c8.load_rom_from_bytes(&[0x12, 0x00]);
    assert_eq!(c8.disasm_at(0x200).unwrap(), "LD V0, E");
    c8.disassemble();
    assert_eq!(c8.disasm_at(0x200).unwrap(), "JP 200");
}

#[test]
pub fn disassembly_matches_the_compiled_opcodes() {
    let mut l = Lexer::new("var a = 255; while (a != 0) { a = a - 1; DRAW(a, a, 5); }");
    l.lex();
    let mut c = Compiler::new_from_lexer(&l);
    c.compile().unwrap();
    let mut a = Assembler::new_from_compiler(&c);
    a.assemble();
    let mut c8 = Chip8::new();
    c8.load_rom_from_assembler(&a);
    c8.disassemble();
    let expected = [
        "LD V0, FF",
        "LD V1, V0",
        "LD V2, 0",
        "SNE V1, V2",
        "JP 21A",
        "LD V1, V0",
        "LD V2, 1",
        "SUB V1, V2",
        "LD V0, V1",
        "LD V1, V0",
        "LD V2, V0",
        "DRW V1, V2, 5",
        "JP 202",
    ];
    for (i, text) in expected.iter().enumerate() {
        assert_eq!(c8.disasm_at(0x200 + 2 * i as u16).unwrap(), text);
    }
}

#[test]
pub fn new_machine_is_blank() {
    let c8 = Chip8::new();
    assert_eq!(c8.pc(), 0);
    assert_eq!(c8.I(), 0);
    assert_eq!(c8.sp(), 0);
    assert_eq!(c8.delay_timer(), 0);
    assert_eq!(c8.sound_timer(), 0);
    assert_eq!(c8.video_width(), 64);
    assert_eq!(c8.video_height(), 32);
    assert!(c8.ram().iter().all(|b| *b == 0));
    assert!(c8.framebuffer().iter().all(|p| *p == 0));
    assert!(c8.V().iter().all(|v| *v == 0));
    assert!(c8.disasm_map().is_empty());
    let s = Chip8State::new();
    let t = s.clone();
    assert_eq!(format!("{:?}", s), format!("{:?}", t));
    assert_eq!(Instruction::null().operation, Operation::Null);
}

#[test]
pub fn load_resets_and_copies_the_font_and_the_program() {
    let mut c8 = loaded(&[0x60, 0x05, 0xF0, 0x15]);
    c8.clock().unwrap();
    c8.clock().unwrap();
    c8.set_key(3, 1);
    c8.load_rom_from_bytes(&[0xAB, 0xCD, 0xEF]);
    assert_eq!(c8.pc(), 0x200);
    assert_eq!(c8.delay_timer(), 0);
    assert_eq!(c8.V()[0], 0);
    assert_eq!(c8.ram()[0], 0xF0);
    assert_eq!(c8.ram()[1], 0x90);
    assert_eq!(c8.ram()[5], 0x20);
    assert_eq!(c8.ram()[75], 0xF0);
    assert_eq!(c8.ram()[79], 0x80);
    assert_eq!(c8.ram()[80], 0);
    assert_eq!(c8.ram()[0x1FF], 0);
    assert_eq!(c8.ram()[0x200], 0xAB);
    assert_eq!(c8.ram()[0x201], 0xCD);
    assert_eq!(c8.ram()[0x202], 0xEF);
    assert_eq!(c8.ram()[0x203], 0);
    // key 3 is up again
    c8.load_rom_from_bytes(&[0x63, 0x03, 0xE3, 0xA1]);
    c8.clock().unwrap();
    c8.clock().unwrap();
    assert_eq!(c8.pc(), 0x206);
}

#[test]
pub fn load_a_full_rom() {
    let rom = vec![0x12u8; 0xE00];
    let c8 = loaded(&rom);
    assert_eq!(c8.ram()[0xFFF], 0x12);
    assert_eq!(c8.ram()[0x200], 0x12);
}

#[test]
pub fn arithmetic_wraps_and_sets_the_flag() {
    // LD V0, FF; ADD V0, 2 -> 1, no flag
    let mut c8 = loaded(&[0x60, 0xFF, 0x70, 0x02]);
    c8.clock().unwrap();
    c8.clock().unwrap();
    assert_eq!(c8.V()[0], 1);
    assert_eq!(c8.V()[0xF], 0);
    // LD V0, FF; LD V1, 2; ADD V0, V1 -> 1, carry
    let mut c8 = loaded(&[0x60, 0xFF, 0x61, 0x02, 0x80, 0x14]);
    for _ in 0..3 {
        c8.clock().unwrap();
    }
    assert_eq!(c8.V()[0], 1);
    assert_eq!(c8.V()[0xF], 1);
    // LD V0, 1; LD V1, 2; SUB V0, V1 -> FF, flag 0
    let mut c8 = loaded(&[0x60, 0x01, 0x61, 0x02, 0x80, 0x15]);
    for _ in 0..3 {
        c8.clock().unwrap();
    }
    assert_eq!(c8.V()[0], 0xFF);
    assert_eq!(c8.V()[0xF], 0);
    // LD V0, 3; LD V1, 2; SUB V0, V1 -> 1, flag 1
    let mut c8 = loaded(&[0x60, 0x03, 0x61, 0x02, 0x80, 0x15]);
    for _ in 0..3 {
        c8.clock().unwrap();
    }
    assert_eq!(c8.V()[0], 1);
    assert_eq!(c8.V()[0xF], 1);
    // LD V0, 3; LD V1, 2; SUBN V0, V1 -> FF, flag 0
    let mut c8 = loaded(&[0x60, 0x03, 0x61, 0x02, 0x80, 0x17]);
    for _ in 0..3 {
        c8.clock().unwrap();
    }
    assert_eq!(c8.V()[0], 0xFF);
    assert_eq!(c8.V()[0xF], 0);
    // LD V0, 2; LD V1, 5; SUBN V0, V1 -> 3, flag 1
    let mut c8 = loaded(&[0x60, 0x02, 0x61, 0x05, 0x80, 0x17]);
    for _ in 0..3 {
        c8.clock().unwrap();
    }
    assert_eq!(c8.V()[0], 3);
    assert_eq!(c8.V()[0xF], 1);
    // LD V0, 81; SHR V0 -> 40, flag 1
    let mut c8 = loaded(&[0x60, 0x81, 0x80, 0x06]);
    c8.clock().unwrap();
    c8.clock().unwrap();
    assert_eq!(c8.V()[0], 0x40);
    assert_eq!(c8.V()[0xF], 1);
    // LD V0, 81; SHL V0 -> 02, flag 1
    let mut c8 = loaded(&[0x60, 0x81, 0x80, 0x0E]);
    c8.clock().unwrap();
    c8.clock().unwrap();
    assert_eq!(c8.V()[0], 0x02);
    assert_eq!(c8.V()[0xF], 1);
    // LD V0, 0C; LD V1, 0A; OR / AND / XOR
    let mut c8 = loaded(&[0x60, 0x0C, 0x61, 0x0A, 0x80, 0x11]);
    for _ in 0..3 {
        c8.clock().unwrap();
    }
    assert_eq!(c8.V()[0], 0x0E);
    let mut c8 = loaded(&[0x60, 0x0C, 0x61, 0x0A, 0x80, 0x12]);
    for _ in 0..3 {
        c8.clock().unwrap();
    }
    assert_eq!(c8.V()[0], 0x08);
    let mut c8 = loaded(&[0x60, 0x0C, 0x61, 0x0A, 0x80, 0x13]);
    for _ in 0..3 {
        c8.clock().unwrap();
    }
    assert_eq!(c8.V()[0], 0x06);
}

#[test]
pub fn flag_register_as_operand() {
    // LD VF, 5; LD V1, 1; SUB VF, V1: VF is the flag first, then the difference of flag and V1
    let mut c8 = loaded(&[0x6F, 0x05, 0x61, 0x01, 0x8F, 0x15]);
    for _ in 0..3 {
        c8.clock().unwrap();
    }
    assert_eq!(c8.V()[0xF], 0);
    // LD VF, 3; SHR VF: the flag 1 is shifted to 0
    let mut c8 = loaded(&[0x6F, 0x03, 0x8F, 0x06]);
    c8.clock().unwrap();
    c8.clock().unwrap();
    assert_eq!(c8.V()[0xF], 0);
}

#[test]
pub fn random_byte_is_masked() {
    let mut c8 = loaded(&[0xC0, 0x0F, 0xC1, 0xF0]);
    c8.clock().unwrap();
    c8.clock().unwrap();
    assert_eq!(c8.V()[0] & 0xF0, 0);
    assert_eq!(c8.V()[1] & 0x0F, 0);
    let mut c8 = loaded(&[0xC0, 0x3C]);
    c8.clock_with(0xFF).unwrap();
    assert_eq!(c8.V()[0], 0x3C);
    assert_eq!(c8.pc(), 0x202);
    let mut c8 = loaded(&[0xC0, 0x3C]);
    c8.clock_with(0x55).unwrap();
    assert_eq!(c8.V()[0], 0x14);
}

#[test]
pub fn draw_sets_the_flag_iff_a_lit_pixel_is_turned_off() {
    // glyph 0 twice at the same place: drawn, then erased with a collision
    let mut c8 = loaded(&[0xD0, 0x05, 0xD0, 0x05, 0xD0, 0x05]);
    c8.clock().unwrap();
    assert_eq!(c8.V()[0xF], 0);
    // F0 90 90 90 F0
    let fb = c8.framebuffer();
    let on = 0xFFFFFFFFu32;
    assert_eq!(&fb[0..8], &[on, on, on, on, 0, 0, 0, 0]);
    assert_eq!(&fb[64..72], &[on, 0, 0, on, 0, 0, 0, 0]);
    assert_eq!(&fb[256..264], &[on, on, on, on, 0, 0, 0, 0]);
    assert_eq!(fb.iter().filter(|p| **p == on).count(), 14);
    assert!(fb.iter().all(|p| *p == 0 || *p == on));
    c8.clock().unwrap();
    assert_eq!(c8.V()[0xF], 1);
    assert!(c8.framebuffer().iter().all(|p| *p == 0));
    c8.clock().unwrap();
    assert_eq!(c8.V()[0xF], 0);
}

#[test]
pub fn draw_wraps_around_the_screen() {
    // LD V0, 3E (62); LD V1, 1F (31); DRW V0, V1, 2  (glyph 0: F0 90)
    let mut c8 = loaded(&[0x60, 0x3E, 0x61, 0x1F, 0xD0, 0x12]);
    for _ in 0..3 {
        c8.clock().unwrap();
    }
    let fb = c8.framebuffer();
    let on = 0xFFFFFFFFu32;
    // row 31: columns 62, 63, 0, 1 lit
    assert_eq!(fb[31 * 64 + 62], on);
    assert_eq!(fb[31 * 64 + 63], on);
    assert_eq!(fb[31 * 64], on);
    assert_eq!(fb[31 * 64 + 1], on);
    assert_eq!(fb[31 * 64 + 2], 0);
    // row 0: columns 62 and 1 lit (90)
    assert_eq!(fb[62], on);
    assert_eq!(fb[63], 0);
    assert_eq!(fb[0], 0);
    assert_eq!(fb[1], on);
    assert_eq!(fb.iter().filter(|p| **p == on).count(), 6);
    // coordinates are taken modulo the screen: LD V0, 40 (64); LD V1, 20 (32); DRW V0, V1, 1
    let mut c8 = loaded(&[0x60, 0x40, 0x61, 0x20, 0xD0, 0x11]);
    for _ in 0..3 {
        c8.clock().unwrap();
    }
    assert_eq!(&c8.framebuffer()[0..5], &[on, on, on, on, 0]);
}

#[test]
pub fn draw_of_no_rows_draws_nothing() {
    let mut c8 = loaded(&[0x6F, 0x07, 0xD0, 0x00]);
    c8.clock().unwrap();
    c8.clock().unwrap();
    assert!(c8.framebuffer().iter().all(|p| *p == 0));
    assert_eq!(c8.V()[0xF], 0);
}

#[test]
pub fn clear_screen() {
    let mut c8 = loaded(&[0xD0, 0x05, 0x00, 0xE0]);
    c8.clock().unwrap();
    assert!(c8.framebuffer().iter().any(|p| *p != 0));
    c8.clock().unwrap();
    assert!(c8.framebuffer().iter().all(|p| *p == 0));
}

#[test]
pub fn keys() {
    // LD V0, 7; SKP V0; SKNP V0
    let mut c8 = loaded(&[0x60, 0x07, 0xE0, 0x9E, 0x00, 0xE0, 0xE0, 0xA1]);
    c8.set_key(7, 1);
    c8.clock().unwrap();
    c8.clock().unwrap();
    assert_eq!(c8.pc(), 0x206);
    c8.clock().unwrap();
    assert_eq!(c8.pc(), 0x208);
    // LD V3, K waits, then takes the lowest key that is down
    let mut c8 = loaded(&[0xF3, 0x0A]);
    c8.clock().unwrap();
    assert_eq!(c8.pc(), 0x200);
    c8.set_key(9, 1);
    c8.set_key(4, 200);
    c8.set_key(15, 1);
    c8.clock().unwrap();
    assert_eq!(c8.pc(), 0x202);
    assert_eq!(c8.V()[3], 4);
    c8.set_key(4, 0);
    c8.load_state();
    assert_eq!(c8.pc(), 0);
}

#[test]
pub fn timers_count_down_to_zero() {
    let mut c8 = loaded(&[0x60, 0x02, 0xF0, 0x15, 0xF0, 0x18, 0x12, 0x06]);
    c8.clock().unwrap();
    c8.clock().unwrap();
    assert_eq!((c8.delay_timer(), c8.sound_timer()), (1, 0));
    c8.clock().unwrap();
    assert_eq!((c8.delay_timer(), c8.sound_timer()), (0, 1));
    c8.clock().unwrap();
    assert_eq!((c8.delay_timer(), c8.sound_timer()), (0, 0));
    c8.clock().unwrap();
    assert_eq!((c8.delay_timer(), c8.sound_timer()), (0, 0));
    assert_eq!(c8.pc(), 0x206);
}

#[test]
pub fn store_and_load_registers() {
    // LD V0, 11; LD V1, 22; LD V2, 33; LD I, 300; LD [I], V2; LD V0,0; LD V1,0; LD V2, 0; LD I, 300; LD V1, [I]
    let mut c8 = loaded(&[
        0x60, 0x11, 0x61, 0x22, 0x62, 0x33, 0xA3, 0x00, 0xF2, 0x55, 0x60, 0x00, 0x61, 0x00, 0x62,
        0x00, 0xA3, 0x00, 0xF1, 0x65,
    ]);
    for _ in 0..5 {
        c8.clock().unwrap();
    }
    assert_eq!(&c8.ram()[0x300..0x304], &[0x11, 0x22, 0x33, 0]);
    assert_eq!(c8.I(), 0x303);
    for _ in 0..5 {
        c8.clock().unwrap();
    }
    assert_eq!(&c8.V()[0..3], &[0x11, 0x22, 0]);
    assert_eq!(c8.I(), 0x302);
}

#[test]
pub fn bcd_of_every_digit_place() {
    // LD V4, FF; LD I, 400; LD B, V4
    let mut c8 = loaded(&[0x64, 0xFF, 0xA4, 0x00, 0xF4, 0x33]);
    for _ in 0..3 {
        c8.clock().unwrap();
    }
    assert_eq!(&c8.ram()[0x400..0x403], &[2, 5, 5]);
    let mut c8 = loaded(&[0x64, 0x07, 0xA4, 0x00, 0xF4, 0x33]);
    for _ in 0..3 {
        c8.clock().unwrap();
    }
    assert_eq!(&c8.ram()[0x400..0x403], &[0, 0, 7]);
}

#[test]
pub fn font_address_and_index_arithmetic() {
    // LD V0, FF; LD F, V0 -> I = 255 * 5
    let mut c8 = loaded(&[0x60, 0xFF, 0xF0, 0x29, 0xF0, 0x1E]);
    c8.clock().unwrap();
    c8.clock().unwrap();
    assert_eq!(c8.I(), 1275);
    c8.clock().unwrap();
    assert_eq!(c8.I(), 1530);
    // LD V0, FF; JP V0, FFF
    let mut c8 = loaded(&[0x60, 0xFF, 0xBF, 0xFF]);
    c8.clock().unwrap();
    c8.clock().unwrap();
    assert_eq!(c8.pc(), 0x10FE);
    assert_eq!(c8.clock(), Err(Chip8Error::MemoryOutOfRange));
    assert_eq!(c8.pc(), 0x10FE);
}

#[test]
pub fn low_nibble_tells_the_zero_and_e_instructions_apart() {
    // 0x0010 clears the screen, 0x001E returns, 0xE00E skips on key
    let mut c8 = loaded(&[0xD0, 0x05, 0x00, 0x10]);
    c8.clock().unwrap();
    c8.clock().unwrap();
    assert!(c8.framebuffer().iter().all(|p| *p == 0));
    let mut c8 = loaded(&[0x22, 0x04, 0x00, 0x00, 0x01, 0x2E]);
    c8.clock().unwrap();
    c8.clock().unwrap();
    assert_eq!(c8.pc(), 0x202);
    let mut c8 = loaded(&[0xE0, 0x0E]);
    c8.set_key(0, 1);
    c8.clock().unwrap();
    assert_eq!(c8.pc(), 0x204);
}

#[test]
pub fn tick_errors_leave_the_machine_as_it_was() {
    // no instruction
    let mut c8 = loaded(&[0x81, 0x28]);
    assert_eq!(c8.clock(), Err(Chip8Error::NullOperator));
    assert_eq!(c8.pc(), 0x200);
    let mut c8 = loaded(&[0xF1, 0xFF]);
    assert_eq!(c8.clock(), Err(Chip8Error::NullOperator));
    let mut c8 = loaded(&[0x00, 0x0F]);
    assert_eq!(c8.clock(), Err(Chip8Error::NullOperator));
    let mut c8 = loaded(&[0xE0, 0x00]);
    assert_eq!(c8.clock(), Err(Chip8Error::NullOperator));
    // return at an empty stack
    let mut c8 = loaded(&[0x00, 0xEE]);
    assert_eq!(c8.clock(), Err(Chip8Error::StackUnderflow));
    assert_eq!((c8.pc(), c8.sp()), (0x200, 0));
    // seventeen calls
    let mut c8 = loaded(&[0x22, 0x00]);
    for depth in 0..16 {
        assert_eq!(c8.sp(), depth);
        c8.clock().unwrap();
    }
    assert_eq!(c8.sp(), 16);
    assert_eq!(c8.clock(), Err(Chip8Error::StackOverflow));
    assert_eq!((c8.pc(), c8.sp()), (0x200, 16));
    // key above 15
    let mut c8 = loaded(&[0x60, 0x10, 0xE0, 0x9E]);
    c8.clock().unwrap();
    assert_eq!(c8.clock(), Err(Chip8Error::KeyOutOfRange));
    assert_eq!(c8.pc(), 0x202);
    let mut c8 = loaded(&[0x60, 0x10, 0xE0, 0xA1]);
    c8.clock().unwrap();
    assert_eq!(c8.clock(), Err(Chip8Error::KeyOutOfRange));
    // memory past the end: LD I, FFE; LD B, V0 / LD [I], V2 / LD V2, [I] / DRW 3 rows
    let mut c8 = loaded(&[0xAF, 0xFE, 0xF0, 0x33]);
    c8.clock().unwrap();
    assert_eq!(c8.clock(), Err(Chip8Error::MemoryOutOfRange));
    assert_eq!((c8.pc(), c8.I()), (0x202, 0xFFE));
    let mut c8 = loaded(&[0xAF, 0xFE, 0xF2, 0x55]);
    c8.clock().unwrap();
    assert_eq!(c8.clock(), Err(Chip8Error::MemoryOutOfRange));
    let mut c8 = loaded(&[0xAF, 0xFE, 0xF2, 0x65]);
    c8.clock().unwrap();
    assert_eq!(c8.clock(), Err(Chip8Error::MemoryOutOfRange));
    let mut c8 = loaded(&[0xAF, 0xFE, 0xD0, 0x03]);
    c8.clock().unwrap();
    assert_eq!(c8.clock(), Err(Chip8Error::MemoryOutOfRange));
    assert!(c8.framebuffer().iter().all(|p| *p == 0));
    // the last bytes of memory can be used
    let mut c8 = loaded(&[0xAF, 0xFD, 0xF0, 0x33, 0xAF, 0xFE, 0xF1, 0x55, 0xAF, 0xFE, 0xD0, 0x02]);
    for _ in 0..6 {
        c8.clock().unwrap();
    }
    // running off the end of memory
    let mut c8 = loaded(&[0x1F, 0xFE]);
    c8.clock().unwrap();
    c8.clock().unwrap();
    assert_eq!(c8.pc(), 0x1000);
    assert_eq!(c8.clock(), Err(Chip8Error::MemoryOutOfRange));
    let mut c8 = loaded(&[0x1F, 0xFF]);
    c8.clock().unwrap();
    assert_eq!(c8.clock(), Err(Chip8Error::MemoryOutOfRange));
    // a fresh machine runs from address zero: the font's F0 90 is no instruction
    let mut c8 = Chip8::new();
    c8.clock().unwrap();
    assert_eq!(c8.pc(), 2);
}

#[test]
pub fn save_and_load_state() {
    let mut c8 = loaded(&[0x60, 0x05, 0xD0, 0x05, 0xA1, 0x23, 0x22, 0x08]);
    c8.clock().unwrap();
    c8.clock().unwrap();
    c8.save_state();
    let pixels = c8.framebuffer().clone();
    c8.clock().unwrap();
    c8.clock().unwrap();
    c8.set_key(1, 1);
    assert_eq!((c8.pc(), c8.I(), c8.sp()), (0x208, 0x123, 1));
    c8.load_state();
    assert_eq!((c8.pc(), c8.I(), c8.sp()), (0x204, 0, 0));
    assert_eq!(c8.V()[0], 5);
    assert_eq!(*c8.framebuffer(), pixels);
    c8.clock().unwrap();
    assert_eq!(c8.I(), 0x123);
    c8.load_state();
    assert_eq!(c8.I(), 0);
}

#[test]
pub fn skips() {
    // SE V0, 1 (no skip); SNE V0, 0 (no skip); LD V1, 1; SE V0, V1 (no); SNE V0, V1 (skip)
    let mut c8 = loaded(&[0x30, 0x01, 0x40, 0x00, 0x61, 0x01, 0x50, 0x10, 0x90, 0x10]);
    c8.clock().unwrap();
    assert_eq!(c8.pc(), 0x202);
    c8.clock().unwrap();
    assert_eq!(c8.pc(), 0x204);
    c8.clock().unwrap();
    c8.clock().unwrap();
    assert_eq!(c8.pc(), 0x208);
    c8.clock().unwrap();
    assert_eq!(c8.pc(), 0x20C);
}

#[test]
pub fn compiled_program_runs() {
    let mut l = Lexer::new("var a = 3; var b = 0; while (a != 0) { a = a - 1; b = b + 2; }");
    l.lex();
    let mut c = Compiler::new_from_lexer(&l);
    c.compile().unwrap();
    let mut a = Assembler::new_from_compiler(&c);
    a.assemble();
    let mut c8 = Chip8::new();
    c8.load_rom_from_assembler(&a);
    let end = 0x200 + a.binary().len() as u16;
    let mut ticks = 0;
    while c8.pc() != end {
        c8.clock().unwrap();
        ticks += 1;
        assert!(ticks < 1000);
    }
    assert_eq!(c8.V()[0], 0);
    assert_eq!(c8.V()[1], 6);
}

#[test]
pub fn ticks_keep_the_machine_well_formed() {
    let mut l = Lexer::new(
        "var n = 9; while (n != 0) { DRAW(RAND(63), RAND(31), 5); DRAW(n, n, 15); n = n - 1; }",
    );
    l.lex();
    let mut c = Compiler::new_from_lexer(&l);
    c.compile().unwrap();
    let mut a = Assembler::new_from_compiler(&c);
    a.assemble();
    let mut c8 = Chip8::new();
    c8.load_rom_from_assembler(&a);
    let end = 0x200 + a.binary().len() as u16;
    let mut ticks = 0;
    while c8.pc() != end {
        c8.clock().unwrap();
        ticks += 1;
        assert!(ticks < 10000);
        assert!(c8.pc() <= 0xFFF);
        assert!(c8.sp() <= 16);
        assert!(c8.framebuffer().iter().all(|p| *p == 0 || *p == 0xFFFFFFFF));
        assert!(c8.V()[0xF] == 0 || c8.V()[0xF] == 1);
    }
    assert_eq!(c8.V()[0], 0);
}

#[test]
pub fn subtraction_sets_the_flag_where_nothing_is_borrowed() {
    // LD V0, 7; LD V1, 7; SUB V0, V1 -> 0, flag 1
    let mut c8 = loaded(&[0x60, 0x07, 0x61, 0x07, 0x80, 0x15]);
    for _ in 0..3 {
        c8.clock().unwrap();
    }
    assert_eq!(c8.V()[0], 0);
    assert_eq!(c8.V()[0xF], 1);
    // LD V0, 7; LD V1, 7; SUBN V0, V1 -> 0, flag 1
    let mut c8 = loaded(&[0x60, 0x07, 0x61, 0x07, 0x80, 0x17]);
    for _ in 0..3 {
        c8.clock().unwrap();
    }
    assert_eq!(c8.V()[0], 0);
    assert_eq!(c8.V()[0xF], 1);
    // LD V0, 6; LD V1, 7; SUB V0, V1 -> FF, flag 0
    let mut c8 = loaded(&[0x60, 0x06, 0x61, 0x07, 0x80, 0x15]);
    for _ in 0..3 {
        c8.clock().unwrap();
    }
    assert_eq!(c8.V()[0], 0xFF);
    assert_eq!(c8.V()[0xF], 0);
}
