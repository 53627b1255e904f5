use chip8_toolchain::compiler::asm_bytes_len;
use chip8_toolchain::compiler::CompileError;
use chip8_toolchain::compiler::Compiler;
use chip8_toolchain::compiler::Opcode;
use chip8_toolchain::compiler::Opcode::{
    AddRegReg, DRWRegRegNibble, LDDTReg, LDFReg, LDIAddr, LDIReg, LDRegByte, LDRegDT, LDRegI,
    LDRegKey, LDRegReg, LDSTReg, RNDRegByte, SERegReg, SNERegReg, SubRegReg, CALL, JP, RET,
};
use chip8_toolchain::compiler::Precedence;
use chip8_toolchain::lexer::Lexer;
use chip8_toolchain::lexer::TokenType::Var;
use chip8_toolchain::utils;

fn compiled(src: &str) -> Compiler {
    let mut l = Lexer::new(src);
    l.lex();
    let mut c = Compiler::new_from_lexer(&l);
    assert_eq!(c.compile(), Ok(()));
    c
}

fn failure(src: &str) -> CompileError {
    let mut l = Lexer::new(src);
    l.lex();
    let mut c = Compiler::new_from_lexer(&l);
    c.compile().unwrap_err()
}

#[test]
pub fn test_check() {
    let mut l = Lexer::new("var test 123 55");
    l.lex();
    let c = Compiler::new_from_lexer(&l);
    assert!(c.check(Var));
}

#[test]
pub fn test_number() {
    let mut l = Lexer::new("10; 5;");
    l.lex();
    let mut c = Compiler::new_from_lexer(&l);
    c.compile().unwrap();

    let mut l = Lexer::new("12 + 3 + 7 + 2;");
    l.lex();
    let mut c = Compiler::new_from_lexer(&l);
    assert_eq!(c.reg_stack_top(), 0);
    c.compile().unwrap();
    assert!(utils::vectors_equivalent(
        c.opcodes().clone(),
        vec![
            LDRegByte(0, 12),
            LDRegByte(1, 3),
            AddRegReg(0, 1),
            LDRegByte(1, 7),
            AddRegReg(0, 1),
            LDRegByte(1, 2),
            AddRegReg(0, 1),
        ]
    ));

    assert_eq!(c.reg_stack_top(), 0);
}

#[test]
pub fn compiler_test_sub() {
    let c = compiled("9 - 7;");
    assert!(utils::vectors_equivalent(
        c.opcodes().clone(),
        vec![LDRegByte(0, 9), LDRegByte(1, 7), SubRegReg(0, 1)]
    ));
    assert_eq!(c.reg_stack_top(), 0);
}

#[test]
pub fn test_variable() {
    let c = compiled("var a = 3; a;");
    assert!(utils::vectors_equivalent(
        c.opcodes().clone(),
        vec![LDRegByte(0, 3), LDRegReg(1, 0)]
    ));
    assert_eq!(c.reg_stack_top(), 1);
}

#[test]
pub fn test_variable_assignment() {
    let c = compiled("var a = 1; a + 4; var b = 2; var c = b + a; c = a;");
    assert!(utils::vectors_equivalent(
        c.opcodes().clone(),
        vec![
            LDRegByte(0, 1),
            LDRegReg(1, 0),
            LDRegByte(2, 4),
            AddRegReg(1, 2),
            LDRegByte(1, 2),
            LDRegReg(2, 1),
            LDRegReg(3, 0),
            AddRegReg(2, 3),
            LDRegReg(3, 0),
            LDRegReg(2, 3)
        ]
    ));
    assert_eq!(c.reg_stack_top(), 3);
}

#[test]
pub fn test_lexical_scope() {
    let c = compiled("var a = 1; { var b = 4; } var c = 7;");
    assert!(utils::vectors_equivalent(
        c.opcodes().clone(),
        vec![LDRegByte(0, 1), LDRegByte(1, 4), LDRegByte(1, 7),]
    ));
    assert_eq!(c.reg_stack_top(), 2);
}

#[test]
pub fn test_if() {
    let c = compiled("if (1+3 == 4) { 10; } 5;");
    assert!(utils::vectors_equivalent(
        c.opcodes().clone(),
        vec![
            LDRegByte(0, 1),
            LDRegByte(1, 3),
            AddRegReg(0, 1),
            LDRegByte(1, 4),
            SERegReg(0, 1),
            JP(0x20E),
            LDRegByte(0, 10),
            LDRegByte(0, 5)
        ]
    ));
}

#[test]
pub fn test_if_else() {
    let c = compiled("var a = 0; if (1 == 2) a = 5; else a = 9;");
    assert!(utils::vectors_equivalent(
        c.opcodes().clone(),
        vec![
            LDRegByte(0, 0),
            LDRegByte(1, 1),
            LDRegByte(2, 2),
            SERegReg(1, 2),
            JP(0x210),
            LDRegByte(1, 5),
            LDRegReg(0, 1),
            JP(0x214),
            LDRegByte(1, 9),
            LDRegReg(0, 1)
        ]
    ));
}

#[test]
pub fn test_and() {
    let c = compiled("if (2 == 2 and 4 == 4) 5; else 9;");
    assert!(utils::vectors_equivalent(
        c.opcodes().clone(),
        vec![
            LDRegByte(0, 2),
            LDRegByte(1, 2),
            SERegReg(0, 1),
            JP(0x20E),
            LDRegByte(0, 4),
            LDRegByte(1, 4),
            SERegReg(0, 1),
            JP(0x214),
            LDRegByte(0, 5),
            JP(0x216),
            LDRegByte(0, 9)
        ]
    ));
}

#[test]
pub fn test_not_equal() {
    let c = compiled("if (1 != 5) 3;");
    assert!(utils::vectors_equivalent(
        c.opcodes().clone(),
        vec![LDRegByte(0, 1), LDRegByte(1, 5), SNERegReg(0, 1), JP(0x20A), LDRegByte(0, 3),]
    ));
}

#[test]
pub fn test_or() {
    let c = compiled("if (1 != 1 or 3 == 3) 8; else 5;");

    assert!(utils::vectors_equivalent(
        c.opcodes().clone(),
        vec![
            LDRegByte(0, 1),
            LDRegByte(1, 1),
            SNERegReg(0, 1),
            JP(0x20A),
            JP(0x212),
            LDRegByte(0, 3),
            LDRegByte(1, 3),
            SERegReg(0, 1),
            JP(0x216),
            LDRegByte(0, 8),
            JP(0x218),
            LDRegByte(0, 5),
        ]
    ));
}

#[test]
pub fn test_while() {
    let c = compiled("var a = 255; while (a != 0) { a = a - 1; }");

    assert!(utils::vectors_equivalent(
        c.opcodes().clone(),
        vec![
            LDRegByte(0, 255),
            LDRegReg(1, 0),
            LDRegByte(2, 0),
            SNERegReg(1, 2),
            JP(0x214),
            LDRegReg(1, 0),
            LDRegByte(2, 1),
            SubRegReg(1, 2),
            LDRegReg(0, 1),
            JP(0x202),
        ]
    ));
}

#[test]
pub fn test_fn_without_args() {
    let c = compiled("var variable = 6; fn test() {5;} test(); variable;");

    assert!(utils::vectors_equivalent(
        c.opcodes().clone(),
        vec![
            LDRegByte(0, 6),
            JP(528),
            LDRegByte(0, 5),
            LDRegByte(14, 3),
            SubRegReg(13, 14),
            LDFReg(13),
            LDRegI(13),
            RET,
            LDFReg(13),
            LDIReg(13),
            LDRegByte(14, 3),
            AddRegReg(13, 14),
            CALL(516),
            LDRegReg(1, 0),
        ]
    ));
}

#[test]
pub fn test_fn_nested_call_with_args() {
    let c = compiled("var variable = 9; fn test(num) {var a = 5; num;} test(1); variable;");

    assert!(utils::vectors_equivalent(
        c.opcodes().clone(),
        vec![
            LDRegByte(0, 9),
            JP(530),
            LDRegByte(1, 5),
            LDRegReg(2, 0),
            LDRegByte(14, 3),
            SubRegReg(13, 14),
            LDFReg(13),
            LDRegI(13),
            RET,
            LDFReg(13),
            LDIReg(13),
            LDRegByte(14, 3),
            AddRegReg(13, 14),
            LDRegByte(1, 1),
            LDRegReg(0, 1),
            CALL(516),
            LDRegReg(1, 0),
        ]
    ));
}

#[test]
pub fn test_fn_with_args() {
    let c = compiled(
        "var glob1 = 7;
            var glob2 = 3;
            
            fn doubleloop(num1, num2) {
              var num2backup = num2;
              while(num1 != 0) {
                 while(num2 != 0) {
                     num2 = num2 - 1;
                 }
               num2 = num2backup;
               num1 = num1 - 1;
              }
            }
            
            var glob3 = 255;
            
            doubleloop(glob2, glob1);
            
            var glob4 = 128;
            
            glob3;",
    );

    assert!(utils::vectors_equivalent(
        c.opcodes().clone(),
        vec![
            LDRegByte(0, 7),
            LDRegByte(1, 3),
            JP(570),
            LDRegReg(2, 1),
            LDRegReg(3, 0),
            LDRegByte(4, 0),
            SNERegReg(3, 4),
            JP(560),
            LDRegReg(3, 1),
            LDRegByte(4, 0),
            SNERegReg(3, 4),
            JP(546),
            LDRegReg(3, 1),
            LDRegByte(4, 1),
            SubRegReg(3, 4),
            LDRegReg(1, 3),
            JP(528),
            LDRegReg(3, 2),
            LDRegReg(1, 3),
            LDRegReg(3, 0),
            LDRegByte(4, 1),
            SubRegReg(3, 4),
            LDRegReg(0, 3),
            JP(520),
            LDRegByte(14, 3),
            SubRegReg(13, 14),
            LDFReg(13),
            LDRegI(13),
            RET,
            LDRegByte(2, 255),
            LDFReg(13),
            LDIReg(13),
            LDRegByte(14, 3),
            AddRegReg(13, 14),
            LDRegReg(3, 1),
            LDRegReg(4, 0),
            LDRegReg(0, 3),
            LDRegReg(1, 4),
            CALL(518),
            LDRegByte(3, 128),
            LDRegReg(4, 2),
        ]
    ));
}

#[test]
#[allow(non_snake_case)]
pub fn test_draw_rand_key_delay_I() {
    let c = compiled(
        "
        var testvar = 10;

        fn drawrand(times, delay) {
            I = 20;
            while(times != 0) {
               times = times - 1;
               KEY();
               DT = delay;
               while (DT != 0) {}
               DRAW(RAND(255),RAND(255),5);
            }
        }   
        drawrand(testvar, 50);
        while(1 == 1) {7;}",
    );
    println!("TEST I");

    assert!(utils::vectors_equivalent(
        c.opcodes().clone(),
        vec![
            LDRegByte(0, 10),
            JP(568),
            LDIAddr(20),
            LDRegReg(2, 0),
            LDRegByte(3, 0),
            SNERegReg(2, 3),
            JP(558),
            LDRegReg(2, 0),
            LDRegByte(3, 1),
            SubRegReg(2, 3),
            LDRegReg(0, 2),
            LDRegKey(2),
            LDRegReg(2, 1),
            LDDTReg(2),
            LDRegDT(2),
            LDRegByte(3, 0),
            SNERegReg(2, 3),
            JP(550),
            JP(540),
            RNDRegByte(2, 255),
            RNDRegByte(3, 255),
            DRWRegRegNibble(2, 3, 5),
            JP(518),
            LDRegByte(14, 3),
            SubRegReg(13, 14),
            LDFReg(13),
            LDRegI(13),
            RET,
            LDFReg(13),
            LDIReg(13),
            LDRegByte(14, 3),
            AddRegReg(13, 14),
            LDRegReg(1, 0),
            LDRegByte(2, 50),
            LDRegReg(0, 1),
            LDRegReg(1, 2),
            CALL(516),
            LDRegByte(1, 1),
            LDRegByte(2, 1),
            SERegReg(1, 2),
            JP(598),
            LDRegByte(1, 7),
            JP(586),
        ]
    ));
}

#[test]
pub fn asm_bytes_len_is_two_bytes_per_opcode_from_0x200() {
    assert_eq!(asm_bytes_len(0), 0x200);
    assert_eq!(asm_bytes_len(1), 0x202);
    assert_eq!(asm_bytes_len(7), 0x20E);
    assert_eq!(asm_bytes_len(1792), 0x1000);
}

#[test]
pub fn expression_statements_leave_the_register_stack_empty() {
    let c = compiled("1; 2 + 3; 4 - 5 + 6; KEY(); RAND(7); DT;");
    assert_eq!(c.reg_stack_top(), 0);
    let c = compiled("var a = 1; var b = a; { var c = 2; c; } a = b;");
    assert_eq!(c.reg_stack_top(), 2);
}

#[test]
pub fn no_placeholder_survives() {
    let c = compiled(
        "var a = 3; fn f(x) { if (x == 1 or x == 2 and a != 3) { a = 1; } else { while (a != 0) a = a - 1; } } f(a);",
    );
    let end = 0x200 + 2 * c.opcodes().len() as u16;
    for op in c.opcodes().iter() {
        match op {
            JP(addr) | CALL(addr) => {
                assert!(*addr >= 0x200 && *addr <= 0xFFF);
                assert!(*addr % 2 == 0);
                assert!(*addr <= end + 2);
            }
            _ => {}
        }
    }
    // an `or` at the very end jumps one instruction past the program
    let c = compiled("1 or 2;");
    assert!(utils::vectors_equivalent(
        c.opcodes().clone(),
        vec![LDRegByte(0, 1), JP(0x206), JP(0x20A), LDRegByte(1, 2)]
    ));
}

#[test]
pub fn line_map_records_the_source_line_of_each_opcode() {
    let c = compiled("1;\n2;\n\nvar a = 3;");
    assert_eq!(c.line_of(0x200), Some(0));
    assert_eq!(c.line_of(0x202), Some(1));
    assert_eq!(c.line_of(0x204), Some(3));
    assert_eq!(c.line_of(0x206), None);
    assert_eq!(c.line_of(0x201), None);
}

#[test]
pub fn stringify_asm_lists_the_opcodes() {
    let c = compiled("var a = 12; while (a != 0) { DRAW(a, a, 5); }");
    assert_eq!(
        c.stringify_asm(),
        "LDRegByte(0, 12)\nLDRegReg(1, 0)\nLDRegByte(2, 0)\nSNERegReg(1, 2)\nJP(530)\nLDRegReg(1, 0)\nLDRegReg(2, 0)\nDRWRegRegNibble(1, 2, 5)\nJP(514)"
    );
    let c = compiled("");
    assert_eq!(c.stringify_asm(), "");
    assert_eq!(RET.to_string(), "RET");
    assert_eq!(CALL(4095).to_string(), "CALL(4095)");
}

#[test]
pub fn builtins_compile() {
    let c = compiled("ST = 5; DT = 6; I = 4095;");
    assert!(utils::vectors_equivalent(
        c.opcodes().clone(),
        vec![LDRegByte(0, 5), LDSTReg(0), LDRegByte(0, 6), LDDTReg(0), LDIAddr(4095)]
    ));
    assert_eq!(c.reg_stack_top(), 0);
}

#[test]
pub fn assignment_needs_assignment_precedence() {
    assert_eq!(failure("var a = 1; 2 + a = 3;"), CompileError::UnexpectedToken);
    let c = compiled("var a = 1; a = 2 + 3;");
    assert!(utils::vectors_equivalent(
        c.opcodes().clone(),
        vec![LDRegByte(0, 1), LDRegByte(1, 2), LDRegByte(2, 3), AddRegReg(1, 2), LDRegReg(0, 1)]
    ));
}

#[test]
pub fn compile_errors() {
    assert_eq!(failure("1"), CompileError::NoRule);
    assert_eq!(failure("1 2;"), CompileError::UnexpectedToken);
    assert_eq!(failure("1 {"), CompileError::NoRule);
    assert_eq!(failure(";"), CompileError::NoPrefixRule);
    assert_eq!(failure("1 + ;"), CompileError::NoPrefixRule);
    assert_eq!(failure("if 1"), CompileError::UnexpectedToken);
    assert_eq!(failure("{ 1;"), CompileError::UnexpectedToken);
    assert_eq!(failure("var 1 = 2;"), CompileError::ExpectedIdentifier);
    assert_eq!(failure("fn (a) {}"), CompileError::ExpectedIdentifier);
    assert_eq!(failure("fn f(1) {}"), CompileError::ExpectedIdentifier);
    assert_eq!(failure("var a;"), CompileError::MissingInitialiser);
    assert_eq!(failure("I = a;"), CompileError::ExpectedNumber);
    assert_eq!(failure("RAND(a);"), CompileError::ExpectedNumber);
    assert_eq!(failure("DRAW(1, 2, a);"), CompileError::ExpectedNumber);
    assert_eq!(failure("ST;"), CompileError::ExpectedEquals);
    assert_eq!(failure("I;"), CompileError::ExpectedEquals);
    assert_eq!(failure("RAND;"), CompileError::ExpectedParen);
    assert_eq!(failure("KEY;"), CompileError::ExpectedParen);
    assert_eq!(failure("a;"), CompileError::UnknownVariable);
    assert_eq!(failure("a = 1;"), CompileError::UnknownVariable);
    assert_eq!(failure("f();"), CompileError::UnknownFunction);
    assert_eq!(failure("256;"), CompileError::LiteralOutOfRange);
    assert_eq!(failure("I = 4096;"), CompileError::LiteralOutOfRange);
    assert_eq!(failure("RAND(256);"), CompileError::LiteralOutOfRange);
    assert_eq!(failure("DRAW(1, 2, 0);"), CompileError::LiteralOutOfRange);
    assert_eq!(failure("DRAW(1, 2, 16);"), CompileError::LiteralOutOfRange);
    assert_eq!(failure("1 == 2;"), CompileError::RegisterStackUnderflow);
    assert_eq!(failure("fn f(a, b) {} f();"), CompileError::ArityMismatch);
    assert_eq!(failure("fn f(a, b) {} f(1);"), CompileError::ArityMismatch);
    assert_eq!(failure("fn f(a, b) {} f(1, 2, 3);"), CompileError::ArityMismatch);
    assert_eq!(failure("fn f() {} f(1);"), CompileError::ArityMismatch);
    assert_eq!(failure("fn f(a) {} f(1 == 2);"), CompileError::RegisterStackUnderflow);
    assert_eq!(failure("1+(2"), CompileError::NoRule);
}

#[test]
pub fn compile_without_tokens_is_an_error() {
    let l = Lexer::new("1;");
    let mut c = Compiler::new_from_lexer(&l);
    assert_eq!(c.compile(), Err(CompileError::UnexpectedEnd));
}

#[test]
pub fn registers_run_out_at_the_reserved_ones() {
    let mut src = String::new();
    for i in 0..13 {
        src.push_str(&format!("var v{} = {};", i, i));
    }
    let c = compiled(&src);
    assert_eq!(c.reg_stack_top(), 13);
    src.push_str("var w = 1;");
    assert_eq!(failure(&src), CompileError::OutOfRegisters);
    assert_eq!(
        failure("fn f(a,b,c,d,e,f,g,h,i,j,k,l,m,n) {}"),
        CompileError::OutOfRegisters
    );
}

#[test]
pub fn program_must_fit_into_memory() {
    let mut src = String::new();
    for _ in 0..1792 {
        src.push_str("1;");
    }
    let c = compiled(&src);
    assert_eq!(c.opcodes().len(), 1792);
    src.push_str("1;");
    assert_eq!(failure(&src), CompileError::ProgramTooLarge);

    let mut src = String::new();
    for _ in 0..1787 {
        src.push_str("1;");
    }
    src.push_str("if (1 == 1) 2;");
    assert_eq!(failure(&src), CompileError::ProgramTooLarge);
}

#[test]
pub fn precedence_levels() {
    assert_eq!(Precedence::Lowest.to_u8(), 0);
    assert_eq!(Precedence::Primary.to_u8(), 7);
    assert_eq!(Precedence::try_from_u8(5), Some(Precedence::Term));
    assert_eq!(Precedence::try_from_u8(8), None);
    assert!(Precedence::Assignment < Precedence::Or);
    assert!(Precedence::Term > Precedence::Equality);
    for level in 0..8 {
        assert_eq!(Precedence::try_from_u8(level).unwrap().to_u8(), level);
    }
}

#[test]
pub fn lookup_finds_the_newest_variable() {
    let c = compiled("var a = 1; var b = 2; { var a = 3; }");
    assert_eq!(c.lookup_variable_register(String::from("a")), Some(0));
    assert_eq!(c.lookup_variable_register(String::from("b")), Some(1));
    assert_eq!(c.lookup_variable_register(String::from("c")), None);
    let mut l = Lexer::new("var a = 1; { var a = 3; a;");
    l.lex();
    let mut c = Compiler::new_from_lexer(&l);
    assert_eq!(c.compile(), Err(CompileError::UnexpectedToken));
    assert_eq!(c.lookup_variable_register(String::from("a")), Some(1));
}

#[test]
pub fn opcode_equality() {
    let a: Opcode = JP(0x200);
    assert_eq!(a, JP(0x200));
    assert!(a != JP(0x202));
    assert!(a != CALL(0x200));
}

#[test]
pub fn plain_programs_use_one_register_for_each_variable_that_is_left() {
    let c = compiled(
        "var a = 1; a = a + 2 - 3; { var b = a; var c = b = 4; { var d = KEY(); d; } DT = c; } var e = RAND(7); DRAW(a, e, 3); ST = e; I = 5; e + DT;",
    );
    assert_eq!(c.reg_stack_top(), 2);
    assert_eq!(c.lookup_variable_register(String::from("a")), Some(0));
    assert_eq!(c.lookup_variable_register(String::from("e")), Some(1));
    assert_eq!(c.lookup_variable_register(String::from("b")), None);
    // a comparison used as a value takes no register, and the next variable shares one
    let c = compiled("var a = 1 == 2; var b = 3;");
    assert_eq!(c.reg_stack_top(), 1);
    assert_eq!(c.lookup_variable_register(String::from("a")), Some(0));
    assert_eq!(c.lookup_variable_register(String::from("b")), Some(0));
    // the right operand of `and` stays on the register stack
    let c = compiled("1 and 2;");
    assert_eq!(c.reg_stack_top(), 1);
}

#[test]
pub fn registers_in_use_are_the_variables_and_the_tally_of_the_tokens() {
    // (source, if + while + and + or - comparisons)
    let cases: [(&str, i32); 10] = [
        ("", 0),
        ("1; 2 + 3;", 0),
        ("var a = 1; var b = a + 2; { var c = b; }", 0),
        ("var a = 0; if (a == 1) a = 2; else a = 3;", 0),
        ("var a = 9; while (a != 0) { a = a - 1; if (a == 4 or a == 2 and a != 3) { DT = a; } }", 0),
        ("var a = 1; if (a) a = 2;", 1),
        ("var a = 1; a and a; a or 2;", 2),
        ("var a = 1; var b = a == a;", -1),
        ("var a = 1; var b = 2; var c = a == b; var d = c != a;", -2),
        ("var a = 1; while (a == a and a) { }", 1),
    ];
    for (src, tally) in cases.iter() {
        let c = compiled(src);
        assert_eq!(c.reg_stack_top() as i32, c.live_variables() as i32 + tally, "{}", src);
    }
}

#[test]
pub fn parameters_are_freed_when_the_function_closes() {
    assert_eq!(failure("fn f(x) { } x;"), CompileError::UnknownVariable);
    assert_eq!(failure("fn f(x) { var y = x; } y;"), CompileError::UnknownVariable);
    let c = compiled("var x = 7; fn f(x, y) { x = y; } x;");
    assert_eq!(c.live_variables(), 1);
    assert_eq!(c.reg_stack_top(), 1);
    assert_eq!(c.lookup_variable_register(String::from("x")), Some(0));
    assert_eq!(c.lookup_variable_register(String::from("y")), None);
    // inside a block the function's parameters do not outlive it either
    let c = compiled("var a = 1; { fn g(p) { p; } var b = 2; } var c = 3;");
    assert_eq!(c.live_variables(), 2);
    assert_eq!(c.reg_stack_top(), 2);
}

#[test]
pub fn a_variable_has_one_initialiser() {
    assert_eq!(failure("var a = 1 = 2;"), CompileError::UnexpectedToken);
    assert_eq!(failure("var a = 1; var b = a + 1 = 2;"), CompileError::UnexpectedToken);
    let c = compiled("var a = 1; var b = a = 2;");
    assert_eq!(c.reg_stack_top(), 2);
}

#[test]
pub fn functions_leave_the_register_stack_as_they_found_it() {
    // (source, if + while + and + or - comparisons outside functions)
    let cases: [(&str, i32); 6] = [
        ("fn f() { } f();", 0),
        ("var a = 1; fn f(x, y) { var z = x + y; if (z) { z; } 1 and 2; } var b = 2; f(a, b);", 0),
        ("fn f(x) { x == x; x and x; } var a = 3; a = f(a) + f(1);", 0),
        ("var a = 1; { fn g(p) { while (p) { } } var b = 2; g(b); } var c = 3;", 0),
        ("fn f(x) { fn g(y) { y; } g(x); } if (1) f(2);", 1),
        ("fn f(x) { } var a = f(1) == f(2);", -1),
    ];
    for (src, tally) in cases.iter() {
        let c = compiled(src);
        assert_eq!(c.reg_stack_top() as i32, c.live_variables() as i32 + tally, "{}", src);
    }
}
