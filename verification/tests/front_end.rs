use tiger::ast::{Exp, Match, Unmatch};
use tiger::interp::{interp, max_args};
use tiger::lexer::{diagnostics, scan, tokenize};
use tiger::parser::compile;
use tiger::position::{get_position_info, parse_line_pos, reset_line_pos, PosInfo};
use tiger::prog::prog;
use tiger::token::Token;

#[test]
fn parse_correct() {
    let mut input = "a+b";
    let mut result = compile(input);
    result.unwrap();
    input = "a+b*c";
    result = compile(input);
    assert!(result.is_ok());
    input = "a<b+c";
    result = compile(input);
    assert!(result.is_ok());
    input = "a+(a<B)";
    result = compile(input);
    assert!(result.is_ok());
    input = "-(-1<1|2&a+b-c*d)+1-(-1)";
    result = compile(input);
    assert!(result.is_ok());
    input = "a[b]";
    result = compile(input);
    assert!(result.is_ok());
    input = "if a then if a then d else c+d";
    result = compile(input);
    assert!(result.is_ok());
    input = "f()+c/d";
    result = compile(input);
    assert!(result.is_ok());
    input = "a := 1+a[b]";
    result = compile(input);
    assert!(result.is_ok());
    result.unwrap();
    input = "a := T[a] of b";
    result = compile(input);
    assert!(result.is_ok());
    input = "b := K[b] of T[a] of b";
    result = compile(input);
    assert!(result.is_ok());
    input = "b := 1 + (a;b)";
    result = compile(input);
    assert!(result.is_ok());
    input = "while a do a+b";
    result = compile(input);
    assert!(result.is_ok());
    input = "while a do a := a[b] of a";
    result = compile(input);
    assert!(result.is_ok());
    input = "for a:= b to c do a+c/d+5";
    result = compile(input);
    assert!(result.is_ok());
    input = "for a:= b to d do a[b] of a";
    result = compile(input);
    assert!(result.is_ok());
    input = "if a<b & c>0 then a else b";
    result = compile(input);
    assert!(result.is_ok());
    input = "a.b";
    result = compile(input);
    assert!(result.is_ok());
    input = "()";
    result = compile(input);
    assert!(result.is_ok());
    input = "let var a:=b in end";
    result = compile(input);
    assert!(result.is_ok());
}

#[test]
fn parse_error() {
    let mut input = "--a";
    let mut result = compile(input);
    assert!(result.is_err());
    input = "a<b<c";
    result = compile(input);
    assert!(result.is_err());
    input = "a:=b:=c";
    result = compile(input);
    assert!(result.is_err());
    input = "{} + a";
    result = compile(input);
    assert!(result.is_err());
}

#[test]
fn position_of_offset_zero_is_line_one_column_zero() {
    let mut idx: Vec<usize> = Vec::new();
    parse_line_pos("some\ntext", &mut idx);
    assert_eq!(get_position_info(&idx, 0), PosInfo { line: 1, col: 0 });
    let mut idx2: Vec<usize> = Vec::new();
    parse_line_pos("", &mut idx2);
    assert_eq!(get_position_info(&idx2, 0), PosInfo { line: 1, col: 0 });
}

#[test]
fn columns_grow_along_a_line() {
    let mut idx: Vec<usize> = Vec::new();
    parse_line_pos("abc\ndefg", &mut idx);
    let p1 = get_position_info(&idx, 4);
    let p2 = get_position_info(&idx, 6);
    assert_eq!(p1.line, p2.line);
    assert!(p1.col < p2.col);
}

#[test]
fn crlf_is_a_single_line_boundary() {
    let mut idx: Vec<usize> = Vec::new();
    parse_line_pos("a\r\nb", &mut idx);
    assert_eq!(idx.len(), 2);
    assert_eq!(idx, vec![0, 3]);
    assert_eq!(get_position_info(&idx, 3), PosInfo { line: 2, col: 0 });
    let mut lone: Vec<usize> = Vec::new();
    parse_line_pos("a\rb\nc", &mut lone);
    assert_eq!(lone, vec![0, 2, 4]);
}

#[test]
fn reindexing_the_same_text_is_idempotent() {
    let text = "one\rtwo\r\nthree\nfour";
    let mut idx: Vec<usize> = Vec::new();
    reset_line_pos(&mut idx);
    parse_line_pos(text, &mut idx);
    let first: Vec<PosInfo> = (0..text.len()).map(|o| get_position_info(&idx, o)).collect();
    reset_line_pos(&mut idx);
    parse_line_pos(text, &mut idx);
    let second: Vec<PosInfo> = (0..text.len()).map(|o| get_position_info(&idx, o)).collect();
    assert_eq!(first, second);
}

#[test]
fn comment_yields_no_token_and_no_diagnostic() {
    let toks = tokenize("/* comment */ a");
    assert_eq!(toks.len(), 1);
    match &toks[0] {
        Token::Id(vi) => {
            assert_eq!(vi.v, "a");
            assert_eq!(vi.info, PosInfo { line: 1, col: 14 });
        }
        other => panic!("expected an identifier, got {:?}", other),
    }
    assert_eq!(diagnostics(&toks).len(), 0);
}

#[test]
fn two_character_symbols_match_before_their_prefixes() {
    let toks = tokenize(":=");
    assert_eq!(toks.len(), 1);
    assert!(matches!(&toks[0], Token::Assign(_)));
    let toks = tokenize("<=");
    assert_eq!(toks.len(), 1);
    assert!(matches!(&toks[0], Token::Le(_)));
    let toks = tokenize("<>");
    assert_eq!(toks.len(), 1);
    assert!(matches!(&toks[0], Token::Neq(_)));
    let toks = tokenize(">=");
    assert_eq!(toks.len(), 1);
    assert!(matches!(&toks[0], Token::Ge(_)));
    let toks = tokenize("< =");
    assert_eq!(toks.len(), 2);
    assert!(matches!(&toks[0], Token::Lt(_)));
    assert!(matches!(&toks[1], Token::Eq(_)));
}

#[test]
fn keyword_spelling_beats_identifier() {
    let toks = tokenize("while");
    assert_eq!(toks.len(), 1);
    assert!(matches!(&toks[0], Token::While(_)));
    let toks = tokenize("whilex");
    assert_eq!(toks.len(), 1);
    match &toks[0] {
        Token::Id(vi) => assert_eq!(vi.v, "whilex"),
        other => panic!("expected an identifier, got {:?}", other),
    }
}

#[test]
fn unrecognized_character_yields_one_error_token_and_one_diagnostic() {
    let toks = tokenize("a @ b");
    assert_eq!(toks.len(), 3);
    assert!(matches!(&toks[0], Token::Id(_)));
    match &toks[1] {
        Token::Error(vi) => {
            assert_eq!(vi.v, "@");
            assert_eq!(vi.info, PosInfo { line: 1, col: 2 });
        }
        other => panic!("expected an error token, got {:?}", other),
    }
    assert!(matches!(&toks[2], Token::Id(_)));
    let ds = diagnostics(&toks);
    assert_eq!(ds.len(), 1);
    assert_eq!(ds[0], "1.2:wrong token: @");
}

#[test]
fn line_continuation_escape_is_removed_from_string_value() {
    let toks = tokenize("\"ab\\ \\cd\"");
    assert_eq!(toks.len(), 1);
    match &toks[0] {
        Token::String(vi) => assert_eq!(vi.v, "\"abcd\""),
        other => panic!("expected a string literal, got {:?}", other),
    }
    let toks = tokenize("\"a\\ \t \\b\\n\"");
    match &toks[0] {
        Token::String(vi) => assert_eq!(vi.v, "\"ab\\n\""),
        other => panic!("expected a string literal, got {:?}", other),
    }
}

#[test]
fn integer_literals_carry_their_value_and_overflow_is_fatal() {
    let toks = tokenize("123 45");
    assert_eq!(toks.len(), 2);
    match (&toks[0], &toks[1]) {
        (Token::Int(a), Token::Int(b)) => {
            assert_eq!(a.v, 123);
            assert_eq!(b.v, 45);
        }
        other => panic!("expected two integer literals, got {:?}", other),
    }
    match &tokenize("18446744073709551615")[0] {
        Token::Int(a) => assert_eq!(a.v, u64::MAX),
        other => panic!("expected an integer literal, got {:?}", other),
    }
    assert!(scan("18446744073709551616").is_err());
    assert!(scan("99999999999999999999999 a").is_err());
}

#[test]
fn unclosed_comment_scans_as_divide() {
    let toks = tokenize("/* x");
    assert_eq!(toks.len(), 3);
    assert!(matches!(&toks[0], Token::Divide(_)));
    assert!(matches!(&toks[1], Token::Times(_)));
    assert!(matches!(&toks[2], Token::Id(_)));
}

#[test]
fn dangling_else_binds_to_the_inner_conditional() {
    let tree = compile("if a then if b then c else d").unwrap();
    match *tree {
        Exp::Unmatch(outer) => match *outer {
            Unmatch::IfThen { if_exp: _, then_exp } => match *then_exp {
                Exp::Match(inner) => {
                    assert!(matches!(*inner, Match::IfThenElse { .. }));
                }
                other => panic!("inner conditional should be closed, got {:?}", other),
            },
            other => panic!("outer conditional should be then-only, got {:?}", other),
        },
        other => panic!("whole parse should be an open conditional, got {:?}", other),
    }
}

#[test]
fn example_program_weight_and_output() {
    let p = prog();
    assert_eq!(max_args(&p), 2);
    let out = interp(&p);
    assert_eq!(out, vec![vec![8, 7], vec![80]]);
}
