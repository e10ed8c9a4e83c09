//! Component-level checks: the tokenizer's round-trip shape, the parser's
//! diagnostics, the numeric layer, and the shape of lowered functions.

use pseudocode::compiler::compile_function;
use pseudocode::compiler::VMInstructionType;
use pseudocode::interpreter::builtin::builtin_add;
use pseudocode::interpreter::builtin::builtin_div;
use pseudocode::interpreter::builtin::builtin_indexing;
use pseudocode::interpreter::builtin::get_args1;
use pseudocode::interpreter::builtin::get_args2;
use pseudocode::interpreter::Heap;
use pseudocode::interpreter::Value;
use pseudocode::numerics::num_parse;
use pseudocode::numerics::num_render;
use pseudocode::numerics::u64_to_string;
use pseudocode::parser::ParserContext;
use pseudocode::tokenizer::Token;
use pseudocode::tokenizer::TokenData;
use pseudocode::tokenizer::TokenStream;

fn tokens_of(source: &str) -> Vec<Token> {
    let mut stream = TokenStream::from_source(source, "test.pseudo");
    stream.collect_tokens()
}

fn text_of(token: &Token) -> String {
    token.extract_text().to_string()
}

#[test]
fn tokens_tile_the_source_and_end_of_file_is_unique_and_last() {
    let source = "Test()\n  x = 1 + 23  // a comment\n  return x\n";
    let tokens = tokens_of(source);
    let chars: Vec<char> = source.chars().collect();
    let mut eof_count = 0;
    let mut previous_end = 0;
    for token in &tokens {
        if let TokenData::EndOfFile = token.data {
            eof_count += 1;
            continue;
        }
        let text = text_of(token);
        let start = token.location.index;
        let slice: String = chars[start..start + text.chars().count()].iter().collect();
        assert_eq!(slice, text);
        assert!(start >= previous_end);
        previous_end = start + text.chars().count();
    }
    assert_eq!(eof_count, 1);
    assert!(matches!(tokens.last().unwrap().data, TokenData::EndOfFile));
}

#[test]
fn indentation_tokens_stand_only_at_starts_of_non_blank_lines() {
    let source = "A()\n  x = 1\n\n   \n  y = 2\n";
    let tokens = tokens_of(source);
    let chars: Vec<char> = source.chars().collect();
    let mut indentation_count = 0;
    for token in &tokens {
        if let TokenData::Indentation(text) = &token.data {
            indentation_count += 1;
            let start = token.location.index;
            assert_eq!(chars[start - 1], '\n');
            for c in text.chars() {
                assert!(c == ' ' || c == '\r');
            }
            let end = start + text.chars().count();
            assert!(end == chars.len() || (chars[end] != ' ' && chars[end] != '\n'));
        }
    }
    // Two indented statements: the blank lines in between produce none.
    assert_eq!(indentation_count, 2);
}

#[test]
fn blank_only_lines_produce_no_indentation_token() {
    let tokens = tokens_of("A()\n   \n\nB()\n");
    for token in &tokens {
        assert!(!matches!(token.data, TokenData::Indentation(_)));
    }
}

#[test]
fn compound_symbols_tokenize_as_one_token() {
    let tokens = tokens_of("a == b != c <= d >= e = f < g > h");
    let symbols: Vec<String> = tokens
        .iter()
        .filter(|t| matches!(t.data, TokenData::Symbol(_)))
        .map(text_of)
        .collect();
    assert_eq!(symbols, vec!["==", "!=", "<=", ">=", "=", "<", ">"]);
}

#[test]
fn numeric_literals_parse_to_binary64_values() {
    assert_eq!(num_parse("2.5"), Some(2.5f64.to_bits()));
    assert_eq!(num_parse("10"), Some(10.0f64.to_bits()));
    assert_eq!(num_parse("0.1"), Some(0.1f64.to_bits()));
}

#[test]
fn numbers_render_in_decimal() {
    let rendered = num_render(5.0f64.to_bits());
    assert_eq!(rendered, "5");
    assert_eq!(u64_to_string(1234), "1234");
    assert_eq!(u64_to_string(0), "0");
}

#[test]
fn builtin_add_is_binary64_addition() {
    let r = builtin_add(vec![
        Value::Number(2.0f64.to_bits()),
        Value::Number(3.0f64.to_bits()),
    ]);
    assert_eq!(r.unwrap(), Value::Number(5.0f64.to_bits()));
    assert!(builtin_add(vec![Value::Boolean(true), Value::Number(0)]).is_err());
    assert!(builtin_add(vec![Value::Number(0)]).is_err());
}

#[test]
fn builtin_div_by_zero_is_infinite() {
    let r = builtin_div(vec![
        Value::Number(1.0f64.to_bits()),
        Value::Number(0.0f64.to_bits()),
    ]);
    assert_eq!(r.unwrap(), Value::Number(f64::INFINITY.to_bits()));
}

#[test]
fn builtin_indexing_is_one_based() {
    let mut heap = Heap::new();
    let arr = pseudocode::interpreter::builtin::builtin_array(
        &mut heap,
        vec![Value::Number(10.0f64.to_bits())],
    )
    .unwrap();
    let good = builtin_indexing(&heap, vec![arr, Value::Number(1.0f64.to_bits())]);
    assert_eq!(good.unwrap(), Value::Number(10.0f64.to_bits()));
    let zero = builtin_indexing(&heap, vec![arr, Value::Number(0.0f64.to_bits())]);
    assert!(zero.is_err());
    let two = builtin_indexing(&heap, vec![arr, Value::Number(2.0f64.to_bits())]);
    assert!(two.is_err());
}

#[test]
fn argument_helpers_check_counts() {
    assert!(get_args1::<Value>(vec![]).is_err());
    assert_eq!(get_args1(vec![Value::Null]).unwrap(), Value::Null);
    assert!(get_args2(vec![Value::Null]).is_err());
    let (a, b) = get_args2(vec![Value::Boolean(true), Value::Null]).unwrap();
    assert_eq!(a, Value::Boolean(true));
    assert_eq!(b, Value::Null);
}

fn parse_one(source: &str) -> pseudocode::parser::ParseTreeNode {
    let stream = TokenStream::from_source(source, "test.pseudo");
    let context = ParserContext::new(stream);
    let (mut trees, _diags) = context.parse_document().unwrap();
    assert_eq!(trees.len(), 1);
    trees.pop().unwrap()
}

#[test]
fn lowered_function_ends_with_a_return_and_has_in_range_targets() {
    let tree = parse_one(
        "Test()\n  i = 0\n  while i < 3\n    i = i + 1\n  if i == 3\n    return i\n  return 0\n",
    );
    let function = compile_function(tree).unwrap();
    let n = function.instructions.len();
    assert!(n >= 1);
    assert!(matches!(
        function.instructions[n - 1].instruction_type,
        VMInstructionType::Return(_)
    ));
    for (i, instruction) in function.instructions.iter().enumerate() {
        match &instruction.instruction_type {
            VMInstructionType::Branch(_, t, f) => {
                // Branch targets always point strictly forward, so no
                // fix-up sentinel survives lowering.
                assert!(*t > i && *t < n);
                assert!(*f > i && *f < n);
            }
            VMInstructionType::Goto(g) => {
                assert!(*g < n && *g != i);
            }
            _ => {}
        }
    }
}

#[test]
fn every_statement_line_appears_on_an_instruction() {
    let tree = parse_one(
        "Test()\n  a = 1\n  b = 2\n  if a < b\n    a = 3\n  return a\n",
    );
    let function = compile_function(tree).unwrap();
    let lines: Vec<usize> = function
        .instructions
        .iter()
        .map(|ins| ins.associated_line)
        .collect();
    for wanted in [1usize, 2, 3, 4, 5] {
        assert!(lines.contains(&wanted));
    }
}

#[test]
fn synthesized_temporaries_contain_a_dollar_sign() {
    let tree = parse_one("Test()\n  return 1 + 2\n");
    let function = compile_function(tree).unwrap();
    let mut found_temp = false;
    for instruction in &function.instructions {
        if let VMInstructionType::BinaryOperation(_, dest, _, _) = &instruction.instruction_type {
            assert!(dest.extract_text().contains('$'));
            found_temp = true;
        }
    }
    assert!(found_temp);
}

#[test]
fn parser_reports_diagnostics_with_severity() {
    let stream = TokenStream::from_source("Test(\n", "test.pseudo");
    let context = ParserContext::new(stream);
    let result = context.parse_document();
    assert!(result.is_err());
    let errors = result.err().unwrap();
    assert!(errors
        .iter()
        .any(|e| matches!(e.error_type, pseudocode::error::ErrorType::Error)));
}

#[test]
fn parse_collects_multiple_functions() {
    let stream = TokenStream::from_source("A()\n  return 1\n\nB()\n  return 2\n", "test.pseudo");
    let context = ParserContext::new(stream);
    let (trees, _diags) = context.parse_document().unwrap();
    assert_eq!(trees.len(), 2);
}

#[test]
fn deeper_indentation_after_a_statement_is_an_error() {
    let stream = TokenStream::from_source("A()\n  x = 1\n      y = 2\n", "test.pseudo");
    let context = ParserContext::new(stream);
    assert!(context.parse_document().is_err());
}
