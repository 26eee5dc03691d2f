use snow::scanner::{scanner, Token};
use snow::text::{parse_i128, parse_i32, push_decimal};
use snow::wasm::section::export::{Export, ExportEntry, ExportType};
use snow::wasm::section::memory::{Memory, Page};

#[test]
fn decimal_text_reads_back() {
    for n in [0usize, 7, 10, 99, 65536, 2147483647] {
        let mut s = String::new();
        push_decimal(&mut s, n);
        assert_eq!(s, n.to_string());
        assert_eq!(parse_i32(&s), Some(n as i32));
    }
    assert_eq!(parse_i32("2147483648"), None);
    assert_eq!(parse_i32("-2147483648"), Some(i32::MIN));
    assert_eq!(parse_i32("+12"), Some(12));
    assert_eq!(parse_i32("-"), None);
    assert_eq!(parse_i32("1a"), None);
    assert_eq!(parse_i128("-170141183460469231731687303715884105728"), Some(i128::MIN));
}

#[test]
fn indentation_levels_close() {
    let src = "main = do\n    let a = 1\n        in\n            print a\n";
    let tokens = scanner("laws.snow", src).unwrap();
    let indents = tokens.iter().filter(|t| t.node == Token::InDent).count();
    let dedents = tokens.iter().filter(|t| t.node == Token::DeDent).count();
    assert!(indents > 0);
    assert!(indents <= dedents && dedents <= indents + 1);
    assert_eq!(tokens.last().map(|t| t.node.clone()), Some(Token::DeDent));
}

#[test]
fn section_size_counts_what_follows() {
    let mut export = Export::default();
    for name in ["a", "bb", "ccc"] {
        export = export.with(ExportEntry::new(name.to_string(), ExportType::Func, 1));
    }
    let bytes = export.to_bytes();
    assert_eq!(bytes[0], 0x07);
    assert_eq!(bytes[1] as usize, bytes.len() - 2);

    let memory = Memory::default()
        .with(Page::WithNoMinimun(1))
        .with(Page::WithMinAndMax(1, 2));
    let bytes = memory.to_bytes();
    assert_eq!(bytes[0], 0x05);
    assert_eq!(bytes[1] as usize, bytes.len() - 2);
}
