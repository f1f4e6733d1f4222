use symbol_extractor::errors::BRError;
use symbol_extractor::symbols::{DumpedFile, ExtractedSymbol, ExtractedSymbols};

fn symbol(name: &str, offset: usize, size: Option<usize>) -> ExtractedSymbol {
    ExtractedSymbol { name: name.to_string(), offset, size }
}

fn patterned(len: usize) -> Vec<u8> {
    (0..len).map(|i| (i % 251) as u8).collect()
}

fn internal_message(result: Result<Vec<DumpedFile>, BRError>) -> &'static str {
    match result {
        Err(BRError::InternalError(message)) => message,
        other => panic!("expected an internal error, got {:?}", other),
    }
}

#[test]
fn default_symbol_is_empty() {
    let symbol = ExtractedSymbol::default();
    assert_eq!(symbol.name, "");
    assert_eq!(symbol.offset, 0);
    assert_eq!(symbol.size, None);
}

#[test]
fn default_symbols_hold_nothing() {
    let symbols = ExtractedSymbols::default();
    assert!(symbols.bytes().is_none());
    assert!(symbols.symbols().is_empty());
}

#[test]
fn from_keeps_the_symbols_in_order_without_bytes() {
    let symbols = ExtractedSymbols::from(vec![symbol("b", 7, Some(1)), symbol("a", 3, None)]);
    assert!(symbols.bytes().is_none());
    let listed = symbols.symbols();
    assert_eq!(listed.len(), 2);
    assert_eq!(listed[0].name, "b");
    assert_eq!(listed[0].offset, 7);
    assert_eq!(listed[0].size, Some(1));
    assert_eq!(listed[1].name, "a");
    assert_eq!(listed[1].offset, 3);
    assert_eq!(listed[1].size, None);
}

#[test]
fn set_bytes_attaches_the_buffer_and_keeps_the_symbols() {
    let mut symbols = ExtractedSymbols::from(vec![symbol("a", 1, Some(2))]);
    symbols.set_bytes(vec![9, 8, 7]);
    assert_eq!(symbols.bytes(), Some(&vec![9, 8, 7]));
    assert_eq!(symbols.symbols().len(), 1);
    assert_eq!(symbols.symbols()[0].name, "a");
    symbols.set_bytes(vec![1]);
    assert_eq!(symbols.bytes(), Some(&vec![1]));
}

#[test]
fn clone_copies_symbols_and_bytes() {
    let mut symbols = ExtractedSymbols::from(vec![symbol("a", 1, Some(2))]);
    symbols.set_bytes(vec![1, 2, 3]);
    let copy = symbols.clone();
    assert_eq!(copy.bytes(), Some(&vec![1, 2, 3]));
    assert_eq!(copy.symbols()[0].name, "a");
    assert_eq!(copy.symbols()[0].offset, 1);
    assert_eq!(copy.symbols()[0].size, Some(2));
}

#[test]
fn dump_without_bytes_is_an_internal_error() {
    let symbols = ExtractedSymbols::from(vec![symbol("a", 0, Some(1))]);
    assert_eq!(internal_message(symbols.dump()), "Library code not set");
}

#[test]
fn dump_without_bytes_fails_even_with_no_symbols() {
    let symbols = ExtractedSymbols::default();
    assert_eq!(internal_message(symbols.dump()), "Library code not set");
}

#[test]
fn dump_cuts_each_symbol_out_of_the_bytes() {
    let bytes = patterned(64);
    let mut symbols =
        ExtractedSymbols::from(vec![symbol("first", 4, Some(8)), symbol("second", 40, Some(24))]);
    symbols.set_bytes(bytes.clone());
    let files = symbols.dump().unwrap();
    assert_eq!(files.len(), 2);
    assert_eq!(files[0].file_name, "first.bin");
    assert_eq!(files[0].contents, bytes[4..12].to_vec());
    assert_eq!(files[1].file_name, "second.bin");
    assert_eq!(files[1].contents, bytes[40..64].to_vec());
}

#[test]
fn dump_skips_symbols_of_unknown_size() {
    let mut symbols = ExtractedSymbols::from(vec![
        symbol("unknown", 1000, None),
        symbol("known", 2, Some(3)),
        symbol("also_unknown", 0, None),
    ]);
    symbols.set_bytes(patterned(16));
    let files = symbols.dump().unwrap();
    assert_eq!(files.len(), 1);
    assert_eq!(files[0].file_name, "known.bin");
    assert_eq!(files[0].contents, vec![2, 3, 4]);
}

#[test]
fn dump_of_no_symbols_gives_no_files() {
    let mut symbols = ExtractedSymbols::default();
    symbols.set_bytes(patterned(16));
    assert!(symbols.dump().unwrap().is_empty());
}

#[test]
fn dumped_files_are_as_long_as_their_symbols_say() {
    let sizes = [0usize, 1, 5, 32];
    let listed: Vec<ExtractedSymbol> =
        sizes.iter().map(|size| symbol("f", 32 - size, Some(*size))).collect();
    let mut symbols = ExtractedSymbols::from(listed);
    symbols.set_bytes(patterned(32));
    let files = symbols.dump().unwrap();
    assert_eq!(files.len(), sizes.len());
    for (file, size) in files.iter().zip(sizes.iter()) {
        assert_eq!(file.contents.len(), *size);
    }
}

#[test]
fn dump_accepts_a_symbol_that_ends_with_the_file() {
    let mut symbols = ExtractedSymbols::from(vec![symbol("tail", 10, Some(6))]);
    symbols.set_bytes(patterned(16));
    let files = symbols.dump().unwrap();
    assert_eq!(files[0].contents, vec![10, 11, 12, 13, 14, 15]);
}

#[test]
fn dump_accepts_an_empty_symbol_at_the_end_of_the_file() {
    let mut symbols = ExtractedSymbols::from(vec![symbol("empty", 16, Some(0))]);
    symbols.set_bytes(patterned(16));
    let files = symbols.dump().unwrap();
    assert_eq!(files[0].file_name, "empty.bin");
    assert!(files[0].contents.is_empty());
}

#[test]
fn dump_past_the_end_is_an_internal_error() {
    let mut symbols = ExtractedSymbols::from(vec![symbol("long", 10, Some(7))]);
    symbols.set_bytes(patterned(16));
    assert_eq!(internal_message(symbols.dump()), "Symbol range out of bounds");
}

#[test]
fn dump_starting_past_the_end_is_an_internal_error() {
    let mut symbols = ExtractedSymbols::from(vec![symbol("far", 17, Some(0))]);
    symbols.set_bytes(patterned(16));
    assert_eq!(internal_message(symbols.dump()), "Symbol range out of bounds");
}

#[test]
fn dump_of_a_range_that_overflows_is_an_internal_error() {
    let mut symbols = ExtractedSymbols::from(vec![symbol("huge", 8, Some(usize::MAX))]);
    symbols.set_bytes(patterned(16));
    assert_eq!(internal_message(symbols.dump()), "Symbol range out of bounds");
}

#[test]
fn dump_gives_nothing_when_a_later_symbol_is_out_of_bounds() {
    let mut symbols =
        ExtractedSymbols::from(vec![symbol("good", 0, Some(4)), symbol("bad", 15, Some(2))]);
    symbols.set_bytes(patterned(16));
    assert!(matches!(symbols.dump(), Err(BRError::InternalError(_))));
}

#[test]
fn dump_keeps_the_whole_name_before_the_suffix() {
    let mut symbols = ExtractedSymbols::from(vec![symbol("a.b", 0, Some(1)), symbol("", 1, Some(1))]);
    symbols.set_bytes(patterned(4));
    let files = symbols.dump().unwrap();
    assert_eq!(files[0].file_name, "a.b.bin");
    assert_eq!(files[1].file_name, ".bin");
}

#[test]
fn dump_twice_gives_the_same_files() {
    let mut symbols =
        ExtractedSymbols::from(vec![symbol("a", 3, Some(5)), symbol("b", 0, None), symbol("c", 8, Some(8))]);
    symbols.set_bytes(patterned(16));
    let first = symbols.dump().unwrap();
    let second = symbols.dump().unwrap();
    assert_eq!(first.len(), second.len());
    for (one, other) in first.iter().zip(second.iter()) {
        assert_eq!(one.file_name, other.file_name);
        assert_eq!(one.contents, other.contents);
    }
}

#[test]
fn io_errors_convert_into_the_io_variant() {
    let error = BRError::from(std::io::Error::new(std::io::ErrorKind::NotFound, "gone"));
    match error {
        BRError::Io(inner) => assert_eq!(inner.kind(), std::io::ErrorKind::NotFound),
        other => panic!("expected an I/O error, got {:?}", other),
    }
}

#[test]
fn dumped_files_say_which_symbol_they_hold() {
    let mut symbols = ExtractedSymbols::from(vec![symbol("a", 3, Some(5)), symbol("b", 9, None)]);
    symbols.set_bytes(patterned(16));
    let files = symbols.dump().unwrap();
    assert_eq!(files.len(), 1);
    assert_eq!(files[0].name, "a");
    assert_eq!(files[0].offset, 3);
    assert_eq!(files[0].file_name, "a.bin");
    assert_eq!(files[0].contents.len(), 5);
}
