use symbol_extractor::errors::BRError;
use symbol_extractor::macho::{find_text_region, parse_macho, MachSection, MachSymbol, TextRegion};
use symbol_extractor::symbols::ExtractedSymbols;

fn padded(name: &str) -> [u8; 16] {
    let mut field = [0u8; 16];
    field[..name.len()].copy_from_slice(name.as_bytes());
    field
}

fn section(segname: &str, sectname: &str, offset: u32, size: u64) -> MachSection {
    MachSection { sectname: padded(sectname), segname: padded(segname), offset, size }
}

fn text(offset: u32, size: u64) -> Vec<MachSection> {
    vec![section("__TEXT", "__text", offset, size)]
}

fn exported(name: &str, n_value: u64) -> MachSymbol {
    MachSymbol { name: name.to_string(), n_type: 0x0f, n_sect: 1, n_value }
}

fn local(name: &str, n_value: u64) -> MachSymbol {
    MachSymbol { name: name.to_string(), n_type: 0x0e, n_sect: 1, n_value }
}

fn listed(found: &ExtractedSymbols) -> Vec<(String, usize, Option<usize>)> {
    found.symbols().iter().map(|symbol| (symbol.name.clone(), symbol.offset, symbol.size)).collect()
}

fn expect(entries: &[(&str, usize, usize)]) -> Vec<(String, usize, Option<usize>)> {
    entries.iter().map(|(name, offset, size)| (name.to_string(), *offset, Some(*size))).collect()
}

#[test]
fn macho_two_functions_share_the_text_section() {
    let symbols = vec![exported("_foo", 0x1000), exported("_bar", 0x1050)];
    let found = parse_macho(&text(0x1000, 0x100), &symbols).unwrap();
    assert!(found.bytes().is_none());
    assert_eq!(listed(&found), expect(&[("foo", 0x1000, 0x50), ("bar", 0x1050, 0xb0)]));
}

#[test]
fn macho_functions_are_sorted_by_offset() {
    let symbols = vec![
        exported("_third", 0x10c0),
        exported("_first", 0x1000),
        exported("_second", 0x1010),
    ];
    let found = parse_macho(&text(0x1000, 0x100), &symbols).unwrap();
    assert_eq!(
        listed(&found),
        expect(&[("first", 0x1000, 0x10), ("second", 0x1010, 0xb0), ("third", 0x10c0, 0x40)])
    );
}

#[test]
fn macho_single_function_reaches_the_end_of_the_text() {
    let found = parse_macho(&text(0x1000, 0x100), &vec![exported("_only", 0x1080)]).unwrap();
    assert_eq!(listed(&found), expect(&[("only", 0x1080, 0x80)]));
}

#[test]
fn macho_local_symbol_closes_the_last_function() {
    let symbols = vec![
        exported("_foo", 0x1000),
        local("_helper", 0x10c0),
        exported("_bar", 0x1050),
    ];
    let found = parse_macho(&text(0x1000, 0x100), &symbols).unwrap();
    assert_eq!(listed(&found), expect(&[("foo", 0x1000, 0x50), ("bar", 0x1050, 0x70)]));
}

#[test]
fn macho_nearest_symbol_after_the_last_function_closes_it() {
    let symbols = vec![
        local("far", 0x10f0),
        exported("_f", 0x1020),
        local("near", 0x1030),
        local("between", 0x1080),
        local("before", 0x1010),
        local("same", 0x1020),
    ];
    let found = parse_macho(&text(0x1000, 0x100), &symbols).unwrap();
    assert_eq!(listed(&found), expect(&[("f", 0x1020, 0x10)]));
}

#[test]
fn macho_local_symbol_between_functions_changes_nothing() {
    let symbols = vec![exported("_a", 0x1000), local("_gap", 0x1020), exported("_b", 0x1040)];
    let found = parse_macho(&text(0x1000, 0x100), &symbols).unwrap();
    assert_eq!(listed(&found), expect(&[("a", 0x1000, 0x40), ("b", 0x1040, 0xc0)]));
}

#[test]
fn macho_closing_symbols_need_not_be_named_or_typed() {
    let closing = MachSymbol { name: String::new(), n_type: 0x24, n_sect: 1, n_value: 0x1090 };
    let found =
        parse_macho(&text(0x1000, 0x100), &vec![exported("_f", 0x1050), closing]).unwrap();
    assert_eq!(listed(&found), expect(&[("f", 0x1050, 0x40)]));
}

#[test]
fn macho_symbols_of_other_sections_close_nothing() {
    let other = MachSymbol { name: "_data".to_string(), n_type: 0x0f, n_sect: 2, n_value: 0x1090 };
    let found = parse_macho(&text(0x1000, 0x100), &vec![exported("_f", 0x1050), other]).unwrap();
    assert_eq!(listed(&found), expect(&[("f", 0x1050, 0xb0)]));
}

#[test]
fn macho_symbols_past_the_text_close_nothing() {
    let symbols = vec![exported("_f", 0x1050), local("at_end", 0x1100), local("beyond", 0x2000)];
    let found = parse_macho(&text(0x1000, 0x100), &symbols).unwrap();
    assert_eq!(listed(&found), expect(&[("f", 0x1050, 0xb0)]));
}

#[test]
fn macho_aliases_are_both_kept() {
    let symbols = vec![
        exported("_alias", 0x1040),
        exported("_start", 0x1000),
        exported("_name", 0x1040),
        exported("_end", 0x1080),
    ];
    let found = parse_macho(&text(0x1000, 0x100), &symbols).unwrap();
    assert_eq!(
        listed(&found),
        expect(&[
            ("start", 0x1000, 0x40),
            ("alias", 0x1040, 0),
            ("name", 0x1040, 0x40),
            ("end", 0x1080, 0x80),
        ])
    );
}

#[test]
fn macho_aliases_of_the_last_function_keep_their_order() {
    let symbols = vec![exported("_z", 0x1040), exported("_y", 0x1040), exported("_x", 0x1040)];
    let found = parse_macho(&text(0x1000, 0x100), &symbols).unwrap();
    assert_eq!(
        listed(&found),
        expect(&[("z", 0x1040, 0), ("y", 0x1040, 0), ("x", 0x1040, 0xc0)])
    );
}

#[test]
fn macho_no_exported_function_gives_no_symbols() {
    let symbols = vec![local("_helper", 0x1000), local("_other", 0x1040)];
    let found = parse_macho(&text(0x1000, 0x100), &symbols).unwrap();
    assert!(found.symbols().is_empty());
    assert!(found.bytes().is_none());
}

#[test]
fn macho_empty_symbol_table_gives_no_symbols() {
    let found = parse_macho(&text(0x1000, 0x100), &Vec::new()).unwrap();
    assert!(found.symbols().is_empty());
}

#[test]
fn macho_without_text_section_is_a_parse_error() {
    let sections = vec![section("__DATA", "__data", 0x2000, 0x100)];
    let symbols = vec![exported("_foo", 0x2000)];
    assert!(matches!(parse_macho(&sections, &symbols), Err(BRError::ParseError)));
}

#[test]
fn macho_without_sections_is_a_parse_error() {
    assert!(matches!(parse_macho(&Vec::new(), &Vec::new()), Err(BRError::ParseError)));
}

#[test]
fn macho_symbols_outside_the_text_are_left_out() {
    let symbols = vec![
        exported("_before", 0x0fff),
        exported("_first_byte", 0x1000),
        exported("_last_byte", 0x10ff),
        exported("_at_end", 0x1100),
        exported("_beyond", 0x5000),
    ];
    let found = parse_macho(&text(0x1000, 0x100), &symbols).unwrap();
    assert_eq!(listed(&found), expect(&[("first_byte", 0x1000, 0xff), ("last_byte", 0x10ff, 1)]));
}

#[test]
fn macho_every_offset_lies_in_the_text() {
    let symbols: Vec<MachSymbol> =
        (0..64u64).map(|i| exported(&format!("_f{}", i), 0x0f00 + 37 * ((i * 29) % 64))).collect();
    let found = parse_macho(&text(0x1000, 0x400), &symbols).unwrap();
    assert!(!found.symbols().is_empty());
    for symbol in found.symbols() {
        assert!(0x1000 <= symbol.offset && symbol.offset < 0x1400);
    }
}

#[test]
fn macho_sizes_add_up_to_the_covered_span() {
    let offsets = [0x1300u64, 0x1010, 0x1200, 0x1010, 0x10a0, 0x13f0, 0x1001];
    let mut symbols: Vec<MachSymbol> =
        offsets.iter().enumerate().map(|(i, offset)| exported(&format!("_f{}", i), *offset)).collect();
    symbols.push(local("closing", 0x13f8));
    let found = parse_macho(&text(0x1000, 0x400), &symbols).unwrap();
    let listed = found.symbols();
    assert_eq!(listed.len(), offsets.len());
    let total: usize = listed.iter().map(|symbol| symbol.size.unwrap()).sum();
    assert_eq!(total, 0x13f8 - 0x1001);
    for pair in listed.windows(2) {
        assert_eq!(pair[0].offset + pair[0].size.unwrap(), pair[1].offset);
    }
    let last = &listed[listed.len() - 1];
    assert_eq!(last.offset + last.size.unwrap(), 0x13f8);
}

#[test]
fn macho_sizes_add_up_to_the_end_of_the_text_without_a_closing_symbol() {
    let symbols = vec![exported("_b", 0x1100), exported("_a", 0x1008), exported("_c", 0x1234)];
    let found = parse_macho(&text(0x1000, 0x400), &symbols).unwrap();
    let total: usize = found.symbols().iter().map(|symbol| symbol.size.unwrap()).sum();
    assert_eq!(total, 0x1400 - 0x1008);
}

#[test]
fn macho_only_external_symbols_of_the_first_section_are_functions() {
    let symbols = vec![
        MachSymbol { name: "_private_extern".to_string(), n_type: 0x1f, n_sect: 1, n_value: 0x1010 },
        MachSymbol { name: "_local".to_string(), n_type: 0x0e, n_sect: 1, n_value: 0x1020 },
        MachSymbol { name: "_undefined".to_string(), n_type: 0x01, n_sect: 1, n_value: 0x1030 },
        MachSymbol { name: "_second_section".to_string(), n_type: 0x0f, n_sect: 2, n_value: 0x1040 },
        MachSymbol { name: "_no_section".to_string(), n_type: 0x0f, n_sect: 0, n_value: 0x1050 },
        MachSymbol { name: "_real".to_string(), n_type: 0x0f, n_sect: 1, n_value: 0x1060 },
    ];
    let found = parse_macho(&text(0x1000, 0x100), &symbols).unwrap();
    assert_eq!(listed(&found), expect(&[("real", 0x1060, 0xa0)]));
}

#[test]
fn macho_names_need_an_underscore_and_more() {
    let symbols = vec![
        exported("", 0x1010),
        exported("_", 0x1020),
        exported("plain", 0x1030),
        exported("x_y", 0x1040),
        exported("__double", 0x1050),
        exported("_a", 0x1060),
    ];
    let found = parse_macho(&text(0x1000, 0x100), &symbols).unwrap();
    assert_eq!(listed(&found), expect(&[("_double", 0x1050, 0x10), ("a", 0x1060, 0xa0)]));
}

#[test]
fn macho_names_beyond_ascii_lose_only_the_underscore() {
    let symbols = vec![exported("_größe", 0x1010), exported("_é", 0x1000)];
    let found = parse_macho(&text(0x1000, 0x100), &symbols).unwrap();
    assert_eq!(listed(&found), expect(&[("é", 0x1000, 0x10), ("größe", 0x1010, 0xf0)]));
}

#[test]
fn macho_rejected_names_still_close_the_last_function() {
    let symbols = vec![exported("_f", 0x1000), exported("_", 0x1040)];
    let found = parse_macho(&text(0x1000, 0x100), &symbols).unwrap();
    assert_eq!(listed(&found), expect(&[("f", 0x1000, 0x40)]));
}

#[test]
fn macho_text_region_of_zero_size_holds_nothing() {
    let found = parse_macho(&text(0x1000, 0), &vec![exported("_f", 0x1000)]).unwrap();
    assert!(found.symbols().is_empty());
}

#[test]
fn macho_text_region_may_end_at_the_largest_offset() {
    let sections = text(0x10, u64::MAX - 0x10);
    let symbols = vec![exported("_f", u64::MAX - 1), exported("_g", 0x10)];
    let found = parse_macho(&sections, &symbols).unwrap();
    assert_eq!(
        listed(&found),
        expect(&[("g", 0x10, usize::MAX - 1 - 0x10), ("f", usize::MAX - 1, 1)])
    );
}

#[test]
fn macho_text_region_may_reach_past_the_largest_offset() {
    let sections = text(0x1000, u64::MAX);
    let symbols = vec![exported("_f", u64::MAX), exported("_g", 0x2000)];
    let found = parse_macho(&sections, &symbols).unwrap();
    assert_eq!(
        listed(&found),
        expect(&[("g", 0x2000, usize::MAX - 0x2000), ("f", usize::MAX, 0x1000)])
    );
}

#[test]
fn text_region_is_found_among_other_sections() {
    let sections = vec![
        section("__TEXT", "__stubs", 0x500, 0x20),
        section("__TEXT", "__text", 0x1000, 0x100),
        section("__DATA", "__data", 0x2000, 0x40),
    ];
    let region: TextRegion = find_text_region(&sections).unwrap();
    assert_eq!(region.file_offset, 0x1000);
    assert_eq!(region.size, 0x100);
}

#[test]
fn text_region_is_the_last_one_that_matches() {
    let sections = vec![
        section("__TEXT", "__text", 0x1000, 0x100),
        section("__DATA", "__data", 0x2000, 0x40),
        section("__TEXT", "__text", 0x3000, 0x80),
        section("__LINKEDIT", "", 0x4000, 0x10),
    ];
    let region = find_text_region(&sections).unwrap();
    assert_eq!(region.file_offset, 0x3000);
    assert_eq!(region.size, 0x80);
}

#[test]
fn text_region_needs_both_names_exactly() {
    let mut trailing = section("__TEXT", "__text", 0x1000, 0x100);
    trailing.sectname[15] = 1;
    let sections = vec![
        section("__TEXT", "__text2", 0x1000, 0x100),
        section("__TEXT2", "__text", 0x1000, 0x100),
        section("__text", "__TEXT", 0x1000, 0x100),
        section("__DATA", "__text", 0x1000, 0x100),
        section("__TEXT", "__tex", 0x1000, 0x100),
        section("__TEXT", "__TEXT", 0x1000, 0x100),
        trailing,
    ];
    assert!(find_text_region(&sections).is_none());
}

#[test]
fn text_region_contains_its_first_byte_and_not_its_end() {
    let region = TextRegion { file_offset: 0x1000, size: 0x100 };
    assert!(!region.contains(0xfff));
    assert!(region.contains(0x1000));
    assert!(region.contains(0x10ff));
    assert!(!region.contains(0x1100));
    assert!(!region.contains(0));
    assert!(!region.contains(usize::MAX));
}

#[test]
fn text_region_at_the_top_of_the_address_space() {
    let region = TextRegion { file_offset: usize::MAX - 4, size: 100 };
    assert!(region.contains(usize::MAX));
    assert!(region.contains(usize::MAX - 4));
    assert!(!region.contains(usize::MAX - 5));
}

#[test]
fn macho_many_functions_come_out_in_ascending_order() {
    let symbols: Vec<MachSymbol> = (0..200u64)
        .map(|i| exported(&format!("_f{}", i), 0x1000 + ((i * 7919) % 1000)))
        .collect();
    let found = parse_macho(&text(0x1000, 1000), &symbols).unwrap();
    let listed = found.symbols();
    assert_eq!(listed.len(), 200);
    for pair in listed.windows(2) {
        assert!(pair[0].offset <= pair[1].offset);
        assert_eq!(pair[0].size, Some(pair[1].offset - pair[0].offset));
    }
    assert_eq!(listed[199].size, Some(0x1000 + 1000 - listed[199].offset));
}
