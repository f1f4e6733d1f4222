//! Exported functions of an ELF shared object.
//!
//! ELF records the size of every symbol, so the dynamic symbol table says all
//! there is to know: which symbols are functions visible from outside, where
//! each starts and how long it is.

use vstd::prelude::*;

use crate::errors::BRError;
use crate::symbols::{
    attached_bytes, found_symbols, ExtractedSymbol, ExtractedSymbols, SymbolView,
};

verus! {

broadcast use vstd::seq::Seq::lemma_filter_map_take_succ;

/// One entry of the dynamic symbol table.
///
/// `name` is what the dynamic string table holds at the entry's name offset,
/// or `None` where that offset does not lead to a string.
#[derive(Clone, Debug)]
pub struct ElfSymbol {
    pub name: Option<String>,
    pub st_info: u8,
    pub st_value: u64,
    pub st_size: u64,
}

/// The mathematical value of an [`ElfSymbol`].
pub struct ElfSymbolView {
    pub name: Option<Seq<char>>,
    pub st_info: u8,
    pub st_value: u64,
    pub st_size: u64,
}

impl View for ElfSymbol {
    type V = ElfSymbolView;

    open spec fn view(&self) -> ElfSymbolView {
        ElfSymbolView {
            name: self.name.deep_view(),
            st_info: self.st_info,
            st_value: self.st_value,
            st_size: self.st_size,
        }
    }
}

impl DeepView for ElfSymbol {
    type V = ElfSymbolView;

    open spec fn deep_view(&self) -> ElfSymbolView {
        self@
    }
}

impl ElfSymbolView {
    /// The entry is a function of global (`0x12`) or weak (`0x22`) binding.
    pub open spec fn is_exported_function(self) -> bool {
        self.st_info == 0x12 || self.st_info == 0x22
    }

    /// The size that the entry records; none where it records zero.
    pub open spec fn known_size(self) -> Option<usize> {
        if self.st_size > 0 {
            Some(self.st_size as usize)
        } else {
            None
        }
    }

    /// The symbol that extraction gives for the entry, if it is an exported
    /// function with a name.
    pub open spec fn extracted(self) -> Option<SymbolView> {
        match self.name {
            Some(name) if self.is_exported_function() => Some(
                SymbolView { name, offset: self.st_value as usize, size: self.known_size() },
            ),
            _ => None,
        }
    }
}

/// Some exported function of the table has no name.
pub open spec fn has_unnamed_function(dynsyms: Seq<ElfSymbolView>) -> bool {
    exists|i: int|
        0 <= i < dynsyms.len() && (#[trigger] dynsyms[i]).is_exported_function()
            && dynsyms[i].name is None
}

/// The symbols that extraction gives for a table: one for each exported
/// function, in the order of the table.
pub open spec fn exported_functions(dynsyms: Seq<ElfSymbolView>) -> Seq<SymbolView> {
    dynsyms.filter_map(|symbol: ElfSymbolView| symbol.extracted())
}

/// `outcome` is what extraction gives for the table `dynsyms`: the exported
/// functions, unless one of them has no name.
pub open spec fn is_elf_extraction(
    outcome: Result<Seq<SymbolView>, BRError>,
    dynsyms: Seq<ElfSymbolView>,
) -> bool {
    match outcome {
        Ok(found) => !has_unnamed_function(dynsyms) && found == exported_functions(dynsyms),
        Err(BRError::ParseError) => has_unnamed_function(dynsyms),
        Err(_) => false,
    }
}

/// What extraction gives for an entry is that entry's name, value and size,
/// value and size unchanged wherever they fit the machine's word, and an
/// entry that is no exported function gives nothing.
pub proof fn lemma_extracted_matches_entry(entry: ElfSymbolView)
    ensures
        match entry.extracted() {
            Some(symbol) => {
                &&& entry.is_exported_function()
                &&& entry.name == Some(symbol.name)
                &&& entry.st_value <= usize::MAX ==> symbol.offset == entry.st_value
                &&& entry.st_size == 0 ==> symbol.size is None
                &&& 0 < entry.st_size <= usize::MAX ==> symbol.size == Some(
                    entry.st_size as usize,
                ) && symbol.size->0 == entry.st_size
            },
            None => !entry.is_exported_function() || entry.name is None,
        },
{
}

/// Every extracted symbol is what extraction gives for some entry of the
/// table, and so for an exported function.
pub proof fn lemma_exported_functions_match_entries(dynsyms: Seq<ElfSymbolView>, k: int)
    requires
        0 <= k < exported_functions(dynsyms).len(),
    ensures
        exists|i: int|
            0 <= i < dynsyms.len() && (#[trigger] dynsyms[i]).is_exported_function()
                && dynsyms[i].extracted() == Some(exported_functions(dynsyms)[k]),
{
    let found = exported_functions(dynsyms);
    assert(found.contains(found[k]));
    dynsyms.lemma_filter_map_contains(|symbol: ElfSymbolView| symbol.extracted(), found[k]);
    let entry = choose|entry: ElfSymbolView| #[trigger]
        dynsyms.contains(entry) && entry.extracted() == Some(found[k]);
    let i = choose|i: int| 0 <= i < dynsyms.len() && dynsyms[i] == entry;
    assert(dynsyms[i].is_exported_function());
}

/// Every value and size of the table fits the machine's word.
pub open spec fn fits_machine_word(dynsyms: Seq<ElfSymbolView>) -> bool {
    forall|i: int|
        0 <= i < dynsyms.len() ==> (#[trigger] dynsyms[i]).st_value <= usize::MAX
            && dynsyms[i].st_size <= usize::MAX
}

/// In a table whose values and sizes fit the machine's word, every extracted
/// symbol has the name and the value of an exported function of the table,
/// and its size, where it has one, is the size that this entry records,
/// which is above zero: no size is ever inferred, rounded or cut.
pub proof fn lemma_symbols_match_entries_exactly(dynsyms: Seq<ElfSymbolView>, k: int)
    requires
        fits_machine_word(dynsyms),
        0 <= k < exported_functions(dynsyms).len(),
    ensures
        exists|i: int|
            {
                &&& 0 <= i < dynsyms.len()
                &&& (#[trigger] dynsyms[i]).is_exported_function()
                &&& dynsyms[i].name == Some(exported_functions(dynsyms)[k].name)
                &&& exported_functions(dynsyms)[k].offset == dynsyms[i].st_value
                &&& match exported_functions(dynsyms)[k].size {
                    Some(size) => size > 0 && size == dynsyms[i].st_size,
                    None => dynsyms[i].st_size == 0,
                }
            },
{
    lemma_exported_functions_match_entries(dynsyms, k);
    let i = choose|i: int|
        0 <= i < dynsyms.len() && (#[trigger] dynsyms[i]).is_exported_function()
            && dynsyms[i].extracted() == Some(exported_functions(dynsyms)[k]);
    lemma_extracted_matches_entry(dynsyms[i]);
}

/// Finds the exported functions in the dynamic symbol table of an ELF
/// shared object.
///
/// An exported function whose name could not be resolved makes the whole
/// table unusable.
pub fn parse_elf(dynsyms: &Vec<ElfSymbol>) -> (r: Result<ExtractedSymbols, BRError>)
    ensures
        is_elf_extraction(found_symbols(r), dynsyms.deep_view()),
        attached_bytes(r) is None,
{
    let ghost table = dynsyms.deep_view();
    let mut found: Vec<ExtractedSymbol> = Vec::new();
    let mut i: usize = 0;
    assert(table.take(0) =~= Seq::empty());
    assert(found.deep_view() =~= Seq::empty());
    while i < dynsyms.len()
        invariant
            i <= dynsyms.len(),
            table == dynsyms.deep_view(),
            !has_unnamed_function(table.take(i as int)),
            found.deep_view() == exported_functions(table.take(i as int)),
        decreases dynsyms.len() - i,
    {
        let symbol = &dynsyms[i];
        assert(table[i as int] == symbol@);
        if symbol.st_info == 0x12 || symbol.st_info == 0x22 {
            let name = match &symbol.name {
                Some(name) => name.clone(),
                None => {
                    return Err(BRError::ParseError);
                },
            };
            let size = if symbol.st_size > 0 {
                Some(symbol.st_size as usize)
            } else {
                None
            };
            let extracted = ExtractedSymbol { name, offset: symbol.st_value as usize, size };
            let ghost before = found.deep_view();
            found.push(extracted);
            assert(found.deep_view() =~= before + seq![extracted@]);
        }
        assert(!has_unnamed_function(table.take(i + 1))) by {
            if has_unnamed_function(table.take(i + 1)) {
                let j = choose|j: int|
                    0 <= j < i + 1 && (#[trigger] table.take(i + 1)[j]).is_exported_function()
                        && table.take(i + 1)[j].name is None;
                if j < i {
                    assert(table.take(i as int)[j] == table.take(i + 1)[j]);
                }
            }
        }
        i += 1;
    }
    assert(table.take(i as int) =~= table);
    Ok(ExtractedSymbols::from(found))
}

} // verus!
