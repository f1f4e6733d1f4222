//! The symbols found in an object file, and the files that dumping them gives.

use vstd::prelude::*;
use vstd::slice::{slice_subrange, slice_to_vec};
use vstd::string::StringExecFns;

use crate::errors::BRError;
use crate::object::{describe, described, extract, is_extraction};

verus! {

broadcast use vstd::seq::Seq::lemma_filter_map_take_succ;

/// One exported function: its name and the bytes it occupies in the file.
///
/// A `size` of `None` means that the extent of the function is unknown.
#[derive(Clone, Debug)]
pub struct ExtractedSymbol {
    pub name: String,
    pub offset: usize,
    pub size: Option<usize>,
}

/// The mathematical value of an [`ExtractedSymbol`].
pub struct SymbolView {
    pub name: Seq<char>,
    pub offset: usize,
    pub size: Option<usize>,
}

impl View for ExtractedSymbol {
    type V = SymbolView;

    open spec fn view(&self) -> SymbolView {
        SymbolView { name: self.name@, offset: self.offset, size: self.size }
    }
}

impl DeepView for ExtractedSymbol {
    type V = SymbolView;

    open spec fn deep_view(&self) -> SymbolView {
        self@
    }
}

impl Default for ExtractedSymbol {
    fn default() -> (r: ExtractedSymbol)
        ensures
            r@ == (SymbolView { name: Seq::empty(), offset: 0, size: None }),
    {
        ExtractedSymbol { name: String::new(), offset: 0, size: None }
    }
}

impl SymbolView {
    /// The symbol has no known size, or lies within a file of `len` bytes.
    pub open spec fn fits(self, len: nat) -> bool {
        match self.size {
            Some(size) => self.offset + size <= len,
            None => true,
        }
    }
}

/// A file that dumping produces: the symbol it is cut for and where that
/// starts, the name the file gets inside the output directory, and what is
/// written to it.
#[derive(Debug)]
pub struct DumpedFile {
    pub name: String,
    pub offset: usize,
    pub file_name: String,
    pub contents: Vec<u8>,
}

/// The mathematical value of a [`DumpedFile`].
pub struct DumpedFileView {
    pub name: Seq<char>,
    pub offset: usize,
    pub file_name: Seq<char>,
    pub contents: Seq<u8>,
}

impl View for DumpedFile {
    type V = DumpedFileView;

    open spec fn view(&self) -> DumpedFileView {
        DumpedFileView {
            name: self.name@,
            offset: self.offset,
            file_name: self.file_name@,
            contents: self.contents@,
        }
    }
}

impl DeepView for DumpedFile {
    type V = DumpedFileView;

    open spec fn deep_view(&self) -> DumpedFileView {
        self@
    }
}

/// What every dumped file's name ends in.
pub open spec fn bin_suffix() -> Seq<char> {
    seq!['.', 'b', 'i', 'n']
}

/// The file that one symbol is dumped to, if its size is known.
pub open spec fn dumped_file(bytes: Seq<u8>, symbol: SymbolView) -> Option<DumpedFileView> {
    match symbol.size {
        Some(size) => Some(
            DumpedFileView {
                name: symbol.name,
                offset: symbol.offset,
                file_name: symbol.name + bin_suffix(),
                contents: bytes.subrange(symbol.offset as int, symbol.offset + size),
            },
        ),
        None => None,
    }
}

/// The files that dumping `symbols` out of `bytes` gives: one for each symbol
/// of known size, in the order of the symbols.
pub open spec fn dumped_files(bytes: Seq<u8>, symbols: Seq<SymbolView>) -> Seq<DumpedFileView> {
    symbols.filter_map(|symbol: SymbolView| dumped_file(bytes, symbol))
}

/// Every symbol of known size lies within a file of `len` bytes.
pub open spec fn all_fit(symbols: Seq<SymbolView>, len: nat) -> bool {
    forall|i: int| 0 <= i < symbols.len() ==> (#[trigger] symbols[i]).fits(len)
}

/// Every file that dumping gives was cut for one of the symbols, and holds
/// exactly as many bytes as that symbol's size says.
pub proof fn lemma_dumped_file_has_symbol_size(bytes: Seq<u8>, symbols: Seq<SymbolView>, k: int)
    requires
        all_fit(symbols, bytes.len()),
        0 <= k < dumped_files(bytes, symbols).len(),
    ensures
        exists|i: int|
            0 <= i < symbols.len() && (#[trigger] symbols[i]).size is Some && dumped_file(
                bytes,
                symbols[i],
            ) == Some(dumped_files(bytes, symbols)[k]) && dumped_files(
                bytes,
                symbols,
            )[k].contents.len() == symbols[i].size->0,
{
    let files = dumped_files(bytes, symbols);
    let cut = |symbol: SymbolView| dumped_file(bytes, symbol);
    assert(files.contains(files[k]));
    symbols.lemma_filter_map_contains(cut, files[k]);
    let symbol = choose|symbol: SymbolView| #[trigger]
        symbols.contains(symbol) && cut(symbol) == Some(files[k]);
    let i = choose|i: int| 0 <= i < symbols.len() && symbols[i] == symbol;
    assert(symbols[i].fits(bytes.len()));
}

/// The message of the error that dumping gives when no bytes are attached.
pub open spec fn bytes_missing_message() -> Seq<char> {
    "Library code not set"@
}

/// The message of the error that dumping gives when a symbol reaches past
/// the end of the file.
pub open spec fn out_of_bounds_message() -> Seq<char> {
    "Symbol range out of bounds"@
}

/// The symbols of one object file, with the bytes of that file once they are
/// attached.
#[derive(Clone, Debug)]
pub struct ExtractedSymbols {
    bytes: Option<Vec<u8>>,
    symbols: Vec<ExtractedSymbol>,
}

/// The mathematical value of [`ExtractedSymbols`].
pub struct ExtractedSymbolsView {
    pub bytes: Option<Seq<u8>>,
    pub symbols: Seq<SymbolView>,
}

impl View for ExtractedSymbols {
    type V = ExtractedSymbolsView;

    closed spec fn view(&self) -> ExtractedSymbolsView {
        ExtractedSymbolsView {
            bytes: match self.bytes {
                Some(bytes) => Some(bytes@),
                None => None,
            },
            symbols: self.symbols.deep_view(),
        }
    }
}

/// The symbols of a result of extraction, or the error it failed with.
pub open spec fn found_symbols(r: Result<ExtractedSymbols, BRError>) -> Result<
    Seq<SymbolView>,
    BRError,
> {
    match r {
        Ok(found) => Ok(found@.symbols),
        Err(error) => Err(error),
    }
}

/// The bytes attached to a result of extraction, if it has any.
pub open spec fn attached_bytes(r: Result<ExtractedSymbols, BRError>) -> Option<Seq<u8>> {
    match r {
        Ok(found) => found@.bytes,
        Err(_) => None,
    }
}

impl Default for ExtractedSymbols {
    fn default() -> (r: ExtractedSymbols)
        ensures
            r@ == (ExtractedSymbolsView { bytes: None, symbols: Seq::empty() }),
    {
        let r = ExtractedSymbols { bytes: None, symbols: Vec::new() };
        assert(r.symbols.deep_view() =~= Seq::empty());
        r
    }
}

impl From<Vec<ExtractedSymbol>> for ExtractedSymbols {
    fn from(symbols: Vec<ExtractedSymbol>) -> (r: ExtractedSymbols)
        ensures
            r@ == (ExtractedSymbolsView { bytes: None, symbols: symbols.deep_view() }),
    {
        ExtractedSymbols { bytes: None, symbols }
    }
}

impl vstd::std_specs::convert::FromSpecImpl<Vec<ExtractedSymbol>> for ExtractedSymbols {
    open spec fn obeys_from_spec() -> bool {
        true
    }

    closed spec fn from_spec(symbols: Vec<ExtractedSymbol>) -> ExtractedSymbols {
        ExtractedSymbols { bytes: None, symbols }
    }
}

impl ExtractedSymbols {
    /// Attaches the bytes of the file that the symbols were found in.
    pub fn set_bytes(&mut self, bytes: Vec<u8>)
        ensures
            final(self)@ == (ExtractedSymbolsView {
                bytes: Some(bytes@),
                symbols: old(self)@.symbols,
            }),
    {
        self.bytes = Some(bytes)
    }

    /// The bytes of the file, if they have been attached.
    pub fn bytes(&self) -> (r: Option<&Vec<u8>>)
        ensures
            match r {
                Some(bytes) => self@.bytes == Some(bytes@),
                None => self@.bytes is None,
            },
    {
        self.bytes.as_ref()
    }

    /// The symbols, in the order in which they were found.
    pub fn symbols(&self) -> (r: &Vec<ExtractedSymbol>)
        ensures
            r.deep_view() == self@.symbols,
    {
        &self.symbols
    }

    /// Cuts the bytes of each symbol of known size out of the file.
    ///
    /// Nothing is returned unless every such symbol lies within the file, so
    /// that no truncated file is ever written.
    pub fn dump(&self) -> (r: Result<Vec<DumpedFile>, BRError>)
        ensures
            match r {
                Ok(files) => {
                    &&& self@.bytes matches Some(bytes)
                    &&& all_fit(self@.symbols, bytes.len())
                    &&& files.deep_view() == dumped_files(bytes, self@.symbols)
                },
                Err(BRError::InternalError(message)) => match self@.bytes {
                    None => message@ == bytes_missing_message(),
                    Some(bytes) => {
                        &&& !all_fit(self@.symbols, bytes.len())
                        &&& message@ == out_of_bounds_message()
                    },
                },
                Err(_) => false,
            },
    {
        let bytes = match &self.bytes {
            Some(bytes) => bytes,
            None => {
                return Err(BRError::InternalError("Library code not set"));
            },
        };
        let ghost symbols = self.symbols.deep_view();
        let mut files: Vec<DumpedFile> = Vec::new();
        let mut i: usize = 0;
        assert(symbols.take(0) =~= Seq::empty());
        while i < self.symbols.len()
            invariant
                i <= self.symbols.len(),
                self.bytes == Some(*bytes),
                symbols == self.symbols.deep_view(),
                all_fit(symbols.take(i as int), bytes@.len()),
                files.deep_view() == dumped_files(bytes@, symbols.take(i as int)),
            decreases self.symbols.len() - i,
        {
            let symbol = &self.symbols[i];
            assert(symbols[i as int] == symbol@);
            if let Some(size) = symbol.size {
                if symbol.offset > bytes.len() || size > bytes.len() - symbol.offset {
                    assert(!symbols[i as int].fits(bytes@.len()));
                    return Err(BRError::InternalError("Symbol range out of bounds"));
                }
                let contents = slice_to_vec(
                    slice_subrange(bytes.as_slice(), symbol.offset, symbol.offset + size),
                );
                let mut file_name = symbol.name.clone();
                file_name.append(".bin");
                proof {
                    reveal_strlit(".bin");
                    assert(".bin"@ =~= bin_suffix());
                }
                let ghost before = files.deep_view();
                let file = DumpedFile {
                    name: symbol.name.clone(),
                    offset: symbol.offset,
                    file_name,
                    contents,
                };
                files.push(file);
                assert(files.deep_view() =~= before + seq![file@]);
            }
            assert forall|j: int| 0 <= j < i + 1 implies (#[trigger] symbols.take(i + 1)[j]).fits(
                bytes@.len(),
            ) by {
                if j < i {
                    assert(symbols.take(i as int)[j] == symbols.take(i + 1)[j]);
                }
            }
            i += 1;
        }
        assert(symbols.take(i as int) =~= symbols);
        Ok(files)
    }
}

/// Finds the exported functions in the bytes of a shared library and
/// attaches the bytes to them, ready to be dumped.
///
/// The bytes are decoded by `goblin`: what they decode to is `described`,
/// and the rules of `is_extraction` are applied to that.
pub fn exported_symbols(buffer: Vec<u8>) -> (r: Result<ExtractedSymbols, BRError>)
    ensures
        match described(buffer@) {
            Some(descriptor) => is_extraction(found_symbols(r), descriptor),
            None => r matches Err(BRError::ParseError),
        },
        r is Ok ==> attached_bytes(r) == Some(buffer@),
{
    let descriptor = match describe(buffer.as_slice()) {
        Ok(descriptor) => descriptor,
        Err(error) => {
            return Err(error);
        },
    };
    match extract(&descriptor) {
        Ok(mut symbols) => {
            symbols.set_bytes(buffer);
            Ok(symbols)
        },
        Err(error) => Err(error),
    }
}

} // verus!
