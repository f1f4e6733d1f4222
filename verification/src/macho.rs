//! Exported functions of a Mach-O image.
//!
//! A Mach-O symbol gives where a function starts and not how long it is, so
//! the length of each function is taken from where the next one starts.

use vstd::prelude::*;
use vstd::string::{StrSliceExecFns, StringExecFns};

use crate::errors::BRError;
use crate::symbols::{
    attached_bytes, found_symbols, ExtractedSymbol, ExtractedSymbols, SymbolView,
};

verus! {

broadcast use vstd::seq::Seq::lemma_filter_map_take_succ;

/// One section of a segment, as far as its place in the file goes.
#[derive(Clone, Copy, Debug)]
pub struct MachSection {
    pub sectname: [u8; 16],
    pub segname: [u8; 16],
    pub offset: u32,
    pub size: u64,
}

/// One entry of the symbol table, with its name resolved.
#[derive(Clone, Debug)]
pub struct MachSymbol {
    pub name: String,
    pub n_type: u8,
    pub n_sect: usize,
    pub n_value: u64,
}

/// The mathematical value of a [`MachSymbol`].
pub struct MachSymbolView {
    pub name: Seq<char>,
    pub n_type: u8,
    pub n_sect: usize,
    pub n_value: u64,
}

impl View for MachSymbol {
    type V = MachSymbolView;

    open spec fn view(&self) -> MachSymbolView {
        MachSymbolView {
            name: self.name@,
            n_type: self.n_type,
            n_sect: self.n_sect,
            n_value: self.n_value,
        }
    }
}

impl DeepView for MachSymbol {
    type V = MachSymbolView;

    open spec fn deep_view(&self) -> MachSymbolView {
        self@
    }
}

/// The part of the file that holds the executable code.
#[derive(Clone, Copy, Debug)]
pub struct TextRegion {
    pub file_offset: usize,
    pub size: usize,
}

impl TextRegion {
    /// One past the last byte of the region.
    pub open spec fn end(self) -> int {
        self.file_offset + self.size
    }

    /// `offset` lies inside the region.
    pub open spec fn holds(self, offset: usize) -> bool {
        self.file_offset <= offset < self.end()
    }

    /// Tells whether `offset` lies inside the region.
    pub fn contains(&self, offset: usize) -> (r: bool)
        ensures
            r == self.holds(offset),
    {
        offset >= self.file_offset && offset - self.file_offset < self.size
    }
}

/// `__text`, padded with zeros to the width of a section name.
pub open spec fn text_section_name() -> Seq<u8> {
    seq![0x5fu8, 0x5f, 0x74, 0x65, 0x78, 0x74, 0, 0, 0, 0, 0, 0, 0, 0, 0, 0]
}

/// `__TEXT`, padded with zeros to the width of a segment name.
pub open spec fn text_segment_name() -> Seq<u8> {
    seq![0x5fu8, 0x5f, 0x54, 0x45, 0x58, 0x54, 0, 0, 0, 0, 0, 0, 0, 0, 0, 0]
}

impl MachSection {
    /// This is the section `__text` of the segment `__TEXT`.
    pub open spec fn is_text(self) -> bool {
        self.sectname@ == text_section_name() && self.segname@ == text_segment_name()
    }

    /// The place in the file that the section occupies.
    pub open spec fn region(self) -> TextRegion {
        TextRegion { file_offset: self.offset as usize, size: self.size as usize }
    }
}

/// The region of the last section that is `__TEXT,__text`, if there is one.
pub open spec fn text_region(sections: Seq<MachSection>) -> Option<TextRegion>
    decreases sections.len(),
{
    if sections.len() == 0 {
        None
    } else if sections.last().is_text() {
        Some(sections.last().region())
    } else {
        text_region(sections.drop_last())
    }
}

/// The text region is that of a section `__TEXT,__text` after which no
/// other such section comes, and there is none only where no section is
/// `__TEXT,__text`.
pub proof fn lemma_text_region_is_last_match(sections: Seq<MachSection>)
    ensures
        match text_region(sections) {
            Some(region) => exists|i: int|
                {
                    &&& 0 <= i < sections.len()
                    &&& (#[trigger] sections[i]).is_text()
                    &&& sections[i].region() == region
                    &&& forall|j: int| i < j < sections.len() ==> !(#[trigger] sections[j]).is_text()
                },
            None => forall|i: int| 0 <= i < sections.len() ==> !(#[trigger] sections[i]).is_text(),
        },
    decreases sections.len(),
{
    if sections.len() > 0 {
        let n = sections.len() as int;
        let shorter = sections.drop_last();
        if sections.last().is_text() {
            assert(sections[n - 1].is_text());
        } else {
            lemma_text_region_is_last_match(shorter);
            match text_region(shorter) {
                Some(region) => {
                    let i = choose|i: int|
                        {
                            &&& 0 <= i < shorter.len()
                            &&& (#[trigger] shorter[i]).is_text()
                            &&& shorter[i].region() == region
                            &&& forall|j: int|
                                i < j < shorter.len() ==> !(#[trigger] shorter[j]).is_text()
                        };
                    assert(sections[i] == shorter[i]);
                    assert forall|j: int| i < j < n implies !(#[trigger] sections[j]).is_text() by {
                        if j < n - 1 {
                            assert(sections[j] == shorter[j]);
                        }
                    }
                },
                None => {
                    assert forall|i: int| 0 <= i < n implies !(#[trigger] sections[i]).is_text() by {
                        if i < n - 1 {
                            assert(sections[i] == shorter[i]);
                        }
                    }
                },
            }
        }
    }
}

fn same_name(field: &[u8; 16], name: &[u8; 16]) -> (r: bool)
    ensures
        r == (field@ == name@),
{
    let mut i: usize = 0;
    while i < 16
        invariant
            i <= 16,
            forall|j: int| 0 <= j < i ==> field@[j] == name@[j],
        decreases 16 - i,
    {
        if field[i] != name[i] {
            return false;
        }
        i += 1;
    }
    assert(field@ =~= name@);
    true
}

fn is_text_section(section: &MachSection) -> (r: bool)
    ensures
        r == section.is_text(),
{
    let sectname: [u8; 16] = [0x5f, 0x5f, 0x74, 0x65, 0x78, 0x74, 0, 0, 0, 0, 0, 0, 0, 0, 0, 0];
    let segname: [u8; 16] = [0x5f, 0x5f, 0x54, 0x45, 0x58, 0x54, 0, 0, 0, 0, 0, 0, 0, 0, 0, 0];
    assert(sectname@ =~= text_section_name());
    assert(segname@ =~= text_segment_name());
    same_name(&section.sectname, &sectname) && same_name(&section.segname, &segname)
}

/// Finds the region of the executable code among the sections of an image.
pub fn find_text_region(sections: &Vec<MachSection>) -> (r: Option<TextRegion>)
    ensures
        r == text_region(sections@),
{
    let mut found: Option<TextRegion> = None;
    let mut i: usize = 0;
    assert(sections@.take(0) =~= Seq::empty());
    while i < sections.len()
        invariant
            i <= sections.len(),
            found == text_region(sections@.take(i as int)),
        decreases sections.len() - i,
    {
        let section = &sections[i];
        assert(sections@.take(i + 1).drop_last() =~= sections@.take(i as int));
        if is_text_section(section) {
            found = Some(TextRegion { file_offset: section.offset as usize, size: section.size as usize });
        }
        i += 1;
    }
    assert(sections@.take(i as int) =~= sections@);
    found
}

/// The exported function that a symbol-table entry stands for, if it is one:
/// an external symbol defined in the first section, named with a leading
/// underscore and something after it, whose address lies in the text region.
/// The underscore is not part of the function's name.
pub open spec fn candidate(symbol: MachSymbolView, text: TextRegion) -> Option<SymbolView> {
    if symbol.n_type == 0x0f && symbol.n_sect == 1 && symbol.name.len() > 1 && symbol.name[0]
        == '_' && text.holds(symbol.n_value as usize) {
        Some(SymbolView { name: symbol.name.skip(1), offset: symbol.n_value as usize, size: None })
    } else {
        None
    }
}

/// The exported functions among `symbols`, in the order of the table.
pub open spec fn candidates(symbols: Seq<MachSymbolView>, text: TextRegion) -> Seq<SymbolView> {
    symbols.filter_map(|symbol: MachSymbolView| candidate(symbol, text))
}

fn candidate_of(symbol: &MachSymbol, text: &TextRegion) -> (r: Option<ExtractedSymbol>)
    ensures
        r.deep_view() == candidate(symbol@, *text),
{
    if symbol.n_type != 0x0f || symbol.n_sect != 1 {
        return None;
    }
    let name = symbol.name.as_str();
    let len = name.unicode_len();
    if len <= 1 || name.get_char(0) != '_' {
        return None;
    }
    let offset = symbol.n_value as usize;
    if !text.contains(offset) {
        return None;
    }
    let stripped = String::from_str(name.substring_char(1, len));
    assert(stripped@ =~= symbol@.name.skip(1));
    Some(ExtractedSymbol { name: stripped, offset, size: None })
}

fn collect_candidates(symbols: &Vec<MachSymbol>, text: &TextRegion) -> (r: Vec<ExtractedSymbol>)
    ensures
        r.deep_view() == candidates(symbols.deep_view(), *text),
{
    let ghost table = symbols.deep_view();
    let mut found: Vec<ExtractedSymbol> = Vec::new();
    let mut i: usize = 0;
    assert(table.take(0) =~= Seq::empty());
    assert(found.deep_view() =~= Seq::empty());
    while i < symbols.len()
        invariant
            i <= symbols.len(),
            table == symbols.deep_view(),
            found.deep_view() == candidates(table.take(i as int), *text),
        decreases symbols.len() - i,
    {
        assert(table[i as int] == symbols[i as int]@);
        if let Some(symbol) = candidate_of(&symbols[i], text) {
            let ghost before = found.deep_view();
            found.push(symbol);
            assert(found.deep_view() =~= before + seq![symbol@]);
        }
        i += 1;
    }
    assert(table.take(i as int) =~= table);
    found
}

/// The symbols with their sizes forgotten.
pub open spec fn without_sizes(symbols: Seq<SymbolView>) -> Seq<SymbolView> {
    symbols.map_values(|symbol: SymbolView| SymbolView { size: None, ..symbol })
}

/// The offsets never go down along `symbols`.
pub open spec fn is_sorted_by_offset(symbols: Seq<SymbolView>) -> bool {
    forall|i: int, j: int|
        0 <= i <= j < symbols.len() ==> (#[trigger] symbols[i]).offset <= (
        #[trigger] symbols[j]).offset
}

/// The symbols of `symbols` that start at `offset`, in their order.
pub open spec fn starting_at(symbols: Seq<SymbolView>, offset: usize) -> Seq<SymbolView> {
    symbols.filter(|symbol: SymbolView| symbol.offset == offset)
}

/// `sorted` holds the symbols of `unsorted` by ascending offset, and those
/// that share an offset in the order that they have in `unsorted`.
pub open spec fn is_stable_sort_by_offset(
    sorted: Seq<SymbolView>,
    unsorted: Seq<SymbolView>,
) -> bool {
    &&& sorted.to_multiset() == unsorted.to_multiset()
    &&& is_sorted_by_offset(sorted)
    &&& forall|offset: usize| #[trigger]
        starting_at(sorted, offset) == starting_at(unsorted, offset)
}

/// Sorts with `slice::sort_by_key` of std, the key being the offset.
///
/// std documents that sort as stable: the slice ends up holding the same
/// elements in ascending order of their keys, and elements of equal keys
/// keep their order. That is all that is claimed here.
#[verifier::external_body]
fn sort_by_offset(symbols: &mut Vec<ExtractedSymbol>)
    ensures
        is_stable_sort_by_offset(final(symbols).deep_view(), old(symbols).deep_view()),
{
    symbols.sort_by_key(|symbol| symbol.offset);
}

/// The entry is a symbol of the first section that starts after `last` and
/// before the end of the text region.
pub open spec fn follows_in_text(symbol: MachSymbolView, text: TextRegion, last: usize) -> bool {
    symbol.n_sect == 1 && last < symbol.n_value as usize && (symbol.n_value as usize) < text.end()
}

/// `boundary` is where the function that starts at `last` ends: the least
/// start, among all symbols of the first section whether exported or not,
/// that lies after `last` and inside the text region, or the end of the text
/// region where no symbol starts there.
pub open spec fn is_closing_boundary(
    boundary: int,
    symbols: Seq<MachSymbolView>,
    text: TextRegion,
    last: usize,
) -> bool {
    &&& last < boundary <= text.end()
    &&& boundary == text.end() || exists|i: int|
        0 <= i < symbols.len() && follows_in_text(#[trigger] symbols[i], text, last)
            && symbols[i].n_value as usize == boundary
    &&& forall|i: int|
        0 <= i < symbols.len() && follows_in_text(#[trigger] symbols[i], text, last) ==> boundary
            <= symbols[i].n_value as usize
}

fn closing_span(symbols: &Vec<MachSymbol>, text: &TextRegion, last: usize) -> (r: usize)
    requires
        text.holds(last),
    ensures
        is_closing_boundary(last + r, symbols.deep_view(), *text, last),
{
    let ghost table = symbols.deep_view();
    let mut span: usize = text.size - (last - text.file_offset);
    let mut i: usize = 0;
    while i < symbols.len()
        invariant
            i <= symbols.len(),
            table == symbols.deep_view(),
            is_closing_boundary(last + span, table.take(i as int), *text, last),
        decreases symbols.len() - i,
    {
        let symbol = &symbols[i];
        let ghost before = table.take(i as int);
        let ghost after = table.take(i + 1);
        let ghost old_span = span;
        assert(after[i as int] == symbol@);
        if symbol.n_sect == 1 {
            let offset = symbol.n_value as usize;
            if offset > last && offset - last < span {
                span = offset - last;
            }
        }
        assert(is_closing_boundary(last + span, after, *text, last)) by {
            if span == old_span {
                if last + span != text.end() {
                    let k = choose|k: int|
                        0 <= k < before.len() && follows_in_text(#[trigger] before[k], *text, last)
                            && before[k].n_value as usize == last + span;
                    assert(after[k] == before[k]);
                }
            }
        }
        i += 1;
    }
    assert(table.take(i as int) =~= table);
    span
}

fn assign_sizes(symbols: &mut Vec<ExtractedSymbol>, last_size: usize)
    requires
        old(symbols).len() > 0,
        is_sorted_by_offset(old(symbols).deep_view()),
    ensures
        final(symbols).len() == old(symbols).len(),
        without_sizes(final(symbols).deep_view()) == without_sizes(old(symbols).deep_view()),
        forall|i: int|
            0 <= i < final(symbols).len() - 1 ==> (#[trigger] final(symbols)[i]).size == Some(
                (old(symbols)[i + 1].offset - old(symbols)[i].offset) as usize,
            ),
        final(symbols)[final(symbols).len() - 1].size == Some(last_size),
{
    let ghost before = symbols.deep_view();
    let n = symbols.len();
    let mut i: usize = 0;
    while i + 1 < n
        invariant
            0 < n == symbols.len(),
            n == before.len(),
            i < n,
            is_sorted_by_offset(before),
            forall|j: int|
                0 <= j < n ==> (#[trigger] symbols[j]).name@ == before[j].name && symbols[j].offset
                    == before[j].offset,
            forall|j: int|
                0 <= j < i ==> (#[trigger] symbols[j]).size == Some(
                    (before[j + 1].offset - before[j].offset) as usize,
                ),
        decreases n - i,
    {
        assert(before[i as int].offset <= before[i + 1].offset);
        let size = symbols[i + 1].offset - symbols[i].offset;
        symbols[i].size = Some(size);
        i += 1;
    }
    symbols[n - 1].size = Some(last_size);
    assert(without_sizes(symbols.deep_view()) =~= without_sizes(before));
}

/// `layout` is what extraction gives for an image with the symbol table
/// `symbols` and the text region `text`: the exported functions by ascending
/// offset, each reaching to where the next one starts, and the last one to
/// the closing boundary.
pub open spec fn is_layout(
    layout: Seq<SymbolView>,
    symbols: Seq<MachSymbolView>,
    text: TextRegion,
) -> bool {
    &&& is_stable_sort_by_offset(without_sizes(layout), candidates(symbols, text))
    &&& forall|i: int|
        0 <= i < layout.len() - 1 ==> ((#[trigger] layout[i]).size matches Some(size)
            && layout[i].offset + size == layout[i + 1].offset)
    &&& layout.len() > 0 ==> {
        &&& layout.last().size matches Some(size)
        &&& is_closing_boundary(layout.last().offset + size, symbols, text, layout.last().offset)
    }
}

/// `outcome` is what extraction gives for an image with the sections
/// `sections` and the symbol table `symbols`: the layout of its exported
/// functions, unless it has no text region.
pub open spec fn is_macho_extraction(
    outcome: Result<Seq<SymbolView>, BRError>,
    sections: Seq<MachSection>,
    symbols: Seq<MachSymbolView>,
) -> bool {
    match outcome {
        Ok(found) => {
            &&& text_region(sections) matches Some(text)
            &&& is_layout(found, symbols, text)
        },
        Err(BRError::ParseError) => text_region(sections) is None,
        Err(_) => false,
    }
}

/// Whatever order the exported functions are put in, each of them still
/// starts inside the text region and has no size yet.
pub proof fn lemma_reordered_candidates(
    reordered: Seq<SymbolView>,
    symbols: Seq<MachSymbolView>,
    text: TextRegion,
)
    requires
        reordered.to_multiset() == candidates(symbols, text).to_multiset(),
    ensures
        reordered.len() == candidates(symbols, text).len(),
        forall|i: int|
            0 <= i < reordered.len() ==> text.holds((#[trigger] reordered[i]).offset)
                && reordered[i].size is None,
{
    broadcast use vstd::seq_lib::to_multiset_contains;

    let found = candidates(symbols, text);
    vstd::seq_lib::to_multiset_len(reordered);
    vstd::seq_lib::to_multiset_len(found);
    assert forall|i: int| 0 <= i < reordered.len() implies text.holds(
        (#[trigger] reordered[i]).offset,
    ) && reordered[i].size is None by {
        let symbol = reordered[i];
        assert(reordered.contains(symbol));
        assert(reordered.to_multiset().count(symbol) > 0);
        assert(found.contains(symbol));
        symbols.lemma_filter_map_contains(|entry: MachSymbolView| candidate(entry, text), symbol);
    }
}

/// Extraction gives one symbol for each exported function of the table, none
/// where there is none, and every one of them starts inside the text region.
pub proof fn lemma_layout_within_text(
    layout: Seq<SymbolView>,
    symbols: Seq<MachSymbolView>,
    text: TextRegion,
)
    requires
        is_layout(layout, symbols, text),
    ensures
        layout.len() == candidates(symbols, text).len(),
        forall|i: int| 0 <= i < layout.len() ==> text.holds((#[trigger] layout[i]).offset),
{
    let bare = without_sizes(layout);
    lemma_reordered_candidates(bare, symbols, text);
    assert forall|i: int| 0 <= i < layout.len() implies text.holds(
        (#[trigger] layout[i]).offset,
    ) by {
        assert(bare[i].offset == layout[i].offset);
    }
}

/// The sizes of `symbols` added up, an unknown size counting as nothing.
pub open spec fn total_size(symbols: Seq<SymbolView>) -> int
    decreases symbols.len(),
{
    if symbols.len() == 0 {
        0
    } else {
        total_size(symbols.drop_last()) + match symbols.last().size {
            Some(size) => size as int,
            None => 0,
        }
    }
}

proof fn lemma_sizes_up_to(
    layout: Seq<SymbolView>,
    symbols: Seq<MachSymbolView>,
    text: TextRegion,
    k: int,
)
    requires
        is_layout(layout, symbols, text),
        0 <= k < layout.len(),
    ensures
        total_size(layout.take(k)) == layout[k].offset - layout[0].offset,
    decreases k,
{
    if k > 0 {
        lemma_sizes_up_to(layout, symbols, text, k - 1);
        assert(layout.take(k).drop_last() =~= layout.take(k - 1));
        assert(layout[k - 1].size is Some);
    }
}

/// The sizes that extraction gives leave no gap and no overlap: together
/// they cover exactly the bytes from the start of the first function to the
/// closing boundary.
pub proof fn lemma_layout_sizes_add_up(
    layout: Seq<SymbolView>,
    symbols: Seq<MachSymbolView>,
    text: TextRegion,
)
    requires
        is_layout(layout, symbols, text),
        layout.len() > 0,
    ensures
        layout.last().size matches Some(size) && is_closing_boundary(
            layout.last().offset + size,
            symbols,
            text,
            layout.last().offset,
        ) && total_size(layout) == layout.last().offset + size - layout.first().offset,
{
    let n = layout.len() as int;
    lemma_sizes_up_to(layout, symbols, text, n - 1);
    assert(layout.drop_last() =~= layout.take(n - 1));
}

proof fn lemma_starting_at_unfolds(symbols: Seq<SymbolView>, offset: usize)
    requires
        symbols.len() > 0,
    ensures
        starting_at(symbols, offset) == if symbols.last().offset == offset {
            starting_at(symbols.drop_last(), offset).push(symbols.last())
        } else {
            starting_at(symbols.drop_last(), offset)
        },
{
    reveal(Seq::filter);
}

proof fn lemma_sorted_orders_agree(a: Seq<SymbolView>, b: Seq<SymbolView>)
    requires
        a.to_multiset() == b.to_multiset(),
        is_sorted_by_offset(a),
        is_sorted_by_offset(b),
        forall|offset: usize| #[trigger] starting_at(a, offset) == starting_at(b, offset),
    ensures
        a == b,
    decreases a.len(),
{
    vstd::seq_lib::to_multiset_len(a);
    vstd::seq_lib::to_multiset_len(b);
    if a.len() == 0 {
        assert(a =~= b);
    } else {
        let n = a.len() as int;
        let x = a[n - 1];
        let y = b[n - 1];
        vstd::seq_lib::to_multiset_contains(a, x);
        vstd::seq_lib::to_multiset_contains(b, x);
        vstd::seq_lib::to_multiset_contains(a, y);
        vstd::seq_lib::to_multiset_contains(b, y);
        assert(a.contains(x));
        assert(b.contains(y));
        let i = choose|i: int| 0 <= i < n && b[i] == x;
        let j = choose|j: int| 0 <= j < n && a[j] == y;
        assert(b[i].offset <= b[n - 1].offset);
        assert(a[j].offset <= a[n - 1].offset);
        lemma_starting_at_unfolds(a, x.offset);
        lemma_starting_at_unfolds(b, x.offset);
        assert(starting_at(a, x.offset).last() == x);
        assert(starting_at(b, x.offset).last() == y);
        let shorter_a = a.drop_last();
        let shorter_b = b.drop_last();
        assert(a.remove(n - 1) =~= shorter_a);
        assert(b.remove(n - 1) =~= shorter_b);
        vstd::seq_lib::to_multiset_remove(a, n - 1);
        vstd::seq_lib::to_multiset_remove(b, n - 1);
        assert forall|offset: usize| #[trigger]
            starting_at(shorter_a, offset) == starting_at(shorter_b, offset) by {
            lemma_starting_at_unfolds(a, offset);
            lemma_starting_at_unfolds(b, offset);
            if offset == x.offset {
                assert(starting_at(shorter_a, offset) =~= starting_at(a, offset).drop_last());
                assert(starting_at(shorter_b, offset) =~= starting_at(b, offset).drop_last());
            }
        }
        assert(is_sorted_by_offset(shorter_a)) by {
            assert forall|p: int, q: int| 0 <= p <= q < shorter_a.len() implies (
            #[trigger] shorter_a[p]).offset <= (#[trigger] shorter_a[q]).offset by {
                assert(a[p].offset <= a[q].offset);
            }
        }
        assert(is_sorted_by_offset(shorter_b)) by {
            assert forall|p: int, q: int| 0 <= p <= q < shorter_b.len() implies (
            #[trigger] shorter_b[p]).offset <= (#[trigger] shorter_b[q]).offset by {
                assert(b[p].offset <= b[q].offset);
            }
        }
        lemma_sorted_orders_agree(shorter_a, shorter_b);
        assert(a =~= shorter_a.push(x));
        assert(b =~= shorter_b.push(y));
    }
}

/// There is only one way to sort symbols by offset that keeps those of equal
/// offset in their order.
pub proof fn lemma_stable_sort_is_unique(
    a: Seq<SymbolView>,
    b: Seq<SymbolView>,
    unsorted: Seq<SymbolView>,
)
    requires
        is_stable_sort_by_offset(a, unsorted),
        is_stable_sort_by_offset(b, unsorted),
    ensures
        a == b,
{
    assert forall|offset: usize| #[trigger] starting_at(a, offset) == starting_at(b, offset) by {
        assert(starting_at(a, offset) == starting_at(unsorted, offset));
        assert(starting_at(b, offset) == starting_at(unsorted, offset));
    }
    lemma_sorted_orders_agree(a, b);
}

/// A function has one closing boundary.
pub proof fn lemma_closing_boundary_is_unique(
    a: int,
    b: int,
    symbols: Seq<MachSymbolView>,
    text: TextRegion,
    last: usize,
)
    requires
        is_closing_boundary(a, symbols, text, last),
        is_closing_boundary(b, symbols, text, last),
    ensures
        a == b,
{
}

/// An image has one layout: what extraction gives is determined by the
/// symbol table and the text region.
pub proof fn lemma_layout_is_unique(
    a: Seq<SymbolView>,
    b: Seq<SymbolView>,
    symbols: Seq<MachSymbolView>,
    text: TextRegion,
)
    requires
        is_layout(a, symbols, text),
        is_layout(b, symbols, text),
    ensures
        a == b,
{
    let bare_a = without_sizes(a);
    let bare_b = without_sizes(b);
    lemma_stable_sort_is_unique(bare_a, bare_b, candidates(symbols, text));
    let n = a.len() as int;
    assert(bare_a.len() == bare_b.len());
    assert forall|i: int| 0 <= i < n implies a[i] == b[i] by {
        assert(bare_a[i] == bare_b[i]);
        assert(bare_a[n - 1] == bare_b[n - 1]);
        if i < n - 1 {
            assert(bare_a[i + 1] == bare_b[i + 1]);
            assert(a[i].size is Some);
            assert(b[i].size is Some);
        } else {
            lemma_closing_boundary_is_unique(
                a.last().offset + a.last().size->0,
                b.last().offset + b.last().size->0,
                symbols,
                text,
                a.last().offset,
            );
        }
    }
    assert(a =~= b);
}

/// Finds the exported functions of a Mach-O image and works out their sizes.
///
/// `sections` are the sections of all segments in the order of the load
/// commands, `symbols` the entries of the symbol table. Without a section
/// `__TEXT,__text` there is no code to take functions from, and the image is
/// refused.
pub fn parse_macho(sections: &Vec<MachSection>, symbols: &Vec<MachSymbol>) -> (r: Result<
    ExtractedSymbols,
    BRError,
>)
    ensures
        is_macho_extraction(found_symbols(r), sections@, symbols.deep_view()),
        attached_bytes(r) is None,
        r matches Ok(found) ==> forall|i: int|
            0 <= i < found@.symbols.len() ==> text_region(sections@)->0.holds(
                (#[trigger] found@.symbols[i]).offset,
            ),
{
    let text = match find_text_region(sections) {
        Some(text) => text,
        None => {
            return Err(BRError::ParseError);
        },
    };
    let mut found = collect_candidates(symbols, &text);
    sort_by_offset(&mut found);
    let ghost sorted = found.deep_view();
    proof {
        lemma_reordered_candidates(sorted, symbols.deep_view(), text);
        assert(without_sizes(sorted) =~= sorted);
    }
    if found.len() > 0 {
        let last = found[found.len() - 1].offset;
        assert(last == sorted[sorted.len() - 1].offset);
        let span = closing_span(symbols, &text, last);
        assign_sizes(&mut found, span);
    }
    let ghost layout = found.deep_view();
    proof {
        assert forall|i: int| 0 <= i < layout.len() implies (#[trigger] layout[i]).offset
            == sorted[i].offset by {
            assert(without_sizes(layout)[i] == without_sizes(sorted)[i]);
        }
    }
    Ok(ExtractedSymbols::from(found))
}

} // verus!
