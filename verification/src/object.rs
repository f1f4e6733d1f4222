//! From the bytes of an object file to the tables that extraction reads.
//!
//! `goblin` reads every structure of the container. What it hands back is
//! turned here into plain tables, and the kind of the container decides
//! which rules are applied to them. Of a Mach-O image only the segments and
//! the symbol table are read; what else its load commands hold is passed
//! over.

use scroll::Pread;
use vstd::prelude::*;

use crate::elf::{is_elf_extraction, parse_elf, ElfSymbol, ElfSymbolView};
use crate::errors::BRError;
use crate::macho::{
    is_macho_extraction, lemma_layout_is_unique, parse_macho, text_region, MachSection,
    MachSymbol, MachSymbolView,
};
use crate::symbols::{attached_bytes, dumped_files, found_symbols, ExtractedSymbols, SymbolView};

verus! {

broadcast use vstd::seq::Seq::lemma_filter_map_take_succ;

/// `goblin::error::Error`, carried through as an opaque value.
#[verifier::external_type_specification]
#[verifier::external_body]
pub struct ExGoblinError(goblin::error::Error);

/// `goblin::elf::Elf`, carried through as an opaque value.
#[verifier::external_type_specification]
#[verifier::external_body]
pub struct ExElf<'a>(goblin::elf::Elf<'a>);

/// `goblin::container::Ctx`, the word size and byte order of a container,
/// carried through as an opaque value.
#[verifier::external_type_specification]
#[verifier::external_body]
pub struct ExCtx(goblin::container::Ctx);

/// `goblin::mach::load_command::SegmentCommand32`, carried through as an
/// opaque value.
#[verifier::external_type_specification]
#[verifier::external_body]
pub struct ExSegmentCommand32(goblin::mach::load_command::SegmentCommand32);

/// `goblin::mach::load_command::SegmentCommand64`, carried through as an
/// opaque value.
#[verifier::external_type_specification]
#[verifier::external_body]
pub struct ExSegmentCommand64(goblin::mach::load_command::SegmentCommand64);

/// `goblin::mach::load_command::SymtabCommand`, carried through as an opaque
/// value.
#[verifier::external_type_specification]
#[verifier::external_body]
pub struct ExSymtabCommand(goblin::mach::load_command::SymtabCommand);

/// `goblin::mach::segment::Segment`, carried through as an opaque value.
#[verifier::external_type_specification]
#[verifier::external_body]
pub struct ExSegment<'a>(goblin::mach::segment::Segment<'a>);

/// `goblin::mach::segment::Section`, which the iterator over the sections
/// of a segment yields.
#[verifier::external_type_specification]
#[verifier::external_body]
pub struct ExSection(goblin::mach::segment::Section);

/// `goblin::mach::segment::SectionIterator`, carried through as an opaque
/// value.
#[verifier::external_type_specification]
#[verifier::external_body]
pub struct ExSectionIterator<'a>(goblin::mach::segment::SectionIterator<'a>);

/// `goblin::mach::symbols::Symbols`, carried through as an opaque value.
#[verifier::external_type_specification]
#[verifier::external_body]
pub struct ExSymbols<'a>(goblin::mach::symbols::Symbols<'a>);

/// What the first bytes of a file say it is.
#[derive(Clone, Copy, Debug)]
pub enum ContainerKind {
    /// An ELF file.
    Elf,
    /// A Mach-O image for one architecture.
    Mach,
    /// A Mach-O archive of images for several architectures.
    MachFat,
    /// Anything else.
    Other,
}

/// One entry of an ELF symbol table as it is stored, with the offset of its
/// name in the string table.
#[derive(Clone, Copy, Debug)]
pub struct ElfEntry {
    pub st_name: usize,
    pub st_info: u8,
    pub st_value: u64,
    pub st_size: u64,
}

/// What extraction needs of the header of a Mach-O image: how many load
/// commands follow it, how many bytes they are said to take, and how many
/// bytes the header itself takes.
#[derive(Clone, Copy, Debug)]
pub struct MachHeader {
    pub ncmds: usize,
    pub sizeofcmds: u32,
    pub size: usize,
}

/// A load command of a Mach-O image, as far as extraction tells them apart.
pub enum Command {
    /// A segment of a 32-bit image.
    Segment32(goblin::mach::load_command::SegmentCommand32),
    /// A segment of a 64-bit image.
    Segment64(goblin::mach::load_command::SegmentCommand64),
    /// The symbol table, with the number of entries it is said to have.
    Symtab { command: goblin::mach::load_command::SymtabCommand, nsyms: u32 },
    /// Any other command.
    Other,
}

/// A load command and the offset at which the one after it starts.
pub struct CommandEntry {
    pub command: Command,
    pub next: usize,
}

/// What `goblin::peek_bytes` makes of the first sixteen bytes of a file.
pub uninterp spec fn peeked_kind(hint: Seq<u8>) -> Result<ContainerKind, goblin::error::Error>;

/// What `goblin::elf::Elf::parse` makes of `bytes`.
pub uninterp spec fn parsed_elf(bytes: Seq<u8>) -> Result<
    goblin::elf::Elf<'static>,
    goblin::error::Error,
>;

/// The entries of the dynamic symbol table of `elf`, in the order of the
/// table.
pub uninterp spec fn elf_dynsyms(elf: goblin::elf::Elf<'static>) -> Seq<ElfEntry>;

/// What the dynamic string table of `elf` holds at `offset`.
pub uninterp spec fn elf_dynstr_at(elf: goblin::elf::Elf<'static>, offset: usize) -> Option<
    Seq<char>,
>;

/// The word size and byte order that the magic number at the start of
/// `bytes` stands for, if it is that of a Mach-O image.
pub uninterp spec fn mach_context(bytes: Seq<u8>) -> Result<
    Option<goblin::container::Ctx>,
    goblin::error::Error,
>;

/// The header at the start of `bytes`, read for the given word size and byte
/// order.
pub uninterp spec fn mach_header(bytes: Seq<u8>, context: goblin::container::Ctx) -> Result<
    MachHeader,
    goblin::error::Error,
>;

/// The load command that `bytes` hold at `offset`.
pub uninterp spec fn load_command(
    bytes: Seq<u8>,
    offset: usize,
    context: goblin::container::Ctx,
) -> Result<CommandEntry, goblin::error::Error>;

/// The segment that the command `command`, found at `offset`, describes.
pub uninterp spec fn segment_32(
    bytes: Seq<u8>,
    command: goblin::mach::load_command::SegmentCommand32,
    offset: usize,
    context: goblin::container::Ctx,
) -> Result<goblin::mach::segment::Segment<'static>, goblin::error::Error>;

/// The segment that the command `command`, found at `offset`, describes.
pub uninterp spec fn segment_64(
    bytes: Seq<u8>,
    command: goblin::mach::load_command::SegmentCommand64,
    offset: usize,
    context: goblin::container::Ctx,
) -> Result<goblin::mach::segment::Segment<'static>, goblin::error::Error>;

/// The iterator over the sections of `segment`, before anything was taken
/// from it.
pub uninterp spec fn section_iterator(
    segment: goblin::mach::segment::Segment<'static>,
) -> goblin::mach::segment::SectionIterator<'static>;

/// What `sections` has yet to yield, in order; `None` stands for a section
/// that could not be read.
pub uninterp spec fn sections_left(
    sections: goblin::mach::segment::SectionIterator<'static>,
) -> Seq<Option<MachSection>>;

/// The symbol table that the command `command` describes.
pub uninterp spec fn symbol_table(
    bytes: Seq<u8>,
    command: goblin::mach::load_command::SymtabCommand,
    context: goblin::container::Ctx,
) -> Result<goblin::mach::symbols::Symbols<'static>, goblin::error::Error>;

/// The entry of `symbols` at `index`; `None` where it cannot be read.
pub uninterp spec fn symbol_at(
    symbols: goblin::mach::symbols::Symbols<'static>,
    index: usize,
) -> Option<MachSymbolView>;

/// Calls `goblin::peek_bytes` and tells the variants of its result apart.
///
/// The result depends on the sixteen bytes alone, which is all that is
/// claimed.
#[verifier::external_body]
fn peek(hint: &[u8; 16]) -> (r: Result<ContainerKind, goblin::error::Error>)
    ensures
        r == peeked_kind(hint@),
{
    Ok(
        match goblin::peek_bytes(hint)? {
            goblin::Hint::Elf(_) => ContainerKind::Elf,
            goblin::Hint::Mach(_) => ContainerKind::Mach,
            goblin::Hint::MachFat(_) => ContainerKind::MachFat,
            _ => ContainerKind::Other,
        },
    )
}

/// Calls `goblin::elf::Elf::parse`.
///
/// The result depends on the bytes alone, which is all that is claimed.
#[verifier::external_body]
fn read_elf<'a>(bytes: &'a [u8]) -> (r: Result<goblin::elf::Elf<'a>, goblin::error::Error>)
    ensures
        r == parsed_elf(bytes@),
{
    goblin::elf::Elf::parse(bytes)
}

/// Walks `elf.dynsyms` with `goblin::elf::Symtab::iter`.
///
/// Each entry that the iterator yields is copied field by field, in order.
#[verifier::external_body]
fn dynamic_entries(elf: &goblin::elf::Elf<'_>) -> (r: Vec<ElfEntry>)
    ensures
        r@ == elf_dynsyms(*elf),
{
    elf.dynsyms.iter().map(
        |sym| ElfEntry {
            st_name: sym.st_name,
            st_info: sym.st_info,
            st_value: sym.st_value,
            st_size: sym.st_size,
        },
    ).collect()
}

/// Looks `offset` up in `elf.dynstrtab` with `goblin::strtab::Strtab::get_at`.
///
/// The string that is found, if any, is copied.
#[verifier::external_body]
fn dynamic_name(elf: &goblin::elf::Elf<'_>, offset: usize) -> (r: Option<String>)
    ensures
        r.deep_view() == elf_dynstr_at(*elf, offset),
{
    elf.dynstrtab.get_at(offset).map(String::from)
}

/// Calls `goblin::mach::parse_magic_and_ctx` at the start of `bytes` and
/// keeps the context of its result.
///
/// The result depends on the bytes alone, which is all that is claimed.
#[verifier::external_body]
fn read_context(bytes: &[u8]) -> (r: Result<Option<goblin::container::Ctx>, goblin::error::Error>)
    ensures
        r == mach_context(bytes@),
{
    goblin::mach::parse_magic_and_ctx(bytes, 0).map(|(_, context)| context)
}

/// Reads a `goblin::mach::header::Header` at the start of `bytes`, through
/// `scroll::Pread::gread_with`.
///
/// Of the header the two counts are copied, and with them the number of
/// bytes that the read went forward.
#[verifier::external_body]
fn read_header(bytes: &[u8], context: &goblin::container::Ctx) -> (r: Result<
    MachHeader,
    goblin::error::Error,
>)
    ensures
        r == mach_header(bytes@, *context),
{
    let mut size: usize = 0;
    let header: goblin::mach::header::Header = bytes.gread_with(&mut size, *context)?;
    Ok(MachHeader { ncmds: header.ncmds, sizeofcmds: header.sizeofcmds, size })
}

/// Calls `goblin::mach::load_command::LoadCommand::parse` at `offset`,
/// which lies within the file, and tells the variants of the command apart.
///
/// A segment command and a symbol-table command are handed on as `goblin`
/// made them, the latter with its count of entries; of every other command
/// only the offset that follows it is kept.
#[verifier::external_body]
fn read_command(bytes: &[u8], offset: usize, context: &goblin::container::Ctx) -> (r: Result<
    CommandEntry,
    goblin::error::Error,
>)
    requires
        offset <= bytes@.len(),
    ensures
        r == load_command(bytes@, offset, *context),
{
    let mut next: usize = offset;
    let entry = goblin::mach::load_command::LoadCommand::parse(bytes, &mut next, context.le)?;
    let command = match entry.command {
        goblin::mach::load_command::CommandVariant::Segment32(command) => Command::Segment32(command),
        goblin::mach::load_command::CommandVariant::Segment64(command) => Command::Segment64(command),
        goblin::mach::load_command::CommandVariant::Symtab(command) => Command::Symtab {
            nsyms: command.nsyms,
            command,
        },
        _ => Command::Other,
    };
    Ok(CommandEntry { command, next })
}

/// Calls `goblin::mach::segment::Segment::from_32`.
///
/// The result depends on the arguments alone, which is all that is claimed.
/// The offset is kept within the file, so that the place of what follows the
/// command can be worked out from it.
#[verifier::external_body]
fn read_segment_32<'a>(
    bytes: &'a [u8],
    command: &goblin::mach::load_command::SegmentCommand32,
    offset: usize,
    context: &goblin::container::Ctx,
) -> (r: Result<goblin::mach::segment::Segment<'a>, goblin::error::Error>)
    requires
        offset <= bytes@.len(),
    ensures
        r == segment_32(bytes@, *command, offset, *context),
{
    goblin::mach::segment::Segment::from_32(bytes, command, offset, *context)
}

/// Calls `goblin::mach::segment::Segment::from_64`.
///
/// The result depends on the arguments alone, which is all that is claimed.
/// The offset is kept within the file, so that the place of what follows the
/// command can be worked out from it.
#[verifier::external_body]
fn read_segment_64<'a>(
    bytes: &'a [u8],
    command: &goblin::mach::load_command::SegmentCommand64,
    offset: usize,
    context: &goblin::container::Ctx,
) -> (r: Result<goblin::mach::segment::Segment<'a>, goblin::error::Error>)
    requires
        offset <= bytes@.len(),
    ensures
        r == segment_64(bytes@, *command, offset, *context),
{
    goblin::mach::segment::Segment::from_64(bytes, command, offset, *context)
}

/// Makes the iterator over the sections of `segment`, which `goblin` gives
/// through `IntoIterator` for a borrowed `Segment`.
///
/// A segment comes from `read_segment_32` or `read_segment_64` alone, which
/// keep the offset of its command within the file; the sections are looked
/// for right behind that command.
#[verifier::external_body]
fn sections_of<'a>(segment: &goblin::mach::segment::Segment<'a>) -> (r:
    goblin::mach::segment::SectionIterator<'a>)
    ensures
        r == section_iterator(*segment),
{
    segment.into_iter()
}

/// Calls `next` on a `goblin::mach::segment::SectionIterator`.
///
/// The iterator yields what it had left in order and then ends. Of a
/// section that it yields the two names, the file offset and the size are
/// copied; `None` is put where it yields an error.
#[verifier::external_body]
fn next_section(sections: &mut goblin::mach::segment::SectionIterator<'_>) -> (r: Option<
    Option<MachSection>,
>)
    ensures
        match r {
            Some(entry) => {
                &&& sections_left(*old(sections)).len() > 0
                &&& entry == sections_left(*old(sections))[0]
                &&& sections_left(*final(sections)) == sections_left(*old(sections)).skip(1)
            },
            None => {
                &&& sections_left(*old(sections)).len() == 0
                &&& sections_left(*final(sections)).len() == 0
            },
        },
{
    sections.next().map(
        |entry| entry.ok().map(
            |(section, _)| MachSection {
                sectname: section.sectname,
                segname: section.segname,
                offset: section.offset,
                size: section.size,
            },
        ),
    )
}

/// Calls `goblin::mach::symbols::Symbols::parse`.
///
/// The result depends on the arguments alone, which is all that is claimed.
#[verifier::external_body]
fn read_symbols<'a>(
    bytes: &'a [u8],
    command: &goblin::mach::load_command::SymtabCommand,
    context: &goblin::container::Ctx,
) -> (r: Result<goblin::mach::symbols::Symbols<'a>, goblin::error::Error>)
    ensures
        r == symbol_table(bytes@, *command, *context),
{
    goblin::mach::symbols::Symbols::parse(bytes, command, *context)
}

/// Calls `goblin::mach::symbols::Symbols::get`.
///
/// Of the entry that is found the name, type, section number and value are
/// copied; `None` is put where the call gives an error. The index is kept
/// to 32 bits, as the count of a symbol table is, so that the place of the
/// entry fits a word of 64 bits.
#[verifier::external_body]
fn symbol_entry(symbols: &goblin::mach::symbols::Symbols<'_>, index: usize) -> (r: Option<
    MachSymbol,
>)
    requires
        index <= u32::MAX,
    ensures
        r.deep_view() == symbol_at(*symbols, index),
{
    symbols.get(index).ok().map(
        |(name, nlist)| MachSymbol {
            name: String::from(name),
            n_type: nlist.n_type,
            n_sect: nlist.n_sect,
            n_value: nlist.n_value,
        },
    )
}

/// The entries that could be read, in their order.
pub open spec fn readable<T>(entries: Seq<Option<T>>) -> Seq<T> {
    entries.filter_map(|entry: Option<T>| entry)
}

/// The dynamic symbol table of `elf` with the name of each entry resolved.
pub open spec fn elf_symbols(elf: goblin::elf::Elf<'static>) -> Seq<ElfSymbolView> {
    elf_dynsyms(elf).map_values(
        |entry: ElfEntry|
            ElfSymbolView {
                name: elf_dynstr_at(elf, entry.st_name),
                st_info: entry.st_info,
                st_value: entry.st_value,
                st_size: entry.st_size,
            },
    )
}

/// The sections of `segment` that can be read, in order.
pub open spec fn segment_sections(segment: goblin::mach::segment::Segment<'static>) -> Seq<
    MachSection,
> {
    readable(sections_left(section_iterator(segment)))
}

/// The first `count` entries of `symbols` that can be read, in order.
pub open spec fn table_symbols(
    symbols: goblin::mach::symbols::Symbols<'static>,
    count: u32,
) -> Seq<MachSymbolView> {
    readable(Seq::new(count as nat, |index: int| symbol_at(symbols, index as usize)))
}

/// The sections and the symbol table of a Mach-O image, as far as its load
/// commands have been read.
pub struct MachTables {
    pub sections: Vec<MachSection>,
    pub symbols: Option<Vec<MachSymbol>>,
}

/// The mathematical value of [`MachTables`].
pub struct MachTablesView {
    pub sections: Seq<MachSection>,
    pub symbols: Option<Seq<MachSymbolView>>,
}

impl View for MachTables {
    type V = MachTablesView;

    open spec fn view(&self) -> MachTablesView {
        MachTablesView { sections: self.sections@, symbols: self.symbols.deep_view() }
    }
}

/// The tables after the command `command`, found at `offset`, has been
/// read: a segment adds its sections to those found before, a symbol table
/// takes the place of one found before, and any other command changes
/// nothing. `None` where the segment or the symbol table cannot be read.
pub open spec fn with_command(
    bytes: Seq<u8>,
    context: goblin::container::Ctx,
    offset: usize,
    command: Command,
    tables: MachTablesView,
) -> Option<MachTablesView> {
    match command {
        Command::Segment32(command) => match segment_32(bytes, command, offset, context) {
            Ok(segment) => Some(
                MachTablesView { sections: tables.sections + segment_sections(segment), ..tables },
            ),
            Err(_) => None,
        },
        Command::Segment64(command) => match segment_64(bytes, command, offset, context) {
            Ok(segment) => Some(
                MachTablesView { sections: tables.sections + segment_sections(segment), ..tables },
            ),
            Err(_) => None,
        },
        Command::Symtab { command, nsyms } => match symbol_table(bytes, command, context) {
            Ok(symbols) => Some(
                MachTablesView { symbols: Some(table_symbols(symbols, nsyms)), ..tables },
            ),
            Err(_) => None,
        },
        Command::Other => Some(tables),
    }
}

/// The tables after `left` more load commands have been read, the first of
/// them at `offset`. `None` where one of them lies outside the file or
/// cannot be read.
pub open spec fn with_commands(
    bytes: Seq<u8>,
    context: goblin::container::Ctx,
    offset: usize,
    left: nat,
    tables: MachTablesView,
) -> Option<MachTablesView>
    decreases left,
{
    if left == 0 {
        Some(tables)
    } else if offset > bytes.len() {
        None
    } else {
        match load_command(bytes, offset, context) {
            Ok(entry) => match with_command(bytes, context, offset, entry.command, tables) {
                Some(next) => with_commands(bytes, context, entry.next, (left - 1) as nat, next),
                None => None,
            },
            Err(_) => None,
        }
    }
}

/// The header admits to no more load commands than fit the bytes that it
/// says they take, and to no more bytes than the file has.
pub open spec fn commands_fit(header: MachHeader, len: nat) -> bool {
    header.ncmds <= header.sizeofcmds / 8 && header.sizeofcmds <= len
}

/// The tables of the Mach-O image that `bytes` hold; `None` where the magic
/// number, the header or a load command cannot be read, or the header
/// admits to more load commands than can be.
pub open spec fn mach_tables(bytes: Seq<u8>) -> Option<MachTablesView> {
    match mach_context(bytes) {
        Ok(Some(context)) => match mach_header(bytes, context) {
            Ok(header) if commands_fit(header, bytes.len()) => with_commands(
                bytes,
                context,
                header.size,
                header.ncmds as nat,
                MachTablesView { sections: Seq::empty(), symbols: None },
            ),
            _ => None,
        },
        _ => None,
    }
}

/// The tables of an object file that extraction reads.
#[derive(Debug)]
pub enum ObjectDescriptor {
    /// An ELF file, with its dynamic symbol table.
    Elf { dynsyms: Vec<ElfSymbol> },
    /// A Mach-O image for one architecture, with its sections and, where it
    /// has one, its symbol table.
    MachO { sections: Vec<MachSection>, symbols: Option<Vec<MachSymbol>> },
    /// A container of a kind that is not handled.
    Unsupported,
}

/// The mathematical value of an [`ObjectDescriptor`].
pub enum ObjectDescriptorView {
    Elf { dynsyms: Seq<ElfSymbolView> },
    MachO { sections: Seq<MachSection>, symbols: Option<Seq<MachSymbolView>> },
    Unsupported,
}

impl View for ObjectDescriptor {
    type V = ObjectDescriptorView;

    open spec fn view(&self) -> ObjectDescriptorView {
        match self {
            ObjectDescriptor::Elf { dynsyms } => ObjectDescriptorView::Elf {
                dynsyms: dynsyms.deep_view(),
            },
            ObjectDescriptor::MachO { sections, symbols } => ObjectDescriptorView::MachO {
                sections: sections@,
                symbols: symbols.deep_view(),
            },
            ObjectDescriptor::Unsupported => ObjectDescriptorView::Unsupported,
        }
    }
}

/// The tables that `bytes` decode to. A file of fewer than sixteen bytes
/// cannot be told apart and decodes to nothing, as does one that `goblin`
/// cannot read; a file that is neither an ELF file nor a single Mach-O image
/// is not read at all.
pub open spec fn described(bytes: Seq<u8>) -> Option<ObjectDescriptorView> {
    if bytes.len() < 16 {
        None
    } else {
        match peeked_kind(bytes.take(16)) {
            Ok(ContainerKind::Elf) => match parsed_elf(bytes) {
                Ok(elf) => Some(ObjectDescriptorView::Elf { dynsyms: elf_symbols(elf) }),
                Err(_) => None,
            },
            Ok(ContainerKind::Mach) => match mach_tables(bytes) {
                Some(tables) => Some(
                    ObjectDescriptorView::MachO {
                        sections: tables.sections,
                        symbols: tables.symbols,
                    },
                ),
                None => None,
            },
            Ok(_) => Some(ObjectDescriptorView::Unsupported),
            Err(_) => None,
        }
    }
}

fn resolve_names(elf: &goblin::elf::Elf<'_>) -> (r: Vec<ElfSymbol>)
    ensures
        r.deep_view() == elf_symbols(*elf),
{
    let entries = dynamic_entries(elf);
    let mut table: Vec<ElfSymbol> = Vec::new();
    let mut i: usize = 0;
    while i < entries.len()
        invariant
            i <= entries.len(),
            entries@ == elf_dynsyms(*elf),
            table.len() == i,
            forall|j: int| 0 <= j < i ==> (#[trigger] table[j])@ == elf_symbols(*elf)[j],
        decreases entries.len() - i,
    {
        let entry = entries[i];
        let name = dynamic_name(elf, entry.st_name);
        table.push(
            ElfSymbol {
                name,
                st_info: entry.st_info,
                st_value: entry.st_value,
                st_size: entry.st_size,
            },
        );
        i += 1;
    }
    assert(table.deep_view() =~= elf_symbols(*elf));
    table
}

fn add_sections(segment: &goblin::mach::segment::Segment<'_>, sections: &mut Vec<MachSection>)
    ensures
        final(sections)@ == old(sections)@ + segment_sections(*segment),
{
    let mut iterator = sections_of(segment);
    let ghost all = sections_left(iterator);
    let ghost before = sections@;
    let ghost mut taken: int = 0;
    assert(all.take(0) =~= Seq::empty());
    assert(all.skip(0) =~= all);
    loop
        invariant_except_break
            0 <= taken <= all.len(),
            sections_left(iterator) == all.skip(taken),
            sections@ == before + readable(all.take(taken)),
        ensures
            sections@ == before + readable(all),
        decreases all.len() - taken,
    {
        match next_section(&mut iterator) {
            Some(entry) => {
                assert(entry == all[taken]);
                assert(all.skip(taken).skip(1) =~= all.skip(taken + 1));
                if let Some(section) = entry {
                    sections.push(section);
                }
                proof {
                    taken = taken + 1;
                }
            },
            None => {
                assert(all.take(taken) =~= all);
                break ;
            },
        }
    }
}

fn readable_symbols(symbols: &goblin::mach::symbols::Symbols<'_>, count: u32) -> (r: Vec<
    MachSymbol,
>)
    ensures
        r.deep_view() == table_symbols(*symbols, count),
{
    let ghost all = Seq::new(count as nat, |index: int| symbol_at(*symbols, index as usize));
    let mut kept: Vec<MachSymbol> = Vec::new();
    let mut i: u32 = 0;
    assert(all.take(0) =~= Seq::empty());
    assert(kept.deep_view() =~= Seq::empty());
    while i < count
        invariant
            i <= count,
            all == Seq::new(count as nat, |index: int| symbol_at(*symbols, index as usize)),
            kept.deep_view() == readable(all.take(i as int)),
        decreases count - i,
    {
        if let Some(symbol) = symbol_entry(symbols, i as usize) {
            let ghost before = kept.deep_view();
            kept.push(symbol);
            assert(kept.deep_view() =~= before + seq![symbol@]);
        }
        i += 1;
    }
    assert(all.take(i as int) =~= all);
    kept
}

fn read_commands(bytes: &[u8], context: &goblin::container::Ctx, header: &MachHeader) -> (r:
    Option<MachTables>)
    ensures
        r.is_some() == with_commands(
            bytes@,
            *context,
            header.size,
            header.ncmds as nat,
            (MachTablesView { sections: Seq::empty(), symbols: None }),
        ).is_some(),
        r matches Some(tables) ==> Some(tables@) == with_commands(
            bytes@,
            *context,
            header.size,
            header.ncmds as nat,
            (MachTablesView { sections: Seq::empty(), symbols: None }),
        ),
{
    let ghost whole = with_commands(
        bytes@,
        *context,
        header.size,
        header.ncmds as nat,
        (MachTablesView { sections: Seq::empty(), symbols: None }),
    );
    let mut tables = MachTables { sections: Vec::new(), symbols: None };
    let mut offset: usize = header.size;
    let mut i: usize = 0;
    while i < header.ncmds
        invariant
            i <= header.ncmds,
            whole == with_commands(
                bytes@,
                *context,
                header.size,
                header.ncmds as nat,
                (MachTablesView { sections: Seq::empty(), symbols: None }),
            ),
            whole == with_commands(bytes@, *context, offset, (header.ncmds - i) as nat, tables@),
        decreases header.ncmds - i,
    {
        if offset > bytes.len() {
            return None;
        }
        let entry = match read_command(bytes, offset, context) {
            Ok(entry) => entry,
            Err(_) => {
                return None;
            },
        };
        match entry.command {
            Command::Segment32(command) => {
                match read_segment_32(bytes, &command, offset, context) {
                    Ok(segment) => add_sections(&segment, &mut tables.sections),
                    Err(_) => {
                        return None;
                    },
                }
            },
            Command::Segment64(command) => {
                match read_segment_64(bytes, &command, offset, context) {
                    Ok(segment) => add_sections(&segment, &mut tables.sections),
                    Err(_) => {
                        return None;
                    },
                }
            },
            Command::Symtab { command, nsyms } => {
                match read_symbols(bytes, &command, context) {
                    Ok(symbols) => {
                        tables.symbols = Some(readable_symbols(&symbols, nsyms));
                    },
                    Err(_) => {
                        return None;
                    },
                }
            },
            Command::Other => {},
        }
        offset = entry.next;
        i += 1;
    }
    Some(tables)
}

fn describe_mach(bytes: &[u8]) -> (r: Option<MachTables>)
    ensures
        r.is_some() == mach_tables(bytes@).is_some(),
        r matches Some(tables) ==> Some(tables@) == mach_tables(bytes@),
{
    let context = match read_context(bytes) {
        Ok(Some(context)) => context,
        _ => {
            return None;
        },
    };
    let header = match read_header(bytes, &context) {
        Ok(header) => header,
        Err(_) => {
            return None;
        },
    };
    if header.ncmds > (header.sizeofcmds / 8) as usize || header.sizeofcmds as usize > bytes.len() {
        return None;
    }
    read_commands(bytes, &context, &header)
}

fn first_sixteen(bytes: &[u8]) -> (r: [u8; 16])
    requires
        bytes@.len() >= 16,
    ensures
        r@ == bytes@.take(16),
{
    let mut hint: [u8; 16] = [0; 16];
    let mut i: usize = 0;
    while i < 16
        invariant
            i <= 16,
            bytes@.len() >= 16,
            forall|j: int| 0 <= j < i ==> hint@[j] == bytes@[j],
        decreases 16 - i,
    {
        hint[i] = bytes[i];
        i += 1;
    }
    assert(hint@ =~= bytes@.take(16));
    hint
}

/// Decodes an object file into the tables that extraction reads.
///
/// Fails where the file is too short to be told apart or `goblin` cannot
/// read it; a file that is neither an ELF file nor a single Mach-O image is
/// described as unsupported without being read.
pub fn describe(bytes: &[u8]) -> (r: Result<ObjectDescriptor, BRError>)
    ensures
        match r {
            Ok(descriptor) => described(bytes@) == Some(descriptor@),
            Err(BRError::ParseError) => described(bytes@) is None,
            Err(_) => false,
        },
{
    if bytes.len() < 16 {
        return Err(BRError::ParseError);
    }
    let hint = first_sixteen(bytes);
    match peek(&hint) {
        Ok(ContainerKind::Elf) => match read_elf(bytes) {
            Ok(elf) => Ok(ObjectDescriptor::Elf { dynsyms: resolve_names(&elf) }),
            Err(_) => Err(BRError::ParseError),
        },
        Ok(ContainerKind::Mach) => match describe_mach(bytes) {
            Some(tables) => Ok(
                ObjectDescriptor::MachO { sections: tables.sections, symbols: tables.symbols },
            ),
            None => Err(BRError::ParseError),
        },
        Ok(_) => Ok(ObjectDescriptor::Unsupported),
        Err(_) => Err(BRError::ParseError),
    }
}

/// `outcome` is what extraction gives for an object file with the tables
/// `descriptor`: the rules of its format applied to its tables. A Mach-O
/// image without a symbol table cannot be parsed, and no other container is
/// supported.
pub open spec fn is_extraction(
    outcome: Result<Seq<SymbolView>, BRError>,
    descriptor: ObjectDescriptorView,
) -> bool {
    match descriptor {
        ObjectDescriptorView::Elf { dynsyms } => is_elf_extraction(outcome, dynsyms),
        ObjectDescriptorView::MachO { sections, symbols: Some(symbols) } => is_macho_extraction(
            outcome,
            sections,
            symbols,
        ),
        ObjectDescriptorView::MachO { sections, symbols: None } => outcome matches Err(
            BRError::ParseError,
        ),
        ObjectDescriptorView::Unsupported => outcome matches Err(BRError::Unsupported),
    }
}

/// What extraction gives is determined by the tables: whenever it is run on
/// the same object file it finds the same symbols or fails in the same way,
/// and the same files come of dumping what it found.
pub proof fn lemma_extraction_is_determined(
    first: Result<Seq<SymbolView>, BRError>,
    second: Result<Seq<SymbolView>, BRError>,
    descriptor: ObjectDescriptorView,
    bytes: Seq<u8>,
)
    requires
        is_extraction(first, descriptor),
        is_extraction(second, descriptor),
    ensures
        first == second,
        first matches Ok(symbols) ==> dumped_files(bytes, symbols) == dumped_files(
            bytes,
            second->Ok_0,
        ),
{
    match descriptor {
        ObjectDescriptorView::MachO { sections, symbols: Some(symbols) } => {
            if let Ok(found) = first {
                lemma_layout_is_unique(found, second->Ok_0, symbols, text_region(sections)->0);
            }
        },
        _ => {},
    }
}

/// Finds the exported functions of a decoded object file.
pub fn extract(descriptor: &ObjectDescriptor) -> (r: Result<ExtractedSymbols, BRError>)
    ensures
        is_extraction(found_symbols(r), descriptor@),
        attached_bytes(r) is None,
{
    match descriptor {
        ObjectDescriptor::Elf { dynsyms } => parse_elf(dynsyms),
        ObjectDescriptor::MachO { sections, symbols: Some(symbols) } => parse_macho(
            sections,
            symbols,
        ),
        ObjectDescriptor::MachO { sections, symbols: None } => Err(BRError::ParseError),
        ObjectDescriptor::Unsupported => Err(BRError::Unsupported),
    }
}

} // verus!
