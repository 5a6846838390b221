//! The executable image's symbol table, reduced to plain values: entry
//! point plus one record per symbol.  The ELF parsing itself is done by the
//! goblin crate behind a trusted wrapper; everything that reads the summary
//! is verified.

use vstd::prelude::*;

verus! {

/// One symbol-table entry: its address, its name if the string table offers
/// one, and whether the symbol is marked as a function.
pub struct SymEntry {
    pub addr: u64,
    pub name: Option<String>,
    pub is_function: bool,
}

/// What the analyzer needs from an executable image: the entry point and
/// the symbol table.
pub struct ElfSummary {
    pub entry: u64,
    pub syms: Vec<SymEntry>,
}

/// Raised when the executable image cannot be parsed.
#[derive(Debug)]
pub struct ImageParseError {
    pub message: String,
}

/// Whether goblin's ELF parser accepts an image: a function of the bytes
/// alone.
pub uninterp spec fn elf_parses(image: Seq<u8>) -> bool;

/// The entry point a well-formed ELF image declares.
pub uninterp spec fn elf_entry_of(image: Seq<u8>) -> u64;

/// The symbol table a well-formed ELF image declares, one
/// (address, name, is-function) triple per entry, in table order.
pub uninterp spec fn elf_syms_of(image: Seq<u8>) -> Seq<(u64, Option<Seq<char>>, bool)>;

/// The triples a sequence of symbol records stands for.
pub open spec fn sym_views(s: Seq<SymEntry>) -> Seq<(u64, Option<Seq<char>>, bool)> {
    s.map_values(
        |e: SymEntry|
            (
                e.addr,
                match e.name {
                    Some(n) => Some(n@),
                    None => None,
                },
                e.is_function,
            ),
    )
}

/// Relies on goblin's `elf::Elf::parse` for the ELF header and symbol
/// table: whether the parse succeeds, and on success the image's entry
/// point and its symbols, are all functions of the image bytes alone.
#[verifier::external_body]
pub fn parse_elf(program: &[u8]) -> (r: Result<ElfSummary, ImageParseError>)
    ensures
        (r is Ok) == elf_parses(program@),
        r matches Ok(s) ==> s.entry == elf_entry_of(program@) && sym_views(s.syms@)
            == elf_syms_of(program@),
{
    match goblin::elf::Elf::parse(program) {
        Ok(elf) => {
            let syms = elf
                .syms
                .iter()
                .map(|sym| SymEntry {
                    addr: sym.st_value,
                    name: elf.strtab.get_at(sym.st_name).map(|n| n.to_string()),
                    is_function: sym.is_function(),
                })
                .collect();
            Ok(ElfSummary { entry: elf.entry, syms })
        },
        Err(e) => Err(ImageParseError { message: e.to_string() }),
    }
}

/// The address of the first entry of a symbol table carrying `name`, if
/// any.
pub open spec fn symbol_addr_in(
    table: Seq<(u64, Option<Seq<char>>, bool)>,
    name: Seq<char>,
) -> Option<u64>
    decreases table.len(),
{
    if table.len() == 0 {
        None
    } else if table.first().1 matches Some(n) && n == name {
        Some(table.first().0)
    } else {
        symbol_addr_in(table.drop_first(), name)
    }
}

impl ElfSummary {
    /// Look a symbol up by name; the first matching entry wins.
    pub fn symbol_addr(&self, name: &str) -> (r: Option<u64>)
        ensures
            r == symbol_addr_in(sym_views(self.syms@), name@),
    {
        let wanted = String::from_str(name);
        let ghost table = sym_views(self.syms@);
        let n = self.syms.len();
        let mut i: usize = 0;
        proof {
            assert(table.skip(0) =~= table);
        }
        while i < n
            invariant
                n == self.syms@.len(),
                i <= n,
                table == sym_views(self.syms@),
                table.len() == n,
                symbol_addr_in(table, name@) == symbol_addr_in(table.skip(i as int), name@),
                wanted@ == name@,
            decreases n - i,
        {
            proof {
                assert(table.skip(i as int).first() == table[i as int]);
                assert(table.skip(i as int).drop_first() =~= table.skip(i + 1));
                assert(table[i as int].0 == self.syms@[i as int].addr);
                assert(table[i as int].1 == (
                    match self.syms@[i as int].name {
                        Some(n) => Some(n@),
                        None => None::<Seq<char>>,
                    }
                ));
            }
            match &self.syms[i].name {
                Some(sym_name) => {
                    if *sym_name == wanted {
                        return Some(self.syms[i].addr);
                    }
                },
                None => {},
            }
            i = i + 1;
        }
        proof {
            assert(table.skip(n as int).len() == 0);
        }
        None
    }
}

} // verus!
