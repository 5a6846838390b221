//! The symbol resolver: the function symbols of the loaded image, and a
//! memoized address-to-source-record lookup backed by the image's debug
//! information.  Records are computed once per address and never change
//! afterwards.

use crate::debuginfo;
use crate::debuginfo::DebugInfo;
use crate::image::ElfSummary;
use crate::tags::{tags_match, Tags};
use std::collections::HashMap;
use vstd::prelude::*;

verus! {

broadcast use vstd::std_specs::hash::group_hash_axioms;

/// The function-name map a symbol table induces: every named symbol marked
/// as a function, later entries winning over earlier ones of the same
/// address.
pub open spec fn fun_map_in(table: Seq<(u64, Option<Seq<char>>, bool)>) -> Map<u64, Seq<char>>
    decreases table.len(),
{
    if table.len() == 0 {
        Map::empty()
    } else {
        let m = fun_map_in(table.drop_last());
        if table.last().2 && table.last().1 is Some {
            m.insert(table.last().0, table.last().1->0)
        } else {
            m
        }
    }
}

/// The name-sequence view of a map of owned strings.
pub open spec fn string_map_views(m: Map<u64, String>) -> Map<u64, Seq<char>> {
    Map::new(|k: u64| m.dom().contains(k), |k: u64| m[k]@)
}

/// The resolver's whole state: parsed debug information, the image's entry
/// point, the function symbols, and the memoized source records.
pub struct SymbolResolver {
    pub debug: DebugInfo,
    pub entry: u64,
    pub fun_map: HashMap<u64, String>,
    pub cache: HashMap<u64, Tags>,
}

impl SymbolResolver {
    /// Every memoized record belongs to the address it is filed under.
    pub open spec fn wf(self) -> bool {
        forall|a: u64| #[trigger]
            self.cache@.contains_key(a) ==> self.cache@[a].addr == a
    }

    /// A fresh resolver over parsed debug information and an image summary.
    pub fn new(debug: DebugInfo, elf: &ElfSummary) -> (r: SymbolResolver)
        ensures
            r.wf(),
            r.entry == elf.entry,
            r.cache@ == Map::<u64, Tags>::empty(),
            string_map_views(r.fun_map@) == fun_map_in(crate::image::sym_views(elf.syms@)),
    {
        let ghost table = crate::image::sym_views(elf.syms@);
        let mut fun_map: HashMap<u64, String> = HashMap::new();
        let n = elf.syms.len();
        let mut i: usize = 0;
        proof {
            assert(table.subrange(0, 0) =~= Seq::empty());
            assert(string_map_views(fun_map@) =~= fun_map_in(table.subrange(0, 0)));
        }
        while i < n
            invariant
                n == elf.syms@.len(),
                i <= n,
                table == crate::image::sym_views(elf.syms@),
                table.len() == n,
                string_map_views(fun_map@) == fun_map_in(table.subrange(0, i as int)),
            decreases n - i,
        {
            let ghost pre = fun_map@;
            let sym = &elf.syms[i];
            proof {
                assert(table[i as int].0 == elf.syms@[i as int].addr);
                assert(table[i as int].1 == (
                    match elf.syms@[i as int].name {
                        Some(nm) => Some(nm@),
                        None => None::<Seq<char>>,
                    }
                ));
                assert(table[i as int].2 == elf.syms@[i as int].is_function);
                assert(table.subrange(0, i + 1).drop_last() =~= table.subrange(0, i as int));
                assert(table.subrange(0, i + 1).last() == table[i as int]);
            }
            if sym.is_function {
                match &sym.name {
                    Some(name) => {
                        fun_map.insert(sym.addr, name.clone());
                        proof {
                            assert(string_map_views(fun_map@) =~= fun_map_in(
                                table.subrange(0, i + 1),
                            ));
                        }
                    },
                    None => {
                        proof {
                            assert(string_map_views(fun_map@) =~= fun_map_in(
                                table.subrange(0, i + 1),
                            ));
                        }
                    },
                }
            } else {
                proof {
                    assert(string_map_views(fun_map@) =~= fun_map_in(table.subrange(0, i + 1)));
                }
            }
            i = i + 1;
        }
        proof {
            assert(table.subrange(0, n as int) =~= table);
        }
        SymbolResolver { debug, entry: elf.entry, fun_map, cache: HashMap::new() }
    }

    /// Whether `addr` is a known function entry point.
    pub fn function_exists_at(&self, addr: u64) -> (r: bool)
        ensures
            r == self.fun_map@.dom().contains(addr),
    {
        self.fun_map.contains_key(&addr)
    }

    /// Combine what the debug information offered for `addr` into one
    /// record: the file and line where given, the sentinels where not, and
    /// the resolved function name or its sentinel.
    pub fn build_tag(addr: u64, loc: Option<(String, Option<u32>)>, func_name: Option<String>) -> (r:
        Tags)
        ensures
            r.addr == addr,
            match loc {
                Some((f, lo)) => r.file@ == f@ && (
                    match lo {
                        Some(l) => r.line == l,
                        None => r.line == crate::tags::unknown_line(),
                    }
                ),
                None => r.file@ == crate::tags::unknown_text() && r.line == crate::tags::unknown_line(),
            },
            match func_name {
                Some(n) => r.func@ == n@,
                None => r.func@ == crate::tags::unknown_text(),
            },
    {
        let mut tag = Tags::new(addr);
        match loc {
            Some((file, line_opt)) => {
                tag.file = file;
                match line_opt {
                    Some(l) => {
                        tag.line = l;
                    },
                    None => {},
                }
            },
            None => {},
        }
        match func_name {
            Some(f) => {
                tag.func = f;
            },
            None => {},
        }
        tag
    }

    /// The memoized source record for `addr`: answered from the cache when
    /// present — the whole resolver then stays untouched — and otherwise
    /// computed from the debug information, filed under `addr`, and never
    /// changed again.  Records already memoized are never disturbed.
    pub fn get_tag(&mut self, addr: u64) -> (r: Tags)
        requires
            old(self).wf(),
        ensures
            final(self).wf(),
            r.addr == addr,
            final(self).debug == old(self).debug,
            final(self).entry == old(self).entry,
            final(self).fun_map@ == old(self).fun_map@,
            final(self).cache@.contains_key(addr),
            tags_match(final(self).cache@[addr], r),
            forall|k: u64| #[trigger]
                old(self).cache@.contains_key(k) ==> final(self).cache@.contains_key(k)
                    && final(self).cache@[k] == old(self).cache@[k],
            forall|k: u64| #[trigger]
                final(self).cache@.contains_key(k) ==> k == addr || old(
                    self,
                ).cache@.contains_key(k),
            old(self).cache@.contains_key(addr) ==> *final(self) == *old(self),
    {
        match self.cache.get(&addr) {
            Some(t) => {
                return t.duplicate();
            },
            None => {},
        }
        let loc = debuginfo::find_location(&self.debug, addr);
        let func_name = debuginfo::find_function_name(&self.debug, addr);
        let tag = SymbolResolver::build_tag(addr, loc, func_name);
        let copy = tag.duplicate();
        self.cache.insert(addr, copy);
        tag
    }
}

} // verus!
