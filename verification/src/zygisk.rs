//! The frame hook's logic: naming the hooked process, and finding the symbol
//! to hook among a library's dynamic symbols.
use vstd::prelude::*;

use std::collections::HashMap;

use crate::text::{
    before_char, before_char_exec, chars_eq, chars_of, contains, contains_exec, string_of, trim,
    trim_exec,
};

verus! {

/// An error of the hook.
#[derive(Debug, Clone, Copy, PartialEq, Eq, Structural)]
pub enum Error {
    /// The library could not be parsed.
    LibParse,
    /// No symbol matched.
    Symbol,
    /// A symbol parsed but could not be written out in readable form.
    Unprintable,
    /// The file is not a shared ELF library.
    NotElfLib,
}

/// The app's package for a process name: the text before the first `:`, trimmed.
pub open spec fn process_name_spec(process: Seq<char>) -> Seq<char> {
    trim(before_char(process, ':'))
}

/// The package a process belongs to.
pub fn process_name(process: &str) -> (r: String)
    ensures
        r@ == process_name_spec(process@),
{
    string_of(&trim_exec(&before_char_exec(&chars_of(process), ':')))
}

/// The hook goes on unless the server's process name, when it could be read,
/// is something other than `fas-rs` once trimmed.
pub open spec fn server_allows_hook(comm: Option<Seq<char>>) -> bool {
    match comm {
        Some(c) => trim(c) == "fas-rs"@,
        None => true,
    }
}

/// Whether the process that registered as the server lets the hook go on;
/// `comm` is its process name, `None` when it could not be read.
pub fn server_allows_hook_exec(comm: Option<&str>) -> (r: bool)
    ensures
        r == server_allows_hook(
            match comm {
                Some(c) => Some(c@),
                None => None,
            },
        ),
{
    match comm {
        Some(c) => {
            let t = trim_exec(&chars_of(c));
            let name = chars_of("fas-rs");
            chars_eq(&t, &name)
        },
        None => true,
    }
}

/// The time each frame buffer was last queued (nanoseconds).
pub struct FrameStamps {
    stamps: HashMap<u64, u64>,
}

impl View for FrameStamps {
    type V = Map<u64, u64>;

    closed spec fn view(&self) -> Map<u64, u64> {
        self.stamps@
    }
}

impl FrameStamps {
    /// No buffer seen yet.
    pub fn new() -> (r: Self)
        ensures
            r@ == Map::<u64, u64>::empty(),
    {
        FrameStamps { stamps: HashMap::new() }
    }

    /// Records that `buffer` was queued at `now` and returns the time since
    /// it was last queued: zero the first time, and zero if the clock went back.
    pub fn frame_time(&mut self, buffer: u64, now: u64) -> (r: u64)
        ensures
            final(self)@ == old(self)@.insert(buffer, now),
            r == if old(self)@.contains_key(buffer) && old(self)@[buffer] <= now {
                (now - old(self)@[buffer]) as u64
            } else {
                0
            },
    {
        broadcast use vstd::std_specs::hash::group_hash_axioms;

        match self.stamps.insert(buffer, now) {
            Some(last) => if last <= now {
                now - last
            } else {
                0
            },
            None => 0,
        }
    }
}

/// What reading an object file gave: it did not parse, it is no ELF file,
/// or it is an ELF file, a shared library or not, with the strings of its
/// dynamic string table (`None` when the table did not parse).
pub enum ElfRead {
    Unparsable,
    NotElf,
    Elf { is_lib: bool, strings: Option<Vec<String>> },
}

/// What reading an object file gave, as plain values.
pub enum ElfReadView {
    Unparsable,
    NotElf,
    Elf { is_lib: bool, strings: Option<Seq<Seq<char>>> },
}

impl View for ElfRead {
    type V = ElfReadView;

    open spec fn view(&self) -> ElfReadView {
        match self {
            ElfRead::Unparsable => ElfReadView::Unparsable,
            ElfRead::NotElf => ElfReadView::NotElf,
            ElfRead::Elf { is_lib, strings } => ElfReadView::Elf {
                is_lib: *is_lib,
                strings: match strings {
                    Some(v) => Some(v@.map_values(|s: String| s@)),
                    None => None,
                },
            },
        }
    }
}

/// What goblin reads from an object file's bytes.
pub uninterp spec fn elf_read(bytes: Seq<u8>) -> ElfReadView;

/// `goblin::Object::parse` on the bytes; of an ELF file, its `is_lib` field
/// and `Strtab::to_vec` of its dynamic string table, each string made a
/// `String`. The result depends on the bytes alone and is named `elf_read`;
/// nothing more is stated of it.
#[verifier::external_body]
fn read_elf(bytes: &[u8]) -> (r: ElfRead)
    ensures
        r@ == elf_read(bytes@),
{
    match goblin::Object::parse(bytes) {
        Ok(goblin::Object::Elf(e)) => ElfRead::Elf {
            is_lib: e.is_lib,
            strings: e.dynstrtab.to_vec().ok().map(|v| v.into_iter().map(String::from).collect()),
        },
        Ok(_) => ElfRead::NotElf,
        Err(_) => ElfRead::Unparsable,
    }
}

/// What `cpp_demangle` makes of a symbol: `None` when it does not parse as a
/// mangled name, `Some(None)` when it parses but cannot be written out,
/// `Some(Some(d))` with its readable form `d`.
pub uninterp spec fn demangled(sym: Seq<char>) -> Option<Option<Seq<char>>>;

/// `cpp_demangle::Symbol::new` followed by `Symbol::demangle`: the readable
/// form of a mangled symbol. The result depends on the symbol's text alone and
/// is named `demangled`; nothing more is stated of it.
#[verifier::external_body]
fn demangle(sym: &str) -> (r: Option<Option<String>>)
    ensures
        match r {
            None => demangled(sym@) is None,
            Some(None) => demangled(sym@) == Some(None::<Seq<char>>),
            Some(Some(d)) => demangled(sym@) == Some(Some(d@)),
        },
{
    match cpp_demangle::Symbol::new(sym) {
        Ok(s) => match s.demangle() {
            Ok(d) => Some(Some(d)),
            Err(_) => Some(None),
        },
        Err(_) => None,
    }
}

/// The symbol's readable form contains `s`.
pub open spec fn symbol_matches(sym: Seq<char>, s: Seq<char>) -> bool {
    match demangled(sym) {
        Some(Some(d)) => contains(d, s),
        _ => false,
    }
}

/// The symbol parses but cannot be written out.
pub open spec fn symbol_unprintable(sym: Seq<char>) -> bool {
    demangled(sym) == Some(None::<Seq<char>>)
}

/// Byte length of a symbol, as `str::len` gives it.
pub open spec fn byte_len(sym: Seq<char>) -> nat {
    (vstd::utf8::encode_utf8(sym).len() as usize) as nat
}

/// Symbol `i` is the one chosen for pattern `s`: it matches, no match is
/// shorter, and no match before it is as short.
pub open spec fn chosen_symbol(syms: Seq<Seq<char>>, s: Seq<char>, i: int) -> bool {
    &&& 0 <= i < syms.len()
    &&& symbol_matches(syms[i], s)
    &&& forall|j: int| 0 <= j < syms.len() && symbol_matches(syms[j], s) ==> byte_len(syms[i]) <= byte_len(#[trigger] syms[j])
    &&& forall|j: int| 0 <= j < i && symbol_matches(syms[j], s) ==> byte_len(syms[i]) < byte_len(#[trigger] syms[j])
}

/// The hooker that what was read gives.
pub open spec fn from_read_matches(read: ElfReadView, r: Result<SymbolHooker, Error>) -> bool {
    match read {
        ElfReadView::Unparsable => r == Err::<SymbolHooker, Error>(Error::LibParse),
        ElfReadView::NotElf => r == Err::<SymbolHooker, Error>(Error::NotElfLib),
        ElfReadView::Elf { is_lib, strings } => if !is_lib {
            r == Err::<SymbolHooker, Error>(Error::NotElfLib)
        } else {
            match strings {
                None => r == Err::<SymbolHooker, Error>(Error::LibParse),
                Some(s) => r matches Ok(h) && h.symbols() == s,
            }
        },
    }
}

/// The dynamic symbols of a library.
pub struct SymbolHooker {
    symbols: Vec<String>,
}

impl SymbolHooker {
    pub closed spec fn symbols(&self) -> Seq<Seq<char>> {
        self.symbols@.map_values(|s: String| s@)
    }

    /// A hooker over the given symbols.
    pub fn from_symbols(symbols: Vec<String>) -> (r: Self)
        ensures
            r.symbols() == symbols@.map_values(|s: String| s@),
    {
        SymbolHooker { symbols }
    }

    /// A hooker from what reading a library gave: the symbols of a shared ELF
    /// library whose string table was read; `Error::LibParse` for a file or
    /// string table that did not parse, `Error::NotElfLib` for anything that
    /// is no shared ELF library.
    pub fn from_read(read: ElfRead) -> (r: Result<Self, Error>)
        ensures
            from_read_matches(read@, r),
    {
        match read {
            ElfRead::Unparsable => Err(Error::LibParse),
            ElfRead::NotElf => Err(Error::NotElfLib),
            ElfRead::Elf { is_lib, strings } => if !is_lib {
                Err(Error::NotElfLib)
            } else {
                match strings {
                    Some(symbols) => Ok(SymbolHooker { symbols }),
                    None => Err(Error::LibParse),
                }
            },
        }
    }

    /// Reads the dynamic symbols of a shared library's bytes. A file that does
    /// not parse, or whose string table does not, is `Error::LibParse`; one that
    /// is no shared ELF library is `Error::NotElfLib`.
    pub fn new(buffer: &[u8]) -> (r: Result<Self, Error>)
        ensures
            from_read_matches(elf_read(buffer@), r),
    {
        Self::from_read(read_elf(buffer))
    }

    /// The symbol to hook for `s`: among the symbols whose readable form
    /// contains `s`, the shortest, the first of equals. `Error::Symbol` when
    /// none matches; `Error::Unprintable` when some symbol parses but cannot
    /// be written out.
    pub fn find_symbol(&self, s: &str) -> (r: Result<String, Error>)
        ensures
            (exists|i: int| 0 <= i < self.symbols().len() && symbol_unprintable(#[trigger] self.symbols()[i]))
                <==> r == Err::<String, Error>(Error::Unprintable),
            r == Err::<String, Error>(Error::Symbol) <==> (!(exists|i: int| 0 <= i < self.symbols().len()
                && symbol_unprintable(#[trigger] self.symbols()[i])) && forall|i: int| 0 <= i < self.symbols().len()
                ==> !symbol_matches(#[trigger] self.symbols()[i], s@)),
            r matches Ok(name) ==> exists|i: int| chosen_symbol(self.symbols(), s@, i) && #[trigger] self.symbols()[i] == name@,
            r is Ok || r == Err::<String, Error>(Error::Symbol) || r == Err::<String, Error>(Error::Unprintable),
    {
        let ghost syms = self.symbols();
        let pat = chars_of(s);
        let mut best: Option<usize> = None;
        let mut best_len: usize = 0;
        let mut i: usize = 0;
        while i < self.symbols.len()
            invariant
                i <= self.symbols@.len(),
                syms == self.symbols(),
                pat@ == s@,
                forall|j: int| 0 <= j < i ==> !symbol_unprintable(#[trigger] syms[j]),
                match best {
                    Some(b) => {
                        &&& b < i
                        &&& symbol_matches(syms[b as int], s@)
                        &&& best_len == byte_len(syms[b as int])
                        &&& forall|j: int| 0 <= j < i && symbol_matches(syms[j], s@) ==> byte_len(syms[b as int]) <= byte_len(#[trigger] syms[j])
                        &&& forall|j: int| 0 <= j < b && symbol_matches(syms[j], s@) ==> byte_len(syms[b as int]) < byte_len(#[trigger] syms[j])
                    },
                    None => forall|j: int| 0 <= j < i ==> !symbol_matches(#[trigger] syms[j], s@),
                },
            decreases self.symbols@.len() - i,
        {
            assert(syms[i as int] == self.symbols@[i as int]@);
            match demangle(self.symbols[i].as_str()) {
                None => {},
                Some(None) => {
                    return Err(Error::Unprintable);
                },
                Some(Some(d)) => {
                    if contains_exec(&chars_of(d.as_str()), &pat) {
                        let sym_str = self.symbols[i].as_str();
                        let len = sym_str.len();
                        assert(sym_str@ == syms[i as int]);
                        assert(len == byte_len(syms[i as int]));
                        let better = match best {
                            Some(_) => len < best_len,
                            None => true,
                        };
                        if better {
                            best = Some(i);
                            best_len = len;
                        }
                    }
                },
            }
            i += 1;
        }
        match best {
            Some(b) => {
                assert(chosen_symbol(syms, s@, b as int));
                Ok(self.symbols[b].clone())
            },
            None => Err(Error::Symbol),
        }
    }
}

} // verus!
