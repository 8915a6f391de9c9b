//! The table of the named groups of a pattern.

use crate::bytes::spec_is_word;
use crate::lower::same_string;
use crate::pattern::Pcre;
use crate::program::{word_bytes, Program, ProgramV};
use crate::text::{as_chars, ascii_is_text, utf8_to_string};
use vstd::prelude::*;
use vstd::utf8::{decode_utf8, valid_utf8};

verus! {

/// One name of a pattern and the numbers of the groups that bear it.
#[derive(Debug)]
pub struct NameEntry {
    pub name: String,
    pub indices: Vec<usize>,
}

/// An entry as plain values.
pub struct NameEntryV {
    pub name: Seq<char>,
    pub indices: Seq<usize>,
}

impl View for NameEntry {
    type V = NameEntryV;

    open spec fn view(&self) -> NameEntryV {
        NameEntryV { name: self.name@, indices: self.indices@ }
    }
}

/// The name of the `j`th named group.
pub open spec fn name_of(prog: ProgramV, j: int) -> Seq<u8> {
    prog.strings[prog.names[j].string as int]
}

/// The names of the first `upto` named groups, each once, in the order in
/// which the pattern first uses them.
pub open spec fn distinct(prog: ProgramV, upto: int) -> Seq<Seq<u8>>
    decreases upto,
{
    if upto <= 0 {
        Seq::empty()
    } else {
        let before = distinct(prog, upto - 1);
        let name = name_of(prog, upto - 1);
        if before.contains(name) {
            before
        } else {
            before.push(name)
        }
    }
}

/// The numbers of the groups named `name` among the first `upto` named
/// groups, in the order in which the pattern opens them.
pub open spec fn groups_named(prog: ProgramV, name: Seq<u8>, upto: int) -> Seq<usize>
    decreases upto,
{
    if upto <= 0 {
        Seq::empty()
    } else {
        let before = groups_named(prog, name, upto - 1);
        if name_of(prog, upto - 1) == name {
            before.push(prog.names[upto - 1].index)
        } else {
            before
        }
    }
}

/// The table with an entry for each of `names`, with the numbers that are
/// listed under the name among the first `upto` named groups.
pub open spec fn table_of(prog: ProgramV, names: Seq<Seq<u8>>, upto: int) -> Seq<NameEntryV> {
    Seq::new(
        names.len(),
        |k: int|
            NameEntryV { name: as_chars(names[k]), indices: groups_named(prog, names[k], upto) },
    )
}

/// The name table of a program: an entry for every name, in the order in
/// which the pattern first uses the names, with the numbers of all groups
/// of that name.
pub open spec fn spec_name_table(prog: ProgramV) -> Seq<NameEntryV> {
    table_of(prog, distinct(prog, prog.names.len() as int), prog.names.len() as int)
}

/// Every name among the distinct ones is the name of a group, and word
/// bytes.
pub proof fn distinct_are_names(prog: ProgramV, upto: int, k: int)
    requires
        prog.wf(),
        upto <= prog.names.len(),
        0 <= k < distinct(prog, upto).len(),
    ensures
        word_bytes(distinct(prog, upto)[k]),
        exists|j: int| 0 <= j < upto && name_of(prog, j) == distinct(prog, upto)[k],
    decreases upto,
{
    if upto > 0 {
        let before = distinct(prog, upto - 1);
        let name = name_of(prog, upto - 1);
        if k < before.len() {
            distinct_are_names(prog, upto - 1, k);
            let j = choose|j: int| 0 <= j < upto - 1 && name_of(prog, j) == before[k];
            assert(name_of(prog, j) == distinct(prog, upto)[k]);
        } else {
            assert(prog.names[upto - 1].string < prog.strings.len());
            assert(name_of(prog, upto - 1) == distinct(prog, upto)[k]);
        }
    }
}

/// Word bytes are the UTF-8 encoding of themselves as characters.
pub proof fn word_bytes_are_text(bytes: Seq<u8>)
    requires
        word_bytes(bytes),
    ensures
        valid_utf8(bytes),
        decode_utf8(bytes) == as_chars(bytes),
{
    assert forall|i: int| 0 <= i < bytes.len() implies #[trigger] bytes[i] < 0x80 by {
        assert(spec_is_word(bytes[i]));
    }
    ascii_is_text(bytes);
}

/// The names of the strings with the numbers `keys`.
pub open spec fn keyed(prog: ProgramV, keys: Seq<usize>) -> Seq<Seq<u8>> {
    Seq::new(keys.len(), |k: int| prog.strings[keys[k] as int])
}

/// The numbers of the strings that are the distinct names of the program.
pub fn distinct_keys(prog: &Program) -> (keys: Vec<usize>)
    requires
        prog.wf(),
    ensures
        keyed(prog@, keys@) == distinct(prog@, prog@.names.len() as int),
        forall|k: int| 0 <= k < keys@.len() ==> (#[trigger] keys@[k]) < prog@.strings.len(),
{
    let mut keys: Vec<usize> = Vec::new();
    let mut j: usize = 0;
    assert(keyed(prog@, keys@) =~= distinct(prog@, 0));
    while j < prog.names.len()
        invariant
            prog.wf(),
            j <= prog.names.len(),
            keyed(prog@, keys@) == distinct(prog@, j as int),
            forall|k: int| 0 <= k < keys@.len() ==> (#[trigger] keys@[k]) < prog@.strings.len(),
        decreases prog.names.len() - j,
    {
        let slot = prog.names[j];
        assert(prog@.names[j as int] == slot);
        let ghost name = name_of(prog@, j as int);
        let ghost before = keyed(prog@, keys@);
        let mut k: usize = 0;
        let mut known = false;
        while k < keys.len() && !known
            invariant
                prog.wf(),
                j < prog.names.len(),
                slot == prog@.names[j as int],
                name == name_of(prog@, j as int),
                before == keyed(prog@, keys@),
                k <= keys.len(),
                forall|i: int| 0 <= i < keys@.len() ==> (#[trigger] keys@[i]) < prog@.strings.len(),
                forall|i: int| 0 <= i < k ==> before[i] != name,
                known ==> before.contains(name),
            decreases keys.len() - k + if known { 0int } else { 1int },
        {
            let key = keys[k];
            assert(prog@.strings[key as int] == prog.strings@[key as int]@);
            assert(prog@.strings[slot.string as int] == prog.strings@[slot.string as int]@);
            if same_string(&prog.strings[key], &prog.strings[slot.string]) {
                assert(before[k as int] == name);
                known = true;
            } else {
                k += 1;
            }
        }
        if !known {
            keys.push(slot.string);
            assert(keyed(prog@, keys@) =~= before.push(name));
        }
        j += 1;
    }
    keys
}

/// The numbers of the groups with the name of string `key`.
pub fn groups_of(prog: &Program, key: usize) -> (groups: Vec<usize>)
    requires
        prog.wf(),
        key < prog@.strings.len(),
    ensures
        groups@ == groups_named(prog@, prog@.strings[key as int], prog@.names.len() as int),
{
    let mut groups: Vec<usize> = Vec::new();
    let mut j: usize = 0;
    let ghost name = prog@.strings[key as int];
    while j < prog.names.len()
        invariant
            prog.wf(),
            key < prog@.strings.len(),
            name == prog@.strings[key as int],
            j <= prog.names.len(),
            groups@ == groups_named(prog@, name, j as int),
        decreases prog.names.len() - j,
    {
        let slot = prog.names[j];
        assert(prog@.names[j as int] == slot);
        assert(prog@.strings[key as int] == prog.strings@[key as int]@);
        assert(prog@.strings[slot.string as int] == prog.strings@[slot.string as int]@);
        if same_string(&prog.strings[slot.string], &prog.strings[key]) {
            groups.push(slot.index);
        }
        j += 1;
    }
    groups
}

/// The views of the entries of a table.
pub open spec fn entries(table: Seq<NameEntry>) -> Seq<NameEntryV> {
    table.map_values(|e: NameEntry| e@)
}

/// Makes the name table of a program.
pub fn name_table_of(prog: &Program) -> (table: Vec<NameEntry>)
    requires
        prog.wf(),
    ensures
        entries(table@) == spec_name_table(prog@),
{
    let keys = distinct_keys(prog);
    let ghost names = distinct(prog@, prog@.names.len() as int);
    let mut table: Vec<NameEntry> = Vec::with_capacity(keys.len());
    let mut k: usize = 0;
    while k < keys.len()
        invariant
            prog.wf(),
            names == distinct(prog@, prog@.names.len() as int),
            keyed(prog@, keys@) == names,
            forall|i: int| 0 <= i < keys@.len() ==> (#[trigger] keys@[i]) < prog@.strings.len(),
            k <= keys.len(),
            table@.len() == k,
            forall|i: int| 0 <= i < k ==> (#[trigger] table@[i])@ == spec_name_table(prog@)[i],
        decreases keys.len() - k,
    {
        let key = keys[k];
        assert(names[k as int] == prog@.strings[key as int]);
        assert(prog@.strings[key as int] == prog.strings@[key as int]@);
        proof {
            distinct_are_names(prog@, prog@.names.len() as int, k as int);
            word_bytes_are_text(names[k as int]);
        }
        let name = match utf8_to_string(prog.strings[key].as_slice()) {
            Some(name) => name,
            None => String::new(),
        };
        let indices = groups_of(prog, key);
        table.push(NameEntry { name, indices });
        k += 1;
    }
    assert(entries(table@) =~= spec_name_table(prog@));
    table
}

impl Pcre {
    /// Creates the table that maps the name of each named capture group
    /// to the assigned group numbers. A name has
    /// more than one number where the pattern has duplicate names.
    pub fn name_table(&self) -> (table: Vec<NameEntry>)
        requires
            self@.wf(),
        ensures
            entries(table@) == spec_name_table(self@.program),
    {
        name_table_of(self.program())
    }
}

} // verus!
