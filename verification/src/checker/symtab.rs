//! Lexical scopes of the checker.
//!
//! All declarations live in one sequence, innermost last; each open block
//! remembers where it started.  A name resolves to its latest declaration
//! among the open blocks (shadowing), and closing a block forgets exactly
//! the declarations made since it was opened.
use vstd::prelude::*;
use crate::ast::Loc;
use crate::text::str_eq;
use crate::types::Type;

verus! {

/// How a name was introduced, which decides what assigning to it means.
#[derive(Debug, PartialEq)]
pub enum SymbolKind {
    /// A top-level or run-time function.
    Global,
    /// A function parameter.
    Param,
    /// The control variable of a `for`.
    ForVar,
    /// A `local`, with the identity used by the mutability fix-up.
    Local { decl_id: usize },
    /// A module brought in by `import`, with its real name.
    Module { name: String },
}

/// A declared name: its type, its origin and where it was declared.
#[derive(Debug, PartialEq)]
pub struct Symbol {
    pub ty: Type,
    pub kind: SymbolKind,
    pub def_loc: Loc,
}

/// The stack of open scopes.
pub struct SymTab {
    /// Every declaration of every open block, oldest first.
    pub entries: Vec<(String, Symbol)>,
    /// For each open block, the number of declarations before it opened.
    /// The first block (the global scope) starts at 0.
    pub marks: Vec<usize>,
}

/// The latest declaration of `name` in `entries`.
pub open spec fn latest(entries: Seq<(String, Symbol)>, name: Seq<char>) -> Option<Symbol>
    decreases entries.len(),
{
    if entries.len() == 0 {
        None
    } else if entries.last().0@ == name {
        Some(entries.last().1)
    } else {
        latest(entries.drop_last(), name)
    }
}

/// What `latest` finds is one of the entries, under that name.
pub proof fn lemma_latest_is_entry(entries: Seq<(String, Symbol)>, name: Seq<char>)
    requires
        latest(entries, name) is Some,
    ensures
        exists|i: int|
            0 <= i < entries.len() && entries[i].0@ == name && Some(entries[i].1) == latest(
                entries,
                name,
            ),
    decreases entries.len(),
{
    if entries.last().0@ == name {
        assert(entries[entries.len() - 1].0@ == name);
    } else {
        lemma_latest_is_entry(entries.drop_last(), name);
        let i = choose|i: int|
            0 <= i < entries.drop_last().len() && entries.drop_last()[i].0@ == name && Some(
                entries.drop_last()[i].1,
            ) == latest(entries.drop_last(), name);
        assert(entries[i] == entries.drop_last()[i]);
    }
}

impl SymTab {
    /// Block starts are ordered and within the declarations.
    pub open spec fn wf(self) -> bool {
        &&& self.marks@.len() >= 1
        &&& self.marks@[0] == 0
        &&& forall|i: int, j: int| 0 <= i <= j < self.marks@.len() ==> self.marks@[i] <= self.marks@[j]
        &&& forall|i: int| 0 <= i < self.marks@.len() ==> self.marks@[i] <= self.entries@.len()
    }

    /// Number of open blocks, the global one included.
    pub open spec fn depth(self) -> nat {
        self.marks@.len()
    }

    /// What `name` resolves to now.
    pub open spec fn resolve(self, name: Seq<char>) -> Option<Symbol> {
        latest(self.entries@, name)
    }

    /// An empty table with only the global block open.
    pub fn new() -> (r: SymTab)
        ensures
            r.wf(),
            r.depth() == 1,
            r.entries@.len() == 0,
    {
        let mut marks: Vec<usize> = Vec::new();
        marks.push(0);
        SymTab { entries: Vec::new(), marks }
    }

    pub fn open_block(&mut self)
        requires
            old(self).wf(),
        ensures
            final(self).wf(),
            final(self).entries@ == old(self).entries@,
            final(self).marks@ == old(self).marks@.push(old(self).entries@.len() as usize),
            final(self).marks@.last() as int == old(self).entries@.len(),
    {
        let n = self.entries.len();
        self.marks.push(n);
    }

    /// Closes the innermost block, forgetting every declaration made in it.
    pub fn close_block(&mut self)
        requires
            old(self).wf(),
            old(self).depth() >= 2,
        ensures
            final(self).wf(),
            final(self).marks@ == old(self).marks@.drop_last(),
            final(self).entries@ == old(self).entries@.subrange(0, old(self).marks@.last() as int),
    {
        let m = self.marks.pop().unwrap();
        self.entries.truncate(m);
    }

    /// Declares `name` in the innermost block.
    pub fn add_symbol(&mut self, name: &str, ty: Type, kind: SymbolKind, def_loc: Loc)
        requires
            old(self).wf(),
        ensures
            final(self).wf(),
            final(self).marks@ == old(self).marks@,
            final(self).entries@.len() == old(self).entries@.len() + 1,
            final(self).entries@.drop_last() == old(self).entries@,
            final(self).entries@.last().0@ == name@,
            final(self).entries@.last().1 == (Symbol { ty, kind, def_loc }),
    {
        self.entries.push((String::from_str(name), Symbol { ty, kind, def_loc }));
        assert(self.entries@.drop_last() =~= old(self).entries@);
    }

    /// The symbol `name` resolves to, if any.
    pub fn find_symbol(&self, name: &str) -> (r: Option<&Symbol>)
        ensures
            match r {
                Some(s) => self.resolve(name@) == Some(*s),
                None => self.resolve(name@) is None,
            },
    {
        let mut i: usize = self.entries.len();
        assert(self.entries@.subrange(0, i as int) =~= self.entries@);
        while i > 0
            invariant
                i <= self.entries@.len(),
                latest(self.entries@, name@) == latest(self.entries@.subrange(0, i as int), name@),
            decreases i,
        {
            let ghost prefix = self.entries@.subrange(0, i as int);
            assert(prefix.drop_last() =~= self.entries@.subrange(0, i - 1));
            if str_eq(self.entries[i - 1].0.as_str(), name) {
                return Some(&self.entries[i - 1].1);
            }
            i -= 1;
        }
        assert(self.entries@.subrange(0, 0) =~= Seq::<(String, Symbol)>::empty());
        None
    }
}

/// Declarations made after a block opened are all forgotten when it closes:
/// opening a block, declaring any names in it and closing it leaves the
/// table as it was.
pub proof fn lemma_close_undoes_open(
    entries: Seq<(String, Symbol)>,
    marks: Seq<usize>,
    declared: Seq<(String, Symbol)>,
)
    requires
        entries.len() <= usize::MAX,
    ensures
        ({
            let opened = marks.push(entries.len() as usize);
            let inside = entries + declared;
            &&& inside.subrange(0, opened.last() as int) == entries
            &&& opened.drop_last() == marks
        }),
{
    let opened = marks.push(entries.len() as usize);
    assert((entries + declared).subrange(0, opened.last() as int) =~= entries);
    assert(opened.drop_last() =~= marks);
}

/// The round trip on tables: opening a block (`open_block`), declaring any
/// names in it (each `add_symbol` keeps what was there), and closing it
/// (`close_block`) gives back the table it started from, so every name
/// resolves again as it did before the block.
pub proof fn lemma_block_round_trip(before: SymTab, opened: SymTab, filled: SymTab, closed: SymTab)
    requires
        before.wf(),
        before.entries@.len() <= usize::MAX,
        opened.entries@ == before.entries@,
        opened.marks@ == before.marks@.push(before.entries@.len() as usize),
        filled.marks@ == opened.marks@,
        filled.entries@.len() >= opened.entries@.len(),
        filled.entries@.subrange(0, opened.entries@.len() as int) == opened.entries@,
        closed.marks@ == filled.marks@.drop_last(),
        closed.entries@ == filled.entries@.subrange(0, filled.marks@.last() as int),
    ensures
        closed.entries@ == before.entries@,
        closed.marks@ == before.marks@,
        forall|n: Seq<char>| #[trigger] closed.resolve(n) == before.resolve(n),
{
    assert(closed.marks@ =~= before.marks@);
    assert(closed.entries@ =~= before.entries@);
}

} // verus!
