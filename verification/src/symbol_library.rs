//! Looking a symbol up in the documents of a symbol library.

use crate::parser::{first_called, lemma_first_called, library_file, library_name, roots_of,
    split_name, symbol_name};
use crate::schema_reader::{has_library_symbol, is_library_symbol_of, read_library_symbol};
use crate::sexp::{first_of, named, value_at, Sexp, SexpTree, Tree};
use crate::strings::str_eq;
use crate::symbols::LibrarySymbol;
use crate::{Error, ErrorKind, SymbolLibrary};
use vstd::prelude::*;
use vstd::string::StringExecFns;

verus! {

/// The node of the symbol with a name in the documents of a library: in
/// the first document that has one, the first `symbol` node whose first
/// value is the name.
pub open spec fn symbol_node(roots: Seq<Tree>, sym: Seq<char>) -> Option<Tree>
    decreases roots.len(),
{
    if roots.len() == 0 {
        None
    } else {
        let nodes = named(roots[0].nodes, "symbol"@);
        let i = first_called(nodes, sym);
        if i < nodes.len() {
            Some(nodes[i])
        } else {
            symbol_node(roots.drop_first(), sym)
        }
    }
}

/// Whether the symbols are read from the nodes of a symbol and of those
/// that it extends, one after the other: the first from the node of
/// `sym`, each of the others from the node of the symbol that the one
/// before extends, and the last extends none.
pub open spec fn is_chain(roots: Seq<Tree>, sym: Seq<char>, reads: Seq<LibrarySymbol>) -> bool
    decreases reads.len(),
{
    &&& reads.len() > 0
    &&& symbol_node(roots, sym) is Some
    &&& is_library_symbol_of(reads[0], symbol_node(roots, sym)->Some_0)
    &&& match reads[0].extends {
        None => reads.len() == 1,
        Some(base) => is_chain(roots, base@, reads.drop_first()),
    }
}

/// Whether `lib` is the symbol with the name `sym` as the documents of its
/// library give it, by way of the symbols `reads`: the last of them, which
/// extends none, with the properties of the first, under the identifier
/// made of the name of the library, a colon and `sym`.
pub open spec fn resolves(
    roots: Seq<Tree>,
    library: Seq<char>,
    sym: Seq<char>,
    lib: LibrarySymbol,
    reads: Seq<LibrarySymbol>,
) -> bool {
    &&& is_chain(roots, sym, reads)
    &&& lib.lib_id@ == library + seq![':'] + sym
    &&& lib == (LibrarySymbol { lib_id: lib.lib_id, props: reads[0].props, ..reads.last() })
}

/// Whether the symbol with a name can be had from the documents of its
/// library: its node is there and can be read, and so it is with the
/// symbol that it extends, where no more than `depth` symbols extend one
/// another.
pub open spec fn resolvable(roots: Seq<Tree>, sym: Seq<char>, depth: nat) -> bool
    decreases depth,
{
    match symbol_node(roots, sym) {
        None => false,
        Some(node) => has_library_symbol(node) && (match first_of(node, "extends"@) {
            None => true,
            Some(base) => depth > 0 && resolvable(roots, base, (depth - 1) as nat),
        }),
    }
}

/// The number of `symbol` nodes of the documents: more symbols than that
/// cannot extend one another.
pub open spec fn symbol_count(roots: Seq<Tree>) -> nat
    decreases roots.len(),
{
    if roots.len() == 0 {
        0
    } else {
        symbol_count(roots.drop_last()) + named(roots.last().nodes, "symbol"@).len()
    }
}

/// The number of `symbol` nodes of the documents, held to what a machine
/// word holds.
pub open spec fn depth_of(roots: Seq<Tree>) -> nat {
    if symbol_count(roots) <= usize::MAX {
        symbol_count(roots)
    } else {
        usize::MAX as nat
    }
}

/// The node of the symbol with a name in the documents of a library.
fn find_symbol<'a>(documents: &'a Vec<SexpTree>, sym: &str) -> (r: Option<&'a Sexp>)
    ensures
        match r {
            Some(n) => symbol_node(roots_of(documents@), sym@) == Some(n@),
            None => symbol_node(roots_of(documents@), sym@) is None,
        },
{
    let ghost roots = roots_of(documents@);
    let mut d: usize = 0;
    assert(roots.skip(0) =~= roots);
    while d < documents.len()
        invariant
            d <= documents.len(),
            roots == roots_of(documents@),
            symbol_node(roots, sym@) == symbol_node(roots.skip(d as int), sym@),
        decreases documents.len() - d,
    {
        assert(roots.skip(d as int)[0] == documents@[d as int].tree@);
        assert(roots.skip(d as int).drop_first() =~= roots.skip(d + 1));
        let nodes = documents[d].tree.query("symbol");
        let ghost all = named(documents@[d as int].tree@.nodes, "symbol"@);
        let mut i: usize = 0;
        while i < nodes.len()
            invariant
                i <= nodes.len(),
                nodes@.len() == all.len(),
                forall|k: int| 0 <= k < nodes@.len() ==> (#[trigger] nodes@[k])@ == all[k],
                forall|k: int| 0 <= k < i ==> value_at(#[trigger] all[k], 0) != Some(sym@),
                all == named(documents@[d as int].tree@.nodes, "symbol"@),
                roots == roots_of(documents@),
                d < documents.len(),
                roots.skip(d as int)[0] == documents@[d as int].tree@,
                symbol_node(roots, sym@) == symbol_node(roots.skip(d as int), sym@),
            decreases nodes.len() - i,
        {
            assert(nodes@[i as int]@ == all[i as int]);
            if let Some(called) = nodes[i].get(0) {
                if str_eq(called.as_str(), sym) {
                    proof {
                        lemma_first_called(all, sym@, i as int);
                    }
                    return Some(nodes[i]);
                }
            }
            i += 1;
        }
        proof {
            lemma_first_called(all, sym@, i as int);
        }
        d += 1;
    }
    None
}

/// The identifier of a symbol in a library.
fn identifier(library: &str, sym: &str) -> (r: String)
    ensures
        r@ == library@ + seq![':'] + sym@,
{
    let mut id = library.to_string();
    id.append(":");
    proof {
        reveal_strlit(":");
    }
    assert(":"@ =~= seq![':']);
    id.append(sym);
    id
}

/// The symbol with a name as the documents of the library give it, where
/// no more than `depth` symbols extend one another.
fn resolve(documents: &Vec<SexpTree>, library: &str, sym: &str, depth: usize) -> (r: (
    Result<LibrarySymbol, Error>,
    Ghost<Seq<LibrarySymbol>>,
))
    ensures
        match r.0 {
            Ok(lib) => resolves(roots_of(documents@), library@, sym@, lib, r.1@) && resolvable(
                roots_of(documents@),
                sym@,
                depth as nat,
            ),
            Err(e) => !resolvable(roots_of(documents@), sym@, depth as nat) && (e.0
                == ErrorKind::LibraryNotFound || e.0 == ErrorKind::Sexp) && (symbol_node(
                roots_of(documents@),
                sym@,
            ) is None ==> e.0 == ErrorKind::LibraryNotFound),
        },
    decreases depth,
{
    let Some(node) = find_symbol(documents, sym) else {
        return (
            Err(Error::new(ErrorKind::LibraryNotFound, "can not find library")),
            Ghost(Seq::empty()),
        );
    };
    let read = match read_library_symbol(node) {
        Ok(l) => l,
        Err(e) => {
            return (Err(e), Ghost(Seq::empty()));
        },
    };
    let id = identifier(library, sym);
    let base = match &read.extends {
        None => None,
        Some(b) => Some(b.clone()),
    };
    let ghost orig = read;
    match base {
        None => {
            let mut lib = read;
            lib.lib_id = id;
            let ghost reads = Seq::<LibrarySymbol>::empty().push(orig);
            (Ok(lib), Ghost(reads))
        },
        Some(b) => {
            if depth == 0 {
                return (
                    Err(
                        Error::new(
                            ErrorKind::LibraryNotFound,
                            "too many symbols extend one another",
                        ),
                    ),
                    Ghost(Seq::empty()),
                );
            }
            let (found, Ghost(below)) = resolve(documents, library, b.as_str(), depth - 1);
            match found {
                Err(_) => (
                    Err(Error::new(ErrorKind::LibraryNotFound, "unable to find extend symbol")),
                    Ghost(Seq::empty()),
                ),
                Ok(under) => {
                    let mut lib = under;
                    lib.props = read.props;
                    lib.lib_id = id;
                    let ghost reads = Seq::<LibrarySymbol>::empty().push(orig) + below;
                    proof {
                        assert(reads.drop_first() =~= below);
                        assert(reads.last() == below.last());
                        assert(b@ == orig.extends->Some_0@);
                    }
                    (Ok(lib), Ghost(reads))
                },
            }
        },
    }
}

/// The number of `symbol` nodes in the documents, held to what fits.
fn count_symbols(documents: &Vec<SexpTree>) -> (n: usize)
    ensures
        n == depth_of(roots_of(documents@)),
{
    let mut n: usize = 0;
    let mut d: usize = 0;
    let ghost roots = roots_of(documents@);
    assert(roots.take(0) =~= Seq::<Tree>::empty());
    while d < documents.len()
        invariant
            d <= documents.len(),
            roots == roots_of(documents@),
            n == depth_of(roots.take(d as int)),
        decreases documents.len() - d,
    {
        assert(roots.take(d + 1).drop_last() =~= roots.take(d as int));
        assert(roots.take(d + 1).last() == documents@[d as int].tree@);
        let k = documents[d].tree.query("symbol").len();
        n = if n <= usize::MAX - k {
            n + k
        } else {
            usize::MAX
        };
        d += 1;
    }
    assert(roots.take(d as int) =~= roots);
    n
}

impl SymbolLibrary {
    /// The files in which the symbol with a name is looked for: for each
    /// directory of the library, in order, the file of the symbol's
    /// library. A name without a colon names no file.
    pub fn files(&self, name: &str) -> (r: Vec<String>)
        ensures
            symbol_name(name@) is None ==> r@.len() == 0,
            symbol_name(name@) is Some ==> r@.len() == self.pathlist@.len() && forall|i: int|
                0 <= i < r@.len() ==> (#[trigger] r@[i])@ == self.pathlist@[i]@ + "/"@
                    + library_name(name@) + ".kicad_sym"@,
    {
        let mut r: Vec<String> = Vec::new();
        let mut i: usize = 0;
        while i < self.pathlist.len()
            invariant
                i <= self.pathlist.len(),
                symbol_name(name@) is None ==> r@.len() == 0,
                symbol_name(name@) is Some ==> r@.len() == i && forall|k: int|
                    0 <= k < r@.len() ==> (#[trigger] r@[k])@ == self.pathlist@[k]@ + "/"@
                        + library_name(name@) + ".kicad_sym"@,
            decreases self.pathlist.len() - i,
        {
            match library_file(self.pathlist[i].as_str(), name) {
                Some(f) => {
                    r.push(f);
                },
                None => {},
            }
            i += 1;
        }
        r
    }

    /// Load a symbol from the documents of its library, which stand in the
    /// order of the directories: the name is the combination of the name of
    /// the library and the symbol name.
    ///
    /// Fails with `LibraryNotFound` if the name has no colon, if no
    /// document holds the symbol, or if a symbol that it extends cannot be
    /// had; with `Sexp` if its node cannot be read.
    pub fn symbol(name: &str, documents: &Vec<SexpTree>) -> (r: Result<LibrarySymbol, Error>)
        ensures
            match r {
                Ok(lib) => symbol_name(name@) is Some && resolvable(
                    roots_of(documents@),
                    symbol_name(name@)->Some_0,
                    depth_of(roots_of(documents@)),
                ) && exists|reads: Seq<LibrarySymbol>| #[trigger]
                    resolves(
                        roots_of(documents@),
                        library_name(name@),
                        symbol_name(name@)->Some_0,
                        lib,
                        reads,
                    ),
                Err(e) => !(symbol_name(name@) is Some && resolvable(
                    roots_of(documents@),
                    symbol_name(name@)->Some_0,
                    depth_of(roots_of(documents@)),
                )) && (e.0 == ErrorKind::LibraryNotFound || e.0 == ErrorKind::Sexp) && (
                symbol_name(name@) is None || symbol_node(
                    roots_of(documents@),
                    symbol_name(name@)->Some_0,
                ) is None ==> e.0 == ErrorKind::LibraryNotFound),
            },
    {
        let Some(parts) = split_name(name) else {
            return Err(Error::new(ErrorKind::LibraryNotFound, "a symbol is named library:symbol"));
        };
        let depth = count_symbols(documents);
        let (r, Ghost(reads)) = resolve(documents, parts.0.as_str(), parts.1.as_str(), depth);
        r
    }
}

} // verus!
