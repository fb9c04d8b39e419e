//! Building a document from code.

use super::parser::Token;
use super::{build, lemma_build_step_keeps_open, tree_of, Assembly, SexpTree, Tree};
use crate::{Error, ErrorKind};
use vstd::prelude::*;

verus! {

/// internal state of the sexp builder.
#[derive(Debug, PartialEq, Eq, Clone)]
pub enum BuilderState {
    StartSymbol(String),
    EndSymbol,
    Values(String),
    Text(String),
}

impl BuilderState {
    /// The token with the characters of its string.
    pub open spec fn view(self) -> Token {
        match self {
            BuilderState::StartSymbol(s) => Token::StartSymbol(s@),
            BuilderState::EndSymbol => Token::EndSymbol,
            BuilderState::Values(s) => Token::Values(s@),
            BuilderState::Text(s) => Token::Text(s@),
        }
    }
}

/// The tokens of the builder states.
pub open spec fn tokens(nodes: Seq<BuilderState>) -> Seq<Token> {
    nodes.map_values(|s: BuilderState| s@)
}

/// utility to build a sexp document.
pub struct Builder {
    /// The tokens of the document so far.
    pub nodes: Vec<BuilderState>,
    /// How many nodes are open.
    pub level: usize,
}

impl Default for Builder {
    fn default() -> (b: Self)
        ensures
            b.nodes@.len() == 0,
            b.level == 0,
    {
        Self::new()
    }
}

impl Builder {
    /// A builder without tokens.
    pub fn new() -> (b: Self)
        ensures
            b.nodes@.len() == 0,
            b.level == 0,
    {
        Self { nodes: Vec::new(), level: 0 }
    }

    /// Opens a node with the name.
    pub fn push(&mut self, name: &str)
        ensures
            tokens(final(self).nodes@) == tokens(old(self).nodes@).push(Token::StartSymbol(name@)),
            final(self).level == (if old(self).level < usize::MAX {
                old(self).level + 1
            } else {
                usize::MAX as int
            }),
    {
        if self.level < usize::MAX {
            self.level += 1;
        }
        self.nodes.push(BuilderState::StartSymbol(name.to_string()));
        assert(tokens(self.nodes@) =~= tokens(old(self).nodes@).push(Token::StartSymbol(name@)));
    }

    /// Closes the innermost open node.
    pub fn end(&mut self)
        ensures
            tokens(final(self).nodes@) == tokens(old(self).nodes@).push(Token::EndSymbol),
            final(self).level == (if old(self).level > 0 {
                old(self).level - 1
            } else {
                0
            }),
    {
        if self.level > 0 {
            self.level -= 1;
        }
        self.nodes.push(BuilderState::EndSymbol);
        assert(tokens(self.nodes@) =~= tokens(old(self).nodes@).push(Token::EndSymbol));
    }

    /// Adds a value to the innermost open node.
    pub fn value(&mut self, name: &str)
        ensures
            tokens(final(self).nodes@) == tokens(old(self).nodes@).push(Token::Values(name@)),
            final(self).level == old(self).level,
    {
        self.nodes.push(BuilderState::Values(name.to_string()));
        assert(tokens(self.nodes@) =~= tokens(old(self).nodes@).push(Token::Values(name@)));
    }

    /// Adds a quoted text to the innermost open node.
    pub fn text(&mut self, name: &str)
        ensures
            tokens(final(self).nodes@) == tokens(old(self).nodes@).push(Token::Text(name@)),
            final(self).level == old(self).level,
    {
        self.nodes.push(BuilderState::Text(name.to_string()));
        assert(tokens(self.nodes@) =~= tokens(old(self).nodes@).push(Token::Text(name@)));
    }

    /// return a SexpTree: the document that the tokens make.
    ///
    /// Fails unless the first token opens a node.
    pub fn sexp(&self) -> (r: Result<SexpTree, Error>)
        ensures
            match r {
                Ok(t) => tree_of(tokens(self.nodes@)) == Some(t.tree@),
                Err(e) => tree_of(tokens(self.nodes@)) is None && e.0 == ErrorKind::Sexp,
            },
    {
        let ghost all = tokens(self.nodes@);
        let mut assembly = Assembly::new();
        if self.nodes.len() == 0 {
            return Err(Error::new(ErrorKind::Sexp, "Document does not start with a start symbol."));
        }
        match &self.nodes[0] {
            BuilderState::StartSymbol(name) => {
                assert(all.take(1).drop_last() =~= Seq::<Token>::empty());
                assert(build(all.take(1).drop_last()) =~= Seq::<Tree>::empty());
                assert(all.take(1).last() == Token::StartSymbol(name@));
                assembly.start(name.clone());
            },
            _ => {
                return Err(
                    Error::new(ErrorKind::Sexp, "Document does not start with a start symbol."),
                );
            },
        }
        let mut i: usize = 1;
        while i < self.nodes.len()
            invariant
                1 <= i <= self.nodes.len(),
                all == tokens(self.nodes@),
                assembly@ == build(all.take(i as int)),
                assembly@.len() > 0,
            decreases self.nodes.len() - i,
        {
            assert(all.take(i + 1).drop_last() =~= all.take(i as int));
            assert(all.take(i + 1).last() == self.nodes@[i as int]@);
            proof {
                lemma_build_step_keeps_open(build(all.take(i as int)), all[i as int]);
            }
            match &self.nodes[i] {
                BuilderState::Values(value) => assembly.value(value.clone()),
                BuilderState::Text(value) => assembly.text(value.clone()),
                BuilderState::EndSymbol => assembly.end(),
                BuilderState::StartSymbol(name) => assembly.start(name.clone()),
            }
            i += 1;
        }
        assert(all.take(i as int) =~= all);
        match assembly.finish() {
            Some(tree) => Ok(SexpTree { tree }),
            None => Err(Error::new(ErrorKind::Sexp, "Document holds no node.")),
        }
    }
}

} // verus!
