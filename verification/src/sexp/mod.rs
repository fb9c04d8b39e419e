//! S-expression documents: tokens, trees, and typed access to values.

pub mod builder;
pub mod parser;
pub mod writer;

use crate::number::{
    parse_fixed, parse_fixed_spec, parse_u32, parse_u32_spec, parse_u8, parse_u8_spec,
};
use crate::strings::str_eq;
use crate::{Error, ErrorKind};
use parser::{SexpIter, State, Token};
use vstd::prelude::*;

verus! {

/// The sexp element types.
#[derive(Debug, PartialEq, Eq)]
pub enum SexpAtom {
    /// Child node.
    Node(Sexp),
    /// Value
    Value(String),
    /// Text surrounded with quotes.
    Text(String),
}

/// Sexp Element
#[derive(Debug, PartialEq, Eq)]
pub struct Sexp {
    /// name of the node
    pub name: String,
    /// Children of the node.
    pub nodes: Vec<SexpAtom>,
}

/// An element of a node, with the characters of its strings.
pub enum Atom {
    Node(Tree),
    Value(Seq<char>),
    Text(Seq<char>),
}

/// A node, with the characters of its strings.
pub struct Tree {
    pub name: Seq<char>,
    pub nodes: Seq<Atom>,
}

impl SexpAtom {
    /// The element with the characters of its strings.
    pub open spec fn view(self) -> Atom
        decreases self,
    {
        match self {
            SexpAtom::Node(n) => Atom::Node(n.view()),
            SexpAtom::Value(s) => Atom::Value(s@),
            SexpAtom::Text(s) => Atom::Text(s@),
        }
    }
}

impl Sexp {
    /// The node with the characters of its strings.
    pub open spec fn view(self) -> Tree
        decreases self,
    {
        Tree {
            name: self.name@,
            nodes: Seq::new(
                self.nodes@.len(),
                |i: int|
                    if 0 <= i < self.nodes@.len() {
                        self.nodes@[i].view()
                    } else {
                        Atom::Value(Seq::empty())
                    },
            ),
        }
    }

    /// Create a new sexp node with name.
    pub fn from(name: String) -> (s: Self)
        ensures
            s@ == (Tree { name: name@, nodes: Seq::empty() }),
    {
        let s = Sexp { name, nodes: Vec::new() };
        assert(s@.nodes =~= Seq::<Atom>::empty());
        s
    }

    /// Adds an element behind those that the node holds.
    pub fn add(&mut self, atom: SexpAtom)
        ensures
            final(self)@ == (Tree { name: old(self)@.name, nodes: old(self)@.nodes.push(atom@) }),
            final(self).name == old(self).name,
            final(self).nodes@ == old(self).nodes@.push(atom),
    {
        self.nodes.push(atom);
        assert(self@.nodes =~= old(self)@.nodes.push(atom@));
    }

    /// get the nodes: the child nodes, in order.
    pub fn nodes(&self) -> (r: Vec<&Sexp>)
        ensures
            r@.len() == child_trees(self@.nodes).len(),
            forall|i: int| 0 <= i < r@.len() ==> (#[trigger] r@[i])@ == child_trees(self@.nodes)[i],
    {
        let mut out: Vec<&Sexp> = Vec::new();
        let mut i: usize = 0;
        let ghost atoms = self@.nodes;
        assert(atoms.take(0) =~= Seq::<Atom>::empty());
        while i < self.nodes.len()
            invariant
                i <= self.nodes.len(),
                atoms == self@.nodes,
                atoms.len() == self.nodes@.len(),
                out@.len() == child_trees(atoms.take(i as int)).len(),
                forall|k: int|
                    0 <= k < out@.len() ==> (#[trigger] out@[k])@ == child_trees(
                        atoms.take(i as int),
                    )[k],
            decreases self.nodes.len() - i,
        {
            assert(atoms.take(i + 1).drop_last() =~= atoms.take(i as int));
            assert(atoms.take(i + 1).last() == atoms[i as int]);
            assert(atoms[i as int] == self.nodes@[i as int]@);
            if let SexpAtom::Node(node) = &self.nodes[i] {
                out.push(node);
            }
            i += 1;
        }
        assert(atoms.take(i as int) =~= atoms);
        out
    }

    /// query child nodes for elements by name.
    pub fn query(&self, q: &str) -> (r: Vec<&Sexp>)
        ensures
            r@.len() == named(self@.nodes, q@).len(),
            forall|i: int| 0 <= i < r@.len() ==> (#[trigger] r@[i])@ == named(self@.nodes, q@)[i],
    {
        let mut out: Vec<&Sexp> = Vec::new();
        let mut i: usize = 0;
        let ghost atoms = self@.nodes;
        assert(atoms.take(0) =~= Seq::<Atom>::empty());
        while i < self.nodes.len()
            invariant
                i <= self.nodes.len(),
                atoms == self@.nodes,
                atoms.len() == self.nodes@.len(),
                out@.len() == named(atoms.take(i as int), q@).len(),
                forall|k: int|
                    0 <= k < out@.len() ==> (#[trigger] out@[k])@ == named(
                        atoms.take(i as int),
                        q@,
                    )[k],
            decreases self.nodes.len() - i,
        {
            assert(atoms.take(i + 1).drop_last() =~= atoms.take(i as int));
            assert(atoms.take(i + 1).last() == atoms[i as int]);
            assert(atoms[i as int] == self.nodes@[i as int]@);
            if let SexpAtom::Node(node) = &self.nodes[i] {
                if str_eq(node.name.as_str(), q) {
                    out.push(node);
                }
            }
            i += 1;
        }
        assert(atoms.take(i as int) =~= atoms);
        out
    }

    /// Return the values from a node: the strings of its values and texts,
    /// in order.
    pub fn values(&self) -> (r: Vec<String>)
        ensures
            texts(r@) == atom_values(self@.nodes),
    {
        let mut out: Vec<String> = Vec::new();
        let mut i: usize = 0;
        let ghost atoms = self@.nodes;
        assert(atoms.take(0) =~= Seq::<Atom>::empty());
        assert(texts(out@) =~= Seq::<Seq<char>>::empty());
        while i < self.nodes.len()
            invariant
                i <= self.nodes.len(),
                atoms == self@.nodes,
                atoms.len() == self.nodes@.len(),
                texts(out@) == atom_values(atoms.take(i as int)),
            decreases self.nodes.len() - i,
        {
            assert(atoms.take(i + 1).drop_last() =~= atoms.take(i as int));
            assert(atoms.take(i + 1).last() == atoms[i as int]);
            assert(atoms[i as int] == self.nodes@[i as int]@);
            let ghost before = texts(out@);
            match &self.nodes[i] {
                SexpAtom::Value(value) => {
                    out.push(value.clone());
                    assert(texts(out@) =~= before.push(value@));
                },
                SexpAtom::Text(value) => {
                    out.push(value.clone());
                    assert(texts(out@) =~= before.push(value@));
                },
                SexpAtom::Node(_) => {},
            }
            i += 1;
        }
        assert(atoms.take(i as int) =~= atoms);
        out
    }

    /// Return the first value of the first child node with the name.
    pub fn first(&self, q: &str) -> (r: Option<String>)
        ensures
            match r {
                Some(s) => first_of(self@, q@) == Some(s@),
                None => first_of(self@, q@) is None,
            },
    {
        let found = self.query(q);
        if found.len() > 0 {
            let values = found[0].values();
            assert(texts(values@).len() == values@.len());
            if values.len() > 0 {
                assert(texts(values@)[0] == values@[0]@);
                return Some(values[0].clone());
            }
        }
        None
    }

    /// Return a positional value from the node.
    pub fn get(&self, index: usize) -> (r: Option<String>)
        ensures
            match r {
                Some(s) => value_at(self@, index as int) == Some(s@),
                None => value_at(self@, index as int) is None,
            },
    {
        let values = self.values();
        assert(texts(values@).len() == values@.len());
        if index < values.len() {
            assert(texts(values@)[index as int] == values@[index as int]@);
            Some(values[index].clone())
        } else {
            None
        }
    }
}

/// The characters of each string.
pub open spec fn texts(values: Seq<String>) -> Seq<Seq<char>> {
    values.map_values(|s: String| s@)
}

/// The child nodes among the elements, in order.
pub open spec fn child_trees(nodes: Seq<Atom>) -> Seq<Tree>
    decreases nodes.len(),
{
    if nodes.len() == 0 {
        Seq::empty()
    } else {
        match nodes.last() {
            Atom::Node(t) => child_trees(nodes.drop_last()).push(t),
            _ => child_trees(nodes.drop_last()),
        }
    }
}

/// The child nodes with the name among the elements, in order.
pub open spec fn named(nodes: Seq<Atom>, q: Seq<char>) -> Seq<Tree>
    decreases nodes.len(),
{
    if nodes.len() == 0 {
        Seq::empty()
    } else {
        match nodes.last() {
            Atom::Node(t) => if t.name == q {
                named(nodes.drop_last(), q).push(t)
            } else {
                named(nodes.drop_last(), q)
            },
            _ => named(nodes.drop_last(), q),
        }
    }
}

/// The strings of the values and texts among the elements, in order.
pub open spec fn atom_values(nodes: Seq<Atom>) -> Seq<Seq<char>>
    decreases nodes.len(),
{
    if nodes.len() == 0 {
        Seq::empty()
    } else {
        match nodes.last() {
            Atom::Value(v) => atom_values(nodes.drop_last()).push(v),
            Atom::Text(v) => atom_values(nodes.drop_last()).push(v),
            Atom::Node(_) => atom_values(nodes.drop_last()),
        }
    }
}

/// The first value of the first child node with the name.
pub open spec fn first_of(tree: Tree, q: Seq<char>) -> Option<Seq<char>> {
    if named(tree.nodes, q).len() > 0 && atom_values(named(tree.nodes, q)[0].nodes).len() > 0 {
        Some(atom_values(named(tree.nodes, q)[0].nodes)[0])
    } else {
        None
    }
}

/// The value at a place among the values of the node.
pub open spec fn value_at(tree: Tree, index: int) -> Option<Seq<char>> {
    if 0 <= index < atom_values(tree.nodes).len() {
        Some(atom_values(tree.nodes)[index])
    } else {
        None
    }
}

/// The open nodes with an element added to the innermost.
pub open spec fn attach(stack: Seq<Tree>, atom: Atom) -> Seq<Tree> {
    if stack.len() == 0 {
        stack
    } else {
        stack.update(
            stack.len() - 1,
            Tree { name: stack.last().name, nodes: stack.last().nodes.push(atom) },
        )
    }
}

/// The open nodes after a token: a value or a text is added to the
/// innermost open node; a start opens a node; an end closes the innermost
/// open node and adds it to the one around it, but leaves the outermost
/// node open.
pub open spec fn build_step(stack: Seq<Tree>, token: Token) -> Seq<Tree> {
    match token {
        Token::Values(v) => attach(stack, Atom::Value(v)),
        Token::Text(t) => attach(stack, Atom::Text(t)),
        Token::EndSymbol => if stack.len() > 1 {
            attach(stack.drop_last(), Atom::Node(stack.last()))
        } else {
            stack
        },
        Token::StartSymbol(n) => stack.push(Tree { name: n, nodes: Seq::empty() }),
    }
}

/// The open nodes after the tokens, from the outermost to the innermost.
pub open spec fn build(tokens: Seq<Token>) -> Seq<Tree>
    decreases tokens.len(),
{
    if tokens.len() == 0 {
        Seq::empty()
    } else {
        build_step(build(tokens.drop_last()), tokens.last())
    }
}

/// The document that the tokens make: none unless the first token opens a
/// node; else the innermost node that is open after the last token, which
/// is the outermost node if every node is closed.
pub open spec fn tree_of(tokens: Seq<Token>) -> Option<Tree> {
    if tokens.len() > 0 && tokens[0] is StartSymbol && build(tokens).len() > 0 {
        Some(build(tokens).last())
    } else {
        None
    }
}

/// A step leaves at least one node open if one was open.
pub proof fn lemma_build_step_keeps_open(stack: Seq<Tree>, token: Token)
    requires
        stack.len() > 0,
    ensures
        build_step(stack, token).len() > 0,
{
}

/// The trees of the nodes.
pub open spec fn trees(stack: Seq<Sexp>) -> Seq<Tree> {
    stack.map_values(|s: Sexp| s@)
}

/// The nodes that are open while a document is put together.
pub struct Assembly {
    /// The open nodes, from the outermost to the innermost.
    pub stack: Vec<Sexp>,
}

impl Assembly {
    /// The trees of the open nodes.
    pub open spec fn view(self) -> Seq<Tree> {
        trees(self.stack@)
    }

    /// No open node.
    pub fn new() -> (a: Self)
        ensures
            a@ == Seq::<Tree>::empty(),
    {
        let a = Assembly { stack: Vec::new() };
        assert(a@ =~= Seq::<Tree>::empty());
        a
    }

    /// Opens a node.
    pub fn start(&mut self, name: String)
        ensures
            final(self)@ == build_step(old(self)@, Token::StartSymbol(name@)),
    {
        self.stack.push(Sexp::from(name));
        assert(self@ =~= build_step(old(self)@, Token::StartSymbol(name@)));
    }

    /// Adds an element to the innermost open node.
    fn attach_atom(&mut self, atom: SexpAtom)
        ensures
            final(self)@ == attach(old(self)@, atom@),
    {
        let len = self.stack.len();
        if len > 0 {
            self.stack[len - 1].add(atom);
            assert(self@ =~= attach(old(self)@, atom@));
        }
    }

    /// Adds a value to the innermost open node.
    pub fn value(&mut self, value: String)
        ensures
            final(self)@ == build_step(old(self)@, Token::Values(value@)),
    {
        self.attach_atom(SexpAtom::Value(value));
    }

    /// Adds a text to the innermost open node.
    pub fn text(&mut self, value: String)
        ensures
            final(self)@ == build_step(old(self)@, Token::Text(value@)),
    {
        self.attach_atom(SexpAtom::Text(value));
    }

    /// Closes the innermost open node, unless it is the outermost.
    pub fn end(&mut self)
        ensures
            final(self)@ == build_step(old(self)@, Token::EndSymbol),
    {
        if self.stack.len() > 1 {
            let node = self.stack.pop().unwrap();
            assert(self@ =~= old(self)@.drop_last());
            assert(node@ == old(self)@.last());
            self.attach_atom(SexpAtom::Node(node));
        }
    }

    /// The innermost open node, if there is one.
    pub fn finish(self) -> (r: Option<Sexp>)
        ensures
            match r {
                Some(s) => self@.len() > 0 && s@ == self@.last(),
                None => self@.len() == 0,
            },
    {
        let mut stack = self.stack;
        let r = stack.pop();
        proof {
            if self.stack@.len() > 0 {
                assert(self@.last() == self.stack@.last()@);
            }
        }
        r
    }
}

/// Whether the cursor can be one of an iterator.
pub open spec fn cursor_in(content: Seq<char>, c: parser::Cursor) -> bool {
    0 <= c.start <= c.pos <= content.len()
}

/// From a cursor within the content, `scan` ends within the content, and
/// where it finds a token it has passed a character.
pub proof fn lemma_scan_advances(content: Seq<char>, c: parser::Cursor)
    requires
        cursor_in(content, c),
    ensures
        cursor_in(content, parser::scan(content, c).1),
        parser::scan(content, c).0 is Some ==> parser::scan(content, c).1.pos > c.pos,
        parser::scan(content, c).1.pos >= c.pos,
    decreases content.len() - c.pos,
{
    if c.pos < content.len() {
        let i = c.pos;
        let ch = content[i];
        match c.state {
            parser::IntState::NotStarted => {
                if ch == '(' {
                    lemma_scan_advances(
                        content,
                        parser::Cursor { pos: i + 1, start: i + 1, state: parser::IntState::Symbol },
                    );
                } else {
                    lemma_scan_advances(
                        content,
                        parser::Cursor { pos: i + 1, start: c.start, state: c.state },
                    );
                }
            },
            parser::IntState::Symbol => {
                if !parser::ends_symbol(ch) {
                    lemma_scan_advances(
                        content,
                        parser::Cursor { pos: i + 1, start: c.start, state: c.state },
                    );
                }
            },
            parser::IntState::Values => {
                if parser::ends_value(ch) {
                    if !(i - c.start > 0) && ch != ')' {
                        lemma_scan_advances(
                            content,
                            parser::Cursor {
                                pos: i + 1,
                                start: i + 1,
                                state: parser::IntState::Values,
                            },
                        );
                    }
                } else if ch == '(' {
                    lemma_scan_advances(
                        content,
                        parser::Cursor { pos: i + 1, start: i + 1, state: parser::IntState::Symbol },
                    );
                } else if ch == '"' {
                    parser::lemma_closing_quote_range(content, i + 1, '\0');
                } else {
                    lemma_scan_advances(
                        content,
                        parser::Cursor { pos: i + 1, start: c.start, state: c.state },
                    );
                }
            },
            parser::IntState::BeforeEndSymbol => {
                lemma_scan_advances(
                    content,
                    parser::Cursor { pos: i + 1, start: c.start, state: c.state },
                );
            },
        }
    }
}

/// How far the tokenizer is from the end: what is left of the content, and
/// one more while a closing bracket is due.
pub open spec fn distance(content: Seq<char>, c: parser::Cursor) -> nat {
    ((content.len() - c.pos) * 2 + (if c.state == parser::IntState::BeforeEndSymbol {
        1int
    } else {
        0int
    })) as nat
}

/// The tokens of the content from the cursor on.
pub open spec fn tokens_from(content: Seq<char>, c: parser::Cursor) -> Seq<Token>
    decreases distance(content, c),
{
    if !cursor_in(content, c) {
        Seq::empty()
    } else {
        let (token, after) = parser::next_token(content, c);
        proof {
            lemma_scan_advances(content, c);
        }
        match token {
            None => Seq::empty(),
            Some(t) => seq![t] + tokens_from(content, after),
        }
    }
}

/// Sexp document.
#[derive(Debug, PartialEq, Eq)]
pub struct SexpTree {
    /// The outermost node.
    pub tree: Sexp,
}

impl SexpTree {
    /// parse a sexp document for SexpParser Iterator: the document that the
    /// rest of the iterator's tokens make.
    ///
    /// Fails unless the first token opens a node.
    pub fn from(iter: SexpIter<'_>) -> (r: Result<Self, Error>)
        requires
            iter.wf(),
        ensures
            match r {
                Ok(t) => tree_of(tokens_from(iter.content@, iter.cursor())) == Some(t.tree@),
                Err(e) => tree_of(tokens_from(iter.content@, iter.cursor())) is None && e.0
                    == ErrorKind::Sexp,
            },
    {
        let mut iter = iter;
        let ghost content = iter.content@;
        let ghost all = tokens_from(content, iter.cursor());
        let mut assembly = Assembly::new();
        let ghost mut done: Seq<Token> = Seq::empty();
        let first = iter.next();
        match first {
            Some(State::StartSymbol(name)) => {
                proof {
                    done = seq![Token::StartSymbol(name@)];
                    assert(done.drop_last() =~= Seq::<Token>::empty());
                    assert(build(done.drop_last()) =~= Seq::<Tree>::empty());
                    assert(all =~= done + tokens_from(content, iter.cursor()));
                }
                assembly.start(name);
            },
            _ => {
                proof {
                    if all.len() > 0 {
                        assert(!(all[0] is StartSymbol));
                    }
                }
                return Err(
                    Error::new(ErrorKind::Sexp, "Document does not start with a start symbol."),
                );
            },
        }
        loop
            invariant_except_break
                all == done + tokens_from(content, iter.cursor()),
            invariant
                iter.wf(),
                iter.content@ == content,
                done.len() > 0,
                done[0] is StartSymbol,
                assembly@ == build(done),
                assembly@.len() > 0,
            ensures
                all == done,
            decreases distance(content, iter.cursor()),
        {
            proof {
                lemma_scan_advances(content, iter.cursor());
            }
            let ghost before = done;
            let state = iter.next();
            match state {
                Some(State::Values(value)) => {
                    proof {
                        done = done.push(Token::Values(value@));
                    }
                    assembly.value(value);
                },
                Some(State::Text(value)) => {
                    proof {
                        done = done.push(Token::Text(value@));
                    }
                    assembly.text(value);
                },
                Some(State::EndSymbol) => {
                    proof {
                        done = done.push(Token::EndSymbol);
                    }
                    assembly.end();
                },
                Some(State::StartSymbol(name)) => {
                    proof {
                        done = done.push(Token::StartSymbol(name@));
                    }
                    assembly.start(name);
                },
                None => {
                    assert(all =~= done);
                    break ;
                },
            }
            proof {
                assert(done.drop_last() =~= before);
                lemma_build_step_keeps_open(build(before), done.last());
                assert(all =~= done + tokens_from(content, iter.cursor()));
            }
        }
        match assembly.finish() {
            Some(tree) => Ok(SexpTree { tree }),
            None => Err(Error::new(ErrorKind::Sexp, "Document holds no node.")),
        }
    }

    /// Get the root element.
    pub fn root(&self) -> (r: Result<&Sexp, Error>)
        ensures
            r is Ok,
            *r->Ok_0 == self.tree,
    {
        Ok(&self.tree)
    }
}

/// The number below 256 that the string writes, if there is a string.
pub open spec fn as_u8(s: Option<Seq<char>>) -> Option<u8> {
    match s {
        Some(v) => parse_u8_spec(v),
        None => None,
    }
}

/// The 32-bit number that the string writes, if there is a string.
pub open spec fn as_u32(s: Option<Seq<char>>) -> Option<u32> {
    match s {
        Some(v) => parse_u32_spec(v),
        None => None,
    }
}

/// The fixed-point value that the string writes, if there is a string.
pub open spec fn as_fixed(s: Option<Seq<char>>) -> Option<i32> {
    match s {
        Some(v) => parse_fixed_spec(v),
        None => None,
    }
}

/// Whether there is a string and it says `true` or `yes`.
pub open spec fn as_bool(s: Option<Seq<char>>) -> bool {
    match s {
        Some(v) => v == "true"@ || v == "yes"@,
        None => false,
    }
}

/// Return the values from a node.
pub trait SexpQuery<E> {
    /// Return the values from a node.
    fn values(&self) -> E;
}

/// Get a single sexp value.
///
/// Get a sexp value by name or index.
/// There could be multiple values, the
/// first is returned.
pub trait SexpValue<E> {
    /// Return the first value from a node by name.
    fn first(&self, q: &str) -> Option<E>;

    /// get value at index.
    fn get(&self, index: usize) -> Option<E>;
}

impl SexpQuery<Vec<String>> for Sexp {
    fn values(&self) -> (r: Vec<String>)
        ensures
            texts(r@) == atom_values(self@.nodes),
    {
        Sexp::values(self)
    }
}

impl SexpValue<String> for Sexp {
    fn first(&self, q: &str) -> (r: Option<String>)
        ensures
            match r {
                Some(s) => first_of(self@, q@) == Some(s@),
                None => first_of(self@, q@) is None,
            },
    {
        Sexp::first(self, q)
    }

    fn get(&self, index: usize) -> (r: Option<String>)
        ensures
            match r {
                Some(s) => value_at(self@, index as int) == Some(s@),
                None => value_at(self@, index as int) is None,
            },
    {
        Sexp::get(self, index)
    }
}

impl Sexp {
    /// The first value of the first child node with the name, as a number:
    /// `None` if there is none or it is no number below 256.
    pub fn first_u8(&self, q: &str) -> (r: Option<u8>)
        ensures
            r == as_u8(first_of(self@, q@)),
    {
        match Sexp::first(self, q) {
            Some(v) => parse_u8(v.as_str()),
            None => None,
        }
    }

    /// The value at a place, as a number: `None` if there is none or it is
    /// no number below 256.
    pub fn get_u8(&self, index: usize) -> (r: Option<u8>)
        ensures
            r == as_u8(value_at(self@, index as int)),
    {
        match Sexp::get(self, index) {
            Some(v) => parse_u8(v.as_str()),
            None => None,
        }
    }

    /// The first value of the first child node with the name, as a number:
    /// `None` if there is none or it is no 32-bit number.
    pub fn first_u32(&self, q: &str) -> (r: Option<u32>)
        ensures
            r == as_u32(first_of(self@, q@)),
    {
        match Sexp::first(self, q) {
            Some(v) => parse_u32(v.as_str()),
            None => None,
        }
    }

    /// The value at a place, as a number: `None` if there is none or it is
    /// no 32-bit number.
    pub fn get_u32(&self, index: usize) -> (r: Option<u32>)
        ensures
            r == as_u32(value_at(self@, index as int)),
    {
        match Sexp::get(self, index) {
            Some(v) => parse_u32(v.as_str()),
            None => None,
        }
    }

    /// Whether the first value of the first child node with the name says
    /// `true` or `yes`; false if there is none.
    pub fn first_bool(&self, q: &str) -> (r: bool)
        ensures
            r == as_bool(first_of(self@, q@)),
    {
        match Sexp::first(self, q) {
            Some(v) => str_eq(v.as_str(), "true") || str_eq(v.as_str(), "yes"),
            None => false,
        }
    }

    /// Whether the value at a place says `true` or `yes`; false if there is
    /// none.
    pub fn get_bool(&self, index: usize) -> (r: bool)
        ensures
            r == as_bool(value_at(self@, index as int)),
    {
        match Sexp::get(self, index) {
            Some(v) => str_eq(v.as_str(), "true") || str_eq(v.as_str(), "yes"),
            None => false,
        }
    }

    /// The first value of the first child node with the name, as a
    /// fixed-point value: `None` if there is none or it is no decimal
    /// number.
    pub fn first_fixed(&self, q: &str) -> (r: Option<i32>)
        ensures
            r == as_fixed(first_of(self@, q@)),
    {
        match Sexp::first(self, q) {
            Some(v) => parse_fixed(v.as_str()),
            None => None,
        }
    }

    /// The value at a place, as a fixed-point value: `None` if there is none
    /// or it is no decimal number.
    pub fn get_fixed(&self, index: usize) -> (r: Option<i32>)
        ensures
            r == as_fixed(value_at(self@, index as int)),
    {
        match Sexp::get(self, index) {
            Some(v) => parse_fixed(v.as_str()),
            None => None,
        }
    }

    /// The numbers below 256 that the values of the node write: `None` if
    /// one of them writes none.
    pub fn values_u8(&self) -> (r: Option<Vec<u8>>)
        ensures
            match r {
                Some(v) => v@.len() == atom_values(self@.nodes).len() && forall|i: int|
                    0 <= i < v@.len() ==> parse_u8_spec(#[trigger] atom_values(self@.nodes)[i])
                        == Some(v@[i]),
                None => exists|i: int|
                    0 <= i < atom_values(self@.nodes).len() && parse_u8_spec(
                        #[trigger] atom_values(self@.nodes)[i],
                    ) is None,
            },
    {
        let values = Sexp::values(self);
        assert(texts(values@).len() == values@.len());
        let mut out: Vec<u8> = Vec::new();
        let mut i: usize = 0;
        while i < values.len()
            invariant
                i <= values.len(),
                texts(values@) == atom_values(self@.nodes),
                texts(values@).len() == values@.len(),
                out@.len() == i,
                forall|k: int|
                    0 <= k < i ==> parse_u8_spec(#[trigger] atom_values(self@.nodes)[k]) == Some(
                        out@[k],
                    ),
            decreases values.len() - i,
        {
            assert(texts(values@)[i as int] == values@[i as int]@);
            match parse_u8(values[i].as_str()) {
                Some(n) => out.push(n),
                None => {
                    return None;
                },
            }
            i += 1;
        }
        Some(out)
    }
}

/// The elements but for the child nodes with the name.
pub open spec fn without(nodes: Seq<Atom>, q: Seq<char>) -> Seq<Atom>
    decreases nodes.len(),
{
    if nodes.len() == 0 {
        Seq::empty()
    } else {
        match nodes.last() {
            Atom::Node(t) => if t.name == q {
                without(nodes.drop_last(), q)
            } else {
                without(nodes.drop_last(), q).push(nodes.last())
            },
            _ => without(nodes.drop_last(), q).push(nodes.last()),
        }
    }
}

/// The elements with the characters of their strings.
pub open spec fn atoms_of(nodes: Seq<SexpAtom>) -> Seq<Atom> {
    nodes.map_values(|a: SexpAtom| a@)
}

impl Sexp {
    /// Takes every child node with the name out of the node.
    pub fn remove(&mut self, name: &str) -> (r: Result<(), Error>)
        ensures
            r is Ok,
            final(self)@.name == old(self)@.name,
            final(self)@.nodes == without(old(self)@.nodes, name@),
    {
        let ghost orig = self.nodes@;
        let ghost n = orig.len() as int;
        assert(self@.nodes =~= atoms_of(orig));
        let mut taken: Vec<SexpAtom> = Vec::new();
        core::mem::swap(&mut self.nodes, &mut taken);
        let mut turned: Vec<SexpAtom> = Vec::new();
        loop
            invariant
                orig.len() == n,
                taken@.len() + turned@.len() == n,
                taken@ == orig.take(taken@.len() as int),
                forall|j: int| 0 <= j < turned@.len() ==> turned@[j] == orig[n - 1 - j],
                self.name == old(self).name,
                self.nodes@.len() == 0,
            ensures
                turned@.len() == n,
            decreases taken@.len(),
        {
            let ghost before = taken@;
            match taken.pop() {
                Some(a) => {
                    assert(a == orig[before.len() - 1]);
                    assert(taken@ =~= orig.take(before.len() - 1));
                    turned.push(a);
                },
                None => {
                    break ;
                },
            }
        }
        assert(atoms_of(orig).take(0) =~= Seq::<Atom>::empty());
        assert(atoms_of(self.nodes@) =~= Seq::<Atom>::empty());
        loop
            invariant
                turned@.len() <= n,
                orig.len() == n,
                forall|j: int| 0 <= j < turned@.len() ==> turned@[j] == orig[n - 1 - j],
                self.name == old(self).name,
                atoms_of(self.nodes@) == without(atoms_of(orig).take(n - turned@.len()), name@),
            ensures
                turned@.len() == 0,
            decreases turned@.len(),
        {
            let ghost i = n - turned@.len();
            let ghost before = atoms_of(self.nodes@);
            match turned.pop() {
                Some(a) => {
                    assert(a == orig[i]);
                    assert(atoms_of(orig).take(i + 1).drop_last() =~= atoms_of(orig).take(i));
                    assert(atoms_of(orig).take(i + 1).last() == a@);
                    let keep = match &a {
                        SexpAtom::Node(node) => !str_eq(node.name.as_str(), name),
                        _ => true,
                    };
                    if keep {
                        self.nodes.push(a);
                        assert(atoms_of(self.nodes@) =~= before.push(a@));
                    }
                },
                None => {
                    break ;
                },
            }
        }
        assert(atoms_of(orig).take(n) =~= atoms_of(orig));
        assert(self@.nodes =~= atoms_of(self.nodes@));
        Ok(())
    }
}

/// Where among the elements the value with the index stands, counting
/// values and texts.
pub open spec fn value_place(nodes: Seq<Atom>, index: int) -> Option<int>
    decreases nodes.len(),
{
    if nodes.len() == 0 {
        None
    } else if !(nodes.last() is Node) && atom_values(nodes.drop_last()).len() == index {
        Some(nodes.len() - 1)
    } else {
        value_place(nodes.drop_last(), index)
    }
}

/// A value that is found stands among the elements, and there are more
/// values than its index; where none is found there are no more values than
/// the index.
pub proof fn lemma_value_place_bound(nodes: Seq<Atom>, index: int)
    requires
        index >= 0,
    ensures
        match value_place(nodes, index) {
            Some(p) => 0 <= p < nodes.len() && atom_values(nodes).len() > index,
            None => atom_values(nodes).len() <= index,
        },
    decreases nodes.len(),
{
    if nodes.len() > 0 {
        lemma_value_place_bound(nodes.drop_last(), index);
    }
}

/// What is found among the first elements is found among all.
pub proof fn lemma_value_place_grows(nodes: Seq<Atom>, index: int, n: int)
    requires
        0 <= n <= nodes.len(),
        index >= 0,
        value_place(nodes.take(n), index) is Some,
    ensures
        value_place(nodes, index) == value_place(nodes.take(n), index),
    decreases nodes.len() - n,
{
    if n < nodes.len() {
        lemma_value_place_bound(nodes.take(n), index);
        assert(nodes.take(n + 1).drop_last() =~= nodes.take(n));
        lemma_value_place_grows(nodes, index, n + 1);
    } else {
        assert(nodes.take(n) =~= nodes);
    }
}

impl Sexp {
    /// A copy of the node, with all that is in it.
    pub fn copy(&self) -> (r: Sexp)
        ensures
            r@ == self@,
        decreases self,
    {
        let mut nodes: Vec<SexpAtom> = Vec::new();
        let mut i: usize = 0;
        while i < self.nodes.len()
            invariant
                i <= self.nodes.len(),
                nodes@.len() == i,
                forall|k: int| 0 <= k < i ==> (#[trigger] nodes@[k])@ == self.nodes@[k]@,
            decreases self.nodes.len() - i,
        {
            let atom = match &self.nodes[i] {
                SexpAtom::Node(n) => SexpAtom::Node(n.copy()),
                SexpAtom::Value(v) => SexpAtom::Value(v.clone()),
                SexpAtom::Text(v) => SexpAtom::Text(v.clone()),
            };
            nodes.push(atom);
            i += 1;
        }
        let r = Sexp { name: self.name.clone(), nodes };
        assert(r@.nodes =~= self@.nodes);
        r
    }

    /// Puts an element in the place of the value with the index, counting
    /// values and texts. Without such a value the node stays as it is.
    pub fn set(&mut self, index: usize, atom: SexpAtom) -> (r: Result<(), Error>)
        ensures
            final(self)@.name == old(self)@.name,
            match r {
                Ok(_) => value_place(old(self)@.nodes, index as int) is Some && final(self)@.nodes
                    == old(self)@.nodes.update(
                    value_place(old(self)@.nodes, index as int)->Some_0,
                    atom@,
                ),
                Err(e) => value_place(old(self)@.nodes, index as int) is None && final(self)@
                    == old(self)@ && e.0 == ErrorKind::Sexp,
            },
    {
        let ghost atoms = self@.nodes;
        let mut count: usize = 0;
        let mut i: usize = 0;
        assert(atoms.take(0) =~= Seq::<Atom>::empty());
        while i < self.nodes.len()
            invariant
                i <= self.nodes.len(),
                *self == *old(self),
                atoms == self@.nodes,
                atoms.len() == self.nodes@.len(),
                count == atom_values(atoms.take(i as int)).len(),
                count <= i,
                count <= index,
                value_place(atoms.take(i as int), index as int) is None,
            decreases self.nodes.len() - i,
        {
            assert(atoms.take(i + 1).drop_last() =~= atoms.take(i as int));
            assert(atoms.take(i + 1).last() == atoms[i as int]);
            assert(atoms[i as int] == self.nodes@[i as int]@);
            let is_node = match &self.nodes[i] {
                SexpAtom::Node(_) => true,
                _ => false,
            };
            if !is_node {
                if count == index {
                    proof {
                        lemma_value_place_grows(atoms, index as int, i + 1);
                    }
                    self.nodes.set(i, atom);
                    assert(self@.nodes =~= atoms.update(i as int, atom@));
                    return Ok(());
                }
                count += 1;
            }
            proof {
                lemma_value_place_bound(atoms.take(i + 1), index as int);
            }
            i += 1;
        }
        assert(atoms.take(i as int) =~= atoms);
        Err(Error::new(ErrorKind::Sexp, "the node has no such value"))
    }
}

} // verus!
