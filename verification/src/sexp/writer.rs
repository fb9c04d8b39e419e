//! Writing a document as text.

use super::builder::{tokens, Builder};
use super::parser::Token;
use super::{Atom, Sexp, SexpAtom, SexpTree, Tree};
use vstd::prelude::*;
use vstd::string::StringExecFns;

verus! {

/// Adds a `uuid` node with the identifier as text, if there is one.
pub fn write_uuid(builder: &mut Builder, uuid: &Option<String>)
    ensures
        tokens(final(builder).nodes@) == (match *uuid {
            Some(u) => tokens(old(builder).nodes@) + seq![
                Token::StartSymbol("uuid"@),
                Token::Text(u@),
                Token::EndSymbol,
            ],
            None => tokens(old(builder).nodes@),
        }),
{
    if let Some(uuid) = uuid {
        builder.push("uuid");
        builder.text(uuid.as_str());
        builder.end();
        assert(tokens(builder.nodes@) =~= tokens(old(builder).nodes@) + seq![
            Token::StartSymbol("uuid"@),
            Token::Text(uuid@),
            Token::EndSymbol,
        ]);
    }
}

/// The character `c` behind as many tabs as make the width.
pub open spec fn padded(c: char, width: usize) -> Seq<char> {
    Seq::new(
        if width >= 1 {
            (width - 1) as nat
        } else {
            0nat
        },
        |i: int| '\t',
    ).push(c)
}

/// The next level of indentation.
pub open spec fn deeper(indent: usize) -> usize {
    if indent < usize::MAX {
        (indent + 1) as usize
    } else {
        indent
    }
}

/// Whether one of the elements is a child node.
pub open spec fn has_child(nodes: Seq<Atom>) -> bool {
    exists|i: int| 0 <= i < nodes.len() && #[trigger] nodes[i] is Node
}

/// The text of the elements of a node: a child node on a line of its own,
/// one level deeper; a value behind a blank; a text behind a blank and
/// between quotes.
pub open spec fn render_atoms(nodes: Seq<Atom>, indent: usize) -> Seq<char>
    decreases nodes,
{
    if nodes.len() == 0 {
        Seq::empty()
    } else {
        render_atoms(nodes.drop_last(), indent) + (match nodes.last() {
            Atom::Node(t) => render(t, deeper(indent)),
            Atom::Value(v) => seq![' '] + v,
            Atom::Text(t) => seq![' ', '"'] + t + seq!['"'],
        })
    }
}

/// The text of a node at a level of indentation: a line break, the opening
/// bracket behind tabs, the name, the elements, and the closing bracket,
/// which stands on a line of its own if the node has child nodes.
pub open spec fn render(tree: Tree, indent: usize) -> Seq<char>
    decreases tree,
{
    seq!['\n'] + padded('(', indent) + tree.name + render_atoms(tree.nodes, indent) + (if has_child(
        tree.nodes,
    ) {
        seq!['\n'] + padded(')', indent)
    } else {
        seq![')']
    })
}

/// The text of a document: the outermost node opens the first line and is
/// closed on the last; its child nodes are indented by one tab.
pub open spec fn render_document(tree: Tree) -> Seq<char> {
    seq!['('] + tree.name + render_atoms(tree.nodes, 1) + seq!['\n', ')']
}

/// Appends `c` behind as many tabs as make the width.
fn write_padded(out: &mut String, c: char, width: usize)
    ensures
        final(out)@ == old(out)@ + padded(c, width),
{
    let n: usize = if width >= 1 {
        width - 1
    } else {
        0
    };
    let mut i: usize = 0;
    while i < n
        invariant
            i <= n,
            out@ == old(out)@ + Seq::new(i as nat, |k: int| '\t'),
        decreases n - i,
    {
        out.push('\t');
        assert(out@ =~= old(out)@ + Seq::new((i + 1) as nat, |k: int| '\t'));
        i += 1;
    }
    out.push(c);
    assert(out@ =~= old(out)@ + padded(c, width));
}

impl Sexp {
    /// Appends the text of the node at a level of indentation, and says
    /// whether the node has child nodes.
    pub fn write(&self, indent: usize, out: &mut String) -> (has_childs: bool)
        ensures
            final(out)@ == old(out)@ + render(self@, indent),
            has_childs == has_child(self@.nodes),
        decreases self,
    {
        let mut has_childs = false;
        out.push('\n');
        write_padded(out, '(', indent);
        out.append(self.name.as_str());
        let ghost head = old(out)@ + seq!['\n'] + padded('(', indent) + self@.name;
        let ghost atoms = self@.nodes;
        assert(out@ =~= head);
        let mut i: usize = 0;
        assert(atoms.take(0) =~= Seq::<Atom>::empty());
        assert(out@ =~= head + render_atoms(atoms.take(0), indent));
        while i < self.nodes.len()
            invariant
                i <= self.nodes.len(),
                atoms == self@.nodes,
                atoms.len() == self.nodes@.len(),
                out@ == head + render_atoms(atoms.take(i as int), indent),
                has_childs == has_child(atoms.take(i as int)),
            decreases self.nodes.len() - i,
        {
            let ghost before = atoms.take(i as int);
            let ghost now = atoms.take(i + 1);
            assert(now.drop_last() =~= before);
            assert(now.last() == atoms[i as int]);
            assert(atoms[i as int] == self.nodes@[i as int]@);
            proof {
                if has_child(before) {
                    let k = choose|k: int| 0 <= k < before.len() && #[trigger] before[k] is Node;
                    assert(now[k] is Node);
                }
                if has_child(now) && !(now.last() is Node) {
                    let k = choose|k: int| 0 <= k < now.len() && #[trigger] now[k] is Node;
                    assert(before[k] is Node);
                }
                if now.last() is Node {
                    assert(now[i as int] is Node);
                }
            }
            let ghost so_far = out@;
            match &self.nodes[i] {
                SexpAtom::Node(node) => {
                    has_childs = true;
                    let deeper: usize = if indent < usize::MAX {
                        indent + 1
                    } else {
                        indent
                    };
                    node.write(deeper, out);
                },
                SexpAtom::Value(value) => {
                    out.push(' ');
                    out.append(value.as_str());
                    assert(out@ =~= so_far + (seq![' '] + value@));
                },
                SexpAtom::Text(text) => {
                    out.push(' ');
                    out.push('"');
                    out.append(text.as_str());
                    out.push('"');
                    assert(out@ =~= so_far + (seq![' ', '"'] + text@ + seq!['"']));
                },
            }
            assert(out@ =~= head + render_atoms(now, indent));
            i += 1;
        }
        assert(atoms.take(i as int) =~= atoms);
        let ghost body = out@;
        if has_childs {
            out.push('\n');
            write_padded(out, ')', indent);
            assert(out@ =~= body + (seq!['\n'] + padded(')', indent)));
        } else {
            out.push(')');
            assert(out@ =~= body + seq![')']);
        }
        assert(out@ =~= old(out)@ + render(self@, indent));
        has_childs
    }
}

impl SexpTree {
    /// Appends the text of the document.
    pub fn write(&self, out: &mut String)
        ensures
            final(out)@ == old(out)@ + render_document(self.tree@),
    {
        let node = &self.tree;
        out.push('(');
        out.append(node.name.as_str());
        let ghost head = old(out)@ + seq!['('] + node@.name;
        let ghost atoms = node@.nodes;
        assert(out@ =~= head);
        let mut i: usize = 0;
        assert(atoms.take(0) =~= Seq::<Atom>::empty());
        assert(out@ =~= head + render_atoms(atoms.take(0), 1));
        while i < node.nodes.len()
            invariant
                i <= node.nodes.len(),
                atoms == node@.nodes,
                atoms.len() == node.nodes@.len(),
                out@ == head + render_atoms(atoms.take(i as int), 1),
            decreases node.nodes.len() - i,
        {
            let ghost now = atoms.take(i + 1);
            assert(now.drop_last() =~= atoms.take(i as int));
            assert(now.last() == atoms[i as int]);
            assert(atoms[i as int] == node.nodes@[i as int]@);
            let ghost so_far = out@;
            match &node.nodes[i] {
                SexpAtom::Node(child) => {
                    child.write(2, out);
                },
                SexpAtom::Value(value) => {
                    out.push(' ');
                    out.append(value.as_str());
                    assert(out@ =~= so_far + (seq![' '] + value@));
                },
                SexpAtom::Text(text) => {
                    out.push(' ');
                    out.push('"');
                    out.append(text.as_str());
                    out.push('"');
                    assert(out@ =~= so_far + (seq![' ', '"'] + text@ + seq!['"']));
                },
            }
            assert(out@ =~= head + render_atoms(now, 1));
            i += 1;
        }
        assert(atoms.take(i as int) =~= atoms);
        let ghost body = out@;
        out.push('\n');
        out.push(')');
        assert(out@ =~= body + seq!['\n', ')']);
        assert(out@ =~= old(out)@ + render_document(self.tree@));
    }
}

} // verus!
