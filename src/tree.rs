//! The archive drawn as a tree, one line per directory or file.
use vstd::prelude::*;
use crate::plan::names_view;
use crate::repo::Repo;

verus! {

pub open spec fn branch(last: bool) -> Seq<char> {
    if last {
        "└──"@
    } else {
        "├──"@
    }
}

pub open spec fn indent(last: bool) -> Seq<char> {
    if last {
        "    "@
    } else {
        "│   "@
    }
}

/// The lines that draw `r` below `prefix`; `last` tells whether it is the last
/// of its siblings. A directory's name is drawn in blue.
pub open spec fn tree_lines(r: Repo, prefix: Seq<char>, last: bool) -> Seq<Seq<char>>
    decreases r, 1int,
{
    match r {
        Repo::Directory { name, children, .. } => seq![
            prefix + branch(last) + " \x1b[34m"@ + name@ + "\x1b[0m"@,
        ] + children_lines(children@, prefix + indent(last), children@.len() as int),
        Repo::File { name, .. } => seq![prefix + branch(last) + " "@ + name@],
        Repo::Empty {  } => Seq::empty(),
    }
}

/// The lines of the nodes of `s`, the first of `total` siblings below `prefix`.
pub open spec fn children_lines(s: Seq<Repo>, prefix: Seq<char>, total: int) -> Seq<Seq<char>>
    decreases s, 0int,
{
    if s.len() == 0 {
        Seq::empty()
    } else {
        children_lines(s.drop_last(), prefix, total) + tree_lines(
            s.last(),
            prefix,
            s.len() - 1 == total - 1,
        )
    }
}

fn joined(prefix: &String, parts: &str) -> (r: String)
    ensures
        r@ == prefix@ + parts@,
{
    let mut r = prefix.clone();
    r.append(parts);
    r
}

impl Repo {
    /// Appends to `out` the lines that draw this node below `prefix`.
    pub fn tree_into(&self, prefix: &String, last: bool, out: &mut Vec<String>)
        ensures
            names_view(final(out)@) == names_view(old(out)@) + tree_lines(*self, prefix@, last),
        decreases self,
    {
        let ghost start = names_view(out@);
        let b = if last {
            "└──"
        } else {
            "├──"
        };
        match self {
            Repo::Directory { name, children, .. } => {
                let mut line = joined(prefix, b);
                line.append(" \x1b[34m");
                line.append(name.as_str());
                line.append("\x1b[0m");
                out.push(line);
                let inner = joined(
                    prefix,
                    if last {
                        "    "
                    } else {
                        "│   "
                    },
                );
                let ghost head = names_view(out@);
                assert(head =~= start + seq![
                    prefix@ + branch(last) + " \x1b[34m"@ + name@ + "\x1b[0m"@,
                ]);
                let count = children.len();
                let mut i: usize = 0;
                while i < count
                    invariant
                        self is Directory && self->Directory_children == *children,
                        count == children.len(),
                        inner@ == prefix@ + indent(last),
                        i <= count,
                        names_view(out@) == head + children_lines(
                            children@.take(i as int),
                            inner@,
                            count as int,
                        ),
                    decreases count - i,
                {
                    proof {
                        assert(decreases_to!(self => self->Directory_children));
                        assert(decreases_to!(self->Directory_children => self->Directory_children@));
                        assert(decreases_to!(self->Directory_children@ => children@[i as int]));
                    }
                    children[i].tree_into(&inner, i == count - 1, out);
                    proof {
                        let t = children@.take(i + 1);
                        assert(t.drop_last() =~= children@.take(i as int));
                        assert(t.last() == children@[i as int]);
                    }
                    i = i + 1;
                }
                assert(children@.take(count as int) =~= children@);
                assert(names_view(out@) =~= start + tree_lines(*self, prefix@, last));
            },
            Repo::File { name, .. } => {
                let mut line = joined(prefix, b);
                line.append(" ");
                line.append(name.as_str());
                out.push(line);
                assert(names_view(out@) =~= start + tree_lines(*self, prefix@, last));
            },
            Repo::Empty {  } => {
                assert(names_view(out@) =~= start + tree_lines(*self, prefix@, last));
            },
        }
    }

    /// The lines that draw this archive below `prefix`, for printing.
    pub fn display_tree(&self, prefix: &str, last: bool) -> (r: Vec<String>)
        ensures
            names_view(r@) == tree_lines(*self, prefix@, last),
    {
        let mut out: Vec<String> = Vec::new();
        let p = prefix.to_string();
        self.tree_into(&p, last, &mut out);
        assert(names_view(out@) =~= tree_lines(*self, prefix@, last));
        out
    }
}

} // verus!
