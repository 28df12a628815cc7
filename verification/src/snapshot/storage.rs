use vstd::prelude::*;

use crate::scanner::types::{DirNode, Entry};
use crate::ui::comparison::resolve_path;

verus! {

/// What the snapshot list shows of a saved snapshot.
#[derive(Debug, Clone)]
pub struct SnapshotMeta {
    pub id: i64,
    pub name: String,
    pub created_at: String,
    pub root_path: String,
    pub total_size: u64,
    pub total_files: u64,
}

/// A directory of a snapshot as it is stored: its path, its parent's path
/// (none for the root), and the child indices that lead to it from the root.
#[derive(Debug)]
pub struct NodeRow {
    pub path: String,
    pub parent_path: Option<String>,
    pub nav: Vec<usize>,
}

pub open spec fn opt_view(o: Option<String>) -> Option<Seq<char>> {
    match o {
        Some(p) => Some(p@),
        None => None,
    }
}

/// A stored row as plain values.
pub open spec fn row_view(r: NodeRow) -> (Seq<char>, Option<Seq<char>>, Seq<usize>) {
    (r.path@, opt_view(r.parent_path), r.nav@)
}

/// The rows of the directory `d`, reached by `nav` under a parent of path
/// `parent`: its own row, then the rows of its subdirectories in order.
pub open spec fn dir_rows(d: DirNode, parent: Option<Seq<char>>, nav: Seq<usize>) -> Seq<
    (Seq<char>, Option<Seq<char>>, Seq<usize>),
>
    decreases d, 1int,
{
    seq![(d.path@, parent, nav)] + children_rows(d, d.children@.len() as int, nav)
}

/// The rows of the subdirectories among the first `hi` children of `d`.
pub open spec fn children_rows(d: DirNode, hi: int, nav: Seq<usize>) -> Seq<
    (Seq<char>, Option<Seq<char>>, Seq<usize>),
>
    decreases d, 0int, hi,
{
    if hi <= 0 || hi > d.children@.len() {
        Seq::empty()
    } else {
        let before = children_rows(d, hi - 1, nav);
        match d.children@[hi - 1] {
            Entry::Dir(c) => before + dir_rows(c, Some(d.path@), nav.push((hi - 1) as usize)),
            _ => before,
        }
    }
}

fn push_rows(d: &DirNode, parent: Option<String>, nav: Vec<usize>, out: &mut Vec<NodeRow>)
    ensures
        final(out)@.map_values(|r: NodeRow| row_view(r)) == old(out)@.map_values(
            |r: NodeRow| row_view(r),
        ) + dir_rows(
            *d,
            match parent {
                Some(p) => Some(p@),
                None => None,
            },
            nav@,
        ),
    decreases *d, 1int,
{
    let ghost start = old(out)@.map_values(|r: NodeRow| row_view(r));
    let ghost pv = opt_view(parent);
    let ghost nav0 = nav@;
    let mut nav_copy: Vec<usize> = Vec::new();
    let mut k: usize = 0;
    while k < nav.len()
        invariant
            k <= nav@.len(),
            nav_copy@ == nav@.take(k as int),
        decreases nav@.len() - k,
    {
        nav_copy.push(nav[k]);
        k = k + 1;
    }
    proof {
        assert(nav_copy@ =~= nav@);
    }
    out.push(NodeRow { path: d.path.clone(), parent_path: parent, nav: nav_copy });
    proof {
        assert(out@.map_values(|r: NodeRow| row_view(r)) =~= start + seq![(d.path@, pv, nav0)]);
    }
    let n = d.children.len();
    let mut i: usize = 0;
    proof {
        assert(children_rows(*d, 0, nav0) =~= Seq::empty());
    }
    while i < n
        invariant
            n == d.children@.len(),
            i <= n,
            nav@ == nav0,
            out@.map_values(|r: NodeRow| row_view(r)) =~= start + seq![(d.path@, pv, nav0)]
                + children_rows(*d, i as int, nav0),
        decreases n - i,
    {
        let ghost before = out@.map_values(|r: NodeRow| row_view(r));
        match &d.children[i] {
            Entry::Dir(c) => {
                let mut child_nav: Vec<usize> = Vec::new();
                let mut k: usize = 0;
                while k < nav.len()
                    invariant
                        k <= nav@.len(),
                        child_nav@ == nav@.take(k as int),
                    decreases nav@.len() - k,
                {
                    child_nav.push(nav[k]);
                    k = k + 1;
                }
                child_nav.push(i);
                proof {
                    assert(child_nav@ =~= nav0.push(i));
                    assert(decreases_to!(*d => d.children));
                    assert(decreases_to!(d.children => d.children@));
                }
                push_rows(c, Some(d.path.clone()), child_nav, out);
                proof {
                    assert(out@.map_values(|r: NodeRow| row_view(r)) =~= start + seq![(d.path@, pv, nav0)]
                        + children_rows(*d, i + 1, nav0));
                }
            },
            _ => {
                proof {
                    assert(children_rows(*d, i + 1, nav0) == children_rows(*d, i as int, nav0));
                }
            },
        }
        i = i + 1;
    }
    proof {
        assert(dir_rows(*d, pv, nav0) =~= seq![(d.path@, pv, nav0)] + children_rows(*d, n as int, nav0));
    }
}

/// The rows a snapshot of `root` is stored as: every directory of the tree,
/// the root first with no parent, each directory before its subdirectories.
pub fn snapshot_rows(root: &DirNode) -> (r: Vec<NodeRow>)
    ensures
        r@.map_values(|row: NodeRow| row_view(row)) == dir_rows(*root, None, Seq::empty()),
{
    let mut out: Vec<NodeRow> = Vec::new();
    proof {
        assert(out@.map_values(|row: NodeRow| row_view(row)) =~= Seq::empty());
    }
    push_rows(root, None, Vec::new(), &mut out);
    proof {
        assert(Seq::<(Seq<char>, Option<Seq<char>>, Seq<usize>)>::empty() + dir_rows(
            *root,
            None,
            Seq::empty(),
        ) =~= dir_rows(*root, None, Seq::empty()));
    }
    out
}

pub open spec fn snapshot_name_prefix() -> Seq<char> {
    "快照 "@
}

/// The default name of a snapshot taken at the time `stamp` (the local
/// date and time written as `%Y-%m-%d %H:%M`).
pub fn snapshot_name_at(stamp: &str) -> (r: String)
    ensures
        r@ == snapshot_name_prefix() + stamp@,
{
    let mut r = String::from_str("快照 ");
    r.append(stamp);
    r
}

} // verus!
