use vstd::prelude::*;

use crate::scanner::types::{DirNode, Entry};
use crate::ui::comparison::{lemma_resolve_none_extends, resolve_path};

verus! {

/// A button of the path bar: clicking it goes back to `depth`.
#[derive(Debug, Clone)]
pub struct Crumb {
    pub depth: usize,
    pub name: String,
}

/// The buttons for the navigation `nav` from position `i` on, below the
/// directory `cur`: one for each index that names a subdirectory, at the
/// depth after it; an index that names none adds no button and does not move.
pub open spec fn crumbs_from(cur: DirNode, nav: Seq<usize>, i: int) -> Seq<(int, Seq<char>)>
    decreases nav.len() - i,
{
    if i >= nav.len() || i < 0 {
        Seq::empty()
    } else if nav[i] < cur.children@.len() && cur.children@[nav[i] as int] is Dir {
        let d = cur.children@[nav[i] as int]->Dir_0;
        seq![(i + 1, d.name@)] + crumbs_from(d, nav, i + 1)
    } else {
        crumbs_from(cur, nav, i + 1)
    }
}

/// The path bar: the root at depth 0, then the crumbs of the navigation.
pub open spec fn breadcrumb(root: DirNode, nav: Seq<usize>) -> Seq<(int, Seq<char>)> {
    seq![(0int, root.name@)] + crumbs_from(root, nav, 0)
}

pub open spec fn crumb_view(c: Crumb) -> (int, Seq<char>) {
    (c.depth as int, c.name@)
}

/// The buttons of the path bar for the navigation `nav_stack` under `root`.
pub fn breadcrumb_segments(root: &DirNode, nav_stack: &Vec<usize>) -> (r: Vec<Crumb>)
    ensures
        r@.map_values(|c: Crumb| crumb_view(c)) == breadcrumb(*root, nav_stack@),
        resolve_path(*root, nav_stack@) is Some ==> {
            &&& r@.len() == nav_stack@.len() + 1
            &&& forall|k: int|
                0 <= k <= nav_stack@.len() ==> #[trigger] r@[k].depth == k && r@[k].name@ == resolve_path(
                    *root,
                    nav_stack@.take(k),
                ).unwrap().name@
        },
{
    let mut out: Vec<Crumb> = Vec::new();
    out.push(Crumb { depth: 0, name: root.name.clone() });
    let mut current: &DirNode = root;
    let n = nav_stack.len();
    let mut i: usize = 0;
    proof {
        assert(out@.map_values(|c: Crumb| crumb_view(c)) + crumbs_from(*current, nav_stack@, 0)
            =~= breadcrumb(*root, nav_stack@));
    }
    while i < n
        invariant
            n == nav_stack@.len(),
            i <= n,
            out@.map_values(|c: Crumb| crumb_view(c)) + crumbs_from(*current, nav_stack@, i as int)
                == breadcrumb(*root, nav_stack@),
        decreases n - i,
    {
        let idx = nav_stack[i];
        let ghost before = out@.map_values(|c: Crumb| crumb_view(c));
        let ghost cur0 = *current;
        if idx < current.children.len() {
            match &current.children[idx] {
                Entry::Dir(d) => {
                    out.push(Crumb { depth: i + 1, name: d.name.clone() });
                    current = d;
                    proof {
                        assert(out@.map_values(|c: Crumb| crumb_view(c)) =~= before.push(
                            ((i + 1) as int, d.name@),
                        ));
                        assert(crumbs_from(cur0, nav_stack@, i as int) == seq![((i + 1) as int, d.name@)]
                            + crumbs_from(*d, nav_stack@, i + 1));
                        assert(before.push(((i + 1) as int, d.name@)) + crumbs_from(
                            *d,
                            nav_stack@,
                            i + 1,
                        ) =~= before + crumbs_from(cur0, nav_stack@, i as int));
                    }
                },
                _ => {},
            }
        }
        i = i + 1;
    }
    proof {
        assert(crumbs_from(*current, nav_stack@, n as int) =~= Seq::empty());
        assert(out@.map_values(|c: Crumb| crumb_view(c)) + crumbs_from(*current, nav_stack@, n as int)
            =~= out@.map_values(|c: Crumb| crumb_view(c)));
        if resolve_path(*root, nav_stack@) is Some {
            law_breadcrumb_names_each_level(*root, nav_stack@);
            let views = out@.map_values(|c: Crumb| crumb_view(c));
            assert forall|k: int| 0 <= k <= nav_stack@.len() implies #[trigger] out@[k].depth == k
                && out@[k].name@ == resolve_path(*root, nav_stack@.take(k)).unwrap().name@ by {
                assert(views[k] == crumb_view(out@[k]));
                assert(resolve_path(*root, nav_stack@.take(k)) is Some);
            }
        }
    }
    out
}

proof fn lemma_prefix_resolves(root: DirNode, nav: Seq<usize>, i: int)
    requires
        0 <= i <= nav.len(),
        resolve_path(root, nav) is Some,
    ensures
        resolve_path(root, nav.take(i)) is Some,
{
    if resolve_path(root, nav.take(i)) is None {
        lemma_resolve_none_extends(root, nav, i);
    }
}

proof fn lemma_crumbs_follow_path(root: DirNode, nav: Seq<usize>, i: int)
    requires
        0 <= i <= nav.len(),
        resolve_path(root, nav) is Some,
    ensures
        crumbs_from(resolve_path(root, nav.take(i)).unwrap(), nav, i).len() == nav.len() - i,
        forall|k: int|
            i < k <= nav.len() ==> #[trigger] resolve_path(root, nav.take(k)) is Some && crumbs_from(
                resolve_path(root, nav.take(i)).unwrap(),
                nav,
                i,
            )[k - i - 1] == (k, resolve_path(root, nav.take(k)).unwrap().name@),
    decreases nav.len() - i,
{
    lemma_prefix_resolves(root, nav, i);
    let cur = resolve_path(root, nav.take(i)).unwrap();
    if i < nav.len() {
        lemma_prefix_resolves(root, nav, i + 1);
        let t = nav.take(i + 1);
        assert(t.drop_last() =~= nav.take(i));
        assert(t.last() == nav[i]);
        let c = cur.children@[nav[i] as int]->Dir_0;
        assert(resolve_path(root, t) == Some(c));
        lemma_crumbs_follow_path(root, nav, i + 1);
        let rest = crumbs_from(c, nav, i + 1);
        assert(crumbs_from(cur, nav, i) == seq![(i + 1, c.name@)] + rest);
        assert forall|k: int| i < k <= nav.len() implies #[trigger] resolve_path(root, nav.take(k)) is Some
            && crumbs_from(cur, nav, i)[k - i - 1] == (k, resolve_path(root, nav.take(k)).unwrap().name@) by {
            if k > i + 1 {
                assert(crumbs_from(cur, nav, i)[k - i - 1] == rest[k - (i + 1) - 1]);
            }
        }
    }
}

/// Law: for a navigation that leads somewhere, the path bar has one button
/// per level, from the root down to the directory shown, and the button at
/// position `k` carries depth `k` and the name of the directory reached by
/// the first `k` steps, so clicking it shows that directory.
pub proof fn law_breadcrumb_names_each_level(root: DirNode, nav: Seq<usize>)
    requires
        resolve_path(root, nav) is Some,
    ensures
        breadcrumb(root, nav).len() == nav.len() + 1,
        forall|k: int|
            0 <= k <= nav.len() ==> #[trigger] resolve_path(root, nav.take(k)) is Some && breadcrumb(root, nav)[k]
                == (k, resolve_path(root, nav.take(k)).unwrap().name@),
{
    lemma_crumbs_follow_path(root, nav, 0);
    assert(nav.take(0) =~= Seq::<usize>::empty());
    assert(resolve_path(root, nav.take(0)) == Some(root));
    let b = breadcrumb(root, nav);
    let rest = crumbs_from(root, nav, 0);
    assert forall|k: int| 0 <= k <= nav.len() implies #[trigger] resolve_path(root, nav.take(k)) is Some
        && breadcrumb(root, nav)[k] == (k, resolve_path(root, nav.take(k)).unwrap().name@) by {
        if k > 0 {
            assert(b[k] == rest[k - 0 - 1]);
        } else {
            assert(b[0] == (0int, root.name@));
        }
    }
}

} // verus!
