//! The category/file browser: a flat list of nodes (category headers, files,
//! empty markers) projected from the notes directory, with a selection that
//! only ever rests on file nodes when any exist.
use vstd::prelude::*;

verus! {

#[derive(Debug, Clone, Copy, PartialEq, Eq, Structural)]
pub enum TreeNodeKind {
    Category,
    File,
    Empty,
}

/// One row of the browser.
#[derive(Debug, Clone)]
pub struct TreeNode {
    pub label: String,
    pub kind: TreeNodeKind,
    pub path: Option<String>,
    pub category_index: Option<usize>,
}

/// The browser: its rows, the selected row, and whether it has input focus.
#[derive(Debug)]
pub struct FileTree {
    pub nodes: Vec<TreeNode>,
    pub selected: usize,
    pub focus: bool,
}

/// The next probed row in a wrapping walk.
pub open spec fn probe(len: int, idx: int, dir: int) -> int {
    if dir < 0 {
        if idx == 0 {
            len - 1
        } else {
            idx - 1
        }
    } else {
        if idx + 1 >= len {
            0
        } else {
            idx + 1
        }
    }
}

/// The row a wrapping walk of at most `fuel` probes from `idx` lands on: the
/// first file row it meets, or -1 when the fuel runs out.
pub open spec fn scan_file(nodes: Seq<TreeNode>, idx: int, dir: int, fuel: nat) -> int
    decreases fuel,
{
    if fuel == 0 {
        -1
    } else {
        let j = probe(nodes.len() as int, idx, dir);
        if nodes[j].kind is File {
            j
        } else {
            scan_file(nodes, j, dir, (fuel - 1) as nat)
        }
    }
}

/// The path of the selected row, if any.
pub open spec fn sel_path(t: FileTree) -> Option<String> {
    if (t.selected as int) < t.nodes@.len() {
        t.nodes@[t.selected as int].path
    } else {
        None
    }
}

/// The category index of the selected row, if any.
pub open spec fn sel_cat(t: FileTree) -> Option<usize> {
    if (t.selected as int) < t.nodes@.len() {
        t.nodes@[t.selected as int].category_index
    } else {
        None
    }
}

impl FileTree {
    /// The selection stays inside the rows.
    pub open spec fn wf(&self) -> bool {
        self.nodes@.len() == 0 && self.selected == 0 || (self.selected as int)
            < self.nodes@.len()
    }

    pub fn new() -> (r: FileTree)
        ensures
            r.wf(),
            r.nodes@.len() == 0,
            r.selected == 0,
            r.focus == false,
    {
        FileTree { nodes: Vec::new(), selected: 0, focus: false }
    }

    /// The path of the selected row, if it is a file.
    pub fn selected_path(&self) -> (r: Option<String>)
        ensures
            r == sel_path(*self),
    {
        if self.selected < self.nodes.len() {
            match &self.nodes[self.selected].path {
                Some(p) => Some(p.clone()),
                None => None,
            }
        } else {
            None
        }
    }

    /// The category the selected row belongs to, if any.
    pub fn selected_category_index(&self) -> (r: Option<usize>)
        ensures
            r == sel_cat(*self),
    {
        if self.selected < self.nodes.len() {
            self.nodes[self.selected].category_index
        } else {
            None
        }
    }

    /// Select the first file row, or row 0 when no file exists.
    pub fn select_first_file(&mut self)
        ensures
            final (self).nodes == old(self).nodes,
            final (self).focus == old(self).focus,
            (exists|i: int|
                0 <= i < old(self).nodes@.len() && (#[trigger] old(self).nodes@[i].kind)
                    is File) ==> {
                &&& (final (self).selected as int) < old(self).nodes@.len()
                &&& old(self).nodes@[final (self).selected as int].kind is File
                &&& forall|i: int|
                    0 <= i < final (self).selected ==> !((#[trigger] old(self).nodes@[i].kind)
                        is File)
            },
            !(exists|i: int|
                0 <= i < old(self).nodes@.len() && (#[trigger] old(self).nodes@[i].kind)
                    is File) ==> final (self).selected == 0,
            final (self).wf(),
    {
        let n = self.nodes.len();
        let mut i: usize = 0;
        while i < n
            invariant
                n == self.nodes@.len(),
                i <= n,
                *self == *old(self),
                forall|j: int| 0 <= j < i ==> !((#[trigger] self.nodes@[j].kind) is File),
            decreases n - i,
        {
            if matches!(self.nodes[i].kind, TreeNodeKind::File) {
                self.selected = i;
                return ;
            }
            i += 1;
        }
        self.selected = 0;
    }

    /// Move the selection to the previous or next file row, wrapping around;
    /// unchanged when no file row is reachable.
    pub fn move_selection(&mut self, direction: isize)
        requires
            old(self).wf(),
        ensures
            final (self).wf(),
            final (self).nodes == old(self).nodes,
            final (self).focus == old(self).focus,
            old(self).nodes@.len() == 0 ==> final (self).selected == old(self).selected,
            old(self).nodes@.len() > 0 ==> ({
                let found = scan_file(
                    old(self).nodes@,
                    old(self).selected as int,
                    direction as int,
                    old(self).nodes@.len() as nat,
                );
                if found >= 0 {
                    final (self).selected as int == found
                } else {
                    final (self).selected == old(self).selected
                }
            }),
    {
        let len = self.nodes.len();
        if len == 0 {
            return ;
        }
        let ghost nodes0 = self.nodes@;
        let ghost sel0 = self.selected as int;
        let ghost dir = direction as int;
        let mut idx = self.selected;
        let mut steps: usize = 0;
        while steps < len
            invariant
                *self == *old(self),
                len == nodes0.len(),
                nodes0 == self.nodes@,
                self.selected as int == sel0,
                dir == direction as int,
                0 <= idx < len,
                steps <= len,
                scan_file(nodes0, sel0, dir, len as nat) == scan_file(
                    nodes0,
                    idx as int,
                    dir,
                    (len - steps) as nat,
                ),
            decreases len - steps,
        {
            let ghost idx0 = idx as int;
            idx = if direction < 0 {
                if idx == 0 {
                    len - 1
                } else {
                    idx - 1
                }
            } else {
                if idx + 1 >= len {
                    0
                } else {
                    idx + 1
                }
            };
            proof {
                assert(idx as int == probe(len as int, idx0, dir));
            }
            if matches!(self.nodes[idx].kind, TreeNodeKind::File) {
                self.selected = idx;
                return ;
            }
            steps += 1;
        }
    }
}

} // verus!
