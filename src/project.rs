//! The decisions behind project browsing: which entries a project tree keeps, and how the
//! registry of projects changes.

use vstd::prelude::*;
use vstd::string::*;
use crate::types::{FileNode, Project};

verus! {

/// Directory entries that a project tree leaves out.
pub open spec fn is_ignored(name: Seq<char>) -> bool {
    name == "node_modules"@ || name == "target"@ || name == "build"@ || name == "dist"@
        || name == ".git"@
}

/// A file name whose extension is `java`: it ends in `.java` after a non-empty stem.
pub open spec fn is_java_name(name: Seq<char>) -> bool {
    name.len() > 5 && name.subrange(name.len() - 5, name.len() as int) == seq!['.', 'j', 'a', 'v', 'a']
}

/// The children that a folder node keeps: those that were built and are not ignored.
pub open spec fn kept_children(cs: Seq<Option<FileNode>>) -> Seq<FileNode>
    decreases cs.len(),
{
    if cs.len() == 0 {
        Seq::empty()
    } else {
        let rest = kept_children(cs.drop_last());
        match cs.last() {
            Some(n) => if is_ignored(n.name@) {
                rest
            } else {
                rest.push(n)
            },
            None => rest,
        }
    }
}

/// Whether a directory entry of this name is left out of a project tree.
pub fn is_ignored_entry(name: &String) -> (r: bool)
    ensures
        r == is_ignored(name@),
{
    *name == String::from_str("node_modules") || *name == String::from_str("target")
        || *name == String::from_str("build") || *name == String::from_str("dist")
        || *name == String::from_str(".git")
}

/// Whether a file name has the extension `java`.
pub fn is_java_file(name: &String) -> (r: bool)
    ensures
        r == is_java_name(name@),
{
    let s = name.as_str();
    let n = s.unicode_len();
    if n <= 5 {
        return false;
    }
    let ok = s.get_char(n - 5) == '.' && s.get_char(n - 4) == 'j' && s.get_char(n - 3) == 'a'
        && s.get_char(n - 2) == 'v' && s.get_char(n - 1) == 'a';
    assert(ok ==> name@.subrange(n - 5, n as int) =~= seq!['.', 'j', 'a', 'v', 'a']);
    assert(name@.subrange(n - 5, n as int) == seq!['.', 'j', 'a', 'v', 'a'] ==> ok) by {
        if name@.subrange(n - 5, n as int) == seq!['.', 'j', 'a', 'v', 'a'] {
            assert(name@.subrange(n - 5, n as int)[0] == name@[n - 5]);
            assert(name@.subrange(n - 5, n as int)[1] == name@[n - 4]);
            assert(name@.subrange(n - 5, n as int)[2] == name@[n - 3]);
            assert(name@.subrange(n - 5, n as int)[3] == name@[n - 2]);
            assert(name@.subrange(n - 5, n as int)[4] == name@[n - 1]);
        }
    }
    ok
}

/// The node of a project tree for one entry, given the nodes built for its entries if it is a
/// folder: a `.java` file is kept, another file is not; a folder is kept with its kept
/// children if it has any.
pub fn read_structure_from_path(
    path: String,
    name: String,
    is_dir: bool,
    children: Vec<Option<FileNode>>,
) -> (r: Option<FileNode>)
    ensures
        r is Some <==> (if is_dir {
            kept_children(children@).len() > 0
        } else {
            is_java_name(name@)
        }),
        r is Some ==> r->Some_0.name == name && r->Some_0.path == path && r->Some_0.kind@ == (
        if is_dir {
            "folder"@
        } else {
            "file"@
        }) && r->Some_0.children@ == (if is_dir {
            kept_children(children@)
        } else {
            Seq::empty()
        }),
{
    if !is_dir {
        if is_java_file(&name) {
            return Some(FileNode { name, path, kind: String::from_str("file"), children: Vec::new() });
        }
        return None;
    }
    let ghost cs = children@;
    let mut kept: Vec<FileNode> = Vec::new();
    let n = children.len();
    let mut rest = children;
    assert(kept@ =~= kept_children(cs.take(0)));
    let mut i: usize = 0;
    while rest.len() > 0
        invariant
            i + rest@.len() == cs.len(),
            cs.len() == n,
            rest@ == cs.subrange(i as int, cs.len() as int),
            kept@ == kept_children(cs.take(i as int)),
        decreases rest@.len(),
    {
        let ghost before = rest@;
        let next = rest.remove(0);
        assert(next == cs[i as int]);
        proof { crate::types::lemma_take_step(cs, i as int); }
        match next {
            Some(n) => {
                if !is_ignored_entry(&n.name) {
                    kept.push(n);
                }
            },
            None => {},
        }
        i += 1;
    }
    assert(cs.take(i as int) =~= cs);
    if kept.len() == 0 {
        return None;
    }
    Some(FileNode { name, path, kind: String::from_str("folder"), children: kept })
}

/// Adds a project unless one with the same path is registered; tells whether it was added.
pub fn add_new_project(config: &mut Vec<Project>, project: Project) -> (added: bool)
    ensures
        added == !(exists|k: int| 0 <= k < old(config)@.len() && #[trigger] old(config)@[k].path@ == project.path@),
        added ==> final(config)@ == old(config)@.push(project),
        !added ==> final(config)@ == old(config)@,
{
    let mut k: usize = 0;
    while k < config.len()
        invariant
            0 <= k <= config.len(),
            config@ == old(config)@,
            forall|j: int| 0 <= j < k ==> #[trigger] config@[j].path@ != project.path@,
        decreases config.len() - k,
    {
        if config[k].path == project.path {
            return false;
        }
        k += 1;
    }
    config.push(project);
    true
}

/// Stamps every project with this id as opened at `now`; returns the path of the first one.
pub fn open_project(config: &mut Vec<Project>, id: u16, now: u128) -> (r: Option<String>)
    ensures
        final(config)@.len() == old(config)@.len(),
        forall|k: int| 0 <= k < old(config)@.len() ==> {
            let (p, q) = (#[trigger] old(config)@[k], final(config)@[k]);
            q.id == p.id && q.name == p.name && q.path == p.path && q.last_opened == (if p.id == id {
                now
            } else {
                p.last_opened
            })
        },
        r is None <==> (forall|k: int| 0 <= k < old(config)@.len() ==> #[trigger] old(config)@[k].id != id),
        r is Some ==> exists|k: int| 0 <= k < old(config)@.len() && #[trigger] old(config)@[k].id == id
            && r->Some_0 == old(config)@[k].path && (forall|j: int| 0 <= j < k ==> old(config)@[j].id != id),
{
    let mut found: Option<String> = None;
    let mut k: usize = 0;
    while k < config.len()
        invariant
            0 <= k <= config.len(),
            config@.len() == old(config)@.len(),
            forall|j: int| k <= j < config@.len() ==> #[trigger] config@[j] == old(config)@[j],
            forall|j: int| 0 <= j < k ==> {
                let (p, q) = (#[trigger] old(config)@[j], config@[j]);
                q.id == p.id && q.name == p.name && q.path == p.path && q.last_opened == (if p.id
                    == id {
                    now
                } else {
                    p.last_opened
                })
            },
            found is None <==> (forall|j: int| 0 <= j < k ==> #[trigger] old(config)@[j].id != id),
            found is Some ==> exists|m: int| 0 <= m < k && #[trigger] old(config)@[m].id == id
                && found->Some_0 == old(config)@[m].path && (forall|j: int| 0 <= j < m ==> old(config)@[j].id != id),
        decreases config.len() - k,
    {
        if config[k].id == id {
            if found.is_none() {
                found = Some(config[k].path.clone());
            }
            let p = Project {
                id: config[k].id,
                name: config[k].name.clone(),
                path: config[k].path.clone(),
                last_opened: now,
            };
            config.set(k, p);
        }
        k += 1;
    }
    found
}

} // verus!
