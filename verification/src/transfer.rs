//! Where a path inside a container lies on the host.
//!
//! A container has volumes, each mounted at a path of the container and kept
//! in a directory of its own under the work directory of the host. A path
//! of the container belongs to the volume with the longest mount path that
//! leads to it.

use vstd::prelude::*;
use vstd::string::*;

verus! {

/// A volume of a container.
pub struct ContainerVolume {
    /// The name of the volume's directory under the work directory.
    pub name: String,
    /// The path of the container at which the volume is mounted.
    pub path: String,
}

/// Asks for the volumes of a container to be made known.
pub struct AddVolumes(pub Vec<ContainerVolume>);

impl AddVolumes {
    pub fn new(vols: Vec<ContainerVolume>) -> (r: Self)
        ensures
            r.0 == vols,
    {
        AddVolumes(vols)
    }
}

/// Why a path of the container could not be resolved.
#[derive(Clone, Copy, PartialEq, Eq, Structural, Debug)]
pub enum ResolveError {
    /// No volume is mounted on the way to the path.
    NotFound,
    /// The path has a second separator right behind the mount path.
    InvalidPathFormat,
}

/// The mount path `base` leads to `path`: it is a prefix of `path` that ends
/// where `path` ends or where a separator follows.
pub open spec fn leads_to(base: Seq<char>, path: Seq<char>) -> bool {
    &&& base.len() <= path.len()
    &&& path.subrange(0, base.len() as int) == base
    &&& (path.len() == base.len() || path[base.len() as int] == '/')
}

/// How far the mount path `base` takes one towards `path`: one more than
/// its length where it leads there, nothing where it does not.
pub open spec fn reach(base: Seq<char>, path: Seq<char>) -> int {
    if leads_to(base, path) {
        base.len() as int + 1
    } else {
        0
    }
}

/// The volume at `i` is the one that `path` belongs to: it leads to `path`,
/// no volume reaches further, and none behind it reaches as far.
pub open spec fn owns(vols: Seq<ContainerVolume>, path: Seq<char>, i: int) -> bool {
    &&& 0 <= i < vols.len()
    &&& reach(vols[i].path@, path) > 0
    &&& forall|j: int| 0 <= j < vols.len() ==> reach(#[trigger] vols[j].path@, path) <= reach(
        vols[i].path@,
        path,
    )
    &&& forall|j: int| i < j < vols.len() ==> reach(#[trigger] vols[j].path@, path) < reach(
        vols[i].path@,
        path,
    )
}

/// No volume leads to `path`.
pub open spec fn unowned(vols: Seq<ContainerVolume>, path: Seq<char>) -> bool {
    forall|j: int| 0 <= j < vols.len() ==> reach(#[trigger] vols[j].path@, path) == 0
}

/// The path `rel` under the directory `base`, with `/` as the separator: a
/// path from the root stands for itself, and a separator is put between the
/// two unless `base` is empty or ends in one.
pub open spec fn joined(base: Seq<char>, rel: Seq<char>) -> Seq<char> {
    if rel.len() > 0 && rel[0] == '/' {
        rel
    } else if base.len() == 0 || base.last() == '/' {
        base + rel
    } else {
        base + seq!['/'] + rel
    }
}

/// What `path` resolves to in the volume `vol`: the volume's directory for
/// the mount path itself, else the rest of the path under that directory;
/// a rest that begins with a separator is refused.
pub open spec fn resolved_in(work_dir: Seq<char>, vol: ContainerVolume, path: Seq<char>) -> Result<
    Seq<char>,
    ResolveError,
> {
    let vol_base = joined(work_dir, vol.name@);
    if vol.path@ == path {
        Ok(vol_base)
    } else {
        let rest = path.subrange(vol.path@.len() as int + 1, path.len() as int);
        if rest.len() > 0 && rest[0] == '/' {
            Err(ResolveError::InvalidPathFormat)
        } else {
            Ok(joined(vol_base, rest))
        }
    }
}

/// A path belongs to one volume at most: what it resolves to does not
/// depend on a choice.
pub proof fn law_path_has_one_owner(vols: Seq<ContainerVolume>, path: Seq<char>, i: int, j: int)
    requires
        owns(vols, path, i),
        owns(vols, path, j),
    ensures
        i == j,
{
    if i < j {
        assert(reach(vols[j].path@, path) < reach(vols[i].path@, path));
        assert(reach(vols[i].path@, path) <= reach(vols[j].path@, path));
    } else if j < i {
        assert(reach(vols[i].path@, path) < reach(vols[j].path@, path));
        assert(reach(vols[j].path@, path) <= reach(vols[i].path@, path));
    }
}

/// Whether `prefix` stands in `text` from the position `from` on.
fn stands_at(text: &str, from: usize, prefix: &str) -> (r: bool)
    requires
        from <= text@.len(),
    ensures
        r == (from + prefix@.len() <= text@.len() && text@.subrange(
            from as int,
            from + prefix@.len(),
        ) == prefix@),
{
    let n = prefix.unicode_len();
    let m = text.unicode_len();
    if n > m - from {
        return false;
    }
    let mut i: usize = 0;
    while i < n
        invariant
            i <= n,
            n == prefix@.len(),
            m == text@.len(),
            from + n <= m,
            forall|k: int| 0 <= k < i ==> text@[from + k] == prefix@[k],
        decreases n - i,
    {
        if text.get_char(from + i) != prefix.get_char(i) {
            assert(text@.subrange(from as int, from + n)[i as int] != prefix@[i as int]);
            return false;
        }
        i += 1;
    }
    assert(text@.subrange(from as int, from + n) =~= prefix@);
    true
}

/// The length of `base` if it leads to `path`.
fn is_prefix_of(base: &str, path: &str) -> (r: Option<usize>)
    ensures
        match r {
            Some(n) => leads_to(base@, path@) && n == base@.len(),
            None => !leads_to(base@, path@),
        },
{
    if !stands_at(path, 0, base) {
        return None;
    }
    let n = base.unicode_len();
    let m = path.unicode_len();
    if n == m || path.get_char(n) == '/' {
        Some(n)
    } else {
        None
    }
}

/// The path `rel` under the directory `base`.
pub fn join(base: &str, rel: &str) -> (r: String)
    ensures
        r@ == joined(base@, rel@),
{
    let n = base.unicode_len();
    if rel.unicode_len() > 0 && rel.get_char(0) == '/' {
        rel.to_owned()
    } else if n == 0 || base.get_char(n - 1) == '/' {
        let mut r = base.to_owned();
        r.append(rel);
        r
    } else {
        let mut r = base.to_owned();
        proof {
            reveal_strlit("/");
        }
        r.append("/");
        assert("/"@ =~= seq!['/']);
        r.append(rel);
        r
    }
}

/// Resolves the paths of a container to paths of the host.
pub struct ContainerTransferProvider {
    work_dir: String,
    vols: Vec<ContainerVolume>,
}

impl ContainerTransferProvider {
    /// The work directory of the host.
    pub closed spec fn work_dir(&self) -> Seq<char> {
        self.work_dir@
    }

    /// The volumes of the container, in the order in which they were given.
    pub closed spec fn volumes(&self) -> Seq<ContainerVolume> {
        self.vols@
    }

    /// A resolver for the volumes `vols`, kept under `work_dir`.
    pub fn new(work_dir: String, vols: Vec<ContainerVolume>) -> (r: Self)
        ensures
            r.work_dir() == work_dir@,
            r.volumes() == vols@,
    {
        ContainerTransferProvider { work_dir, vols }
    }

    /// The index of the volume that `container_path` belongs to.
    fn owner(&self, container_path: &str) -> (r: Option<usize>)
        ensures
            match r {
                Some(i) => owns(self.vols@, container_path@, i as int),
                None => unowned(self.vols@, container_path@),
            },
    {
        let mut best: Option<usize> = None;
        let mut best_len: usize = 0;
        let mut i: usize = 0;
        while i < self.vols.len()
            invariant
                i <= self.vols.len(),
                match best {
                    Some(b) => {
                        &&& owns(self.vols@.take(i as int), container_path@, b as int)
                        &&& best_len == self.vols@[b as int].path@.len()
                    },
                    None => unowned(self.vols@.take(i as int), container_path@),
                },
            decreases self.vols.len() - i,
        {
            let ghost seen = self.vols@.take(i as int);
            let ghost next = self.vols@.take(i + 1);
            proof {
                assert forall|j: int| 0 <= j < i implies next[j] == seen[j] by {}
                assert(next[i as int] == self.vols@[i as int]);
            }
            match is_prefix_of(self.vols[i].path.as_str(), container_path) {
                Some(n) => {
                    let better = match best {
                        Some(_) => n >= best_len,
                        None => true,
                    };
                    if better {
                        proof {
                            assert forall|j: int| 0 <= j < next.len() implies reach(
                                #[trigger] next[j].path@,
                                container_path@,
                            ) <= reach(next[i as int].path@, container_path@) by {
                                if j < i {
                                    assert(next[j] == seen[j]);
                                    match best {
                                        Some(b) => {
                                            assert(reach(seen[j].path@, container_path@) <= reach(
                                                seen[b as int].path@,
                                                container_path@,
                                            ));
                                        },
                                        None => {
                                            assert(reach(seen[j].path@, container_path@) == 0);
                                        },
                                    }
                                }
                            }
                        }
                        best = Some(i);
                        best_len = n;
                    } else {
                        proof {
                            let b = best->0 as int;
                            assert(next[b] == seen[b]);
                            assert forall|j: int| 0 <= j < next.len() implies reach(
                                #[trigger] next[j].path@,
                                container_path@,
                            ) <= reach(next[b].path@, container_path@) by {
                                if j < i {
                                    assert(next[j] == seen[j]);
                                    assert(reach(seen[j].path@, container_path@) <= reach(
                                        seen[b].path@,
                                        container_path@,
                                    ));
                                }
                            }
                            assert forall|j: int| b < j < next.len() implies reach(
                                #[trigger] next[j].path@,
                                container_path@,
                            ) < reach(next[b].path@, container_path@) by {
                                if j < i {
                                    assert(next[j] == seen[j]);
                                    assert(reach(seen[j].path@, container_path@) < reach(
                                        seen[b].path@,
                                        container_path@,
                                    ));
                                }
                            }
                        }
                    }
                },
                None => {
                    proof {
                        match best {
                            Some(b) => {
                                let b = b as int;
                                assert(next[b] == seen[b]);
                                assert forall|j: int| 0 <= j < next.len() implies reach(
                                    #[trigger] next[j].path@,
                                    container_path@,
                                ) <= reach(next[b].path@, container_path@) by {
                                    if j < i {
                                        assert(next[j] == seen[j]);
                                        assert(reach(seen[j].path@, container_path@) <= reach(
                                            seen[b].path@,
                                            container_path@,
                                        ));
                                    }
                                }
                                assert forall|j: int| b < j < next.len() implies reach(
                                    #[trigger] next[j].path@,
                                    container_path@,
                                ) < reach(next[b].path@, container_path@) by {
                                    if j < i {
                                        assert(next[j] == seen[j]);
                                        assert(reach(seen[j].path@, container_path@) < reach(
                                            seen[b].path@,
                                            container_path@,
                                        ));
                                    }
                                }
                            },
                            None => {
                                assert forall|j: int| 0 <= j < next.len() implies reach(
                                    #[trigger] next[j].path@,
                                    container_path@,
                                ) == 0 by {
                                    if j < i {
                                        assert(next[j] == seen[j]);
                                        assert(reach(seen[j].path@, container_path@) == 0);
                                    }
                                }
                            },
                        }
                    }
                },
            }
            i += 1;
        }
        assert(self.vols@.take(i as int) =~= self.vols@);
        best
    }

    /// The path of the host at which `container_path` lies: in the directory
    /// of the volume that the path belongs to. A path that no volume leads
    /// to is not found.
    pub fn resolve_path(&self, container_path: &str) -> (r: Result<String, ResolveError>)
        ensures
            match r {
                Ok(p) => exists|i: int|
                    owns(self.volumes(), container_path@, i) && resolved_in(
                        self.work_dir(),
                        self.volumes()[i],
                        container_path@,
                    ) == Ok::<Seq<char>, ResolveError>(p@),
                Err(ResolveError::NotFound) => unowned(self.volumes(), container_path@),
                Err(ResolveError::InvalidPathFormat) => exists|i: int|
                    owns(self.volumes(), container_path@, i) && resolved_in(
                        self.work_dir(),
                        self.volumes()[i],
                        container_path@,
                    ) == Err::<Seq<char>, ResolveError>(ResolveError::InvalidPathFormat),
            },
    {
        match self.owner(container_path) {
            None => Err(ResolveError::NotFound),
            Some(i) => {
                let c = &self.vols[i];
                let vol_base = join(self.work_dir.as_str(), c.name.as_str());
                let ghost want = resolved_in(self.work_dir(), self.volumes()[i as int], container_path@);
                assert(owns(self.volumes(), container_path@, i as int));
                if crate::keyed::same_text(c.path.as_str(), container_path) {
                    assert(want == Ok::<Seq<char>, ResolveError>(vol_base@));
                    return Ok(vol_base);
                }
                let n = c.path.as_str().unicode_len();
                let m = container_path.unicode_len();
                assert(n < m) by {
                    if n == m {
                        assert(container_path@.subrange(0, n as int) =~= container_path@);
                    }
                }
                let rest = container_path.substring_char(n + 1, m);
                if rest.unicode_len() > 0 && rest.get_char(0) == '/' {
                    assert(want == Err::<Seq<char>, ResolveError>(ResolveError::InvalidPathFormat));
                    return Err(ResolveError::InvalidPathFormat);
                }
                let r = join(vol_base.as_str(), rest);
                assert(want == Ok::<Seq<char>, ResolveError>(r@));
                Ok(r)
            },
        }
    }
}

} // verus!
