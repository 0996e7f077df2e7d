//! A repository: a directory of packages, and the index from container
//! identities to the package files in it.

use crate::container::{Container, ContainerId};
use crate::error::{Error, ErrorSpec, IoKind};
use crate::path::{extension, join, path_extension, path_join};
use crate::text::{
    bytes_before_is_strict, bytes_before_is_transitive, comes_before, same_text, text_before,
    text_order_is_total,
};
use vstd::prelude::*;
use vstd::string::*;

verus! {

/// One package of a repository: the container it holds and the file it is.
#[derive(Clone, Debug, PartialEq, Eq)]
pub struct Package {
    pub container: Container,
    pub path: String,
}

/// The position of the first package of `id` in `packages`, if there is one.
pub open spec fn position(packages: Seq<Package>, id: ContainerId) -> Option<int>
    decreases packages.len(),
{
    if packages.len() == 0 {
        None
    } else {
        match position(packages.drop_last(), id) {
            Some(i) => Some(i),
            None => if packages.last().container@ == id {
                Some(packages.len() - 1)
            } else {
                None
            },
        }
    }
}

/// Whether no two of `packages` hold the same container.
pub open spec fn distinct(packages: Seq<Package>) -> bool {
    forall|i: int, j: int|
        0 <= i < j < packages.len() ==> (#[trigger] packages[i]).container@ != (
        #[trigger] packages[j]).container@
}

/// The index that `packages` stand for: from each container to the path of
/// its first package.
pub open spec fn index_of(packages: Seq<Package>) -> Map<ContainerId, Seq<char>> {
    Map::new(
        |id: ContainerId| position(packages, id) is Some,
        |id: ContainerId| packages[position(packages, id)->Some_0].path@,
    )
}

/// What [`position`] finds is the first package of the container, and where
/// it finds none there is none.
pub proof fn position_is_first(packages: Seq<Package>, id: ContainerId)
    ensures
        match position(packages, id) {
            Some(i) => {
                &&& 0 <= i < packages.len()
                &&& packages[i].container@ == id
                &&& forall|j: int| 0 <= j < i ==> (#[trigger] packages[j]).container@ != id
            },
            None => forall|j: int|
                0 <= j < packages.len() ==> (#[trigger] packages[j]).container@ != id,
        },
    decreases packages.len(),
{
    if packages.len() > 0 {
        position_is_first(packages.drop_last(), id);
        assert(forall|j: int|
            0 <= j < packages.len() - 1 ==> packages.drop_last()[j] == packages[j]);
    }
}

/// A repository.
#[derive(Debug, PartialEq, Eq)]
pub struct Repository {
    id: String,
    dir: String,
    key: Option<String>,
    packages: Vec<Package>,
}

impl View for Repository {
    type V = Map<ContainerId, Seq<char>>;

    /// The index: from each container of the repository to its package file.
    closed spec fn view(&self) -> Map<ContainerId, Seq<char>> {
        index_of(self.packages@)
    }
}

impl Repository {
    /// The rule that every repository keeps: no container is indexed twice.
    #[verifier::type_invariant]
    pub closed spec fn wf(&self) -> bool {
        distinct(self.packages@)
    }

    /// The name of the repository.
    pub closed spec fn name(&self) -> Seq<char> {
        self.id@
    }

    /// The directory of the repository.
    pub closed spec fn directory(&self) -> Seq<char> {
        self.dir@
    }

    /// The path of the key that packages are verified against, if any.
    pub closed spec fn key_path(&self) -> Option<Seq<char>> {
        match self.key {
            Some(k) => Some(k@),
            None => None,
        }
    }

    /// Where the package of the container `id` lies in the repository:
    /// `dir/name-version.npk`.
    pub open spec fn package_path(&self, id: ContainerId) -> Seq<char> {
        path_join(self.directory(), id.package_file())
    }

    /// The name of the repository.
    pub fn id(&self) -> (id: &String)
        ensures
            id@ == self.name(),
    {
        &self.id
    }

    /// The directory of the repository.
    pub fn dir(&self) -> (dir: &String)
        ensures
            dir@ == self.directory(),
    {
        &self.dir
    }

    /// The path of the key that packages are verified against, if any.
    pub fn key(&self) -> (key: &Option<String>)
        ensures
            match key {
                Some(k) => self.key_path() == Some(k@),
                None => self.key_path() is None,
            },
    {
        &self.key
    }

    /// The number of containers in the repository.
    pub fn len(&self) -> (n: usize)
        ensures
            n == self@.dom().len(),
            self@.dom().finite(),
    {
        proof {
            use_type_invariant(self);
            index_has_as_many(self.packages@);
        }
        self.packages.len()
    }

    /// The package file of `container`, if the repository holds the
    /// container.
    pub fn get(&self, container: &Container) -> (path: Option<&String>)
        ensures
            match path {
                Some(p) => self@.contains_key(container@) && self@[container@] == p@,
                None => !self@.contains_key(container@),
            },
    {
        match find(&self.packages, container) {
            Some(i) => Some(&self.packages[i].path),
            None => None,
        }
    }

    /// Whether the repository holds `container`.
    pub fn contains(&self, container: &Container) -> (r: bool)
        ensures
            r == self@.contains_key(container@),
    {
        find(&self.packages, container).is_some()
    }

    /// Where the package of `container` lies, or would lie, in the
    /// repository: `dir/name-version.npk`.
    pub fn destination(&self, container: &Container) -> (path: String)
        ensures
            path@ == self.package_path(container@),
    {
        let file = container.package_file();
        join(self.dir.as_str(), file.as_str())
    }
}

/// An index of distinct packages has as many containers as packages.
pub proof fn index_has_as_many(packages: Seq<Package>)
    requires
        distinct(packages),
    ensures
        index_of(packages).dom().finite(),
        index_of(packages).dom().len() == packages.len(),
    decreases packages.len(),
{
    if packages.len() == 0 {
        assert(index_of(packages).dom() =~= Set::<ContainerId>::empty());
    } else {
        let front = packages.drop_last();
        let last = packages.last().container@;
        assert(distinct(front)) by {
            assert forall|i: int, j: int| 0 <= i < j < front.len() implies (
            #[trigger] front[i]).container@ != (#[trigger] front[j]).container@ by {
                assert(front[i] == packages[i]);
                assert(front[j] == packages[j]);
            }
        }
        index_has_as_many(front);
        position_is_first(front, last);
        assert(position(front, last) is None) by {
            if position(front, last) is Some {
                let i = position(front, last)->Some_0;
                assert(front[i] == packages[i]);
                assert(packages[i].container@ != packages[packages.len() - 1].container@);
            }
        }
        assert(index_of(packages).dom() =~= index_of(front).dom().insert(last));
    }
}

/// Among distinct packages, [`position`] finds a container wherever it is.
pub proof fn position_finds(packages: Seq<Package>, j: int)
    requires
        distinct(packages),
        0 <= j < packages.len(),
    ensures
        position(packages, packages[j].container@) == Some(j),
{
    position_is_first(packages, packages[j].container@);
}

/// Adding the package of a container that is not indexed yet adds the
/// container to the index and changes nothing else.
pub proof fn index_after_push(packages: Seq<Package>, package: Package)
    requires
        distinct(packages),
        position(packages, package.container@) is None,
    ensures
        distinct(packages.push(package)),
        index_of(packages.push(package)) == index_of(packages).insert(
            package.container@,
            package.path@,
        ),
{
    let after = packages.push(package);
    position_is_first(packages, package.container@);
    assert(after.drop_last() =~= packages);
    assert forall|id: ContainerId|
        index_of(after).dom().contains(id) <==> index_of(packages).insert(
            package.container@,
            package.path@,
        ).dom().contains(id) by {
        position_is_first(packages, id);
    }
    assert forall|id: ContainerId| #[trigger] index_of(after).dom().contains(id) implies index_of(
        after,
    )[id] == index_of(packages).insert(package.container@, package.path@)[id] by {
        position_is_first(packages, id);
    }
    assert(index_of(after) =~= index_of(packages).insert(package.container@, package.path@));
}

/// Taking a package away takes its container out of the index and changes
/// nothing else.
pub proof fn index_after_remove(packages: Seq<Package>, i: int)
    requires
        distinct(packages),
        0 <= i < packages.len(),
    ensures
        distinct(packages.remove(i)),
        index_of(packages.remove(i)) == index_of(packages).remove(packages[i].container@),
{
    let after = packages.remove(i);
    let gone = packages[i].container@;
    assert forall|a: int, b: int| 0 <= a < b < after.len() implies (
    #[trigger] after[a]).container@ != (#[trigger] after[b]).container@ by {
        let a0 = if a < i {
            a
        } else {
            a + 1
        };
        let b0 = if b < i {
            b
        } else {
            b + 1
        };
        assert(after[a] == packages[a0]);
        assert(after[b] == packages[b0]);
    }
    assert forall|id: ContainerId|
        index_of(after).dom().contains(id) <==> index_of(packages).remove(gone).dom().contains(
            id,
        ) by {
        position_is_first(packages, id);
        position_is_first(after, id);
        if position(after, id) is Some {
            let j = position(after, id)->Some_0;
            let j0 = if j < i {
                j
            } else {
                j + 1
            };
            assert(after[j] == packages[j0]);
            assert(packages[j0].container@ == id);
            if id == gone {
                assert(packages[j0].container@ != packages[i].container@);
            }
        }
        if position(packages, id) is Some && id != gone {
            let j0 = position(packages, id)->Some_0;
            let j = if j0 < i {
                j0
            } else {
                j0 - 1
            };
            assert(after[j] == packages[j0]);
        }
    }
    assert forall|id: ContainerId| #[trigger] index_of(after).dom().contains(id) implies index_of(
        after,
    )[id] == index_of(packages).remove(gone)[id] by {
        position_is_first(after, id);
        let j = position(after, id)->Some_0;
        let j0 = if j < i {
            j
        } else {
            j + 1
        };
        assert(after[j] == packages[j0]);
        position_finds(packages, j0);
    }
    assert(index_of(after) =~= index_of(packages).remove(gone));
}

/// The position of the package of `container` in `packages`, if there is
/// one.
fn find(packages: &Vec<Package>, container: &Container) -> (found: Option<usize>)
    ensures
        match found {
            Some(i) => position(packages@, container@) == Some(i as int) && i < packages@.len(),
            None => position(packages@, container@) is None,
        },
{
    let mut i: usize = 0;
    while i < packages.len()
        invariant
            i <= packages.len(),
            position(packages@.take(i as int), container@) is None,
        decreases packages.len() - i,
    {
        proof {
            assert(packages@.take(i + 1).drop_last() =~= packages@.take(i as int));
            position_is_first(packages@, container@);
            position_is_first(packages@.take(i as int), container@);
        }
        if packages[i].container.same(container) {
            proof {
                assert forall|j: int| 0 <= j < i implies (#[trigger] packages@[j]).container@
                    != container@ by {
                    assert(packages@.take(i as int)[j] == packages@[j]);
                }
            }
            return Some(i);
        }
        i += 1;
    }
    proof {
        assert(packages@.take(i as int) =~= packages@);
    }
    None
}

/// Puts `container` with the package file `path` among `packages`, in place
/// of the package that was there for the container.
fn put(packages: &mut Vec<Package>, container: Container, path: String)
    requires
        distinct(old(packages)@),
    ensures
        distinct(final(packages)@),
        index_of(final(packages)@) == index_of(old(packages)@).insert(container@, path@),
{
    let found = find(packages, &container);
    let ghost before = packages@;
    match found {
        Some(i) => {
            proof {
                position_is_first(before, container@);
                index_after_remove(before, i as int);
                position_is_first(before.remove(i as int), container@);
                assert(position(before.remove(i as int), container@) is None) by {
                    if position(before.remove(i as int), container@) is Some {
                        assert(index_of(before.remove(i as int)).dom().contains(container@));
                    }
                }
            }
            packages.remove(i);
        },
        None => {},
    }
    let ghost middle = packages@;
    let package = Package { container, path };
    proof {
        index_after_push(middle, package);
        assert(index_of(middle).insert(container@, path@) =~= index_of(before).insert(
            container@,
            path@,
        ));
    }
    packages.push(package);
}

/// How the attempt went to bring a package file into a repository.
#[derive(Clone, Debug, PartialEq, Eq)]
pub enum Attempt {
    /// A file lies at the destination already; nothing was copied.
    Exists,
    /// The file could not be copied to the destination.
    CopyFailed(IoKind),
    /// The file was copied, but it is no package that can be loaded, for the
    /// reason given.
    Unreadable(String),
    /// The file was copied and loaded; its manifest declares this container.
    Loaded(Container),
}

/// What came of adding a package to a repository.
#[derive(Debug, PartialEq, Eq)]
pub struct Added {
    /// Whether the package is in the repository now.
    pub result: Result<(), Error>,
    /// The file that has to be removed again, if any.
    pub remove: Option<String>,
}

/// The mathematical content of [`Added`], together with the index that the
/// repository has afterwards.
pub struct AddedSpec {
    pub index: Map<ContainerId, Seq<char>>,
    pub result: Result<(), ErrorSpec>,
    pub remove: Option<Seq<char>>,
}

/// What adding the package of `container` to a repository with the index
/// `index` comes to, where the package goes to `destination` and the attempt
/// went as `attempt` says.
///
/// Only a package that was copied and loaded enters the index, under the
/// container that its manifest declares. Every failure leaves the index as
/// it was; a file that was copied but cannot be loaded is removed again.
pub open spec fn added(
    index: Map<ContainerId, Seq<char>>,
    container: ContainerId,
    destination: Seq<char>,
    attempt: Attempt,
) -> AddedSpec {
    match attempt {
        Attempt::Exists => AddedSpec {
            index,
            result: Err(ErrorSpec::InstallDuplicate(container)),
            remove: None,
        },
        Attempt::CopyFailed(kind) => AddedSpec {
            index,
            result: Err(ErrorSpec::Io("Failed to copy npk to repository"@, kind)),
            remove: None,
        },
        Attempt::Unreadable(reason) => AddedSpec {
            index,
            result: Err(ErrorSpec::Npk(destination, reason@)),
            remove: Some(destination),
        },
        Attempt::Loaded(actual) => AddedSpec {
            index: index.insert(actual@, destination),
            result: Ok(()),
            remove: None,
        },
    }
}

/// Whether `r` holds what `expected` says.
pub open spec fn is_added(r: Added, expected: AddedSpec) -> bool {
    &&& match expected.result {
        Ok(_) => r.result is Ok,
        Err(e) => r.result matches Err(x) && x@ == e,
    }
    &&& match expected.remove {
        Some(p) => r.remove matches Some(x) && x@ == p,
        None => r.remove is None,
    }
}

impl Repository {
    /// Takes a package into the repository. The package file of
    /// `container` belongs at [`Repository::destination`]; `attempt` says how
    /// bringing it there went.
    pub fn add(&mut self, container: &Container, attempt: Attempt) -> (r: Added)
        ensures
            final(self).name() == old(self).name(),
            final(self).directory() == old(self).directory(),
            final(self).key_path() == old(self).key_path(),
            final(self)@ == added(
                old(self)@,
                container@,
                old(self).package_path(container@),
                attempt,
            ).index,
            is_added(
                r,
                added(old(self)@, container@, old(self).package_path(container@), attempt),
            ),
    {
        match attempt {
            Attempt::Exists => Added {
                result: Err(Error::InstallDuplicate(container.clone())),
                remove: None,
            },
            Attempt::CopyFailed(kind) => Added {
                result: Err(Error::Io(String::from_str("Failed to copy npk to repository"), kind)),
                remove: None,
            },
            Attempt::Unreadable(reason) => {
                let dest = self.destination(container);
                Added { result: Err(Error::Npk(dest.clone(), reason)), remove: Some(dest) }
            },
            Attempt::Loaded(actual) => {
                proof {
                    use_type_invariant(&*self);
                }
                let dest = self.destination(container);
                let mut packages: Vec<Package> = Vec::new();
                core::mem::swap(&mut packages, &mut self.packages);
                put(&mut packages, actual, dest);
                self.packages = packages;
                Added { result: Ok(()), remove: None }
            },
        }
    }

    /// Takes a container out of the repository and hands back its package
    /// file, which has to be deleted. Fails, and changes nothing, where the
    /// repository does not hold the container.
    pub fn remove(&mut self, container: &Container) -> (r: Result<String, Error>)
        ensures
            final(self).name() == old(self).name(),
            final(self).directory() == old(self).directory(),
            final(self).key_path() == old(self).key_path(),
            match r {
                Ok(path) => {
                    &&& old(self)@.contains_key(container@)
                    &&& path@ == old(self)@[container@]
                    &&& final(self)@ == old(self)@.remove(container@)
                },
                Err(e) => {
                    &&& !old(self)@.contains_key(container@)
                    &&& e@ == ErrorSpec::InvalidContainer(container@)
                    &&& final(self)@ == old(self)@
                },
            },
    {
        proof {
            use_type_invariant(&*self);
        }
        match find(&self.packages, container) {
            Some(i) => {
                let mut packages: Vec<Package> = Vec::new();
                core::mem::swap(&mut packages, &mut self.packages);
                proof {
                    position_is_first(packages@, container@);
                    index_after_remove(packages@, i as int);
                }
                let package = packages.remove(i);
                self.packages = packages;
                Ok(package.path)
            },
            None => Err(Error::InvalidContainer(container.clone())),
        }
    }
}

/// Whether `path` names a package file: its extension is `npk`.
pub open spec fn is_package_file(path: Seq<char>) -> bool {
    path_extension(path) == Some("npk"@)
}

/// Decides from what `std::path::Path::extension` gave for a path whether
/// the path names a package file.
pub fn names_package(ext: &Option<String>) -> (r: bool)
    ensures
        r == (ext matches Some(e) && e@ == "npk"@),
{
    match ext {
        Some(e) => same_text(e.as_str(), "npk"),
        None => false,
    }
}

/// Whether `path` names a package file.
pub fn has_package_extension(path: &str) -> (r: bool)
    ensures
        r == is_package_file(path@),
{
    let ext = extension(path);
    names_package(&ext)
}

/// Those of `paths` that name package files, in their order.
pub open spec fn package_files_of(paths: Seq<Seq<char>>) -> Seq<Seq<char>> {
    paths.filter(|p: Seq<char>| is_package_file(p))
}

/// Picks from the entries of a directory those that name package files.
pub fn package_files(entries: &Vec<String>) -> (files: Vec<String>)
    ensures
        files.deep_view() == package_files_of(entries.deep_view()),
{
    let ghost all = entries.deep_view();
    let ghost pred = |p: Seq<char>| is_package_file(p);
    let mut files: Vec<String> = Vec::new();
    let mut i: usize = 0;
    proof {
        assert(all.take(0) =~= Seq::<Seq<char>>::empty());
        assert(files.deep_view() =~= Seq::<Seq<char>>::empty());
        reveal_with_fuel(Seq::filter, 1);
    }
    while i < entries.len()
        invariant
            i <= entries.len(),
            all == entries.deep_view(),
            pred == |p: Seq<char>| is_package_file(p),
            files.deep_view() == all.take(i as int).filter(pred),
        decreases entries.len() - i,
    {
        proof {
            assert(all.take(i + 1).drop_last() =~= all.take(i as int));
            assert(all.take(i + 1).last() == entries@[i as int]@);
            reveal_with_fuel(Seq::filter, 2);
        }
        let ghost before = files.deep_view();
        if has_package_extension(entries[i].as_str()) {
            files.push(entries[i].clone());
            proof {
                assert(files.deep_view() =~= before.push(entries@[i as int]@));
            }
        }
        i += 1;
    }
    proof {
        assert(all.take(i as int) =~= all);
    }
    files
}

/// Whether `index` is the index of the packages `loaded`: it holds exactly
/// the containers of `loaded`, each with the path of one of its packages,
/// and where several packages hold one container, with the path that comes
/// first in the order of file names.
pub open spec fn is_index_of_scan(index: Map<ContainerId, Seq<char>>, loaded: Seq<Package>) -> bool {
    &&& forall|i: int|
        0 <= i < loaded.len() ==> index.contains_key((#[trigger] loaded[i]).container@)
    &&& forall|c: ContainerId| #[trigger]
        index.contains_key(c) ==> exists|i: int|
            0 <= i < loaded.len() && (#[trigger] loaded[i]).container@ == c && loaded[i].path@
                == index[c]
    &&& forall|i: int|
        0 <= i < loaded.len() ==> !text_before(
            (#[trigger] loaded[i]).path@,
            index[loaded[i].container@],
        )
}

/// The packages that were loaded decide the index: whatever the order in
/// which they were read, and however often one of them was read, the same
/// packages give the same index.
pub proof fn scan_decides_the_index(
    one: Map<ContainerId, Seq<char>>,
    other: Map<ContainerId, Seq<char>>,
    first: Seq<Package>,
    second: Seq<Package>,
)
    requires
        is_index_of_scan(one, first),
        is_index_of_scan(other, second),
        forall|i: int| 0 <= i < first.len() ==> second.contains(#[trigger] first[i]),
        forall|i: int| 0 <= i < second.len() ==> first.contains(#[trigger] second[i]),
    ensures
        one == other,
{
    assert forall|c: ContainerId| one.contains_key(c) <==> other.contains_key(c) by {
        if one.contains_key(c) {
            let i = choose|i: int|
                0 <= i < first.len() && (#[trigger] first[i]).container@ == c && first[i].path@
                    == one[c];
            assert(second.contains(first[i]));
            let j = choose|j: int| 0 <= j < second.len() && second[j] == first[i];
            assert(other.contains_key(second[j].container@));
        }
        if other.contains_key(c) {
            let i = choose|i: int|
                0 <= i < second.len() && (#[trigger] second[i]).container@ == c && second[i].path@
                    == other[c];
            assert(first.contains(second[i]));
            let j = choose|j: int| 0 <= j < first.len() && first[j] == second[i];
            assert(one.contains_key(first[j].container@));
        }
    }
    assert forall|c: ContainerId| #[trigger] one.contains_key(c) implies one[c] == other[c] by {
        let i = choose|i: int|
            0 <= i < first.len() && (#[trigger] first[i]).container@ == c && first[i].path@
                == one[c];
        assert(second.contains(first[i]));
        let i2 = choose|j: int| 0 <= j < second.len() && second[j] == first[i];
        assert(!text_before(second[i2].path@, other[second[i2].container@]));
        let k = choose|k: int|
            0 <= k < second.len() && (#[trigger] second[k]).container@ == c && second[k].path@
                == other[c];
        assert(first.contains(second[k]));
        let k2 = choose|j: int| 0 <= j < first.len() && first[j] == second[k];
        assert(!text_before(first[k2].path@, one[first[k2].container@]));
        text_order_is_total(one[c], other[c], one[c]);
    }
    assert(one =~= other);
}

impl Repository {
    /// The repository named `id` for the directory `dir`, with the packages
    /// that were loaded from it. `key` is the path of the key that they were
    /// verified against, if any.
    ///
    /// Where several packages hold the same container, the one that comes
    /// first in the order of file names is indexed, whatever the order in
    /// which the directory was read.
    pub fn new(id: String, dir: String, key: Option<String>, loaded: Vec<Package>) -> (r:
        Repository)
        ensures
            r.name() == id@,
            r.directory() == dir@,
            r.key_path() == match key {
                Some(k) => Some(k@),
                None => None,
            },
            is_index_of_scan(r@, loaded@),
    {
        let mut packages: Vec<Package> = Vec::new();
        let mut k: usize = 0;
        proof {
            assert(index_of(packages@).dom() =~= Set::<ContainerId>::empty());
        }
        while k < loaded.len()
            invariant
                k <= loaded.len(),
                distinct(packages@),
                is_index_of_scan(index_of(packages@), loaded@.take(k as int)),
            decreases loaded.len() - k,
        {
            let ghost seen = loaded@.take(k as int);
            let ghost next = loaded@.take(k + 1);
            let ghost old_index = index_of(packages@);
            let entry = &loaded[k];
            proof {
                assert(next.drop_last() =~= seen);
                assert(next.last() == *entry);
                assert forall|i: int| 0 <= i < seen.len() implies #[trigger] next[i] == seen[i] by {}
                position_is_first(packages@, entry.container@);
                bytes_before_is_strict(vstd::utf8::encode_utf8(entry.path@));
            }
            let replace = match find(&packages, &entry.container) {
                Some(i) => comes_before(entry.path.as_str(), packages[i].path.as_str()),
                None => true,
            };
            if replace {
                put(&mut packages, entry.container.clone(), entry.path.clone());
                proof {
                    let new_index = index_of(packages@);
                    assert forall|i: int| 0 <= i < next.len() implies new_index.contains_key(
                        (#[trigger] next[i]).container@,
                    ) by {
                        if i < seen.len() {
                            assert(old_index.contains_key(seen[i].container@));
                        }
                    }
                    assert forall|c: ContainerId| #[trigger]
                        new_index.contains_key(c) implies exists|i: int|
                        0 <= i < next.len() && (#[trigger] next[i]).container@ == c
                            && next[i].path@ == new_index[c] by {
                        if c == entry.container@ {
                            assert(next[k as int].container@ == c);
                        } else {
                            assert(old_index.contains_key(c));
                            let i = choose|i: int|
                                0 <= i < seen.len() && (#[trigger] seen[i]).container@ == c
                                    && seen[i].path@ == old_index[c];
                            assert(next[i].container@ == c);
                        }
                    }
                    assert forall|i: int| 0 <= i < next.len() implies !text_before(
                        (#[trigger] next[i]).path@,
                        new_index[next[i].container@],
                    ) by {
                        if i < seen.len() {
                            assert(!text_before(seen[i].path@, old_index[seen[i].container@]));
                            if seen[i].container@ == entry.container@ && text_before(
                                seen[i].path@,
                                entry.path@,
                            ) {
                                bytes_before_is_transitive(
                                    vstd::utf8::encode_utf8(seen[i].path@),
                                    vstd::utf8::encode_utf8(entry.path@),
                                    vstd::utf8::encode_utf8(old_index[entry.container@]),
                                );
                            }
                        }
                    }
                }
            } else {
                proof {
                    assert forall|i: int| 0 <= i < next.len() implies old_index.contains_key(
                        (#[trigger] next[i]).container@,
                    ) by {
                        if i < seen.len() {
                            assert(old_index.contains_key(seen[i].container@));
                        }
                    }
                    assert forall|c: ContainerId| #[trigger]
                        old_index.contains_key(c) implies exists|i: int|
                        0 <= i < next.len() && (#[trigger] next[i]).container@ == c
                            && next[i].path@ == old_index[c] by {
                        let i = choose|i: int|
                            0 <= i < seen.len() && (#[trigger] seen[i]).container@ == c
                                && seen[i].path@ == old_index[c];
                        assert(next[i].container@ == c);
                    }
                    assert forall|i: int| 0 <= i < next.len() implies !text_before(
                        (#[trigger] next[i]).path@,
                        old_index[next[i].container@],
                    ) by {
                        if i < seen.len() {
                            assert(!text_before(seen[i].path@, old_index[seen[i].container@]));
                        }
                    }
                }
            }
            k += 1;
        }
        proof {
            assert(loaded@.take(k as int) =~= loaded@);
        }
        Repository { id, dir, key, packages }
    }
}

} // verus!
