//! Container identities: a name and a version.

use crate::text::same_text;
use crate::version::{semver_parse, Version, VersionError};
use vstd::prelude::*;
use vstd::string::*;

verus! {

/// The identity of a container: its name and its version.
#[derive(Debug, Hash, PartialEq, Eq)]
pub struct Container {
    name: String,
    version: Version,
}

/// The mathematical content of a [`Container`].
pub struct ContainerId {
    pub name: Seq<char>,
    pub version: Version,
}

/// Why a text is not a container identity.
#[derive(Clone, Copy, Debug, PartialEq, Eq, Structural)]
pub enum ContainerError {
    /// The text holds no `:` between name and version.
    MissingSeparator,
    /// The name is empty or holds a character that names cannot have.
    InvalidName,
    /// What follows the `:` is not a version.
    InvalidVersion(VersionError),
}

impl View for Container {
    type V = ContainerId;

    closed spec fn view(&self) -> ContainerId {
        ContainerId { name: self.name@, version: self.version }
    }
}

/// Whether `c` may stand in a container name: a lowercase letter, a digit,
/// `-` or `_`.
pub open spec fn is_name_char(c: char) -> bool {
    ||| 'a' <= c <= 'z'
    ||| '0' <= c <= '9'
    ||| c == '-'
    ||| c == '_'
}

/// Whether `name` is a container name: not empty, and made of name
/// characters only.
pub open spec fn is_valid_name(name: Seq<char>) -> bool {
    &&& name.len() > 0
    &&& forall|i: int| 0 <= i < name.len() ==> is_name_char(#[trigger] name[i])
}

/// Decides [`is_valid_name`].
pub fn valid_name(name: &str) -> (r: bool)
    ensures
        r == is_valid_name(name@),
{
    let n = name.unicode_len();
    if n == 0 {
        return false;
    }
    let mut i: usize = 0;
    while i < n
        invariant
            n == name@.len(),
            i <= n,
            forall|j: int| 0 <= j < i ==> is_name_char(#[trigger] name@[j]),
        decreases n - i,
    {
        let c = name.get_char(i);
        let ok = ('a' <= c && c <= 'z') || ('0' <= c && c <= '9') || c == '-' || c == '_';
        if !ok {
            return false;
        }
        i += 1;
    }
    true
}

impl ContainerId {
    /// The printable form `name:MAJOR.MINOR.PATCH`.
    pub open spec fn text(self) -> Seq<char> {
        self.name + seq![':'] + self.version.text()
    }

    /// The name of the package file of this container inside a repository
    /// directory: `name-MAJOR.MINOR.PATCH.npk`.
    pub open spec fn package_file(self) -> Seq<char> {
        self.name + seq!['-'] + self.version.text() + seq!['.', 'n', 'p', 'k']
    }
}

impl Container {
    /// The identity made of `name` and `version`.
    pub fn new(name: String, version: Version) -> (c: Container)
        ensures
            c@ == (ContainerId { name: name@, version }),
    {
        Container { name, version }
    }

    /// The container's name.
    pub fn name(&self) -> (name: &String)
        ensures
            name@ == self@.name,
    {
        &self.name
    }

    /// The container's version.
    pub fn version(&self) -> (version: Version)
        ensures
            version == self@.version,
    {
        self.version
    }

    /// Whether the two identities have the same name and the same version.
    pub fn same(&self, other: &Container) -> (r: bool)
        ensures
            r == (self@ == other@),
    {
        let r = self.name == other.name && self.version == other.version;
        proof {
            if self.name@ == other.name@ && self.version == other.version {
                assert(self@ == other@);
            }
        }
        r
    }

    /// The printable form `name:MAJOR.MINOR.PATCH`.
    pub fn to_string(&self) -> (s: String)
        ensures
            s@ == self@.text(),
    {
        proof {
            reveal_strlit(":");
        }
        let mut s = self.name.clone();
        s.append(":");
        self.version.push_to(&mut s);
        assert(s@ =~= self@.text());
        s
    }

    /// The name of this container's package file, `name-MAJOR.MINOR.PATCH.npk`.
    pub fn package_file(&self) -> (s: String)
        ensures
            s@ == self@.package_file(),
    {
        proof {
            reveal_strlit("-");
            reveal_strlit(".npk");
        }
        let mut s = self.name.clone();
        s.append("-");
        self.version.push_to(&mut s);
        s.append(".npk");
        assert(s@ =~= self@.package_file());
        s
    }
}

/// Whether the container `c` provides what is asked for: it has the name
/// `name`, and its version meets the requirement written as `requirement`.
pub open spec fn provides(c: ContainerId, name: Seq<char>, requirement: Seq<char>) -> bool {
    c.name == name && c.version.satisfies(requirement)
}

/// Whether the container at position `i` is admitted by `admitted`, which
/// says of each position whether the version there meets the requirement.
/// A position that `admitted` does not reach is not admitted.
pub open spec fn admitted_at(admitted: Seq<bool>, i: int) -> bool {
    0 <= i < admitted.len() && admitted[i]
}

/// The position in `containers` of the container that is picked: of those
/// that are named `name` and admitted, the one of the highest version, and
/// of several of that version the first.
pub open spec fn pick(containers: Seq<ContainerId>, name: Seq<char>, admitted: Seq<bool>) -> Option<
    int,
>
    decreases containers.len(),
{
    if containers.len() == 0 {
        None
    } else {
        let rest = pick(containers.drop_last(), name, admitted);
        let last = containers.len() - 1;
        if !(containers.last().name == name && admitted_at(admitted, last)) {
            rest
        } else {
            match rest {
                Some(i) => if containers[i].version.precedes(containers.last().version) {
                    Some(last)
                } else {
                    Some(i)
                },
                None => Some(last),
            }
        }
    }
}

/// Which of `containers` have a version that meets the requirement written
/// as `requirement`.
pub open spec fn admissions(containers: Seq<ContainerId>, requirement: Seq<char>) -> Seq<bool> {
    Seq::new(containers.len(), |i: int| containers[i].version.satisfies(requirement))
}

/// The position in `containers` of the container that a requirement
/// resolves to, if any: of those that provide what is asked for, the one of
/// the highest version, and of several of that version the first.
pub open spec fn resolve(
    containers: Seq<ContainerId>,
    name: Seq<char>,
    requirement: Seq<char>,
) -> Option<int> {
    pick(containers, name, admissions(containers, requirement))
}

/// The identities of a list of containers, in order.
pub open spec fn identities(containers: Seq<Container>) -> Seq<ContainerId> {
    containers.map_values(|c: Container| c@)
}

/// What [`pick`] picks is a container that is named as asked and admitted,
/// no other such container has a higher version, and every such container
/// before it has a lower one. Where it picks none, there is no such
/// container.
pub proof fn pick_takes_the_highest(
    containers: Seq<ContainerId>,
    name: Seq<char>,
    admitted: Seq<bool>,
)
    ensures
        match pick(containers, name, admitted) {
            Some(i) => {
                &&& 0 <= i < containers.len()
                &&& containers[i].name == name
                &&& admitted_at(admitted, i)
                &&& forall|j: int|
                    0 <= j < containers.len() && (#[trigger] containers[j]).name == name
                        && admitted_at(admitted, j) ==> !containers[i].version.precedes(
                        containers[j].version,
                    )
                &&& forall|j: int|
                    0 <= j < i && (#[trigger] containers[j]).name == name && admitted_at(admitted, j)
                        ==> containers[j].version.precedes(containers[i].version)
            },
            None => forall|j: int|
                0 <= j < containers.len() ==> !((#[trigger] containers[j]).name == name
                    && admitted_at(admitted, j)),
        },
    decreases containers.len(),
{
    if containers.len() > 0 {
        let front = containers.drop_last();
        pick_takes_the_highest(front, name, admitted);
        assert(forall|j: int| 0 <= j < front.len() ==> front[j] == containers[j]);
    }
}

/// What [`resolve`] picks is a container that provides what is asked for,
/// no other such container has a higher version, and every such container
/// before it has a lower one. Where it picks none, no container provides
/// what is asked for.
pub proof fn resolve_picks_the_highest(
    containers: Seq<ContainerId>,
    name: Seq<char>,
    requirement: Seq<char>,
)
    ensures
        match resolve(containers, name, requirement) {
            Some(i) => {
                &&& 0 <= i < containers.len()
                &&& provides(containers[i], name, requirement)
                &&& forall|j: int|
                    0 <= j < containers.len() && provides(#[trigger] containers[j], name, requirement)
                        ==> !containers[i].version.precedes(containers[j].version)
                &&& forall|j: int|
                    0 <= j < i && provides(#[trigger] containers[j], name, requirement)
                        ==> containers[j].version.precedes(containers[i].version)
            },
            None => forall|j: int|
                0 <= j < containers.len() ==> !provides(
                    #[trigger] containers[j],
                    name,
                    requirement,
                ),
        },
{
    pick_takes_the_highest(containers, name, admissions(containers, requirement));
}

/// Picks among `containers` the one of the highest version of those that
/// are named `name` and admitted. `admitted` says of each position whether
/// the version there meets the requirement at hand.
pub fn pick_container(name: &str, containers: &Vec<Container>, admitted: &Vec<bool>) -> (found:
    Option<usize>)
    ensures
        match pick(identities(containers@), name@, admitted@) {
            Some(i) => 0 <= i < containers@.len() && found == Some(i as usize),
            None => found is None,
        },
{
    let ghost ids = identities(containers@);
    let mut best: Option<usize> = None;
    let mut i: usize = 0;
    while i < containers.len()
        invariant
            i <= containers.len(),
            ids == identities(containers@),
            match pick(ids.take(i as int), name@, admitted@) {
                Some(k) => best == Some(k as usize) && 0 <= k < i,
                None => best is None,
            },
        decreases containers.len() - i,
    {
        let c = &containers[i];
        proof {
            assert(ids.take(i + 1).drop_last() =~= ids.take(i as int));
            assert(ids.take(i + 1).last() == c@);
            pick_takes_the_highest(ids.take(i as int), name@, admitted@);
        }
        if same_text(c.name.as_str(), name) && i < admitted.len() && admitted[i] {
            match best {
                Some(k) => {
                    if containers[k].version.is_before(&c.version) {
                        best = Some(i);
                    }
                },
                None => {
                    best = Some(i);
                },
            }
        }
        i += 1;
    }
    proof {
        assert(ids.take(i as int) =~= ids);
        pick_takes_the_highest(ids, name@, admitted@);
    }
    best
}

/// Finds the container that a resource requirement resolves to: among the
/// containers named `name` whose version meets `requirement`, the one of
/// the highest version.
pub fn match_container<'a>(
    name: &str,
    requirement: &str,
    containers: &'a Vec<Container>,
) -> (found: Option<&'a Container>)
    ensures
        match resolve(identities(containers@), name@, requirement@) {
            Some(i) => found == Some(&containers@[i]),
            None => found is None,
        },
{
    let mut admitted: Vec<bool> = Vec::new();
    let mut i: usize = 0;
    while i < containers.len()
        invariant
            i <= containers.len(),
            admitted@.len() == i,
            forall|j: int|
                0 <= j < i ==> admitted@[j] == (#[trigger] containers@[j])@.version.satisfies(
                    requirement@,
                ),
        decreases containers.len() - i,
    {
        admitted.push(containers[i].version.matches(requirement));
        i += 1;
    }
    proof {
        assert(admitted@ =~= admissions(identities(containers@), requirement@));
    }
    match pick_container(name, containers, &admitted) {
        Some(k) => Some(&containers[k]),
        None => None,
    }
}

impl Clone for Container {
    fn clone(&self) -> (c: Container)
        ensures
            c@ == self@,
    {
        Container { name: self.name.clone(), version: self.version }
    }
}

/// The position of the first `:` among the first `n` characters of `text`,
/// if there is one.
pub open spec fn colon_in(text: Seq<char>, n: int) -> Option<int>
    decreases n,
{
    if n <= 0 {
        None
    } else {
        match colon_in(text, n - 1) {
            Some(i) => Some(i),
            None => if text[n - 1] == ':' {
                Some(n - 1)
            } else {
                None
            },
        }
    }
}

/// The first `:` among the first `n` characters is the first among any more
/// of them.
pub proof fn colon_stays_first(text: Seq<char>, n: int, m: int)
    requires
        n <= m,
        colon_in(text, n) is Some,
    ensures
        colon_in(text, m) == colon_in(text, n),
    decreases m - n,
{
    if n < m {
        colon_stays_first(text, n, m - 1);
    }
}

/// The identity that the text `name:MAJOR.MINOR.PATCH` stands for: the name
/// is what comes before the first `:`, the version what follows it.
pub open spec fn identity_of(text: Seq<char>) -> Result<ContainerId, ContainerError> {
    match colon_in(text, text.len() as int) {
        None => Err(ContainerError::MissingSeparator),
        Some(i) => {
            let name = text.subrange(0, i);
            let version = text.subrange(i + 1, text.len() as int);
            if !is_valid_name(name) {
                Err(ContainerError::InvalidName)
            } else {
                match Version::of_fields(semver_parse(version)) {
                    Ok(v) => Ok(ContainerId { name, version: v }),
                    Err(e) => Err(ContainerError::InvalidVersion(e)),
                }
            }
        },
    }
}

impl Container {
    /// Reads an identity from its printable form `name:MAJOR.MINOR.PATCH`.
    pub fn parse(text: &str) -> (r: Result<Container, ContainerError>)
        ensures
            match identity_of(text@) {
                Ok(id) => r matches Ok(c) && c@ == id,
                Err(e) => r == Err::<Container, ContainerError>(e),
            },
    {
        let n = text.unicode_len();
        let mut i: usize = 0;
        while i < n
            invariant
                n == text@.len(),
                i <= n,
                colon_in(text@, i as int) is None,
            decreases n - i,
        {
            if text.get_char(i) == ':' {
                proof {
                    assert(colon_in(text@, i + 1) == Some(i as int));
                    colon_stays_first(text@, i + 1, n as int);
                }
                let name = text.substring_char(0, i);
                let version = text.substring_char(i + 1, n);
                if !valid_name(name) {
                    return Err(ContainerError::InvalidName);
                }
                return match Version::parse(version) {
                    Ok(v) => Ok(Container { name: String::from_str(name), version: v }),
                    Err(e) => Err(ContainerError::InvalidVersion(e)),
                };
            }
            i += 1;
        }
        Err(ContainerError::MissingSeparator)
    }
}

} // verus!
