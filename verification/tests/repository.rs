use northstar::container::Container;
use northstar::error::{Error, IoKind};
use northstar::repository::{
    has_package_extension, names_package, package_files, Added, Attempt, Package, Repository,
};
use northstar::text::{comes_before, decimal_string};
use northstar::version::Version;

fn hello() -> Container {
    Container::new("hello".to_string(), Version::new(1, 0, 0))
}

fn package(name: &str, version: Version, path: &str) -> Package {
    Package { container: Container::new(name.to_string(), version), path: path.to_string() }
}

fn empty() -> Repository {
    Repository::new("r".to_string(), "/repo".to_string(), Some("/keys/r.pub".to_string()), vec![])
}

#[test]
fn package_files_have_the_extension_npk() {
    assert!(has_package_extension("/repo/hello-1.0.0.npk"));
    assert!(has_package_extension("a.b.npk"));
    assert!(!has_package_extension("/repo/hello-1.0.0.npk.tmp"));
    assert!(!has_package_extension("/repo/npk"));
    assert!(!has_package_extension("/repo/.npk"));
    assert!(!has_package_extension("/repo/hello.NPK"));
    assert!(!has_package_extension(""));
    assert!(names_package(&Some("npk".to_string())));
    assert!(!names_package(&Some("np".to_string())));
    assert!(!names_package(&None));
}

#[test]
fn directory_entries_are_filtered_in_order() {
    let entries = vec![
        "/repo/b.npk".to_string(),
        "/repo/readme.txt".to_string(),
        "/repo/a.npk".to_string(),
        "/repo/sub".to_string(),
    ];
    assert_eq!(package_files(&entries), vec!["/repo/b.npk".to_string(), "/repo/a.npk".to_string()]);
    assert_eq!(package_files(&vec![]), Vec::<String>::new());
}

#[test]
fn file_names_are_ordered_like_text() {
    assert!(comes_before("a", "b"));
    assert!(!comes_before("b", "a"));
    assert!(!comes_before("a", "a"));
    assert!(comes_before("", "a"));
    assert!(!comes_before("a", ""));
    assert!(!comes_before("", ""));
    assert!(comes_before("a", "ab"));
    assert!(comes_before("hello-1.0.0.npk", "hello-1.0.1.npk"));
    assert!(comes_before("Z", "a"));
    assert!(comes_before("a", "\u{e9}"));
    for (a, b) in [("x", "y"), ("abc", "abd"), ("ab", "abc"), ("\u{fe}", "\u{ff}")] {
        assert_eq!(comes_before(a, b), a < b);
        assert_eq!(comes_before(b, a), b < a);
    }
}

#[test]
fn a_scan_indexes_what_was_loaded() {
    let r = Repository::new(
        "r".to_string(),
        "/repo".to_string(),
        None,
        vec![
            package("hello", Version::new(1, 0, 0), "/repo/hello-1.0.0.npk"),
            package("data", Version::new(2, 0, 0), "/repo/data-2.0.0.npk"),
        ],
    );
    assert_eq!(r.id(), "r");
    assert_eq!(r.dir(), "/repo");
    assert_eq!(r.key(), &None);
    assert_eq!(r.len(), 2);
    assert_eq!(r.get(&hello()), Some(&"/repo/hello-1.0.0.npk".to_string()));
    assert!(r.contains(&Container::new("data".to_string(), Version::new(2, 0, 0))));
    assert!(!r.contains(&Container::new("data".to_string(), Version::new(2, 0, 1))));
    assert_eq!(r.get(&Container::new("nothing".to_string(), Version::new(0, 0, 0))), None);
}

#[test]
fn of_two_packages_of_one_container_the_first_file_name_wins() {
    let first = package("hello", Version::new(1, 0, 0), "/repo/a.npk");
    let second = package("hello", Version::new(1, 0, 0), "/repo/b.npk");
    let one = Repository::new(
        "r".to_string(),
        "/repo".to_string(),
        None,
        vec![first.clone(), second.clone()],
    );
    let other = Repository::new(
        "r".to_string(),
        "/repo".to_string(),
        None,
        vec![second.clone(), first.clone()],
    );
    assert_eq!(one.len(), 1);
    assert_eq!(other.len(), 1);
    assert_eq!(one.get(&hello()), Some(&"/repo/a.npk".to_string()));
    assert_eq!(other.get(&hello()), Some(&"/repo/a.npk".to_string()));
}

#[test]
fn packages_go_to_name_version_npk() {
    let r = empty();
    assert_eq!(r.destination(&hello()), "/repo/hello-1.0.0.npk");
    assert_eq!(
        r.destination(&Container::new("my_app-2".to_string(), Version::new(10, 20, 30))),
        "/repo/my_app-2-10.20.30.npk"
    );
    assert_eq!(hello().package_file(), "hello-1.0.0.npk");
    assert_eq!(hello().to_string(), "hello:1.0.0");
}

#[test]
fn adding_a_loaded_package_indexes_it() {
    let mut r = empty();
    let added = r.add(&hello(), Attempt::Loaded(hello()));
    assert_eq!(added, Added { result: Ok(()), remove: None });
    assert_eq!(r.len(), 1);
    assert_eq!(r.get(&hello()), Some(&"/repo/hello-1.0.0.npk".to_string()));
    assert_eq!(r.key(), &Some("/keys/r.pub".to_string()));
}

#[test]
fn a_package_is_indexed_under_the_container_of_its_manifest() {
    let mut r = empty();
    let inside = Container::new("inside".to_string(), Version::new(3, 0, 0));
    r.add(&hello(), Attempt::Loaded(inside.clone()));
    assert_eq!(r.get(&inside), Some(&"/repo/hello-1.0.0.npk".to_string()));
    assert_eq!(r.get(&hello()), None);
}

#[test]
fn install_duplicate_leaves_the_repository_as_it_was() {
    let mut r = empty();
    r.add(&hello(), Attempt::Loaded(hello()));
    let before = Repository::new(
        "r".to_string(),
        "/repo".to_string(),
        Some("/keys/r.pub".to_string()),
        vec![package("hello", Version::new(1, 0, 0), "/repo/hello-1.0.0.npk")],
    );
    assert_eq!(r, before);
    let added = r.add(&hello(), Attempt::Exists);
    assert_eq!(added, Added { result: Err(Error::InstallDuplicate(hello())), remove: None });
    assert_eq!(r, before);
}

#[test]
fn a_failed_copy_changes_nothing() {
    let mut r = empty();
    let added = r.add(&hello(), Attempt::CopyFailed(IoKind::PermissionDenied));
    assert_eq!(
        added,
        Added {
            result: Err(Error::Io(
                "Failed to copy npk to repository".to_string(),
                IoKind::PermissionDenied
            )),
            remove: None,
        }
    );
    assert_eq!(r.len(), 0);
}

#[test]
fn an_unreadable_package_is_removed_again() {
    let mut r = empty();
    let added = r.add(&hello(), Attempt::Unreadable("bad signature".to_string()));
    assert_eq!(
        added,
        Added {
            result: Err(Error::Npk(
                "/repo/hello-1.0.0.npk".to_string(),
                "bad signature".to_string()
            )),
            remove: Some("/repo/hello-1.0.0.npk".to_string()),
        }
    );
    assert_eq!(r.len(), 0);
    assert!(!r.contains(&hello()));
}

#[test]
fn removing_hands_back_the_file() {
    let mut r = empty();
    r.add(&hello(), Attempt::Loaded(hello()));
    let other = Container::new("other".to_string(), Version::new(0, 0, 1));
    r.add(&other, Attempt::Loaded(other.clone()));
    assert_eq!(r.remove(&hello()), Ok("/repo/hello-1.0.0.npk".to_string()));
    assert!(!r.contains(&hello()));
    assert!(r.contains(&other));
    assert_eq!(r.len(), 1);
}

#[test]
fn removing_what_is_not_there_fails() {
    let mut r = empty();
    assert_eq!(r.remove(&hello()), Err(Error::InvalidContainer(hello())));
    r.add(&hello(), Attempt::Loaded(hello()));
    let other = Container::new("hello".to_string(), Version::new(1, 0, 1));
    assert_eq!(r.remove(&other), Err(Error::InvalidContainer(other)));
    assert_eq!(r.len(), 1);
}

#[test]
fn numbers_print_in_decimal() {
    assert_eq!(decimal_string(0), "0");
    assert_eq!(decimal_string(9), "9");
    assert_eq!(decimal_string(10), "10");
    assert_eq!(decimal_string(1048576), "1048576");
    assert_eq!(decimal_string(u64::MAX), "18446744073709551615");
}
