use northstar::container::{
    match_container, pick_container, valid_name, Container, ContainerError,
};
use northstar::version::{Version, VersionError};

#[test]
fn identities_are_read_from_name_and_version() {
    assert_eq!(
        Container::parse("hello:1.0.0"),
        Ok(Container::new("hello".to_string(), Version::new(1, 0, 0)))
    );
    assert_eq!(
        Container::parse("remote:0.0.0"),
        Ok(Container::new("remote".to_string(), Version::new(0, 0, 0)))
    );
    assert_eq!(Container::parse("hello"), Err(ContainerError::MissingSeparator));
    assert_eq!(Container::parse(""), Err(ContainerError::MissingSeparator));
    assert_eq!(Container::parse(":1.0.0"), Err(ContainerError::InvalidName));
    assert_eq!(Container::parse("Hello:1.0.0"), Err(ContainerError::InvalidName));
    assert_eq!(
        Container::parse("hello:1.0"),
        Err(ContainerError::InvalidVersion(VersionError::Malformed))
    );
    assert_eq!(
        Container::parse("hello:1.0.0:2"),
        Err(ContainerError::InvalidVersion(VersionError::Malformed))
    );
    assert_eq!(
        Container::parse("hello:1.0.0-rc1"),
        Err(ContainerError::InvalidVersion(VersionError::NotThreePart))
    );
    let c = Container::new("my_app-2".to_string(), Version::new(1, 22, 333));
    assert_eq!(Container::parse(&c.to_string()), Ok(c.clone()));
    assert_eq!(c.name(), "my_app-2");
    assert_eq!(c.version(), Version::new(1, 22, 333));
    assert!(c.same(&c.clone()));
    assert!(!c.same(&Container::new("my_app-2".to_string(), Version::new(1, 22, 334))));
}

#[test]
fn names_are_lowercase_letters_digits_dash_and_underscore() {
    assert!(valid_name("hello"));
    assert!(valid_name("my_app-2"));
    assert!(valid_name("0"));
    assert!(!valid_name(""));
    assert!(!valid_name("Hello"));
    assert!(!valid_name("he llo"));
    assert!(!valid_name("hello:1"));
    assert!(!valid_name("h\u{e9}llo"));
}

#[test]
fn resources_resolve_to_the_highest_version() {
    let installed = vec![
        Container::new("data".to_string(), Version::new(1, 0, 0)),
        Container::new("other".to_string(), Version::new(1, 9, 0)),
        Container::new("data".to_string(), Version::new(1, 5, 0)),
        Container::new("data".to_string(), Version::new(2, 0, 0)),
        Container::new("data".to_string(), Version::new(1, 5, 0)),
    ];
    assert_eq!(match_container("data", "^1.0", &installed), Some(&installed[2]));
    assert_eq!(match_container("data", "*", &installed), Some(&installed[3]));
    assert_eq!(match_container("data", "=1.0.0", &installed), Some(&installed[0]));
    assert_eq!(match_container("data", "^3", &installed), None);
    assert_eq!(match_container("nothing", "*", &installed), None);
    assert_eq!(match_container("data", "*", &vec![]), None);
}

#[test]
fn the_highest_admitted_version_is_picked() {
    let containers = vec![
        Container::new("data".to_string(), Version::new(1, 0, 0)),
        Container::new("data".to_string(), Version::new(3, 0, 0)),
        Container::new("other".to_string(), Version::new(9, 0, 0)),
        Container::new("data".to_string(), Version::new(2, 0, 0)),
        Container::new("data".to_string(), Version::new(2, 0, 0)),
    ];
    assert_eq!(pick_container("data", &containers, &vec![true, false, true, true, true]), Some(3));
    assert_eq!(pick_container("data", &containers, &vec![true, true, true, true, true]), Some(1));
    assert_eq!(pick_container("data", &containers, &vec![true]), Some(0));
    assert_eq!(pick_container("data", &containers, &vec![]), None);
    assert_eq!(pick_container("data", &containers, &vec![false; 5]), None);
    assert_eq!(pick_container("other", &containers, &vec![true; 9]), Some(2));
    assert_eq!(pick_container("none", &containers, &vec![true; 5]), None);
}
