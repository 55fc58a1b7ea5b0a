use gondolin::errors::Error;
use gondolin::locate::{needs_creation, resolve};

#[test]
fn creation_is_needed_unless_both_directories_exist() {
    assert!(!needs_creation(true, true));
    assert!(needs_creation(false, true));
    assert!(needs_creation(true, false));
    assert!(needs_creation(false, false));
}

#[test]
fn resolution_yields_directories_or_the_resolution_error() {
    match resolve() {
        Ok(locations) => {
            assert!(!locations.config_dir.is_empty());
            assert!(!locations.data_dir.is_empty());
        }
        Err(e) => assert_eq!(e, Error::DirectoryResolution),
    }
}
