//! Tests of install-directory name parsing and the scan over directory
//! entries.

use g_cli::install_detection::{detect_installations, parse_labview_from_folder_name, DirEntry};
use g_cli::installs::Bitness;

#[test]
fn can_parse_valid_64bit_labview_dir() {
    let result = parse_labview_from_folder_name("LabVIEW-2019-64");

    assert_eq!(result, Some(("2019".to_owned(), Bitness::X64)));
}

#[test]
fn can_parse_valid_64bit_labview_dir_case() {
    let result = parse_labview_from_folder_name("labview-2019-64");

    assert_eq!(result, Some(("2019".to_owned(), Bitness::X64)));
}

#[test]
fn invalid_labview_folder() {
    let result = parse_labview_from_folder_name("lvmerge");

    assert_eq!(result, None);
}

#[test]
fn invalid_labview_folder_starts_right() {
    let result = parse_labview_from_folder_name("LabVIEW");

    assert_eq!(result, None);
}

#[test]
fn invalid_labview_folder_starts_right_possible_32bit() {
    let result = parse_labview_from_folder_name("LabVIEW-2019");

    assert_eq!(result, None);
}

#[test]
fn detect_installations_records_parsed_directories() {
    let entries = vec![
        DirEntry {
            file_name: String::from("LabVIEW-2019-64"),
            path: String::from("/usr/local/natinst/LabVIEW-2019-64"),
            is_dir: true,
        },
        DirEntry {
            file_name: String::from("lvmerge"),
            path: String::from("/usr/local/natinst/lvmerge"),
            is_dir: true,
        },
        DirEntry {
            file_name: String::from("LabVIEW-2020-64"),
            path: String::from("/usr/local/natinst/LabVIEW-2020-64"),
            is_dir: false,
        },
    ];

    let system = detect_installations(&entries);

    let found = system.get_version("2019", Bitness::X64).expect("2019 must be recorded");
    assert_eq!(found.version, "2019");
    assert_eq!(found.path, "/usr/local/natinst/LabVIEW-2019-64");
    // The merge tool is no install, and the file is not a directory.
    assert_eq!(system.get_version("2020", Bitness::X64), None);
}
