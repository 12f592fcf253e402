//! Tests of the install bookkeeping: storing, lookup by version and bitness,
//! service-pack matching, the printed summary, and path building.

use g_cli::installs::{Bitness, LabviewInstall, SystemLabviewInstalls};

#[test]
fn store_and_recover_32bit() {
    let mut installs = SystemLabviewInstalls::new();

    let install = LabviewInstall {
        version: String::from("2011"),
        bitness: Bitness::X86,
        path: String::from("C:\\LV2011"),
    };

    installs.add_install(install.clone());

    assert_eq!(installs.get_version("2011", Bitness::X86), Some(&install));
}

#[test]
fn store_and_recover_64bit() {
    let mut installs = SystemLabviewInstalls::new();

    let install = LabviewInstall {
        version: String::from("2011"),
        bitness: Bitness::X64,
        path: String::from("C:\\LV2011_64"),
    };

    installs.add_install(install.clone());

    assert_eq!(installs.get_version("2011", Bitness::X64), Some(&install));
}

#[test]
fn find_sp1_from_base_version() {
    let mut installs = SystemLabviewInstalls::new();

    let install = LabviewInstall {
        version: String::from("2011 SP1"),
        bitness: Bitness::X64,
        path: String::from("C:\\LV2011_64"),
    };

    installs.add_install(install.clone());

    assert_eq!(installs.get_version("2011", Bitness::X64), Some(&install));
}

#[test]
fn no_version_returns_none() {
    let mut installs = SystemLabviewInstalls::new();

    let install = LabviewInstall {
        version: String::from("2011"),
        bitness: Bitness::X64,
        path: String::from("C:\\LV2011_64"),
    };

    installs.add_install(install);

    // Non-existant version
    assert_eq!(installs.get_version("2012", Bitness::X64), None);
}

#[test]
fn prints_details_in_compatible_format() {
    let mut installs = SystemLabviewInstalls::new();

    let install = LabviewInstall {
        version: String::from("2011 SP1"),
        bitness: Bitness::X64,
        path: String::from("C:\\LV2011_64"),
    };

    installs.add_install(install);

    let install = LabviewInstall {
        version: String::from("2012"),
        bitness: Bitness::X86,
        path: String::from("C:\\LV2012"),
    };

    installs.add_install(install);

    let printed = installs.print_details();

    let expected = "Detected LabVIEW versions:\n\
            2011 SP1, 64bit (C:\\LV2011_64)\n\
            2012, 32bit (C:\\LV2012)\n";

    assert_eq!(printed, expected);
}

#[test]
fn get_short_version_from_install() {
    let install = LabviewInstall {
        version: String::from("2011 SP1"),
        bitness: Bitness::X64,
        path: String::from("C:\\LV2011_64"),
    };

    assert_eq!(install.major_version(), "2011")
}

#[test]
fn installs_properly_cased_app_path() {
    let install = LabviewInstall {
        version: String::from("2011 SP1"),
        bitness: Bitness::X64,
        path: String::from("/LV2011_64"),
    };

    assert_eq!(install.application_path(), "/LV2011_64/labview")
}

#[test]
fn installs_get_install_relative_path() {
    let install = LabviewInstall {
        version: String::from("2011 SP1"),
        bitness: Bitness::X64,
        path: String::from("/LV2011_64/"),
    };

    let relative_path = install.relative_path("test.vi");

    assert_eq!(relative_path, "/LV2011_64/vi.lib/G CLI Tools/test.vi");
}

#[test]
fn same_key_install_is_replaced() {
    let mut installs = SystemLabviewInstalls::new();

    installs.add_install(LabviewInstall {
        version: String::from("2011"),
        bitness: Bitness::X64,
        path: String::from("/old"),
    });
    let replacement = LabviewInstall {
        version: String::from("2011 SP1"),
        bitness: Bitness::X64,
        path: String::from("/new"),
    };
    installs.add_install(replacement.clone());

    assert_eq!(installs.get_version("2011", Bitness::X64), Some(&replacement));
}

#[test]
fn default_is_latest_version() {
    let mut installs = SystemLabviewInstalls::new();
    assert_eq!(installs.get_default(), None);

    let older = LabviewInstall {
        version: String::from("2011"),
        bitness: Bitness::X64,
        path: String::from("/LV2011_64"),
    };
    let newer = LabviewInstall {
        version: String::from("2020"),
        bitness: Bitness::X86,
        path: String::from("/LV2020"),
    };
    // Inserted newest first: the sorting must not depend on insert order.
    installs.add_install(newer.clone());
    installs.add_install(older);

    assert_eq!(installs.get_default(), Some(&newer));
}

#[test]
fn bitness_orders_within_a_version() {
    let mut installs = SystemLabviewInstalls::new();

    let x64 = LabviewInstall {
        version: String::from("2019"),
        bitness: Bitness::X64,
        path: String::from("/LV2019_64"),
    };
    let x86 = LabviewInstall {
        version: String::from("2019"),
        bitness: Bitness::X86,
        path: String::from("/LV2019"),
    };
    installs.add_install(x64.clone());
    installs.add_install(x86);

    // 64 bit sorts after 32 bit of the same version, so it is the default.
    assert_eq!(installs.get_default(), Some(&x64));
}
