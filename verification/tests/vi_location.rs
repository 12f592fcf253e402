//! Tests of VI location handling: container detection for plain files and
//! library containers.

use g_cli::vi_location::VILocation;

#[test]
fn test_get_container_none() {
    let vi_path = "/C/Test/test.vi";
    let location = VILocation::new(vi_path);
    assert_eq!(vi_path, location.container());
}

#[test]
fn test_get_container_packed_library() {
    let location = VILocation::new("/C/Test.lvlibp/test.vi");
    assert_eq!("/C/Test.lvlibp", location.container());
}

#[test]
fn test_get_container_packed_library_internal_dir() {
    let location = VILocation::new("/C/Test.lvlibp/folder/test.vi");
    assert_eq!("/C/Test.lvlibp", location.container());
}

#[test]
fn test_get_container_llb() {
    let location = VILocation::new("/C/Test.llb/test.vi");
    assert_eq!("/C/Test.llb", location.container());
}

#[test]
fn dot_file_is_no_container() {
    // `.llb` alone names a hidden file, not an extension.
    let location = VILocation::new("/C/.llb/test.vi");
    assert_eq!("/C/.llb/test.vi", location.container());
}

#[test]
fn labview_parameter_keeps_the_full_path() {
    let location = VILocation::new("/C/Test.llb/test.vi");
    assert_eq!(location.labview_parameter(), "/C/Test.llb/test.vi");
}
