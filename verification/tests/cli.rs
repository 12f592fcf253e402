//! Tests of the command-line parsing and the split of trailing arguments.

use g_cli::cli::{program_arguments, Configuration};
use g_cli::installs::Bitness;

fn strings(items: &[&str]) -> Vec<String> {
    items.iter().map(|s| String::from(*s)).collect()
}

#[test]
fn get_item_to_run() {
    let args = strings(&["g-cli", "test.vi", "--", "test1", "-t", "test2"]);

    let config = Configuration::from_arg_array(args);

    assert_eq!(config.to_launch, "test.vi");
}

#[test]
fn no_verbose_mode() {
    let args = strings(&["g-cli", "test.vi", "--", "test1"]);

    let config = Configuration::from_arg_array(args);

    assert_eq!(config.verbose, false);
}

#[test]
fn verbose_mode() {
    let args = strings(&["g-cli", "-v", "test.vi", "--", "test1"]);

    let config = Configuration::from_arg_array(args);

    assert_eq!(config.verbose, true);
}

#[test]
fn allow_dialogs_default() {
    let args = strings(&["g-cli", "test.vi", "--", "test1"]);

    let config = Configuration::from_arg_array(args);

    assert_eq!(config.allow_dialogs, false);
}

#[test]
fn allow_dialogs_camelcase() {
    let args = strings(&["g-cli", "--allowDialogs", "test.vi", "--", "test1"]);

    let config = Configuration::from_arg_array(args);

    assert_eq!(config.allow_dialogs, true);
}

#[test]
fn allow_dialogs_hyphenated() {
    let args = strings(&["g-cli", "--allow-dialogs", "test.vi", "--", "test1"]);

    let config = Configuration::from_arg_array(args);

    assert_eq!(config.allow_dialogs, true);
}

#[test]
fn no_launch_default() {
    let args = strings(&["g-cli", "test.vi", "--", "test1"]);

    let config = Configuration::from_arg_array(args);

    assert_eq!(config.no_launch, false);
}

#[test]
fn no_launch_present() {
    let args = strings(&["g-cli", "--no-launch", "test.vi", "--", "test1"]);

    let config = Configuration::from_arg_array(args);

    assert_eq!(config.no_launch, true);
}

#[test]
fn lv_details_32bit() {
    let args = strings(&["g-cli", "--lv-ver", "2015", "test.vi", "--", "test1"]);

    let config = Configuration::from_arg_array(args);

    assert_eq!(config.lv_version_string.unwrap(), String::from("2015"));
    assert_eq!(config.bitness, Bitness::X86);
}

#[test]
fn lv_details_64bit() {
    let args = strings(&["g-cli", "--lv-ver", "2015", "--x64", "test.vi", "--", "test1"]);

    let config = Configuration::from_arg_array(args);

    assert_eq!(config.lv_version_string.unwrap(), String::from("2015"));
    assert_eq!(config.bitness, Bitness::X64);
}

#[test]
fn lv_details_arch_set_32bit() {
    let args = strings(&["g-cli", "--lv-ver", "2015", "--arch", "32", "test.vi", "--", "test1"]);

    let config = Configuration::from_arg_array(args);

    assert_eq!(config.lv_version_string.unwrap(), String::from("2015"));
    assert_eq!(config.bitness, Bitness::X86);
}

#[test]
fn lv_details_arch_set_64bit() {
    let args = strings(&["g-cli", "--lv-ver", "2015", "--arch", "64", "test.vi", "--", "test1"]);

    let config = Configuration::from_arg_array(args);

    assert_eq!(config.lv_version_string.unwrap(), String::from("2015"));
    assert_eq!(config.bitness, Bitness::X64);
}

#[test]
fn lv_details_arch_overrides_x64_flag() {
    let args = strings(&[
        "g-cli", "--lv-ver", "2015", "--arch", "32", "--x64", "test.vi", "--", "test1",
    ]);

    let config = Configuration::from_arg_array(args);

    assert_eq!(config.lv_version_string.unwrap(), String::from("2015"));
    assert_eq!(config.bitness, Bitness::X86);
}

#[test]
fn timeout_not_set() {
    let args = strings(&["g-cli", "--lv-ver", "2015", "test.vi", "--", "test1"]);

    let config = Configuration::from_arg_array(args);
    assert_eq!(60_000, config.connect_timeout);
}

#[test]
fn timeout_set_old_name() {
    let args = strings(&["g-cli", "--timeout", "10000", "test.vi", "--", "test1"]);

    let config = Configuration::from_arg_array(args);
    assert_eq!(10000, config.connect_timeout);
}

#[test]
fn timeout_set() {
    let args = strings(&["g-cli", "--connect-timeout", "10000", "test.vi", "--", "test1"]);

    let config = Configuration::from_arg_array(args);
    assert_eq!(10000, config.connect_timeout);
}

#[test]
/// Kill is set with no timeout uses default 10 seconds.
fn kill_set() {
    let args = strings(&["g-cli", "--kill", "test.vi", "--", "test1"]);

    let config = Configuration::from_arg_array(args);
    assert_eq!(Some(10_000), config.kill);
}

#[test]
/// Kill is not set.
fn kill_not_set() {
    let args = strings(&["g-cli", "test.vi", "--", "test1"]);

    let config = Configuration::from_arg_array(args);
    assert_eq!(None, config.kill);
}

#[test]
/// Kill is set with a timeout in seconds.
fn kill_set_with_timeout() {
    let args = strings(&["g-cli", "--kill", "--kill-timeout", "5000", "test.vi", "--", "test1"]);

    let config = Configuration::from_arg_array(args);
    assert_eq!(Some(5000), config.kill);
}

#[test]
/// Kill timeout is ignored if kill isnt set.
fn kill_timeout_but_kill_not_set() {
    let args = strings(&["g-cli", "--kill-timeout", "5000", "test.vi", "--", "test1"]);

    let config = Configuration::from_arg_array(args);
    assert_eq!(None, config.kill);
}

#[test]
fn get_program_arguments() {
    let args = strings(&["g-cli", "test.vi", "--", "test1", "-t", "test2"]);

    let processed = program_arguments(&args);

    assert_eq!(processed, strings(&["test1", "-t", "test2"]));
}

#[test]
fn get_program_arguments_empty() {
    let args = strings(&["g-cli", "test.vi"]);

    let processed = program_arguments(&args);

    assert_eq!(processed, Vec::<String>::new());
}
