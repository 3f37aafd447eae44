use unit_designator::config::{target, Arg, Config};

#[test]
fn default_config_points_at_current_directory() {
    let config = Config::default();
    assert_eq!(config.jiff(), "./");
    assert!(!config.verbose());
}

#[test]
fn short_flag_switches_verbosity_on() {
    let mut config = Config::default();
    assert!(config.configure(Arg::Short('v')));
    assert!(config.verbose());
    assert_eq!(config.jiff(), "./");
}

#[test]
fn long_flag_switches_verbosity_on() {
    let mut config = Config::default();
    assert!(config.configure(Arg::Long("verbose".to_string())));
    assert!(config.verbose());
    assert!(config.configure(Arg::Long("verbose".to_string())));
    assert!(config.verbose());
    assert_eq!(config.jiff(), "./");
}

#[test]
fn other_flags_are_left_alone() {
    let mut config = Config::default();
    assert!(!config.configure(Arg::Short('V')));
    assert!(!config.configure(Arg::Short('h')));
    assert!(!config.configure(Arg::Long("Verbose".to_string())));
    assert!(!config.configure(Arg::Long("verbos".to_string())));
    assert!(!config.configure(Arg::Long("v".to_string())));
    assert!(!config.configure(Arg::Long(String::new())));
    assert!(!config.verbose());
    assert_eq!(config.jiff(), "./");
}

#[test]
fn first_value_names_the_root() {
    let mut config = Config::default();
    assert!(config.configure(Arg::Value("/tmp/jiff".to_string())));
    assert_eq!(config.jiff(), "/tmp/jiff");
    assert!(!config.verbose());
}

#[test]
fn second_value_is_left_alone() {
    let mut config = Config::default();
    assert!(config.configure(Arg::Value("first".to_string())));
    assert!(!config.configure(Arg::Value("second".to_string())));
    assert_eq!(config.jiff(), "first");
}

#[test]
fn value_that_looks_like_the_flag_is_a_root() {
    let mut config = Config::default();
    assert!(config.configure(Arg::Value("verbose".to_string())));
    assert_eq!(config.jiff(), "verbose");
    assert!(!config.verbose());
}

#[test]
fn flag_and_root_do_not_disturb_each_other() {
    let mut config = Config::default();
    assert!(config.configure(Arg::Value("root".to_string())));
    assert!(config.configure(Arg::Short('v')));
    assert_eq!(config.jiff(), "root");
    assert!(config.verbose());
    assert!(!config.configure(Arg::Value("other".to_string())));
    assert_eq!(config.jiff(), "root");
    assert!(config.verbose());
}

#[test]
fn usage_describes_the_verbosity_flag() {
    let usages = Config::default().usage();
    assert_eq!(usages.len(), 1);
    assert_eq!(usages[0].format, "-v, --verbose");
    assert_eq!(usages[0].short, "Add more output.");
    assert_eq!(
        usages[0].long,
        "\nThis is a generic flag that expands output beyond the \"normal\" amount. Which\noutput is added depends on the command.\n"
    );
}

#[test]
fn target_is_the_label_parser_of_the_host() {
    assert_eq!(target(), "src/fmt/friendly/parser_label.rs");
}
