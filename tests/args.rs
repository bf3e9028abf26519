use unitypackage_extractor::args::{Args, ArgsError, Command};
use unitypackage_extractor::ui::OverwriteMode;

fn argv(v: &[&str]) -> Vec<String> {
    v.iter().map(|s| s.to_string()).collect()
}

#[test]
fn extract_is_the_default_command() {
    let a = Args::parse(&argv(&["prog", "in.unitypackage", "--output-dir", "out"]), false).unwrap();
    assert_eq!(
        a.command,
        Command::Extract {
            input_file: "in.unitypackage".to_string(),
            output_dir: Some("out".to_string()),
            overwrite_mode: OverwriteMode::Rename,
        }
    );
    assert_eq!(a.input_file(), "in.unitypackage");
    assert_eq!(a.output_dir(), Some(&"out".to_string()));
    assert_eq!(a.overwrite_mode(), OverwriteMode::Rename);
}

#[test]
fn extract_options() {
    let a = Args::parse(&argv(&["prog", "extract", "in", "--output-dir=o", "--overwrite-mode=skip"]), false)
        .unwrap();
    assert_eq!(a.overwrite_mode(), OverwriteMode::Skip);
    assert_eq!(a.output_dir(), Some(&"o".to_string()));
    let a = Args::parse(&argv(&["prog", "in", "o"]), false).unwrap();
    assert_eq!(a.output_dir(), Some(&"o".to_string()));
}

#[test]
fn interactive_front_end_defaults() {
    let a = Args::parse(&argv(&["prog", "in"]), true).unwrap();
    assert_eq!(a.overwrite_mode(), OverwriteMode::Ask);
    assert_eq!(a.output_dir(), None);
}

#[test]
fn extract_errors() {
    assert_eq!(Args::parse(&argv(&["prog", "-h"]), false).err(), Some(ArgsError::HelpRequested));
    assert_eq!(Args::parse(&argv(&["prog", "in", "--help"]), false).err(), Some(ArgsError::HelpRequested));
    assert_eq!(
        Args::parse(&argv(&["prog", "in", "--overwrite-mode=maybe"]), false).err(),
        Some(ArgsError::InvalidOverwriteMode { index: 2 })
    );
    assert_eq!(
        Args::parse(&argv(&["prog", "in", "--output-dir"]), false).err(),
        Some(ArgsError::MissingValue { index: 2 })
    );
    assert_eq!(Args::parse(&argv(&["prog", "a", "b", "c"]), false).err(), Some(ArgsError::UnknownArgument { index: 3 }));
    assert_eq!(Args::parse(&argv(&["prog", "a", "--bogus"]), false).err(), Some(ArgsError::UnknownOption { index: 2 }));
    assert_eq!(Args::parse(&argv(&["prog"]), false).err(), Some(ArgsError::MissingInputFile));
    assert_eq!(Args::parse(&argv(&["prog", "in"]), false).err(), Some(ArgsError::MissingOutputDir));
    assert_eq!(
        Args::parse(&argv(&["prog", "in", "out", "--overwrite-mode=ask"]), false).err(),
        Some(ArgsError::AskNotSupported)
    );
}

#[test]
fn compress_command() {
    let a = Args::parse(&argv(&["prog", "compress", "dir", "-o", "x.unitypackage", "--project-root=root"]), false)
        .unwrap();
    assert_eq!(
        a.command,
        Command::Compress {
            input_dir: "dir".to_string(),
            output_file: "x.unitypackage".to_string(),
            project_root: Some("root".to_string()),
        }
    );
    assert_eq!(a.input_file(), "dir");
    assert_eq!(a.output_dir(), None);
    assert_eq!(a.overwrite_mode(), OverwriteMode::Rename);
}

#[test]
fn compress_errors() {
    assert_eq!(Args::parse(&argv(&["prog", "compress"]), false).err(), Some(ArgsError::MissingInputDir));
    assert_eq!(Args::parse(&argv(&["prog", "compress", "dir"]), false).err(), Some(ArgsError::MissingOutputFile));
    assert_eq!(
        Args::parse(&argv(&["prog", "compress", "dir", "--project-root"]), false).err(),
        Some(ArgsError::MissingValue { index: 3 })
    );
}

#[test]
fn usage_mentions_the_program() {
    let u = Args::usage("tool", false);
    assert!(u.starts_with("Usage: tool [COMMAND] [OPTIONS]\n"));
    assert!(u.contains("Output directory (required in CLI mode)"));
    assert!(u.contains("Default: rename (ask not available in CLI mode)"));
    assert!(u.contains("tool compress ./Assets/MyPackage output.unitypackage"));
    let g = Args::usage("tool", true);
    assert!(g.contains("Default: ask\n"));
}
