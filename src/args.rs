//! The command line: `extract` (the default) and `compress`.
//!
//! Parsing works on the argument list as given, program name first. A
//! request for help is reported as `ArgsError::HelpRequested`; the caller
//! prints the usage text and exits successfully.

use vstd::prelude::*;
use vstd::string::*;
use crate::naming::views_of;
use crate::text::opt_view;
use crate::ui::OverwriteMode;

verus! {

/// What the program is asked to do.
#[derive(Debug, Clone, PartialEq, Eq)]
pub enum Command {
    /// Unpack an archive into a directory tree.
    Extract { input_file: String, output_dir: Option<String>, overwrite_mode: OverwriteMode },
    /// Pack a directory tree into an archive.
    Compress { input_dir: String, output_file: String, project_root: Option<String> },
}

#[derive(Debug, Clone, PartialEq, Eq)]
pub struct Args {
    pub command: Command,
}

/// Why a command line is refused; `index` is the position of the argument
/// at fault.
#[derive(Debug, Clone, Copy, PartialEq, Eq, Structural)]
pub enum ArgsError {
    /// `--help` or `-h` was given.
    HelpRequested,
    /// `--overwrite-mode=` names no mode.
    InvalidOverwriteMode { index: usize },
    /// An option that takes a value ends the line.
    MissingValue { index: usize },
    /// A positional argument beyond the two accepted.
    UnknownArgument { index: usize },
    /// An option the command does not know.
    UnknownOption { index: usize },
    MissingInputFile,
    /// Without an interactive front end the output directory is required.
    MissingOutputDir,
    /// Without an interactive front end nobody can be asked.
    AskNotSupported,
    MissingInputDir,
    MissingOutputFile,
}

pub open spec fn starts_with(s: Seq<char>, p: Seq<char>) -> bool {
    p.len() <= s.len() && s.subrange(0, p.len() as int) == p
}

pub open spec fn after(s: Seq<char>, p: Seq<char>) -> Seq<char> {
    s.subrange(p.len() as int, s.len() as int)
}

pub open spec fn is_help(a: Seq<char>) -> bool {
    a == "--help"@ || a == "-h"@
}

/// The mode a `--overwrite-mode=` value names.
pub open spec fn mode_named(m: Seq<char>) -> Option<OverwriteMode> {
    if m == "overwrite"@ {
        Some(OverwriteMode::Overwrite)
    } else if m == "skip"@ {
        Some(OverwriteMode::Skip)
    } else if m == "rename"@ {
        Some(OverwriteMode::Rename)
    } else if m == "ask"@ {
        Some(OverwriteMode::Ask)
    } else {
        None
    }
}

/// The options of `extract` read so far.
pub struct ExtractState {
    pub input: Option<Seq<char>>,
    pub output: Option<Seq<char>>,
    pub mode: OverwriteMode,
}

/// Reads the options of `extract` from position `i` on.
pub open spec fn extract_from(args: Seq<Seq<char>>, i: int, st: ExtractState) -> Result<
    ExtractState,
    ArgsError,
>
    decreases args.len() - i,
{
    if i < 0 || i >= args.len() {
        Ok(st)
    } else {
        let a = args[i];
        if starts_with(a, "--overwrite-mode="@) {
            match mode_named(after(a, "--overwrite-mode="@)) {
                Some(m) => extract_from(args, i + 1, ExtractState { mode: m, ..st }),
                None => Err(ArgsError::InvalidOverwriteMode { index: i as usize }),
            }
        } else if starts_with(a, "--output-dir="@) {
            extract_from(
                args,
                i + 1,
                ExtractState { output: Some(after(a, "--output-dir="@)), ..st },
            )
        } else if a == "--output-dir"@ {
            if i + 1 >= args.len() {
                Err(ArgsError::MissingValue { index: i as usize })
            } else {
                extract_from(args, i + 2, ExtractState { output: Some(args[i + 1]), ..st })
            }
        } else if is_help(a) {
            Err(ArgsError::HelpRequested)
        } else if !starts_with(a, "--"@) {
            if st.input is None {
                extract_from(args, i + 1, ExtractState { input: Some(a), ..st })
            } else if st.output is None {
                extract_from(args, i + 1, ExtractState { output: Some(a), ..st })
            } else {
                Err(ArgsError::UnknownArgument { index: i as usize })
            }
        } else {
            Err(ArgsError::UnknownOption { index: i as usize })
        }
    }
}

/// The options of `compress` read so far.
pub struct CompressState {
    pub input: Option<Seq<char>>,
    pub output: Option<Seq<char>>,
    pub root: Option<Seq<char>>,
}

/// Reads the options of `compress` from position `i` on.
pub open spec fn compress_from(args: Seq<Seq<char>>, i: int, st: CompressState) -> Result<
    CompressState,
    ArgsError,
>
    decreases args.len() - i,
{
    if i < 0 || i >= args.len() {
        Ok(st)
    } else {
        let a = args[i];
        if starts_with(a, "--output="@) {
            compress_from(args, i + 1, CompressState { output: Some(after(a, "--output="@)), ..st })
        } else if a == "--output"@ || a == "-o"@ {
            if i + 1 >= args.len() {
                Err(ArgsError::MissingValue { index: i as usize })
            } else {
                compress_from(args, i + 2, CompressState { output: Some(args[i + 1]), ..st })
            }
        } else if starts_with(a, "--project-root="@) {
            compress_from(
                args,
                i + 1,
                CompressState { root: Some(after(a, "--project-root="@)), ..st },
            )
        } else if a == "--project-root"@ {
            if i + 1 >= args.len() {
                Err(ArgsError::MissingValue { index: i as usize })
            } else {
                compress_from(args, i + 2, CompressState { root: Some(args[i + 1]), ..st })
            }
        } else if is_help(a) {
            Err(ArgsError::HelpRequested)
        } else if !starts_with(a, "--"@) {
            if st.input is None {
                compress_from(args, i + 1, CompressState { input: Some(a), ..st })
            } else if st.output is None {
                compress_from(args, i + 1, CompressState { output: Some(a), ..st })
            } else {
                Err(ArgsError::UnknownArgument { index: i as usize })
            }
        } else {
            Err(ArgsError::UnknownOption { index: i as usize })
        }
    }
}

/// The command `c` is `extract` with the options `st`.
pub open spec fn is_extract(c: Command, st: ExtractState) -> bool {
    c matches Command::Extract { input_file, output_dir, overwrite_mode } && Some(input_file@)
        == st.input && opt_view(output_dir) == st.output && overwrite_mode == st.mode
}

/// The command `c` is `compress` with the options `st`.
pub open spec fn is_compress(c: Command, st: CompressState) -> bool {
    c matches Command::Compress { input_dir, output_file, project_root } && Some(input_dir@)
        == st.input && Some(output_file@) == st.output && opt_view(project_root) == st.root
}

/// The mode `extract` starts from: ask where someone can be asked.
pub open spec fn default_mode(interactive: bool) -> OverwriteMode {
    if interactive {
        OverwriteMode::Ask
    } else {
        OverwriteMode::Rename
    }
}

/// The first argument picks the command; without one, `extract` is meant
/// and the options start right after the program name.
pub open spec fn picks_compress(args: Seq<Seq<char>>) -> bool {
    args.len() > 1 && !starts_with(args[1], "--"@) && args[1] == "compress"@
}

pub open spec fn options_start(args: Seq<Seq<char>>) -> int {
    if args.len() > 1 && !starts_with(args[1], "--"@) && (args[1] == "extract"@ || args[1]
        == "compress"@) {
        2
    } else {
        1
    }
}

/// What the options of `compress` from position 2 on give.
pub open spec fn compress_result(args: Seq<Seq<char>>, r: Result<Args, ArgsError>) -> bool {
    match compress_from(args, 2, CompressState { input: None, output: None, root: None }) {
        Err(e) => r == Err::<Args, ArgsError>(e),
        Ok(st) => if st.input is None {
            r == Err::<Args, ArgsError>(ArgsError::MissingInputDir)
        } else if st.output is None {
            r == Err::<Args, ArgsError>(ArgsError::MissingOutputFile)
        } else {
            r matches Ok(a) && is_compress(a.command, st)
        },
    }
}

/// What the options of `extract` from position `start` on give.
pub open spec fn extract_result(
    args: Seq<Seq<char>>,
    start: int,
    interactive: bool,
    r: Result<Args, ArgsError>,
) -> bool {
    match extract_from(
        args,
        start,
        ExtractState { input: None, output: None, mode: default_mode(interactive) },
    ) {
        Err(e) => r == Err::<Args, ArgsError>(e),
        Ok(st) => if st.input is None {
            r == Err::<Args, ArgsError>(ArgsError::MissingInputFile)
        } else if !interactive && st.output is None {
            r == Err::<Args, ArgsError>(ArgsError::MissingOutputDir)
        } else if !interactive && st.mode == OverwriteMode::Ask {
            r == Err::<Args, ArgsError>(ArgsError::AskNotSupported)
        } else {
            r matches Ok(a) && is_extract(a.command, st)
        },
    }
}

/// What a command line parses to.
pub open spec fn parse_result(args: Seq<Seq<char>>, interactive: bool, r: Result<Args, ArgsError>) -> bool {
    if args.len() > 1 && is_help(args[1]) {
        r == Err::<Args, ArgsError>(ArgsError::HelpRequested)
    } else if picks_compress(args) {
        compress_result(args, r)
    } else {
        extract_result(args, options_start(args), interactive, r)
    }
}

fn is_word(s: &String, w: &str) -> (r: bool)
    ensures
        r == (s@ == w@),
{
    *s == String::from_str(w)
}

fn has_prefix(s: &String, p: &str) -> (r: bool)
    ensures
        r == starts_with(s@, p@),
{
    let n = p.unicode_len();
    let m = s.as_str().unicode_len();
    if m < n {
        return false;
    }
    String::from_str(s.as_str().substring_char(0, n)) == String::from_str(p)
}

fn rest_after(s: &String, p: &str) -> (r: String)
    requires
        starts_with(s@, p@),
    ensures
        r@ == after(s@, p@),
{
    let n = p.unicode_len();
    let m = s.as_str().unicode_len();
    String::from_str(s.as_str().substring_char(n, m))
}

fn mode_of(m: &String) -> (r: Option<OverwriteMode>)
    ensures
        r == mode_named(m@),
{
    if is_word(m, "overwrite") {
        Some(OverwriteMode::Overwrite)
    } else if is_word(m, "skip") {
        Some(OverwriteMode::Skip)
    } else if is_word(m, "rename") {
        Some(OverwriteMode::Rename)
    } else if is_word(m, "ask") {
        Some(OverwriteMode::Ask)
    } else {
        None
    }
}

impl Args {
    /// The input: the archive to extract, or the directory to compress.
    pub fn input_file(&self) -> (r: &String)
        ensures
            match self.command {
                Command::Extract { input_file, .. } => *r == input_file,
                Command::Compress { input_dir, .. } => *r == input_dir,
            },
    {
        match &self.command {
            Command::Extract { input_file, .. } => input_file,
            Command::Compress { input_dir, .. } => input_dir,
        }
    }

    /// The output directory of `extract`, if given.
    pub fn output_dir(&self) -> (r: Option<&String>)
        ensures
            match self.command {
                Command::Extract { output_dir, .. } => match output_dir {
                    Some(d) => r matches Some(x) && *x == d,
                    None => r is None,
                },
                Command::Compress { .. } => r is None,
            },
    {
        match &self.command {
            Command::Extract { output_dir, .. } => match output_dir {
                Some(d) => Some(d),
                None => None,
            },
            Command::Compress { .. } => None,
        }
    }

    /// The conflict mode of `extract`; `compress` renames.
    pub fn overwrite_mode(&self) -> (r: OverwriteMode)
        ensures
            match self.command {
                Command::Extract { overwrite_mode, .. } => r == overwrite_mode,
                Command::Compress { .. } => r == OverwriteMode::Rename,
            },
    {
        match &self.command {
            Command::Extract { overwrite_mode, .. } => *overwrite_mode,
            Command::Compress { .. } => OverwriteMode::Rename,
        }
    }

    /// Parses a command line, program name first. With `interactive` the
    /// front end can ask about conflicts: `extract` then defaults to asking
    /// and needs no output directory; without it `extract` renames by
    /// default, needs an output directory and refuses `ask`.
    pub fn parse(args: &Vec<String>, interactive: bool) -> (r: Result<Args, ArgsError>)
        ensures
            parse_result(views_of(args@), interactive, r),
    {
        if args.len() > 1 && (is_word(&args[1], "--help") || is_word(&args[1], "-h")) {
            return Err(ArgsError::HelpRequested);
        }
        let mut start: usize = 1;
        if args.len() > 1 && !has_prefix(&args[1], "--") {
            if is_word(&args[1], "compress") {
                return Args::parse_compress(args);
            }
            if is_word(&args[1], "extract") {
                start = 2;
            }
        }
        Args::parse_extract(args, start, interactive)
    }

    fn parse_extract(args: &Vec<String>, start: usize, interactive: bool) -> (r: Result<
        Args,
        ArgsError,
    >)
        requires
            1 <= start <= 2,
        ensures
            extract_result(views_of(args@), start as int, interactive, r),
    {
        let ghost v = views_of(args@);
        let ghost init = ExtractState { input: None, output: None, mode: default_mode(interactive) };
        let mut input: Option<String> = None;
        let mut output: Option<String> = None;
        let mut mode = if interactive {
            OverwriteMode::Ask
        } else {
            OverwriteMode::Rename
        };
        let mut i: usize = start;
        while i < args.len()
            invariant
                v == views_of(args@),
                init == (ExtractState { input: None, output: None, mode: default_mode(interactive) }),
                extract_from(v, start as int, init) == extract_from(
                    v,
                    i as int,
                    ExtractState { input: opt_view(input), output: opt_view(output), mode },
                ),
            decreases args@.len() - i,
        {
            let a = &args[i];
            assert(v[i as int] == a@);
            if has_prefix(a, "--overwrite-mode=") {
                let m = rest_after(a, "--overwrite-mode=");
                match mode_of(&m) {
                    Some(md) => {
                        mode = md;
                    },
                    None => {
                        return Err(ArgsError::InvalidOverwriteMode { index: i });
                    },
                }
            } else if has_prefix(a, "--output-dir=") {
                output = Some(rest_after(a, "--output-dir="));
            } else if is_word(a, "--output-dir") {
                if i + 1 >= args.len() {
                    return Err(ArgsError::MissingValue { index: i });
                }
                i = i + 1;
                assert(v[i as int] == args@[i as int]@);
                output = Some(args[i].clone());
            } else if is_word(a, "--help") || is_word(a, "-h") {
                return Err(ArgsError::HelpRequested);
            } else if !has_prefix(a, "--") {
                if input.is_none() {
                    input = Some(a.clone());
                } else if output.is_none() {
                    output = Some(a.clone());
                } else {
                    return Err(ArgsError::UnknownArgument { index: i });
                }
            } else {
                return Err(ArgsError::UnknownOption { index: i });
            }
            i = i + 1;
        }
        match input {
            None => Err(ArgsError::MissingInputFile),
            Some(input_file) => {
                if !interactive && output.is_none() {
                    return Err(ArgsError::MissingOutputDir);
                }
                if !interactive && mode == OverwriteMode::Ask {
                    return Err(ArgsError::AskNotSupported);
                }
                Ok(
                    Args {
                        command: Command::Extract {
                            input_file,
                            output_dir: output,
                            overwrite_mode: mode,
                        },
                    },
                )
            },
        }
    }

    fn parse_compress(args: &Vec<String>) -> (r: Result<Args, ArgsError>)
        ensures
            compress_result(views_of(args@), r),
    {
        let ghost v = views_of(args@);
        let ghost init = CompressState { input: None, output: None, root: None };
        let mut input: Option<String> = None;
        let mut output: Option<String> = None;
        let mut root: Option<String> = None;
        let mut i: usize = 2;
        while i < args.len()
            invariant
                v == views_of(args@),
                init == (CompressState { input: None, output: None, root: None }),
                compress_from(v, 2, init) == compress_from(
                    v,
                    i as int,
                    CompressState {
                        input: opt_view(input),
                        output: opt_view(output),
                        root: opt_view(root),
                    },
                ),
            decreases args@.len() - i,
        {
            let a = &args[i];
            assert(v[i as int] == a@);
            if has_prefix(a, "--output=") {
                output = Some(rest_after(a, "--output="));
            } else if is_word(a, "--output") || is_word(a, "-o") {
                if i + 1 >= args.len() {
                    return Err(ArgsError::MissingValue { index: i });
                }
                i = i + 1;
                assert(v[i as int] == args@[i as int]@);
                output = Some(args[i].clone());
            } else if has_prefix(a, "--project-root=") {
                root = Some(rest_after(a, "--project-root="));
            } else if is_word(a, "--project-root") {
                if i + 1 >= args.len() {
                    return Err(ArgsError::MissingValue { index: i });
                }
                i = i + 1;
                assert(v[i as int] == args@[i as int]@);
                root = Some(args[i].clone());
            } else if is_word(a, "--help") || is_word(a, "-h") {
                return Err(ArgsError::HelpRequested);
            } else if !has_prefix(a, "--") {
                if input.is_none() {
                    input = Some(a.clone());
                } else if output.is_none() {
                    output = Some(a.clone());
                } else {
                    return Err(ArgsError::UnknownArgument { index: i });
                }
            } else {
                return Err(ArgsError::UnknownOption { index: i });
            }
            i = i + 1;
        }
        match input {
            None => Err(ArgsError::MissingInputDir),
            Some(input_dir) => match output {
                None => Err(ArgsError::MissingOutputFile),
                Some(output_file) => Ok(
                    Args { command: Command::Compress { input_dir, output_file, project_root: root } },
                ),
            },
        }
    }
}

} // verus!

verus! {

pub const USAGE_0: &'static str = "Usage: ";

pub const USAGE_1: &'static str = " [COMMAND] [OPTIONS]\n\nCommands:\n  extract                 Extract .unitypackage file (default)\n  compress                Compress directory to .unitypackage file\n\nEXTRACT MODE:\n  Usage: ";

pub const USAGE_2: &'static str = " [extract] <input.unitypackage> [OPTIONS]\n\n  Arguments:\n    <input.unitypackage>    Input .unitypackage file\n\n  Options:\n    --output-dir <dir>      Output directory";

pub const USAGE_3: &'static str = "\n    --overwrite-mode <mode> Overwrite mode: overwrite, skip, rename, ask\n                            Default: ";

pub const USAGE_4: &'static str = "\n    -h, --help              Show this help message\n\n  Examples:\n    # CLI mode (GUI feature disabled)\n    ";

pub const USAGE_5: &'static str = " input.unitypackage --output-dir ./output --overwrite-mode=rename\n\n    # GUI mode (GUI feature enabled)\n    ";

pub const USAGE_6: &'static str = " input.unitypackage\n    ";

pub const USAGE_7: &'static str = " input.unitypackage --output-dir ./output\n\nCOMPRESS MODE:\n  Usage: ";

pub const USAGE_8: &'static str = " compress <input-dir> <output.unitypackage> [OPTIONS]\n  Usage: ";

pub const USAGE_9: &'static str = " compress <input-dir> --output <output.unitypackage>\n\n  Arguments:\n    <input-dir>             Input directory to compress\n    <output.unitypackage>   Output .unitypackage file\n\n  Options:\n    --output, -o <file>     Output .unitypackage file (alternative)\n    --project-root <dir>    Project root directory (for relative paths in package)\n                            If not specified, uses parent of input-dir\n    -h, --help              Show this help message\n\n  Examples:\n    # シンプルな使い方（input-dirが基準）\n    ";

pub const USAGE_10: &'static str = " compress ./Assets/MyPackage output.unitypackage\n\n    # プロジェクトルートを指定（Assets/MyPackageの内容をMyPackage/として圧縮）\n    ";

pub const USAGE_11: &'static str = " compress ./MyUnityProject/Assets/MyPackage output.unitypackage --project-root ./MyUnityProject/Assets\n";

/// What the usage text says of the output directory.
pub open spec fn output_dir_note(interactive: bool) -> Seq<char> {
    if interactive {
        ""@
    } else {
        " (required in CLI mode)"@
    }
}

/// What the usage text says of the default conflict mode.
pub open spec fn default_mode_note(interactive: bool) -> Seq<char> {
    if interactive {
        "ask"@
    } else {
        "rename (ask not available in CLI mode)"@
    }
}

/// The usage text for `program`.
pub open spec fn usage_text(program: Seq<char>, interactive: bool) -> Seq<char> {
    USAGE_0@
        + program
        + USAGE_1@
        + program
        + USAGE_2@
        + output_dir_note(interactive)
        + USAGE_3@
        + default_mode_note(interactive)
        + USAGE_4@
        + program
        + USAGE_5@
        + program
        + USAGE_6@
        + program
        + USAGE_7@
        + program
        + USAGE_8@
        + program
        + USAGE_9@
        + program
        + USAGE_10@
        + program
        + USAGE_11@
}

impl Args {
    /// The usage text for `program`, as printed for `--help`.
    pub fn usage(program: &str, interactive: bool) -> (r: String)
        ensures
            r@ == usage_text(program@, interactive),
    {
        let mut s = String::from_str(USAGE_0);
        s.append(program);
        s.append(USAGE_1);
        s.append(program);
        s.append(USAGE_2);
        s.append(if interactive { "" } else { " (required in CLI mode)" });
        s.append(USAGE_3);
        s.append(if interactive { "ask" } else { "rename (ask not available in CLI mode)" });
        s.append(USAGE_4);
        s.append(program);
        s.append(USAGE_5);
        s.append(program);
        s.append(USAGE_6);
        s.append(program);
        s.append(USAGE_7);
        s.append(program);
        s.append(USAGE_8);
        s.append(program);
        s.append(USAGE_9);
        s.append(program);
        s.append(USAGE_10);
        s.append(program);
        s.append(USAGE_11);
        s
    }
}

} // verus!
