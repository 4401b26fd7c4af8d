//! The command line: `cursor-cleaner [--config PATH]`, plus `--help` and
//! `--version`.

use vstd::prelude::*;
use crate::error::AppError;

verus! {

/// What the command line asks for.
#[derive(Debug, PartialEq, Eq)]
pub enum Invocation {
    /// Run the interface, with the configuration file given, if any.
    Run { config: Option<String> },
    /// Print the usage and stop.
    Help,
    /// Print the version and stop.
    Version,
}

/// What a command line means, as plain values.
pub enum ArgsView {
    Run(Option<Seq<char>>),
    Help,
    Version,
    MissingConfigPath,
    Unknown(Seq<char>),
}

/// Reads the arguments from the left: `--config` takes the next argument
/// (the last one given wins); `--help`/`-h` and `--version`/`-V` stop the
/// reading; anything else is refused.
pub open spec fn read_args(args: Seq<Seq<char>>, config: Option<Seq<char>>) -> ArgsView
    decreases args.len(),
{
    if args.len() == 0 {
        ArgsView::Run(config)
    } else if args[0] == "--config"@ {
        if args.len() < 2 {
            ArgsView::MissingConfigPath
        } else {
            read_args(args.skip(2), Some(args[1]))
        }
    } else if args[0] == "--help"@ || args[0] == "-h"@ {
        ArgsView::Help
    } else if args[0] == "--version"@ || args[0] == "-V"@ {
        ArgsView::Version
    } else {
        ArgsView::Unknown(args[0])
    }
}

/// The usage text.
pub fn usage() -> (r: &'static str)
    ensures
        r@ == "cursor-cleaner [--config PATH]\n\n默认只读检测 Cursor 本地数据库；清理成功后不会保留独立备份。"@,
{
    "cursor-cleaner [--config PATH]\n\n默认只读检测 Cursor 本地数据库；清理成功后不会保留独立备份。"
}

/// Reads the command line, without the program name (see `read_args`).
pub fn parse_arguments(args: &Vec<String>) -> (r: Result<Invocation, AppError>)
    ensures
        match read_args(args.deep_view(), None) {
            ArgsView::Run(c) => r matches Ok(Invocation::Run { config }) && match config {
                Some(p) => c == Some(p@),
                None => c is None,
            },
            ArgsView::Help => r == Ok::<Invocation, AppError>(Invocation::Help),
            ArgsView::Version => r == Ok::<Invocation, AppError>(Invocation::Version),
            ArgsView::MissingConfigPath => r matches Err(AppError::InvalidConfig(m)) && m@ == "--config 后缺少路径"@,
            ArgsView::Unknown(a) => r matches Err(AppError::InvalidConfig(m)) && m@ == "未知参数："@ + a,
        },
{
    let ghost all = args.deep_view();
    let config_flag = String::from_str("--config");
    let help_long = String::from_str("--help");
    let help_short = String::from_str("-h");
    let version_long = String::from_str("--version");
    let version_short = String::from_str("-V");
    let mut config: Option<String> = None;
    let mut i: usize = 0;
    assert(all.skip(0) =~= all);
    while i < args.len()
        invariant
            i <= all.len(),
            all == args.deep_view(),
            config_flag@ == "--config"@,
            help_long@ == "--help"@,
            help_short@ == "-h"@,
            version_long@ == "--version"@,
            version_short@ == "-V"@,
            read_args(all, None) == read_args(
                all.skip(i as int),
                match config {
                    Some(p) => Some(p@),
                    None => None,
                },
            ),
        decreases all.len() - i,
    {
        let ghost rest = all.skip(i as int);
        assert(rest[0] == args@[i as int]@);
        if args[i] == config_flag {
            if i + 1 >= args.len() {
                return Err(AppError::InvalidConfig(String::from_str("--config 后缺少路径")));
            }
            assert(rest[1] == args@[i + 1]@);
            assert(rest.skip(2) =~= all.skip(i + 2));
            config = Some(args[i + 1].clone());
            i = i + 2;
        } else if args[i] == help_long || args[i] == help_short {
            return Ok(Invocation::Help);
        } else if args[i] == version_long || args[i] == version_short {
            return Ok(Invocation::Version);
        } else {
            let mut m = String::from_str("未知参数：");
            m.append(args[i].as_str());
            return Err(AppError::InvalidConfig(m));
        }
    }
    assert(all.skip(i as int).len() == 0);
    Ok(Invocation::Run { config })
}

} // verus!
