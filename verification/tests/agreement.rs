use lev::cli::parse_key_val;
use lev::{Options, UsageError};
use structopt::clap::{App, AppSettings, Arg, ErrorKind, SubCommand};

fn function<'a, 'b>() -> Arg<'a, 'b> {
    Arg::with_name("function")
        .takes_value(true)
        .multiple(false)
        .required(true)
        .short("f")
        .long("function")
}

/// The command line as `clap` is told of it.
fn described<'a, 'b>() -> App<'a, 'b> {
    App::new("lev")
        .version("0.1.0")
        .setting(AppSettings::SubcommandRequiredElseHelp)
        .subcommand(SubCommand::with_name("get").arg(function()))
        .subcommand(
            SubCommand::with_name("set").arg(function()).arg(
                Arg::with_name("name=value")
                    .takes_value(true)
                    .multiple(true)
                    .validator(|s| parse_key_val(&s).map(|_| ())),
            ),
        )
        .subcommand(
            SubCommand::with_name("unset")
                .arg(function())
                .arg(Arg::with_name("names").takes_value(true).multiple(true)),
        )
}

fn by_clap(args: &[&str]) -> Result<Options, ErrorKind> {
    let matches = described()
        .get_matches_from_safe(args)
        .map_err(|report| report.kind)?;
    let (name, inner) = matches.subcommand();
    let inner = inner.expect("a command");
    let function = inner.value_of("function").expect("a function").to_string();
    Ok(match name {
        "get" => Options::Get { function },
        "set" => Options::Assign {
            function,
            vars: inner
                .values_of("name=value")
                .map(|values| values.map(|v| parse_key_val(v).expect("a pair")).collect())
                .unwrap_or_default(),
        },
        _ => Options::Unset {
            function,
            names: inner
                .values_of("names")
                .map(|values| values.map(str::to_string).collect())
                .unwrap_or_default(),
        },
    })
}

/// Whether both take the line, and then for the same options, or both
/// refuse it, and then alike for help, for the version, or for neither.
fn agree(ours: &Result<Options, UsageError>, theirs: &Result<Options, ErrorKind>) -> bool {
    match (ours, theirs) {
        (Ok(ours), Ok(theirs)) => ours == theirs,
        (Err(ours), Err(theirs)) => {
            (*ours == UsageError::Help) == (*theirs == ErrorKind::HelpDisplayed)
                && (*ours == UsageError::Version) == (*theirs == ErrorKind::VersionDisplayed)
        }
        _ => false,
    }
}

fn disagreements(lines: &[&[&str]]) -> Vec<String> {
    lines
        .iter()
        .filter_map(|line| {
            let ours = Options::from_iter(line);
            let theirs = by_clap(line);
            if agree(&ours, &theirs) {
                None
            } else {
                Some(format!("{:?}: {:?} against {:?}", line, ours, theirs))
            }
        })
        .collect()
}

#[test]
fn well_formed_lines_are_read_as_clap_reads_them() {
    let lines: &[&[&str]] = &[
        &["lev", "get", "-f", "foo"],
        &["lev", "get", "-ffoo"],
        &["lev", "get", "-f=foo"],
        &["lev", "get", "--function", "foo"],
        &["lev", "get", "--function=foo"],
        &["lev", "get", "---function", "foo"],
        &["lev", "get", "----function=foo"],
        &["lev", "get", "--function="],
        &["lev", "get", "-f="],
        &["lev", "get", "-f", ""],
        &["lev", "get", "-f", "-"],
        &["lev", "get", "-fa=b"],
        &["lev", "get", "--function=a=b"],
        &["lev", "get", "-f==b"],
        &["lev", "get", "--function==b"],
        &["lev", "get", "-f==="],
        &["lev", "get", "--function==="],
        &["lev", "get", "-f=a="],
        &["lev", "get", "-f==a=="],
        &["lev", "get", "-f", "=a"],
        &["lev", "get", "--function", "=a"],
        &["lev", "get", "-fh"],
        &["lev", "get", "-f-x"],
        &["lev", "get", "--function=-x"],
        &["lev", "get", "-f=-x"],
        &["lev", "get", "-f", "get"],
        &["lev", "get", "-f", "help"],
        &["lev", "get", "-f", "foo", "--"],
        &["lev", "get", "-f\u{e9}"],
        &["lev", "get", "--function=\u{e9}"],
        &["lev", "set", "-f", "foo"],
        &["lev", "set", "-f", "foo", "bar=baz", "boom=zoom"],
        &["lev", "set", "bar=baz", "-f", "foo", "boom=zoom"],
        &["lev", "set", "-f", "foo", "=b"],
        &["lev", "set", "-f", "foo", "a="],
        &["lev", "set", "-f", "foo", "="],
        &["lev", "set", "-f", "foo", "a=b", "a=c"],
        &["lev", "set", "-f", "foo", "a=1,b=2"],
        &["lev", "set", "-f", "foo", "--", "-a=b", "--x=y"],
        &["lev", "set", "-f", "x", "a=b", "--", "c=d"],
        &["lev", "set", "-f", "\u{e9}", "\u{20ac}=\u{e9}"],
        &["lev", "unset", "-f", "foo"],
        &["lev", "unset", "-f", "foo", "bar", "baz"],
        &["lev", "unset", "bar", "-f", "foo", "baz"],
        &["lev", "unset", "-f", "foo", "-"],
        &["lev", "unset", "-f", "-", "-", ""],
        &["lev", "unset", "-f", "foo", ""],
        &["lev", "unset", "-f", "foo", "a,b"],
        &["lev", "unset", "-f", "a,b", "c"],
        &["lev", "unset", "-f", "foo", "--", "-f", "--help", "--"],
        &["lev", "unset", "-f", "foo", "help"],
        &["lev", "unset", "-f", "foo", "get"],
        &["lev", "unset", "-f", "foo", "bar", "--", "baz"],
        &["lev", "unset", "-f", "foo", "bar", "--", "--", "baz"],
        &["lev", "unset", "-f", "x", "--"],
        &["lev", "unset", "-f", "\u{e9}", "\u{20ac}=\u{e9}"],
    ];
    for line in lines {
        assert!(by_clap(line).is_ok(), "{:?}", line);
    }
    assert_eq!(disagreements(lines), Vec::<String>::new());
}

#[test]
fn ill_formed_lines_are_refused_as_clap_refuses_them() {
    let lines: &[&[&str]] = &[
        &["lev"],
        &["lev", "get"],
        &["lev", "get", "-f"],
        &["lev", "get", "--function"],
        &["lev", "get", "-f", "-x"],
        &["lev", "get", "-f", "--x"],
        &["lev", "get", "-f", "--"],
        &["lev", "get", "-f", "foo", "bar"],
        &["lev", "get", "-f", "foo", "-f", "bar"],
        &["lev", "get", "-ffoo", "--function=bar"],
        &["lev", "get", "--function", "x", "--function=y"],
        &["lev", "get", "-f", "-f", "foo"],
        &["lev", "get", "-f", "foo", "-f"],
        &["lev", "get", "--functions", "foo"],
        &["lev", "get", "--func", "foo"],
        &["lev", "get", "-x"],
        &["lev", "get", "-F", "foo"],
        &["lev", "get", "-\u{e9}"],
        &["lev", "get", "\u{e9}"],
        &["lev", "get", "--", "-f", "foo"],
        &["lev", "get", "-f", "foo", "--", "x"],
        &["lev", "get", "-f", "x", "--", "--"],
        &["lev", "get", "--"],
        &["lev", "get", "help"],
        &["lev", "get", "x", "-f", "y"],
        &["lev", "get", "-f", "foo", "-"],
        &["lev", "get", "-f", "foo", ""],
        &["lev", "get", "---"],
        &["lev", "get", "---", "-f", "foo"],
        &["lev", "get", "-f", "foo", "---"],
        &["lev", "get", "--=", "-f", "foo"],
        &["lev", "get", "--=x", "-f", "foo"],
        &["lev", "set", "-f", "foo", "bar"],
        &["lev", "set", "-f", "foo", "bar", "-x"],
        &["lev", "set", "bar"],
        &["lev", "set", "bar=baz"],
        &["lev", "set", "-f", "foo", ""],
        &["lev", "set", "-f", "foo", "-"],
        &["lev", "set", "-f", "foo", "-a=b"],
        &["lev", "set", "-f", "x", "--", "c"],
        &["lev", "set", "--", "c=d"],
        &["lev", "set", "-f", "x", "--", "--", "a=b"],
        &["lev", "unset", "bar", "baz"],
        &["lev", "unset", "-f", "foo", "--frob"],
        &["lev", "unset", "-f", "--", "x"],
        &["lev", "unset", "--", "-f", "x"],
        &["lev", "unset", "a", "--", "-f", "x"],
        &["lev", "unset", "-f", "x", "-f=y"],
        &["lev", "unset", "-fx", "a", "-fy"],
        &["lev", "frob"],
        &["lev", "frob", "-f", "foo"],
        &["lev", "ge", "-f", "foo"],
        &["lev", "gett", "-f", "foo"],
        &["lev", "GET", "-f", "foo"],
        &["lev", "-f", "foo", "get"],
        &["lev", "-x"],
        &["lev", "--frob"],
        &["lev", "--"],
        &["lev", "--", "get", "-f", "foo"],
        &["lev", "-"],
        &["lev", ""],
        &["lev", "help", "frob"],
        &["lev", "help", "get", "frob"],
        &["lev", "help", "help", "get"],
        &["lev", "help", "--help"],
        &["lev", "help", "-x"],
    ];
    for line in lines {
        let theirs = by_clap(line);
        assert!(
            theirs.is_err()
                && theirs != Err(ErrorKind::HelpDisplayed)
                && theirs != Err(ErrorKind::VersionDisplayed),
            "{:?}",
            line
        );
    }
    assert_eq!(disagreements(lines), Vec::<String>::new());
}

#[test]
fn help_and_version_are_asked_for_as_clap_takes_it() {
    let lines: &[&[&str]] = &[
        &["lev", "help"],
        &["lev", "help", "get"],
        &["lev", "help", "set"],
        &["lev", "help", "unset"],
        &["lev", "help", "help"],
        &["lev", "-h"],
        &["lev", "--help"],
        &["lev", "---help"],
        &["lev", "--help=1"],
        &["lev", "-hV"],
        &["lev", "-h", "frob"],
        &["lev", "--help", "get"],
        &["lev", "-V"],
        &["lev", "--version"],
        &["lev", "-Vh"],
        &["lev", "get", "-h"],
        &["lev", "get", "--help"],
        &["lev", "get", "---help"],
        &["lev", "get", "--help=1"],
        &["lev", "get", "-V"],
        &["lev", "get", "--version"],
        &["lev", "get", "--version=1"],
        &["lev", "get", "-hf", "foo"],
        &["lev", "get", "-f", "--help"],
        &["lev", "get", "-f", "foo", "-h"],
        &["lev", "get", "-f", "foo", "-V"],
        &["lev", "get", "-f", "x", "-h=1"],
        &["lev", "get", "-f", "x", "--help=1"],
        &["lev", "get", "-f", "foo", "-f", "bar", "--help"],
        &["lev", "set", "-f", "foo", "bar", "--help"],
        &["lev", "set", "bar", "-V"],
        &["lev", "unset", "--version", "-f", "foo"],
        &["lev", "unset", "-f", "--version"],
    ];
    for line in lines {
        let theirs = by_clap(line);
        assert!(
            theirs == Err(ErrorKind::HelpDisplayed) || theirs == Err(ErrorKind::VersionDisplayed),
            "{:?}",
            line
        );
    }
    assert_eq!(disagreements(lines), Vec::<String>::new());
}

#[test]
fn every_short_line_over_a_few_words_is_read_as_clap_reads_it() {
    let words = [
        "-f", "-ffoo", "-f==", "--function", "--function=x", "---function", "--", "-", "", "a",
        "a=b", "-h", "--help=1", "-V", "-x", "help",
    ];
    let mut found: Vec<String> = Vec::new();
    let mut lines: usize = 0;
    for command in ["get", "set", "unset"] {
        for first in words.iter().map(Some).chain([None]) {
            for second in words.iter().map(Some).chain([None]) {
                for third in words.iter().map(Some).chain([None]) {
                    let mut line = vec!["lev", command];
                    line.extend([first, second, third].iter().flatten().copied());
                    let ours = Options::from_iter(&line);
                    let theirs = by_clap(&line);
                    lines += 1;
                    if !agree(&ours, &theirs) && found.len() < 10 {
                        found.push(format!("{:?}: {:?} against {:?}", line, ours, theirs));
                    }
                }
            }
        }
    }
    assert_eq!(lines, 3 * 17 * 17 * 17);
    assert_eq!(found, Vec::<String>::new());
}

#[test]
fn every_short_line_without_a_command_is_refused_as_clap_refuses_it() {
    let words = [
        "-f", "-ffoo", "--function=x", "--", "-", "", "a", "a=b", "-h", "-hx", "--help",
        "--help=1", "---help", "-V", "--version", "-x", "--frob", "help", "get", "set", "unset",
        "Get",
    ];
    let mut found: Vec<String> = Vec::new();
    for first in words.iter().filter(|word| !["get", "set", "unset"].contains(*word)) {
        for second in words.iter().map(Some).chain([None]) {
            for third in words.iter().map(Some).chain([None]) {
                let mut line = vec!["lev", *first];
                line.extend([second, third].iter().flatten().copied());
                let ours = Options::from_iter(&line);
                let theirs = by_clap(&line);
                assert!(theirs.is_err(), "{:?}", line);
                if !agree(&ours, &theirs) && found.len() < 10 {
                    found.push(format!("{:?}: {:?} against {:?}", line, ours, theirs));
                }
            }
        }
    }
    assert_eq!(found, Vec::<String>::new());
}
