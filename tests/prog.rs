use rpf::{Exit, ExitStatus, PathBuf, Prog, Styled, Color};

#[test]
fn test_prog() {
    let prog = Prog { name: "util", vers: "0.1.0", yr: "2015" };
    assert_eq!(prog.name, "util");
    assert_eq!(prog.vers, "0.1.0");
    assert_eq!(prog.yr, "2015");
}

#[test]
fn test_prog_copyright() {
    let prog = Prog { name: "util", vers: "0.1.0", yr: "2015" };
    let license = "Copyright (C) 2015 util developers\n\
    License GPLv3+: GNU GPL version 3 or later <http://gnu.org/licenses/gpl.html>.\n\
    This is free software: you are free to change and redistribute it.\n\
    There is NO WARRANTY, to the extent permitted by law.\n";
    let text = prog.copyright(license, &["Author"]);
    assert_eq!(text, format!("util 0.1.0\n{}Written by Author\n", license));
}

#[test]
fn copyright_joins_authors_with_spaces() {
    let prog = Prog { name: "tool", vers: "2.3", yr: "2020" };
    assert_eq!(prog.copyright("L\n", &["Ann", "Bo", "Cy"]), "tool 2.3\nL\nWritten by Ann Bo Cy\n");
    assert_eq!(prog.copyright("", &[]), "tool 2.3\nWritten by \n");
}

#[test]
fn missing_arguments_report() {
    let prog = Prog { name: "util", vers: "0.1.0", yr: "2015" };
    let report = prog.prog_try();
    assert_eq!(report.message, "util: Missing arguments\nTry 'util --help' for more information");
    assert_eq!(report.status, ExitStatus::ArgError);
    assert_eq!(report.status.code(), 3);
}

#[test]
fn exit_codes_are_fixed() {
    assert_eq!(ExitStatus::Success.code(), 0);
    assert_eq!(ExitStatus::Error.code(), 1);
    assert_eq!(ExitStatus::OptError.code(), 2);
    assert_eq!(ExitStatus::ArgError.code(), 3);
}

#[test]
fn error_report_is_red_name_and_message() {
    let prog = Prog { name: "util", vers: "0.1.0", yr: "2015" };
    let report = prog.error("bad input", ExitStatus::OptError);
    assert_eq!(report.status, ExitStatus::OptError);
    assert_eq!(report.message, "\u{1b}[31mutil\u{1b}[0m\u{1b}[31m:\u{1b}[0m \u{1b}[31mbad input\u{1b}[0m");
    let expected = format!("{}{} {}", "util".paint(Color::Red).to_text(),
        ":".paint(Color::Red).to_text(), "bad input".paint(Color::Red).to_text());
    assert_eq!(report.message, expected);
}

#[test]
fn path_error_report_names_the_path() {
    let prog = Prog { name: "util", vers: "0.1.0", yr: "2015" };
    let report = prog.path_error("not found", &PathBuf::from("/tmp/x"));
    assert_eq!(report.status, ExitStatus::Error);
    assert_eq!(report.message, "\u{1b}[31m/tmp/x\u{1b}[0m\u{1b}[31m:\u{1b}[0m \u{1b}[31mnot found\u{1b}[0m");
}
