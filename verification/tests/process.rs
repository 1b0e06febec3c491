use bitforge::process::announce_line;
use bitforge::process::classify_exit;
use bitforge::process::exit_text;
use bitforge::process::ProcessExit;

#[test]
fn exit_zero_is_success() {
    assert!(classify_exit("make -j4", ProcessExit::Code(0)).is_ok());
}

#[test]
fn nonzero_exit_names_code_and_command() {
    let e = classify_exit("make -j4", ProcessExit::Code(17)).unwrap_err();
    assert_eq!(e.text(), "Command failed (exit 17): make -j4");
    assert!(e.text().contains("17"));
    assert!(e.text().contains("make -j4"));
}

#[test]
fn signal_exit_names_signal_and_command() {
    let e = classify_exit("./configure", ProcessExit::Signal).unwrap_err();
    assert_eq!(e.text(), "Command failed (exit signal): ./configure");
}

#[test]
fn negative_codes_are_rendered_with_a_sign() {
    let e = classify_exit("cmd", ProcessExit::Code(-3)).unwrap_err();
    assert_eq!(e.text(), "Command failed (exit -3): cmd");
    assert_eq!(exit_text(&ProcessExit::Code(i32::MIN)), "-2147483648");
    assert_eq!(exit_text(&ProcessExit::Code(255)), "255");
}

#[test]
fn commands_are_announced_on_their_own_line() {
    assert_eq!(announce_line("git checkout 'v25.0'"), "\n$ git checkout 'v25.0'\n");
}
