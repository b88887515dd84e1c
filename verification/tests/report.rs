use prek::config::Stage;
use prek::report::{
    ci_hint, diff_color_flag, dry_run_output, hook_details, no_hooks_for_stage_message,
    no_hooks_message, trimmed_ascii, unimplemented_warning,
};
use prek::text::{decimal_text, signed_decimal_text};

#[test]
fn decimal_numbers() {
    assert_eq!(decimal_text(0), "0");
    assert_eq!(decimal_text(7), "7");
    assert_eq!(decimal_text(120), "120");
    assert_eq!(decimal_text(u64::MAX), "18446744073709551615");
    assert_eq!(signed_decimal_text(0), "0");
    assert_eq!(signed_decimal_text(-5), "-5");
    assert_eq!(signed_decimal_text(130), "130");
    assert_eq!(signed_decimal_text(i32::MIN), "-2147483648");
    assert_eq!(signed_decimal_text(i32::MAX), "2147483647");
}

#[test]
fn ascii_trimming() {
    assert_eq!(trimmed_ascii(&b"  \t hi there\r\n".to_vec()), b"hi there".to_vec());
    assert_eq!(trimmed_ascii(&b" \n\x0c\r\t ".to_vec()), Vec::<u8>::new());
    assert_eq!(trimmed_ascii(&Vec::new()), Vec::<u8>::new());
    assert_eq!(trimmed_ascii(&b"\x0bkeep\x0b".to_vec()), b"\x0bkeep\x0b".to_vec());
    assert_eq!(trimmed_ascii(&b"a b".to_vec()), b"a b".to_vec());
}

#[test]
fn details_of_a_failed_hook() {
    let details = hook_details("fmt", true, "0.25", 1, true, &b"  hello\nworld\n".to_vec(), false);
    assert_eq!(
        details.text,
        "\x1b[2m- hook id: fmt\x1b[0m\n\
         \x1b[2m- duration: 0.25s\x1b[0m\n\
         \x1b[2m- exit code: 1\x1b[0m\n\
         \x1b[2m- files were modified by this hook\x1b[0m\n\
         \x1b[2m  hello\n  world\x1b[0m\n"
    );
    assert_eq!(details.log, None);
}

#[test]
fn details_send_output_to_the_log_file() {
    let details = hook_details("lint", false, "0.10", -2, false, &b"\nproblem\n\n".to_vec(), true);
    assert_eq!(
        details.text,
        "\x1b[2m- hook id: lint\x1b[0m\n\x1b[2m- exit code: -2\x1b[0m\n"
    );
    assert_eq!(details.log, Some(b"problem".to_vec()));
}

#[test]
fn details_without_output() {
    let details = hook_details("ok", false, "0.01", 0, false, &b" \n ".to_vec(), true);
    assert_eq!(details.text, "\x1b[2m- hook id: ok\x1b[0m\n");
    assert_eq!(details.log, None);
}

#[test]
fn details_decode_invalid_utf8_lossily() {
    let details = hook_details("bin", false, "", 0, false, &vec![0xff, b'a', b'\n', b'\n', b'b'], false);
    assert_eq!(
        details.text,
        "\x1b[2m- hook id: bin\x1b[0m\n\x1b[2m  \u{fffd}a\n\n  b\x1b[0m\n"
    );
}

#[test]
fn dry_run_lists_the_files() {
    let files = vec!["a.py".to_string(), "src/b.py".to_string()];
    assert_eq!(
        dry_run_output("black", &files),
        "`black` would be run on 2 files:\n- a.py\n- src/b.py\n"
    );
    assert_eq!(dry_run_output("black", &vec![]), "");
}

#[test]
fn run_messages() {
    assert_eq!(
        no_hooks_message(),
        "\x1b[1m\x1b[31merror\x1b[39m\x1b[0m: No hooks found after filtering with the given selectors"
    );
    assert_eq!(
        no_hooks_for_stage_message(Stage::PrePush),
        "\x1b[1m\x1b[31merror\x1b[39m\x1b[0m: No hooks found for stage `\x1b[36mpre-push\x1b[39m` after filtering"
    );
    assert_eq!(
        unimplemented_warning(),
        "Some hooks were skipped because their languages are unimplemented.\nWe're working hard to support more languages. Check out current support status at \x1b[4m\x1b[36mhttps://prek.j178.dev/todo/#language-support-status\x1b[39m\x1b[0m."
    );
    assert_eq!(
        ci_hint(),
        "\n\x1b[1m\x1b[33mHint\x1b[39m\x1b[0m: Some hooks made changes to the files.\nIf you are seeing this message in CI, reproduce locally with: `\x1b[36mprek run --all-files\x1b[39m`\nTo run prek as part of git workflow, use `\x1b[36mprek install\x1b[39m` to set up git hooks.\n"
    );
    assert_eq!(diff_color_flag(true), "--color=always");
    assert_eq!(diff_color_flag(false), "--color=never");
}

#[test]
fn details_indent_blank_lines_with_the_trimmed_prefix() {
    let details = hook_details("ws", false, "", 0, false, &b"a\n \n\nb".to_vec(), false);
    assert_eq!(
        details.text,
        "\x1b[2m- hook id: ws\x1b[0m\n\x1b[2m  a\n \n\n  b\x1b[0m\n"
    );
}
