use gracekill::args::{parse_args, usage};

fn strings(items: &[&str]) -> Vec<String> {
    items.iter().map(|item| item.to_string()).collect()
}

fn parsed(items: &[&str]) -> Result<(Vec<u32>, u64), String> {
    parse_args(&strings(items), 30)
}

#[test]
fn plain_pids_keep_their_order_and_the_default_grace() {
    assert_eq!(parsed(&["1234", "5678"]), Ok((vec![1234, 5678], 30)));
}

#[test]
fn the_default_grace_is_the_callers() {
    assert_eq!(parse_args(&strings(&["1"]), 25), Ok((vec![1], 25)));
    assert_eq!(parse_args(&strings(&["1"]), 30), Ok((vec![1], 30)));
}

#[test]
fn short_option_takes_the_next_argument() {
    assert_eq!(parsed(&["-g", "10", "1234", "5678"]), Ok((vec![1234, 5678], 10)));
}

#[test]
fn long_option_takes_the_next_argument() {
    assert_eq!(
        parsed(&["--grace-seconds", "30", "1234,5678,9012"]),
        Ok((vec![1234, 5678, 9012], 30))
    );
}

#[test]
fn long_option_with_equals_sign() {
    assert_eq!(parsed(&["--grace-seconds=7", "1"]), Ok((vec![1], 7)));
    assert_eq!(parsed(&["1", "--grace-seconds=0"]), Ok((vec![1], 0)));
}

#[test]
fn a_later_grace_replaces_an_earlier_one() {
    assert_eq!(parsed(&["-g", "1", "5", "--grace-seconds=2", "-g", "3"]), Ok((vec![5], 3)));
}

#[test]
fn no_arguments_give_no_pids() {
    assert_eq!(parsed(&[]), Ok((vec![], 30)));
    assert_eq!(parsed(&["-g", "4"]), Ok((vec![], 4)));
}

#[test]
fn duplicates_are_kept() {
    assert_eq!(parsed(&["7", "7", "7,7"]), Ok((vec![7, 7, 7, 7], 30)));
}

#[test]
fn zero_is_read_like_any_number() {
    assert_eq!(parsed(&["0"]), Ok((vec![0], 30)));
}

#[test]
fn pieces_of_a_list_are_trimmed() {
    assert_eq!(parsed(&["1, 2 ,\t3\n"]), Ok((vec![1, 2, 3], 30)));
    assert_eq!(parsed(&["\u{3000}5\u{a0},\u{2003}6"]), Ok((vec![5, 6], 30)));
}

#[test]
fn a_single_number_is_not_trimmed() {
    assert_eq!(parsed(&[" 5"]), Err("Invalid PID: ' 5'".to_string()));
    assert_eq!(parsed(&["5 "]), Err("Invalid PID: '5 '".to_string()));
}

#[test]
fn a_plus_sign_may_lead() {
    assert_eq!(parsed(&["+5", "+0007, +8"]), Ok((vec![5, 7, 8], 30)));
    assert_eq!(parsed(&["+"]), Err("Invalid PID: '+'".to_string()));
    assert_eq!(parsed(&["++5"]), Err("Invalid PID: '++5'".to_string()));
    assert_eq!(parsed(&["-g", "+9", "1"]), Ok((vec![1], 9)));
}

#[test]
fn missing_grace_value() {
    assert_eq!(parsed(&["-g"]), Err("Missing value for grace-seconds".to_string()));
    assert_eq!(
        parsed(&["1", "--grace-seconds"]),
        Err("Missing value for grace-seconds".to_string())
    );
}

#[test]
fn invalid_grace_value() {
    assert_eq!(parsed(&["-g", "abc"]), Err("Invalid grace-seconds value: 'abc'".to_string()));
    assert_eq!(parsed(&["-g", "-g"]), Err("Invalid grace-seconds value: '-g'".to_string()));
    assert_eq!(parsed(&["-g", " 5"]), Err("Invalid grace-seconds value: ' 5'".to_string()));
    assert_eq!(
        parsed(&["--grace-seconds=x1", "1"]),
        Err("Invalid grace-seconds value: 'x1'".to_string())
    );
    assert_eq!(parsed(&["--grace-seconds="]), Err("Invalid grace-seconds value: ''".to_string()));
    assert_eq!(
        parsed(&["--grace-seconds=\u{e9}\u{4e2d}9"]),
        Err("Invalid grace-seconds value: '\u{e9}\u{4e2d}9'".to_string())
    );
}

#[test]
fn grace_limits() {
    assert_eq!(parsed(&["-g", "18446744073709551615"]), Ok((vec![], u64::MAX)));
    assert_eq!(
        parsed(&["-g", "18446744073709551616"]),
        Err("Invalid grace-seconds value: '18446744073709551616'".to_string())
    );
    assert_eq!(parsed(&["-g", "000000000000000000000000000012"]), Ok((vec![], 12)));
}

#[test]
fn unknown_options() {
    assert_eq!(parsed(&["-x"]), Err("Unknown option: '-x'".to_string()));
    assert_eq!(parsed(&["--grace"]), Err("Unknown option: '--grace'".to_string()));
    assert_eq!(parsed(&["-5"]), Err("Unknown option: '-5'".to_string()));
    assert_eq!(parsed(&["-"]), Err("Unknown option: '-'".to_string()));
    assert_eq!(parsed(&["-1,2"]), Err("Unknown option: '-1,2'".to_string()));
    assert_eq!(parsed(&["--grace-seconds5"]), Err("Unknown option: '--grace-seconds5'".to_string()));
}

#[test]
fn invalid_pids() {
    assert_eq!(parsed(&["12a"]), Err("Invalid PID: '12a'".to_string()));
    assert_eq!(parsed(&[""]), Err("Invalid PID: ''".to_string()));
    assert_eq!(parsed(&["1,,2"]), Err("Invalid PID: ''".to_string()));
    assert_eq!(parsed(&["1,2,"]), Err("Invalid PID: ''".to_string()));
    assert_eq!(parsed(&[","]), Err("Invalid PID: ''".to_string()));
    assert_eq!(parsed(&["1, x ,y"]), Err("Invalid PID: ' x '".to_string()));
    assert_eq!(parsed(&["1,-2"]), Err("Invalid PID: '-2'".to_string()));
    assert_eq!(parsed(&["\u{663}"]), Err("Invalid PID: '\u{663}'".to_string()));
}

#[test]
fn the_first_error_wins() {
    assert_eq!(parsed(&["1", "x", "-g"]), Err("Invalid PID: 'x'".to_string()));
    assert_eq!(parsed(&["a,b"]), Err("Invalid PID: 'a'".to_string()));
    assert_eq!(parsed(&["-q", "x"]), Err("Unknown option: '-q'".to_string()));
}

#[test]
fn pid_limits() {
    assert_eq!(parsed(&["4294967295"]), Ok((vec![u32::MAX], 30)));
    assert_eq!(parsed(&["4294967296"]), Err("Invalid PID: '4294967296'".to_string()));
    assert_eq!(parsed(&["1,99999999999999999999"]), Err("Invalid PID: '99999999999999999999'".to_string()));
}

#[test]
fn usage_text() {
    let expected = "Usage: gracekill [options] <pid>[,pid...]\n\
\n\
Arguments:\n  pid                    Process ID(s) to kill (comma or space separated)\n\
\n\
Options:\n  -g, --grace-seconds    Grace period in seconds (default: 30)\n\
\n\
Examples:\n  gracekill 1234 5678\n  gracekill -g 10 1234 5678\n  gracekill --grace-seconds 30 1234,5678,9012\n";
    assert_eq!(usage("gracekill", 30), expected);
    assert!(usage("gk", 25).contains("(default: 25)"));
    assert!(usage("gk", 25).starts_with("Usage: gk [options]"));
}
