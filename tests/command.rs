use rustybot::command::{
    classify, clean_message_text, should_cancel_job, should_list_active_jobs,
    should_pass_message_to_bot, Directive, BOT_ID,
};
use rustybot::ec2::{parse_filter, parse_filters, parse_limit, shown_count, DEFAULT_LIMIT};
use rustybot::indexer::{status_of, Indexer, IndexerResult};
use rustybot::polling::Status;
use rustybot::reply::{
    cancel_reply, clip_message, emoji, format_text, random_emoji, EMOJI_COUNT,
};
use rustybot::text::parse_u64;

fn to_bot(rest: &str) -> Option<String> {
    Some(format!("{} {}", BOT_ID, rest))
}

#[test]
fn cancel_requests() {
    assert_eq!(should_cancel_job(&to_bot("cancel 1001")), Some("1001".to_owned()));
    assert_eq!(should_cancel_job(&to_bot("please stop 42 now")), Some("42".to_owned()));
    assert_eq!(should_cancel_job(&to_bot("cancel me")), None);
    assert_eq!(should_cancel_job(&Some("cancel 1001".to_owned())), None);
    assert_eq!(should_cancel_job(&None), None);
    assert_eq!(should_cancel_job(&to_bot("cancel \u{661}\u{662}")), Some("\u{661}\u{662}".to_owned()));
    assert_eq!(should_cancel_job(&to_bot("stop 1\u{ff12}x")), Some("1\u{ff12}".to_owned()));
    assert_eq!(classify(&to_bot("cancel \u{966}")), Directive::Cancel("\u{966}".to_owned()));
    assert_eq!(parse_u64("\u{661}"), None);
}

#[test]
fn list_and_pass() {
    assert!(should_list_active_jobs(&to_bot("list")));
    assert!(!should_list_active_jobs(&Some("list".to_owned())));
    assert!(should_pass_message_to_bot(&to_bot("monitor x")));
    assert!(!should_pass_message_to_bot(&Some("hello".to_owned())));
    assert!(!should_pass_message_to_bot(&None));
}

#[test]
fn classify_messages() {
    assert_eq!(classify(&to_bot("stop 7")), Directive::Cancel("7".to_owned()));
    assert_eq!(classify(&to_bot("list")), Directive::List);
    assert_eq!(classify(&to_bot("help")), Directive::Run);
    assert_eq!(classify(&Some("help".to_owned())), Directive::Ignore);
    assert_eq!(classify(&None), Directive::Ignore);
}

#[test]
fn cleaning_messages() {
    assert_eq!(clean_message_text("a  b".to_owned()), "a b");
    assert_eq!(clean_message_text("a\u{a0}b".to_owned()), "a b");
    assert_eq!(clean_message_text("a \u{a0}\t b".to_owned()), "a b");
    assert_eq!(clean_message_text("a\tb".to_owned()), "a\tb");
    assert_eq!(clean_message_text("".to_owned()), "");
}

#[test]
fn reading_numbers() {
    assert_eq!(parse_u64("1001"), Some(1001));
    assert_eq!(parse_u64("+5"), Some(5));
    assert_eq!(parse_u64("18446744073709551615"), Some(u64::MAX));
    assert_eq!(parse_u64("18446744073709551616"), None);
    assert_eq!(parse_u64(""), None);
    assert_eq!(parse_u64("+"), None);
    assert_eq!(parse_u64("12a"), None);
}

#[test]
fn ls_options() {
    assert_eq!(
        parse_filter("instance-type=t2.micro"),
        Some(("instance-type".to_owned(), "t2.micro".to_owned()))
    );
    assert_eq!(parse_filter("a=b=c"), None);
    assert_eq!(parse_filter("ab"), None);
    assert_eq!(parse_filter("=x"), Some(("".to_owned(), "x".to_owned())));
    let values = vec!["k=v".to_owned(), "bad".to_owned(), "tag:Name=dev".to_owned()];
    assert_eq!(
        parse_filters(&values),
        vec![
            ("k".to_owned(), "v".to_owned()),
            ("tag:Name".to_owned(), "dev".to_owned())
        ]
    );
    assert_eq!(parse_limit(None), DEFAULT_LIMIT);
    assert_eq!(parse_limit(Some("5")), 5);
    assert_eq!(parse_limit(Some("five")), 3);
    assert_eq!(shown_count(3, 10), 3);
    assert_eq!(shown_count(5, 2), 2);
}

#[test]
fn indexer_status_words() {
    assert_eq!(status_of("indexing"), Status::Busy);
    assert_eq!(status_of("waiting"), Status::Settled);
    assert_eq!(status_of("paused"), Status::Other);
    let report = Indexer {
        status: "waiting".to_owned(),
        results: vec![IndexerResult { cycle_took: "1s".to_owned() }],
    };
    assert_eq!(report.status_kind(), Status::Settled);
}

#[test]
fn replies() {
    assert_eq!(format_text("hi", true, "1001"), "hi [JOB 1001]");
    assert_eq!(format_text("hi", false, "1001"), "hi");
    assert_eq!(clip_message("abcdef", 3), "abc");
    assert_eq!(clip_message("ab", 3), "ab");
    assert_eq!(cancel_reply("1001", true), "Canceling 1001");
    assert_eq!(cancel_reply("9", false), "No active job 9 found");
    assert_eq!(emoji(3), ":duck:");
    let all: Vec<String> = (0..EMOJI_COUNT).map(emoji).collect();
    for _ in 0..20 {
        assert!(all.contains(&random_emoji()));
    }
}
