use mint_log_filter::filter::{filter, filter_lines};
use mint_log_filter::line::parse_line;
use mint_log_filter::message::strip_annotation;
use mint_log_filter::rules::RuleSet;

fn rules(modules: &[&str], phrases: &[&str]) -> RuleSet {
    RuleSet::new(
        modules.iter().map(|m| m.to_string()).collect(),
        phrases.iter().map(|p| p.to_string()).collect(),
        "out.log".to_string(),
    )
}

#[test]
fn end_to_end_example() {
    let out = filter("12:34:56.789 INFO [core.net] - Connected [[peer=1]]", &rules(&[], &[]));
    assert_eq!(out, vec!["12:34:56.789 [core.net                 ] - Connected".to_string()]);
}

#[test]
fn excluded_module_example() {
    let r = rules(&["debug"], &[]);
    let out = filter("09:00:00.000 WARN [debug] - starting up", &r);
    assert!(out.is_empty());
    let text = "09:00:00.000 INFO [a] - one\n09:00:00.000 WARN [debug] - starting up\n09:00:00.001 INFO [a] - two";
    let out = filter(text, &r);
    assert_eq!(
        out,
        vec![
            "09:00:00.000 [a                        ] - one".to_string(),
            "09:00:00.001 [a                        ] - two".to_string(),
        ]
    );
}

#[test]
fn excluded_module_regardless_of_message() {
    let r = rules(&["db"], &[]);
    let text = "10:00:00.000 INFO [db] - anything\n10:00:00.000 ERROR [ db ] - [[x]]\n10:00:00.000 INFO [db] -  ";
    assert!(filter(text, &r).is_empty());
}

#[test]
fn module_matching_is_case_sensitive() {
    let r = rules(&["db"], &[]);
    let out = filter("10:00:00.000 INFO [DB] - kept", &r);
    assert_eq!(out, vec!["10:00:00.000 [DB                       ] - kept".to_string()]);
}

#[test]
fn excluded_start_phrase() {
    let r = rules(&[], &["Heartbeat", "poll"]);
    let text = "10:00:00.000 INFO [net] -   Heartbeat ok\n10:00:00.001 INFO [net] - polling\n10:00:00.002 INFO [net] - a poll";
    let out = filter(text, &r);
    assert_eq!(out, vec!["10:00:00.002 [net                      ] - a poll".to_string()]);
}

#[test]
fn unmatched_lines_yield_nothing() {
    let r = rules(&[], &[]);
    assert!(filter("", &r).is_empty());
    assert!(filter("\n\n", &r).is_empty());
    assert!(filter("just some free text with no brackets", &r).is_empty());
    assert!(filter("12:34:56.789 INFO core.net - no brackets", &r).is_empty());
    assert!(filter("12:34:56 INFO [m] - short timestamp", &r).is_empty());
    assert!(filter("12:34:56.789 [m] - no level", &r).is_empty());
    assert!(filter("12:34:56.789 INFO [m] -no space", &r).is_empty());
}

#[test]
fn unmatched_line_keeps_grouping_state() {
    let r = rules(&[], &[]);
    let text = "01:00:00.000 I [a] - x\nstack trace line\n\n01:00:00.001 I [a] - y";
    let out = filter(text, &r);
    assert_eq!(
        out,
        vec![
            "01:00:00.000 [a                        ] - x".to_string(),
            "01:00:00.001 [a                        ] - y".to_string(),
        ]
    );
}

#[test]
fn unicode_level_and_module() {
    let out = filter("12:34:56.789 ИНФО [сеть] - ok", &rules(&[], &[]));
    assert_eq!(out, vec!["12:34:56.789 [сеть                     ] - ok".to_string()]);
}

#[test]
fn unicode_digits_in_timestamp() {
    let out = filter("١٢:٣٤:٥٦.٧٨٩ INFO [m] - ok", &rules(&[], &[]));
    assert_eq!(out, vec!["١٢:٣٤:٥٦.٧٨٩ [m                        ] - ok".to_string()]);
    assert!(filter("ab:cd:ef.ghi INFO [m] - no", &rules(&[], &[])).is_empty());
    assert!(filter("12:34:56.789 IN-FO [m] - no", &rules(&[], &[])).is_empty());
}

#[test]
fn annotation_removed() {
    assert_eq!(strip_annotation("done [[trace:123]]"), "done");
    assert_eq!(strip_annotation("done"), "done");
    assert_eq!(strip_annotation("[[only]]"), "");
    assert_eq!(strip_annotation("a [[x]] b"), "a [[x]] b");
    assert_eq!(strip_annotation("a [[x]]   "), "a");
}

#[test]
fn only_the_last_annotation_is_removed() {
    assert_eq!(strip_annotation("done [[a]] [[b]]"), "done [[a]]");
    assert_eq!(strip_annotation("x [[[y]]"), "x [");
}

#[test]
fn module_grouping() {
    let text = "00:00:00.001 INFO [A] - 1\n00:00:00.002 INFO [A] - 2\n00:00:00.003 INFO [B] - 3\n00:00:00.004 INFO [A] - 4";
    let out = filter(text, &rules(&[], &[]));
    assert_eq!(
        out,
        vec![
            "00:00:00.001 [A                        ] - 1".to_string(),
            "00:00:00.002 [A                        ] - 2".to_string(),
            String::new(),
            "00:00:00.003 [B                        ] - 3".to_string(),
            String::new(),
            "00:00:00.004 [A                        ] - 4".to_string(),
        ]
    );
}

#[test]
fn filtering_twice_gives_the_same_output() {
    let r = rules(&["x"], &["skip"]);
    let text = "00:00:00.001 INFO [A] - 1 [[t]]\n00:00:00.002 INFO [x] - 2\n00:00:00.003 INFO [B] - skip me\n00:00:00.004 INFO [B] - 4";
    let a = filter(text, &r);
    let b = filter(text, &r);
    assert_eq!(a, b);
    assert_eq!(a.len(), 3);
}

#[test]
fn long_module_is_not_cut() {
    let out = filter("00:00:00.000 DEBUG [a.very.long.module.name.beyond] - m", &rules(&[], &[]));
    assert_eq!(out, vec!["00:00:00.000 [a.very.long.module.name.beyond] - m".to_string()]);
}

#[test]
fn empty_module_never_starts_a_group() {
    let text = "00:00:00.000 I [] - a\n00:00:00.001 I [b] - c";
    let out = filter(text, &rules(&[], &[]));
    assert_eq!(
        out,
        vec![
            "00:00:00.000 [                         ] - a".to_string(),
            "00:00:00.001 [b                        ] - c".to_string(),
        ]
    );
}

#[test]
fn crlf_and_leading_text() {
    let text = "[main] 00:00:00.000 INFO [svc] - up\r\n00:00:00.001 INFO [svc] - [x] - y\r\n";
    let out = filter(text, &rules(&[], &[]));
    assert_eq!(
        out,
        vec![
            "00:00:00.000 [svc                      ] - up".to_string(),
            "00:00:00.001 [svc                      ] - [x] - y".to_string(),
        ]
    );
}

#[test]
fn filter_lines_matches_filter() {
    let lines = vec![
        "00:00:00.000 INFO [a] - 1".to_string(),
        "noise".to_string(),
        "00:00:00.001 INFO [b] - 2".to_string(),
    ];
    let r = rules(&[], &[]);
    assert_eq!(filter_lines(&lines, &r), filter(&lines.join("\n"), &r));
}

#[test]
fn parse_line_parts() {
    let l = parse_line("12:34:56.789 INFO [ core.net ] -   Connected  ").unwrap();
    assert_eq!(l.timestamp, "12:34:56.789");
    assert_eq!(l.module, "core.net");
    assert_eq!(l.message, "Connected");
    assert!(parse_line("12:34:56.789 INFO [core.net]").is_none());
}

#[test]
fn rule_set_dedups_modules() {
    let r = rules(&["a", "b", "a"], &["p"]);
    assert_eq!(r.excluded_modules().len(), 2);
    assert!(r.excludes_module(&"a".to_string()));
    assert!(!r.excludes_module(&"c".to_string()));
    assert!(r.excludes_message("p q"));
    assert!(!r.excludes_message("q p"));
    assert_eq!(r.output_path(), "out.log");
}

#[test]
fn parse_agrees_with_regex() {
    let re = regex::Regex::new(r"(\d{2}:\d{2}:\d{2}\.\d{3}) \w+ \[(.*?)\] - (.*)").unwrap();
    let samples = [
        "12:34:56.789 INFO [core.net] - Connected [[peer=1]]",
        "x 12:34:56.789 WARN [a] b] - c] - d",
        "12:34:56.789 WARN [] - ",
        "1:34:56.789 INFO [m] - no",
        "12:34:56.789 INFO  [m] - two spaces",
        "12:34:56.789 INFO_2 [ m ] -  msg ",
        "99:99:99.999 X [m] - ok 12:00:00.000 Y [n] - later",
        "12:34:56.7891 INFO [m] - extra digit",
        "12:34:56.789 ИНФО [сеть] - ok",
        "١٢:٣٤:٥٦.٧٨٩ Ünïcödé_x [модуль] - сообщение",
        "12:34:56.789 a\u{0301}b [m] - combining mark",
        "12:34:56.789 I\u{2163} [m] - roman numeral",
        "12:34:56.789 ½ [m] - vulgar fraction",
        "12:34:56.789 INFO [m] - ok ４５",
    ];
    for s in samples.iter() {
        let ours = parse_line(s);
        match re.captures(s) {
            None => assert!(ours.is_none(), "{}", s),
            Some(c) => {
                let l = ours.unwrap();
                assert_eq!(l.timestamp, &c[1]);
                assert_eq!(l.module, c[2].trim());
                assert_eq!(l.message, c[3].trim());
            }
        }
    }
}

#[test]
fn free_text_filters_to_nothing() {
    let r = rules(&["x"], &["y"]);
    assert!(filter("\nplain free text without brackets\n   ", &r).is_empty());
}

#[test]
fn exclusion_is_exact_and_case_sensitive() {
    let r = rules(&["debug"], &["Start"]);
    let text = "09:00:00.000 WARN [ debug ] - a\n09:00:00.001 WARN [Debug] - b\n09:00:00.002 INFO [m] - starting up\n09:00:00.003 INFO [m] - Start now";
    let out = filter(text, &r);
    assert_eq!(
        out,
        vec![
            "09:00:00.001 [Debug                    ] - b".to_string(),
            String::new(),
            "09:00:00.002 [m                        ] - starting up".to_string(),
        ]
    );
}

#[test]
fn annotation_in_the_middle_is_kept() {
    assert_eq!(strip_annotation("done [[a]] tail"), "done [[a]] tail");
    assert_eq!(strip_annotation("a [[x]] [[y]]"), "a [[x]]");
}
