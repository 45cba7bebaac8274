use base64::Engine as _;
use jiji_forge::comment::{
    inherit_fossils, is_stack_comment, parse_stack_data, render_stack_comment, StackData, StackDataItem, StackEntry,
    DATA_PREFIX, DATA_SUFFIX, FOOTER, STACK_SENTINEL,
};

fn entry(bookmark: &str, number: Option<u64>) -> StackEntry {
    StackEntry { bookmark: bookmark.into(), number, url: number.map(|n| format!("https://github.com/o/r/pull/{n}")) }
}

#[test]
fn renders_the_live_list_with_the_current_pr_bolded() {
    let live = [entry("auth", Some(6)), entry("profile", None)];
    let body = render_stack_comment(&live, &[], Some("auth"));
    assert!(is_stack_comment(&body));
    assert!(body.contains("1. **`auth` ← this PR**"));
    // A PR being created in the same submit renders as a plain name.
    assert!(body.contains("1. `profile`"));
    assert!(!body.contains("profile` ← this PR"));

    let sibling = render_stack_comment(&live, &[], Some("profile"));
    assert!(sibling.contains("1. [`auth`](https://github.com/o/r/pull/6)"));
    assert!(sibling.contains("1. **`profile` ← this PR**"));

    // The neutral preview bolds nothing.
    let preview = render_stack_comment(&live, &[], None);
    assert!(!preview.contains("this PR"));
}

#[test]
fn data_round_trips_and_only_carries_real_prs() {
    let live = [entry("auth", Some(6)), entry("profile", None)];
    let body = render_stack_comment(&live, &[], Some("auth"));
    let data = parse_stack_data(&body).expect("data parses back");
    assert_eq!(data.version, 1);
    assert_eq!(data.stack.len(), 1, "the unnumbered entry is not persisted");
    assert_eq!(data.stack[0].bookmark, "auth");
    assert_eq!(data.stack[0].number, 6);

    assert_eq!(parse_stack_data("no marker here"), None);
    assert_eq!(parse_stack_data(&format!("{DATA_PREFIX}not base64!{DATA_SUFFIX}")), None);
}

#[test]
fn fossils_inherit_from_previous_data_and_render_struck() {
    let previous = StackData {
        version: 1,
        stack: vec![
            StackDataItem { bookmark: "landed".into(), number: 4, url: "https://github.com/o/r/pull/4".into() },
            StackDataItem { bookmark: "auth".into(), number: 6, url: "https://github.com/o/r/pull/6".into() },
        ],
    };
    let live = [entry("auth", Some(6)), entry("profile", Some(7))];
    let fossils = inherit_fossils(Some(&previous), &live);
    assert_eq!(fossils.len(), 1);
    assert_eq!(fossils[0].bookmark, "landed");

    let body = render_stack_comment(&live, &fossils, Some("profile"));
    assert!(body.contains("~~[`landed`](https://github.com/o/r/pull/4)~~"));
    // Fossils persist in the data payload so the next run still knows.
    let data = parse_stack_data(&body).unwrap();
    assert!(data.stack.iter().any(|item| item.bookmark == "landed"));

    assert!(inherit_fossils(None, &live).is_empty());
}

#[test]
fn rendered_comment_has_its_exact_shape() {
    let live = [entry("auth", Some(6)), entry("profile", None)];
    let fossils = [StackDataItem { bookmark: "landed".into(), number: 4, url: "https://github.com/o/r/pull/4".into() }];
    let body = render_stack_comment(&live, &fossils, Some("profile"));
    let lines: Vec<&str> = body.lines().collect();
    assert_eq!(lines[0], STACK_SENTINEL);
    assert!(lines[1].starts_with(DATA_PREFIX) && lines[1].ends_with(DATA_SUFFIX));
    let rest = lines[2..].join("\n");
    assert_eq!(
        rest,
        "This pull request is part of a stack, in merge order:\n\n\
         1. [`auth`](https://github.com/o/r/pull/6)\n\
         1. **`profile` ← this PR**\n\n\
         Earlier parts of the stack, no longer open:\n\n\
         1. ~~[`landed`](https://github.com/o/r/pull/4)~~\n\n\
         ---\n\
         *This comment is kept up to date by Jiji.*"
    );
    assert!(body.ends_with(&format!("{FOOTER}\n")));
    // The data line carries the live numbered entry first, then the fossil.
    let data = parse_stack_data(&body).unwrap();
    assert_eq!(
        data.stack,
        vec![
            StackDataItem { bookmark: "auth".into(), number: 6, url: "https://github.com/o/r/pull/6".into() },
            StackDataItem { bookmark: "landed".into(), number: 4, url: "https://github.com/o/r/pull/4".into() },
        ]
    );
}

#[test]
fn data_line_is_the_base64_of_compact_json() {
    let live = [entry("auth", Some(6))];
    let body = render_stack_comment(&live, &[], None);
    let line = body.lines().nth(1).unwrap();
    let encoded = &line[DATA_PREFIX.len()..line.len() - DATA_SUFFIX.len()];
    // {"version":1,"stack":[{"bookmark":"auth","number":6,"url":"https://github.com/o/r/pull/6"}]}
    assert_eq!(
        encoded,
        "eyJ2ZXJzaW9uIjoxLCJzdGFjayI6W3siYm9va21hcmsiOiJhdXRoIiwibnVtYmVyIjo2LCJ1cmwiOiJodHRwczovL2dpdGh1Yi5jb20vby9yL3B1bGwvNiJ9XX0="
    );
}

fn data_line(json: &str) -> String {
    let encoded = base64::engine::general_purpose::STANDARD.encode(json);
    format!("{STACK_SENTINEL}\n{DATA_PREFIX}{encoded}{DATA_SUFFIX}\n")
}

#[test]
fn data_written_as_arrays_reads_like_a_derived_deserializer() {
    let item = StackDataItem { bookmark: "a".into(), number: 1, url: "u".into() };
    assert_eq!(
        parse_stack_data(&data_line(r#"[1,[["a",1,"u"]]]"#)),
        Some(StackData { version: 1, stack: vec![item.clone()] })
    );
    assert_eq!(
        parse_stack_data(&data_line(r#"{"version":1,"stack":[["a",1,"u"]]}"#)),
        Some(StackData { version: 1, stack: vec![item.clone()] })
    );
    assert_eq!(
        parse_stack_data(&data_line(r#"[1,[{"bookmark":"a","number":1,"url":"u","extra":true}]]"#)),
        Some(StackData { version: 1, stack: vec![item] })
    );
    // Too few or too many elements, a negative number, or a version past u32.
    assert_eq!(parse_stack_data(&data_line(r#"[1]"#)), None);
    assert_eq!(parse_stack_data(&data_line(r#"[1,[],2]"#)), None);
    assert_eq!(parse_stack_data(&data_line(r#"[1,[["a",-1,"u"]]]"#)), None);
    assert_eq!(parse_stack_data(&data_line(r#"{"version":4294967296,"stack":[]}"#)), None);
}

#[test]
fn a_rendered_comment_reads_back_its_numbered_entries_then_its_fossils() {
    let live = [
        StackEntry { bookmark: "odd \"name\"\n".into(), number: Some(3), url: Some("https://x/\\3".into()) },
        entry("draft", None),
        entry("auth", Some(6)),
    ];
    let fossils = [StackDataItem { bookmark: "gone".into(), number: 1, url: "https://github.com/o/r/pull/1".into() }];
    let body = render_stack_comment(&live, &fossils, Some("auth"));
    let data = parse_stack_data(&body).expect("the data line reads back");
    assert_eq!(data.version, 1);
    assert_eq!(
        data.stack,
        vec![
            StackDataItem { bookmark: "odd \"name\"\n".into(), number: 3, url: "https://x/\\3".into() },
            StackDataItem { bookmark: "auth".into(), number: 6, url: "https://github.com/o/r/pull/6".into() },
            fossils[0].clone(),
        ]
    );
}
