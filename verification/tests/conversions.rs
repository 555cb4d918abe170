use mgs2smf::cli::Cli;
use mgs2smf::conversion::{convert, Conversion};
use mgs2smf::ir::EncodingChoice;
use mgs2smf::parser::loader::{decode_bytes, load_shift_jis, strip_comments};

fn run(list: &[&str], source: &str) -> Conversion {
    let cli = Cli::parse(list.iter().map(|a| a.to_string()).collect()).unwrap();
    let loaded = decode_bytes(source.as_bytes(), cli.options.encoding).unwrap();
    convert(&cli, &loaded, &["a.yaml".to_string()])
}

#[test]
fn a_conversion_writes_what_is_asked_for() {
    let done = run(&["a.mus", "-o", "a.mid"], "1 c\n");
    assert_eq!(done.result, Ok(()));
    assert!(done.skeleton.is_none());
    assert!(done.diagnostics.is_none());
    assert_eq!(done.midi.unwrap()[0..4].to_vec(), b"MThd".to_vec());

    let all = run(
        &[
            "a.mus",
            "-o",
            "a.mid",
            "--diagnostics",
            "a.json",
            "--emit-config-skeleton",
            "s.yaml",
        ],
        "1 c\n",
    );
    assert_eq!(all.result, Ok(()));
    assert!(all.midi.is_some());
    assert!(all.skeleton.unwrap().starts_with("version: 0.4.1\n"));
    let report = all.diagnostics.unwrap();
    assert!(report.starts_with("{\n  \"input\": \"a.mus\",\n  \"output\": \"a.mid\",\n"));
    assert!(report.contains("\"a.yaml\""));
    assert!(report.contains("\"encoding\": \"utf-8\""));
}

#[test]
fn a_skeleton_alone_needs_no_output() {
    let done = run(&["a.mus", "--emit-config-skeleton", "s.yaml"], "1 c\n");
    assert_eq!(done.result, Ok(()));
    assert!(done.skeleton.is_some());
    assert!(done.midi.is_none());

    let none = run(&["a.mus"], "1 c\n");
    assert_eq!(none.result, Err("missing output path; use -o output.mid".to_string()));
    assert!(none.midi.is_none());
}

#[test]
fn strict_conversions_refuse_warnings() {
    let strict = ["a.mus", "-o", "a.mid", "--strict", "--diagnostics", "a.json"];
    let early = run(&strict, "1 c p d\n");
    assert_eq!(
        early.result,
        Err("strict mode rejected warnings before rendering".to_string())
    );
    assert!(early.midi.is_none());
    assert!(early.diagnostics.is_some());

    let late = run(&strict, "1 y7,56 c\n");
    assert_eq!(
        late.result,
        Err("strict mode rejected warnings during rendering".to_string())
    );
    assert!(late.midi.is_none());
    assert!(late.diagnostics.is_some());

    let fine = run(&strict, "1 c d\n");
    assert_eq!(fine.result, Ok(()));
    assert!(fine.midi.is_some());

    let lax = run(&["a.mus", "-o", "a.mid"], "1 c p d\n");
    assert_eq!(lax.result, Ok(()));
}

#[test]
fn a_source_that_is_refused_writes_nothing() {
    let done = run(
        &["a.mus", "-o", "a.mid", "--emit-config-skeleton", "s.yaml"],
        "1 *5\n",
    );
    assert_eq!(
        done.result,
        Err("undefined macro *5 (effective *5) at line 1".to_string())
    );
    assert!(done.skeleton.is_none() && done.midi.is_none() && done.diagnostics.is_none());
}

#[test]
fn requests_in_comments_reach_the_file() {
    let with = run(&["a.mus", "-o", "a.mid"], "1 c ;@smf text hello\n");
    let bytes = with.midi.unwrap();
    assert!(bytes.windows(5).any(|w| w == b"hello"));

    let without = run(&["a.mus", "-o", "a.mid"], "1 c ; text hello\n");
    assert!(!without.midi.unwrap().windows(5).any(|w| w == b"hello"));
}

#[test]
fn comments_are_dropped_unless_they_are_heeded() {
    let source = ";[gain=1.0 loop=3]\r\n;plain\r1 c ;@smf pc 3\n2 d ;@smfx\n";
    let loaded = decode_bytes(source.as_bytes(), EncodingChoice::Auto).unwrap();
    assert_eq!(loaded.text, ";[gain=1.0 loop=3]\n\n1 c ;@smf pc 3\n2 d \n");
    assert_eq!(
        strip_comments(";[gain=1.0]\n1 c ;@smf pc 3\n\"a;b\" ;c\n"),
        "\n1 c \n\"a;b\" \n"
    );
    assert_eq!(strip_comments("\"a\\\";b\" ;c"), "\"a\\\";b\" \n");
}

#[test]
fn encodings_are_told_apart() {
    let utf8 = decode_bytes("#title \"é\"\n".as_bytes(), EncodingChoice::Auto).unwrap();
    assert_eq!(utf8.encoding_used, "utf-8");
    assert_eq!(utf8.text, "#title \"é\"\n");

    let refused = decode_bytes(b"\x83\x65", EncodingChoice::Utf8).unwrap_err();
    assert_eq!(
        refused,
        "input is not valid UTF-8: invalid utf-8 sequence of 1 bytes from index 0"
    );

    let replaced = decode_bytes(b"1 c\n\xff\n", EncodingChoice::ShiftJis).unwrap();
    assert_eq!(replaced.encoding_used, "shift_jis");
    assert_eq!(
        replaced.warnings,
        vec!["Shift-JIS decoder replaced malformed byte sequences".to_string()]
    );
    let found = decode_bytes(b"1 c\n\xff\n", EncodingChoice::Auto).unwrap();
    assert_eq!(
        found.warnings,
        vec![
            "auto encoding selected Shift-JIS fallback with malformed byte replacements"
                .to_string()
        ]
    );
    let clean = load_shift_jis("1 c\r\n", false, true);
    assert_eq!(clean.text, "1 c\n");
    assert!(clean.warnings.is_empty());
}
