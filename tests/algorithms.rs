use kakplugin::commands::{
    cmd, display_message, escape, response_command, restore_register, scratch_command,
    send_message, set_selections, set_selections_desc,
};
use kakplugin::invert::{invert, subtract_all_selections_desc};
use kakplugin::join::join;
use kakplugin::selections::{
    get_selections, get_selections_desc, get_selections_desc_unordered,
    get_selections_with_desc, get_selections_with_desc_ordered,
};
use kakplugin::set::{
    compare_table, key_set, key_set_operation, parse_arguments, reduce_selections, set_items,
    set_message, to_ordered_counts, Operation,
};
use kakplugin::types::SelectionWithDesc;
use kakplugin::uniq::{uniq, uniq_descs, uniq_message};
use kakplugin::utils::{get_key, key_from_capture, split_newlines};
use kakplugin::xlookup::{build_lookuptable, xlookup, xlookup_message};
use kakplugin::{AnchorPosition, KakError, KakMessage, Register, SelectionDesc};

fn sd(a: usize, b: usize, c: usize, d: usize) -> SelectionDesc {
    SelectionDesc {
        left: AnchorPosition { row: a, col: b },
        right: AnchorPosition { row: c, col: d },
    }
}

fn strings(items: &[&str]) -> Vec<String> {
    items.iter().map(|s| s.to_string()).collect()
}

#[test]
fn reconcile_rotates_contents_to_the_primary_selection() {
    let contents = strings(&["a", "b", "c", "d"]);
    let descs = vec![sd(2, 0, 2, 1), sd(3, 0, 3, 1), sd(0, 0, 0, 1), sd(1, 0, 1, 1)];
    let paired = get_selections_with_desc(contents.clone(), descs.clone()).unwrap();
    let got: Vec<(String, SelectionDesc)> =
        paired.into_iter().map(|s| (s.content, s.desc)).collect();
    assert_eq!(
        got,
        vec![
            ("c".to_string(), sd(2, 0, 2, 1)),
            ("d".to_string(), sd(3, 0, 3, 1)),
            ("a".to_string(), sd(0, 0, 0, 1)),
            ("b".to_string(), sd(1, 0, 1, 1)),
        ]
    );
    let ordered = get_selections_with_desc_ordered(contents, descs).unwrap();
    let got: Vec<String> = ordered.into_iter().map(|s| s.content).collect();
    assert_eq!(got, strings(&["a", "b", "c", "d"]));
}

#[test]
fn reconcile_uses_normalized_descriptors() {
    let contents = strings(&["x", "y"]);
    let descs = vec![sd(5, 0, 4, 0), sd(4, 3, 1, 0)];
    let paired = get_selections_with_desc(contents, descs).unwrap();
    assert_eq!(paired[0].content, "y");
    assert_eq!(paired[1].content, "x");
}

#[test]
fn reconcile_errors() {
    match get_selections_with_desc(strings(&["a"]), vec![]) {
        Err(KakError::KakResponse(m)) => assert_eq!(
            m,
            "When requesting selections (=1) and selections_desc (=0), their count did not match"
        ),
        _ => panic!("expected a count mismatch"),
    }
    assert!(matches!(
        get_selections_with_desc(vec![], vec![]),
        Err(KakError::KakResponse(_))
    ));
}

#[test]
fn descriptor_text_round_trips() {
    let d = SelectionDesc::from_str("18.9,10.1").unwrap();
    assert_eq!(d, sd(18, 9, 10, 1));
    assert_eq!(d.to_string(), "18.9,10.1");
    assert_eq!(AnchorPosition { row: 0, col: 12345 }.to_string(), "0.12345");
    assert_eq!(SelectionDesc::from_str("+1.2,3.4").unwrap(), sd(1, 2, 3, 4));
    assert!(matches!(SelectionDesc::from_str("1.2"), Err(KakError::Parse(_))));
    assert!(matches!(SelectionDesc::from_str("a.1,2.3"), Err(KakError::Parse(_))));
    assert!(matches!(SelectionDesc::from_str("1.2,3"), Err(KakError::Parse(_))));
    assert!(matches!(
        SelectionDesc::from_str("99999999999999999999999.1,1.1"),
        Err(KakError::Parse(_))
    ));
}

#[test]
fn descriptor_lists_parse_and_sort() {
    let raw = strings(&["5.1,4.0", "1.1,1.3", "2.0,2.0"]);
    assert_eq!(
        get_selections_desc_unordered(&raw).unwrap(),
        vec![sd(5, 1, 4, 0), sd(1, 1, 1, 3), sd(2, 0, 2, 0)]
    );
    assert_eq!(
        get_selections_desc(&raw).unwrap(),
        vec![sd(1, 1, 1, 3), sd(2, 0, 2, 0), sd(4, 0, 5, 1)]
    );
    assert!(get_selections_desc(&strings(&["1.1,1.3", "oops"])).is_err());
}

#[test]
fn shell_reply_splits_into_words() {
    assert_eq!(get_selections("'a b' c 'it''s'").unwrap(), strings(&["a b", "c", "its"]));
    assert!(matches!(get_selections("'unclosed"), Err(KakError::Parse(_))));
}

#[test]
fn registers_parse_and_print() {
    assert_eq!(Register::from_str("a").unwrap(), Register::LowercaseA);
    assert_eq!(Register::from_str("Z").unwrap(), Register::UppercaseZ);
    assert_eq!(Register::from_str("7").unwrap(), Register::Numeric7);
    assert_eq!(Register::from_str("dquote").unwrap(), Register::Dquote);
    assert_eq!(Register::from_str("\"").unwrap(), Register::Dquote);
    assert_eq!(Register::from_str("_").unwrap(), Register::Underscore);
    assert!(matches!(Register::from_str("ab"), Err(KakError::Parse(_))));
    assert!(matches!(Register::from_str(""), Err(KakError::Parse(_))));
    assert_eq!(Register::Dquote.kak_escaped(), "\\\"");
    assert_eq!(Register::Dquote.kak_expanded(), "dquote");
    assert_eq!(Register::LowercaseQ.kak_expanded(), "q");
    assert_eq!(Register::Percent.to_char(), '%');
}

#[test]
fn operations_parse_and_print() {
    assert_eq!(Operation::from_str("minus").unwrap(), Operation::Subtract);
    assert_eq!(Operation::from_str("\\").unwrap(), Operation::Subtract);
    assert_eq!(Operation::from_str("and").unwrap(), Operation::Intersect);
    assert_eq!(Operation::from_str("plus").unwrap(), Operation::Union);
    assert_eq!(Operation::from_str("=").unwrap(), Operation::Compare);
    assert!(matches!(Operation::from_str("x"), Err(KakError::Parse(_))));
    assert_eq!(Operation::Union.to_char(), '+');
}

#[test]
fn set_arguments_in_every_form() {
    assert_eq!(
        parse_arguments(&strings(&["a-b"])).unwrap(),
        (Register::LowercaseA, Operation::Subtract, Register::LowercaseB)
    );
    assert_eq!(
        parse_arguments(&strings(&[" +b "])).unwrap(),
        (Register::Underscore, Operation::Union, Register::LowercaseB)
    );
    assert_eq!(
        parse_arguments(&strings(&["b&"])).unwrap(),
        (Register::LowercaseB, Operation::Intersect, Register::Underscore)
    );
    assert_eq!(
        parse_arguments(&strings(&["a", "compare", "dquote"])).unwrap(),
        (Register::LowercaseA, Operation::Compare, Register::Dquote)
    );
    assert!(matches!(parse_arguments(&strings(&["a-a"])), Err(KakError::Custom(_))));
    assert!(matches!(parse_arguments(&strings(&["ab"])), Err(KakError::Custom(_))));
    assert!(matches!(parse_arguments(&strings(&["-+"])), Err(KakError::Custom(_))));
    assert!(matches!(parse_arguments(&strings(&["a-b-c"])), Err(KakError::Custom(_))));
    assert!(matches!(parse_arguments(&strings(&["a", "x", "b"])), Err(KakError::Parse(_))));
}

#[test]
fn ordered_counts_keep_first_occurrence_order() {
    let counts = to_ordered_counts(&strings(&["b", "", "a", "b", "b"]));
    assert_eq!(counts.keys(), strings(&["b", "a"]));
    assert_eq!(counts.count("a"), 1);
    assert_eq!(counts.count("b"), 3);
    assert_eq!(counts.count("z"), 0);
}

#[test]
fn key_set_operations() {
    let l = key_set(&strings(&["a", "b", "a"]));
    let r = key_set(&strings(&["c", "b"]));
    assert_eq!(set_items(&l), strings(&["a", "b"]));
    let op = |o: Operation| set_items(&key_set_operation(&o, &l, &r));
    assert_eq!(op(Operation::Union), strings(&["a", "b", "c"]));
    assert_eq!(op(Operation::Compare), strings(&["a", "b", "c"]));
    assert_eq!(op(Operation::Intersect), strings(&["b"]));
    assert_eq!(op(Operation::Subtract), strings(&["a"]));
}

#[test]
fn compare_table_lines() {
    let left = to_ordered_counts(&strings(&["a", "b", "a"]));
    let right = to_ordered_counts(&strings(&["b", "c"]));
    let result = key_set_operation(&Operation::Compare, &left.key_set(), &right.key_set());
    let table = compare_table(Register::Underscore, Register::LowercaseA, &result, &left, &right);
    assert_eq!(
        table,
        strings(&[
            "?\t_\ta\tselection",
            ">\t2\t0\ta",
            "=\t1\t1\tb",
            "<\t0\t1\tc",
        ])
    );
}

#[test]
fn set_subtract_on_current_selection() {
    let (l, op, r) = parse_arguments(&strings(&["-a"])).unwrap();
    let current = vec![
        SelectionWithDesc { content: "x".to_string(), desc: sd(0, 0, 0, 0) },
        SelectionWithDesc { content: "y".to_string(), desc: sd(0, 2, 0, 2) },
        SelectionWithDesc { content: "z".to_string(), desc: sd(0, 4, 0, 4) },
    ];
    let left_keys: Vec<String> =
        current.iter().map(|s| get_key(&s.content, false, None, false)).collect();
    let left = to_ordered_counts(&left_keys);
    let right = to_ordered_counts(&strings(&["y"]));
    let result = key_set_operation(&op, &left.key_set(), &right.key_set());
    assert_eq!(set_items(&result), strings(&["x", "z"]));
    let kept = reduce_selections(&current, &left_keys, &result);
    assert_eq!(kept, vec![sd(0, 0, 0, 0), sd(0, 4, 0, 4)]);
    assert_eq!(
        set_message(l, op, r, set_items(&result).len()),
        "_-a returned 2 selections"
    );
    assert_eq!(
        set_message(l, Operation::Compare, r, 12),
        "Compared 12 selections"
    );
}

#[test]
fn uniq_keeps_first_occurrences() {
    let sels: Vec<SelectionWithDesc> = ["a", "b", "a", "c"]
        .iter()
        .enumerate()
        .map(|(i, c)| SelectionWithDesc { content: c.to_string(), desc: sd(i, 0, i, 0) })
        .collect();
    let keys: Vec<String> = sels.iter().map(|s| get_key(&s.content, true, None, false)).collect();
    let (contents, kept) = uniq(&sels, &keys);
    assert_eq!(contents, strings(&["a", "b", "", "c"]));
    let descs = vec![sd(0, 0, 0, 0), sd(1, 0, 1, 0), sd(2, 0, 2, 0), sd(3, 0, 3, 0)];
    assert_eq!(uniq_descs(&descs, &kept).len(), 3);
    assert_eq!(uniq_message(&kept), "3 unique selections out of 4");
}

#[test]
fn keys_trim_match_and_fold_case() {
    assert_eq!(get_key("  asdf\n", true, None, false), "asdf");
    assert_eq!(get_key("  asdf\n", false, None, false), "  asdf\n");
    let word = regex::Regex::new(r"\w+").unwrap();
    assert_eq!(get_key("  as1f\n", true, Some(&word), false), "as1f");
    let grouped = regex::Regex::new(r"(\w)\d").unwrap();
    assert_eq!(get_key("xa1f", true, Some(&grouped), false), "a");
    let digits = regex::Regex::new(r"\d+").unwrap();
    assert_eq!(get_key("abc", true, Some(&digits), false), "");
    assert_eq!(get_key("  aS1F\n", true, Some(&word), true), "as1f");
    assert_eq!(get_key("ÄB", false, None, true), "Äb");
    assert_eq!(key_from_capture(Some((None, "Whole".to_string())), true), "whole");
    assert_eq!(key_from_capture(None, false), "");
}

#[test]
fn split_newlines_examples() {
    assert_eq!(split_newlines("asdf\n"), ("", "asdf", "\n"));
    assert_eq!(split_newlines("asdf\n\nhjk\n"), ("", "asdf\n\nhjk", "\n"));
    assert_eq!(split_newlines("\nasdf\n\nhjk\n"), ("\n", "asdf\n\nhjk", "\n"));
    assert_eq!(split_newlines("asdf"), ("", "asdf", ""));
    assert_eq!(split_newlines("\n\n\nasdf"), ("\n\n\n", "asdf", ""));
    assert_eq!(split_newlines(""), ("", "", ""));
    assert_eq!(split_newlines("\n\n"), ("", "\n\n", ""));
}

#[test]
fn command_texts() {
    assert_eq!(escape("abcd"), "abcd");
    assert_eq!(escape("'ab\\cd'"), "''ab\\cd''");
    assert_eq!(
        set_selections(&strings(&["a'b", "c"])).unwrap(),
        "set-register '\"' 'a''b' 'c'; execute-keys R;"
    );
    assert!(matches!(set_selections(&vec![]), Err(KakError::SetEmptySelections)));
    assert_eq!(
        set_selections_desc(&vec![sd(1, 2, 3, 4), sd(5, 6, 7, 8)]).unwrap(),
        "select 1.2,3.4 5.6,7.8;"
    );
    assert!(matches!(set_selections_desc(&vec![]), Err(KakError::SetEmptySelections)));
    assert_eq!(
        display_message("it's", Some("dbg")),
        "echo 'it''s';echo -debug 'it''s';echo -debug 'dbg';"
    );
    assert_eq!(display_message("hi", None), "echo 'hi';echo -debug 'hi';");
    assert_eq!(
        send_message(&KakMessage("hi".to_string(), None)),
        "echo 'hi';echo -debug 'hi';"
    );
    assert_eq!(cmd("exec '<a-_>'"), "exec '<a-_>';");
    assert_eq!(restore_register(Register::LowercaseA), "execute-keys '\"az';");
    assert_eq!(
        response_command("%val{selections}", None, "/tmp/fifo"),
        "echo -quoting shell -to-file /tmp/fifo -- %val{selections};"
    );
    assert_eq!(
        response_command("%val{selections_desc}", Some("<a-s>"), "/f"),
        "evaluate-commands -draft %{ execute-keys '<a-s>'; echo -quoting shell -to-file /f -- %val{selections_desc}; };"
    );
    assert_eq!(
        scratch_command(&strings(&["a'"]), "%<a-R>_"),
        "evaluate-commands -save-regs '\"' %{ set-register '\"' 'a''\n'; edit -scratch '*kakplugin-set*'; execute-keys '%<a-R>_'; }"
    );
}

#[test]
fn invert_cuts_selections_out_of_rows() {
    let docs = vec![sd(0, 0, 0, 9), sd(1, 0, 1, 9)];
    let (inverted, groups) = invert(&vec![sd(0, 2, 0, 3), sd(0, 7, 0, 6)], &docs);
    assert_eq!(
        inverted,
        vec![sd(0, 0, 0, 1), sd(0, 4, 0, 5), sd(0, 8, 0, 9), sd(1, 0, 1, 9)]
    );
    assert_eq!(groups, 1);
    let (whole, none) = invert(&vec![sd(0, 0, 0, 9)], &docs);
    assert_eq!(whole, vec![sd(1, 0, 1, 9)]);
    assert_eq!(none, 1);
}

#[test]
fn subtract_all_in_document_order() {
    assert_eq!(
        subtract_all_selections_desc(&sd(0, 0, 0, 9), vec![sd(0, 6, 0, 7), sd(0, 2, 0, 3)]),
        vec![sd(0, 0, 0, 1), sd(0, 4, 0, 5), sd(0, 8, 0, 9)]
    );
    assert_eq!(subtract_all_selections_desc(&sd(0, 9, 0, 0), vec![]), vec![sd(0, 9, 0, 0)]);
    assert_eq!(subtract_all_selections_desc(&sd(0, 2, 0, 3), vec![sd(0, 0, 0, 5)]), vec![]);
}

#[test]
fn join_bounds_everything() {
    assert_eq!(join(&vec![sd(1, 5, 1, 6), sd(3, 0, 2, 0)]).unwrap(), sd(1, 5, 3, 0));
    assert!(matches!(join(&vec![]), Err(KakError::SetEmptySelections)));
}

#[test]
fn xlookup_replaces_by_key() {
    let table = build_lookuptable(strings(&["1", "b", " 2 ", "c"])).unwrap();
    let (values, missing) = xlookup(&table, &strings(&["2", "3", " 1"]));
    assert_eq!(values, strings(&["c", "", "b"]));
    assert_eq!(missing, 1);
    assert_eq!(xlookup_message(3, 1), "Xlookup 2 selections (1 error)");
    assert_eq!(xlookup_message(3, 2), "Xlookup 1 selections (2 errors)");
    assert_eq!(xlookup_message(3, 0), "Xlookup 3 selections");
    assert!(matches!(build_lookuptable(vec![]), Err(KakError::CustomStatic(_))));
    assert!(matches!(
        build_lookuptable(strings(&["a", "1", "a ", "2"])),
        Err(KakError::Custom(_))
    ));
}

#[test]
fn error_texts() {
    let e = KakError::EmptyRegister(Register::Dquote);
    assert_eq!(e.details(), "Empty register: \\\"");
    assert_eq!(e.to_string(), "Error: Register \\\" has no content");
    assert_eq!(KakError::Parse("bad".to_string()).details(), "bad");
    assert_eq!(KakError::Parse("bad".to_string()).to_string(), "Error: Could not parse");
    assert_eq!(
        KakError::SetEmptySelections.to_string(),
        "Error: Attempted to set selections/selections_desc to empty list"
    );
}
