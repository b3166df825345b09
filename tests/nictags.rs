use nictags::nic_tag::{format_optional_string, NicTag};
use nictags::parse::{parse_tags_file, parse_usb_file};
use nictags::report::{format_row, header, parser_for, render_report, report_lines, ParserKind};
use nictags::table::TagTable;

fn lines(v: &[&str]) -> Vec<String> {
    v.iter().map(|s| s.to_string()).collect()
}

fn sorted_rows(out: &[String]) -> Vec<String> {
    let mut rows: Vec<String> = out[1..].to_vec();
    rows.sort();
    rows
}

#[test]
fn strict_single_entry() {
    let kind = parser_for("tags.txt").unwrap();
    assert_eq!(kind, ParserKind::Strict);
    let out = render_report(kind, &lines(&["admin=aa:bb:cc:dd:ee:01"])).ok().unwrap();
    assert_eq!(
        out,
        vec!["NAME\tMACADDRESS\tLINK\tTYPE".to_string(), "admin\taa:bb:cc:dd:ee:01\t-\tnormal".to_string()]
    );
}

#[test]
fn strict_malformed_line() {
    let kind = parser_for("tags.txt").unwrap();
    let err = render_report(kind, &lines(&["admin aa:bb:cc:dd:ee:01"])).err().unwrap();
    assert_eq!(err.line_number, 1);
    assert_eq!(err.line, "admin aa:bb:cc:dd:ee:01");
}

#[test]
fn lenient_mixed_keys() {
    let kind = parser_for("usb-portal.txt").unwrap();
    assert_eq!(kind, ParserKind::Lenient);
    let input = lines(&[
        "# comment",
        "hostname=foo",
        "admin_nic=aa:bb:cc:dd:ee:01",
        "external_nic=aa:bb:cc:dd:ee:02",
        "dns_resolvers=8.8.8.8",
    ]);
    let out = render_report(kind, &input).ok().unwrap();
    assert_eq!(out.len(), 3);
    assert_eq!(out[0], "NAME\tMACADDRESS\tLINK\tTYPE");
    assert_eq!(
        sorted_rows(&out),
        vec![
            "admin_nic\taa:bb:cc:dd:ee:01\t-\tnormal".to_string(),
            "external_nic\taa:bb:cc:dd:ee:02\t-\tnormal".to_string(),
        ]
    );
}

#[test]
fn lenient_value_with_equals() {
    let kind = parser_for("usb-datadyne.txt").unwrap();
    assert_eq!(kind, ParserKind::Lenient);
    let out = render_report(kind, &lines(&["weird_nic=key=value=pair"])).ok().unwrap();
    assert_eq!(out.len(), 2);
    assert_eq!(out[1], "weird_nic\tkey=value=pair\t-\tnormal");
}

#[test]
fn lenient_missing_equals() {
    let kind = parser_for("usb-datadyne.txt").unwrap();
    let err = render_report(kind, &lines(&["bogus_line_no_equals"])).err().unwrap();
    assert_eq!(err.line_number, 1);
    assert_eq!(err.line, "bogus_line_no_equals");
}

#[test]
fn unknown_file_name() {
    assert_eq!(parser_for("other.txt"), None);
    assert_eq!(parser_for("tags.txt.bak"), None);
    assert_eq!(parser_for("Tags.txt"), None);
    assert_eq!(parser_for(""), None);
}

#[test]
fn header_is_first_even_when_empty() {
    let out = render_report(ParserKind::Strict, &Vec::new()).ok().unwrap();
    assert_eq!(out, vec!["NAME\tMACADDRESS\tLINK\tTYPE".to_string()]);
    let out = render_report(ParserKind::Lenient, &lines(&["", "# only comments"])).ok().unwrap();
    assert_eq!(out, vec!["NAME\tMACADDRESS\tLINK\tTYPE".to_string()]);
    assert_eq!(header(), "NAME\tMACADDRESS\tLINK\tTYPE");
}

#[test]
fn row_count_is_distinct_keys() {
    let input = lines(&["a=1", "b=2", "a=3", "c=4", "b=5"]);
    let out = render_report(ParserKind::Strict, &input).ok().unwrap();
    assert_eq!(out.len(), 4);
    assert_eq!(
        sorted_rows(&out),
        vec!["a\t3\t-\tnormal".to_string(), "b\t5\t-\tnormal".to_string(), "c\t4\t-\tnormal".to_string()]
    );
}

#[test]
fn duplicate_keys_last_wins_lenient() {
    let input = lines(&["x_nic=old", "x_nic=new"]);
    let t = parse_usb_file(&input).ok().unwrap();
    assert_eq!(t.len(), 1);
    assert_eq!(t.entry(0).mac_address, Some("new".to_string()));
}

#[test]
fn rows_have_dash_link_and_normal_type() {
    let input = lines(&["p_nic=1", "q_nic=", "r_nic==="]);
    let out = render_report(ParserKind::Lenient, &input).ok().unwrap();
    assert_eq!(out.len(), 4);
    for row in &out[1..] {
        assert!(row.ends_with("\t-\tnormal"));
    }
    assert_eq!(
        sorted_rows(&out),
        vec!["p_nic\t1\t-\tnormal".to_string(), "q_nic\t\t-\tnormal".to_string(), "r_nic\t==\t-\tnormal".to_string()]
    );
}

#[test]
fn lenient_suffix_filter() {
    let input = lines(&["nic=1", "my_NIC=2", "_nic=3", "a_nicx=4", "a_nic_b=5", "eth_nic=6"]);
    let t = parse_usb_file(&input).ok().unwrap();
    assert_eq!(t.len(), 2);
    let mut names: Vec<String> = (0..t.len()).map(|i| t.entry(i).name.clone()).collect();
    names.sort();
    assert_eq!(names, vec!["_nic".to_string(), "eth_nic".to_string()]);
}

#[test]
fn strict_rejects_zero_or_many_equals() {
    let err = parse_tags_file(&lines(&["a=1", "b=2=3", "c"])).err().unwrap();
    assert_eq!(err.line_number, 2);
    assert_eq!(err.line, "b=2=3");
    let err = parse_tags_file(&lines(&["a=1", "b=2", "c"])).err().unwrap();
    assert_eq!(err.line_number, 3);
    let err = parse_tags_file(&lines(&["a=1", ""])).err().unwrap();
    assert_eq!(err.line_number, 2);
    assert!(render_report(ParserKind::Strict, &lines(&["k=v=w"])).is_err());
}

#[test]
fn strict_rejects_comments() {
    let err = parse_tags_file(&lines(&["# note", "a=1"])).err().unwrap();
    assert_eq!(err.line_number, 1);
}

#[test]
fn lenient_comments_and_blanks_are_ignored() {
    let input = lines(&["", "   ", "\t \u{3000}", "#no equals here", "#x_nic=1", "a_nic=2", "  "]);
    let out = render_report(ParserKind::Lenient, &input).ok().unwrap();
    assert_eq!(out.len(), 2);
    assert_eq!(out[1], "a_nic\t2\t-\tnormal");
}

#[test]
fn lenient_indented_comment_is_not_a_comment() {
    let err = parse_usb_file(&lines(&["a_nic=1", "  # indented"])).err().unwrap();
    assert_eq!(err.line_number, 2);
    assert_eq!(err.line, "  # indented");
}

#[test]
fn lenient_error_reports_first_bad_line() {
    let err = parse_usb_file(&lines(&["# c", "", "x=1", "bad", "worse"])).err().unwrap();
    assert_eq!(err.line_number, 4);
    assert_eq!(err.line, "bad");
}

#[test]
fn whitespace_and_empty_names_are_kept() {
    let t = parse_tags_file(&lines(&["=xyz", " sp = mac "])).ok().unwrap();
    assert_eq!(t.len(), 2);
    let mut rows: Vec<String> = (0..t.len()).map(|i| format_row(t.entry(i))).collect();
    rows.sort();
    assert_eq!(rows, vec!["\txyz\t-\tnormal".to_string(), " sp \t mac \t-\tnormal".to_string()]);
    let t = parse_usb_file(&lines(&[" a_nic= v "])).ok().unwrap();
    assert_eq!(t.len(), 1);
    assert_eq!(t.entry(0).name, " a_nic");
    assert_eq!(t.entry(0).mac_address, Some(" v ".to_string()));
    let t = parse_usb_file(&lines(&["a_nic = v "])).ok().unwrap();
    assert_eq!(t.len(), 0);
}

#[test]
fn non_ascii_text_is_handled() {
    let t = parse_usb_file(&lines(&["ünï_nic=é=ß"])).ok().unwrap();
    assert_eq!(t.entry(0).name, "ünï_nic");
    assert_eq!(t.entry(0).mac_address, Some("é=ß".to_string()));
}

#[test]
fn tag_record_forms() {
    let tag = NicTag::new("admin".to_string(), "aa:bb".to_string());
    assert_eq!(tag.link, None);
    assert_eq!(tag.typ, Some("normal".to_string()));
    assert_eq!(tag.display_form(), "<NicTag 'admin'>");
    assert_eq!(tag.debug_form(), "<NicTag 'admin': mac_address aa:bb, link -, type normal>");
    assert_eq!(format_row(&tag), "admin\taa:bb\t-\tnormal");
}

#[test]
fn optional_rendering() {
    assert_eq!(format_optional_string(&None), "-");
    assert_eq!(format_optional_string(&Some("x".to_string())), "x");
    assert_eq!(format_optional_string(&Some(String::new())), "");
}

#[test]
fn table_insert_replaces() {
    let mut t = TagTable::new();
    assert_eq!(t.len(), 0);
    t.insert(NicTag::new("a".to_string(), "1".to_string()));
    t.insert(NicTag::new("b".to_string(), "2".to_string()));
    t.insert(NicTag::new("a".to_string(), "3".to_string()));
    assert_eq!(t.len(), 2);
    let out = report_lines(&t);
    assert_eq!(out.len(), 3);
    assert_eq!(sorted_rows(&out), vec!["a\t3\t-\tnormal".to_string(), "b\t2\t-\tnormal".to_string()]);
}
