//! The tab-separated report and the choice of parser by file name.
use vstd::prelude::*;
use vstd::string::StringExecFns;
use crate::grammar::chars_of;
use crate::nic_tag::{dash, format_optional_string, normal, render_opt, tag_of, NicTag, NicTagView};
use crate::parse::{
    first_bad_strict, first_bad_usb, line_views, parse_tags_file, parse_usb_file, strict_map,
    strict_ok, usb_map, usb_ok, LineError,
};
use crate::laws::{lemma_strict_tags_plain, lemma_usb_tags_plain};
use crate::table::TagTable;

verus! {

broadcast use vstd::string::group_string_axioms;

/// The header row of the report.
pub open spec fn header_text() -> Seq<char> {
    seq!['N', 'A', 'M', 'E', '\t', 'M', 'A', 'C', 'A', 'D', 'D', 'R', 'E', 'S', 'S', '\t', 'L', 'I', 'N', 'K', '\t', 'T', 'Y', 'P', 'E']
}

/// The report row of a tag: its four fields separated by tabs, absent ones
/// as `-`.
pub open spec fn row_text(t: NicTagView) -> Seq<char> {
    t.name + seq!['\t'] + render_opt(t.mac_address) + seq!['\t'] + render_opt(t.link) + seq!['\t']
        + render_opt(t.typ)
}

/// The row of a parsed tag: name, MAC address, `-` for the link, `normal`.
pub open spec fn data_row(name: Seq<char>, mac: Seq<char>) -> Seq<char> {
    name + seq!['\t'] + mac + seq!['\t'] + dash() + seq!['\t'] + normal()
}

/// `row` is the row of some key of `m`.
pub open spec fn is_row_of_key(m: Map<Seq<char>, NicTagView>, row: Seq<char>) -> bool {
    exists|k: Seq<char>| #[trigger] m.contains_key(k) && row == row_text(m[k])
}

/// `out` is a report of `m`: the header, then one row per key of `m`.
pub open spec fn is_report_of(out: Seq<Seq<char>>, m: Map<Seq<char>, NicTagView>) -> bool {
    &&& out.len() == m.dom().len() + 1
    &&& out[0] == header_text()
    &&& forall|i: int| 1 <= i < out.len() ==> is_row_of_key(m, #[trigger] out[i])
    &&& forall|k: Seq<char>|
        #[trigger] m.contains_key(k) ==> exists|i: int| 1 <= i < out.len() && out[i] == row_text(m[k])
}

/// The header row.
pub fn header() -> (r: String)
    ensures
        r@ == header_text(),
{
    proof {
        reveal_strlit("NAME\tMACADDRESS\tLINK\tTYPE");
    }
    let r = String::from_str("NAME\tMACADDRESS\tLINK\tTYPE");
    assert(r@ =~= header_text());
    r
}

/// The report row of `tag`.
pub fn format_row(tag: &NicTag) -> (r: String)
    ensures
        r@ == row_text(tag@),
{
    proof {
        reveal_strlit("\t");
    }
    let tab = "\t";
    assert(tab@ =~= seq!['\t']);
    let r = String::from_str(tag.name.as_str()).concat(tab).concat(
        format_optional_string(&tag.mac_address),
    ).concat(tab).concat(format_optional_string(&tag.link)).concat(tab).concat(
        format_optional_string(&tag.typ),
    );
    r
}

/// The report of a table: the header, then one row per tag.
pub fn report_lines(t: &TagTable) -> (r: Vec<String>)
    requires
        t.wf(),
    ensures
        is_report_of(r@.map_values(|s: String| s@), t@),
{
    proof {
        t.lemma_entries();
    }
    let ghost es = t.entries_spec();
    let n = t.len();
    let mut r: Vec<String> = Vec::new();
    r.push(header());
    let mut i: usize = 0;
    while i < n
        invariant
            n == es.len(),
            es.len() == t@.dom().len(),
            es == t.entries_spec(),
            t.wf(),
            i <= n,
            r@.len() == i + 1,
            r@[0]@ == header_text(),
            forall|j: int| 0 <= j < i ==> (#[trigger] r@[j + 1])@ == row_text(es[j]),
        decreases n - i,
    {
        let row = format_row(t.entry(i));
        r.push(row);
        i = i + 1;
    }
    let ghost out = r@.map_values(|s: String| s@);
    assert forall|j: int| 1 <= j < out.len() implies is_row_of_key(t@, #[trigger] out[j]) by {
        assert(r@[(j - 1) + 1]@ == row_text(es[j - 1]));
        assert(t@.contains_key(es[j - 1].name));
    }
    assert forall|k: Seq<char>| #[trigger] t@.contains_key(k) implies exists|j: int|
        1 <= j < out.len() && out[j] == row_text(t@[k]) by {
        let j = choose|j: int| 0 <= j < es.len() && (#[trigger] es[j]).name == k;
        assert(r@[j + 1]@ == row_text(es[j]));
        assert(out[j + 1] == row_text(t@[k]));
    }
    r
}

/// Which parser a file is read with.
#[derive(PartialEq, Eq, Structural, Debug, Clone, Copy)]
pub enum ParserKind {
    /// Exactly one `=` on every line.
    Strict,
    /// Comments and blanks skipped, split at the first `=`, `_nic` keys only.
    Lenient,
}

/// The parser a file name selects, by exact match; `None` for any other name.
pub open spec fn parser_of(fname: Seq<char>) -> Option<ParserKind> {
    if fname == "tags.txt"@ {
        Some(ParserKind::Strict)
    } else if fname == "usb-datadyne.txt"@ || fname == "usb-portal.txt"@ {
        Some(ParserKind::Lenient)
    } else {
        None
    }
}

/// Whether the two texts are the same.
fn same_text(a: &str, b: &str) -> (r: bool)
    ensures
        r == (a@ == b@),
{
    let x = chars_of(a);
    let y = chars_of(b);
    if x.len() != y.len() {
        return false;
    }
    let mut i: usize = 0;
    while i < x.len()
        invariant
            x@ == a@,
            y@ == b@,
            x@.len() == y@.len(),
            i <= x@.len(),
            forall|j: int| 0 <= j < i ==> x@[j] == y@[j],
        decreases x@.len() - i,
    {
        if x[i] != y[i] {
            return false;
        }
        i = i + 1;
    }
    assert(x@ =~= y@);
    true
}

/// Selects the parser for a file by its exact name.
pub fn parser_for(fname: &str) -> (r: Option<ParserKind>)
    ensures
        r == parser_of(fname@),
{
    if same_text(fname, "tags.txt") {
        Some(ParserKind::Strict)
    } else if same_text(fname, "usb-datadyne.txt") || same_text(fname, "usb-portal.txt") {
        Some(ParserKind::Lenient)
    } else {
        None
    }
}

/// The lines of the file are well-formed for the parser.
pub open spec fn parsed_ok(kind: ParserKind, ls: Seq<Seq<char>>) -> bool {
    match kind {
        ParserKind::Strict => strict_ok(ls),
        ParserKind::Lenient => usb_ok(ls),
    }
}

/// The table the parser makes of the lines.
pub open spec fn parsed_map(kind: ParserKind, ls: Seq<Seq<char>>) -> Map<Seq<char>, NicTagView> {
    match kind {
        ParserKind::Strict => strict_map(ls),
        ParserKind::Lenient => usb_map(ls),
    }
}

/// Line `n` (counted from 1) is the first the parser rejects.
pub open spec fn first_bad(kind: ParserKind, ls: Seq<Seq<char>>, n: int) -> bool {
    match kind {
        ParserKind::Strict => first_bad_strict(ls, n),
        ParserKind::Lenient => first_bad_usb(ls, n),
    }
}

/// Parses the lines with the chosen parser.
pub fn parse_with(kind: ParserKind, lines: &Vec<String>) -> (r: Result<TagTable, LineError>)
    ensures
        match r {
            Ok(t) => parsed_ok(kind, line_views(lines@)) && t.wf() && t@ == parsed_map(
                kind,
                line_views(lines@),
            ),
            Err(e) => first_bad(kind, line_views(lines@), e.line_number as int) && e.line@
                == line_views(lines@)[e.line_number - 1],
        },
{
    match kind {
        ParserKind::Strict => parse_tags_file(lines),
        ParserKind::Lenient => parse_usb_file(lines),
    }
}

/// `row` is the row of a parsed tag of `m`: its key, its MAC address, `-`
/// and `normal`.
pub open spec fn is_data_row_of(m: Map<Seq<char>, NicTagView>, row: Seq<char>) -> bool {
    exists|k: Seq<char>|
        #[trigger] m.contains_key(k) && row == data_row(k, m[k].mac_address->0)
}

/// Parses the lines with the chosen parser and renders the report: the
/// header, then one row per distinct key, each with `-` for the link and
/// `normal` for the type. A malformed line yields its error and no report.
pub fn render_report(kind: ParserKind, lines: &Vec<String>) -> (r: Result<Vec<String>, LineError>)
    ensures
        match r {
            Ok(out) => {
                &&& parsed_ok(kind, line_views(lines@))
                &&& is_report_of(out@.map_values(|s: String| s@), parsed_map(kind, line_views(lines@)))
                &&& forall|i: int|
                    1 <= i < out@.len() ==> is_data_row_of(
                        parsed_map(kind, line_views(lines@)),
                        #[trigger] out@[i]@,
                    )
            },
            Err(e) => first_bad(kind, line_views(lines@), e.line_number as int) && e.line@
                == line_views(lines@)[e.line_number - 1],
        },
{
    let ghost lv = line_views(lines@);
    let ghost m = parsed_map(kind, lv);
    match parse_with(kind, lines) {
        Err(e) => Err(e),
        Ok(t) => {
            let out = report_lines(&t);
            proof {
                lemma_strict_tags_plain(lv);
                lemma_usb_tags_plain(lv);
                let ov = out@.map_values(|s: String| s@);
                assert forall|i: int| 1 <= i < out@.len() implies is_data_row_of(
                    m,
                    #[trigger] out@[i]@,
                ) by {
                    assert(ov[i] == out@[i]@);
                    assert(is_row_of_key(m, ov[i]));
                    let k = choose|k: Seq<char>| #[trigger] m.contains_key(k) && ov[i] == row_text(m[k]);
                    assert(m[k] == tag_of(k, m[k].mac_address->0));
                    assert(row_text(m[k]) == data_row(k, m[k].mac_address->0));
                }
            }
            Ok(out)
        },
    }
}

} // verus!
