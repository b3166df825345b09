//! The two tag file parsers: the strict one for the cache file this program
//! writes, and the lenient one for the system configuration file.
use vstd::prelude::*;
use crate::grammar::{
    chars_of, ends_with_nic, exactly_one_eq, find_first_eq, find_only_eq, has_eq, is_skipped,
    is_skipped_line, key_ends_with_nic, key_of, substring, value_of,
};
use crate::nic_tag::{tag_of, NicTag, NicTagView};
use crate::table::TagTable;

verus! {

/// The lines of a file as character sequences.
pub open spec fn line_views(lines: Seq<String>) -> Seq<Seq<char>> {
    lines.map_values(|l: String| l@)
}

/// Every line of a strict file is `NAME=MAC` with exactly one `=`.
pub open spec fn strict_ok(ls: Seq<Seq<char>>) -> bool {
    forall|i: int| 0 <= i < ls.len() ==> exactly_one_eq(#[trigger] ls[i])
}

/// Line `n` (counted from 1) is the first line of a strict file without
/// exactly one `=`.
pub open spec fn first_bad_strict(ls: Seq<Seq<char>>, n: int) -> bool {
    &&& 1 <= n <= ls.len()
    &&& !exactly_one_eq(ls[n - 1])
    &&& forall|j: int| 0 <= j < n - 1 ==> exactly_one_eq(#[trigger] ls[j])
}

/// The table a strict file describes: each line in turn stored under its
/// name, a later line replacing an earlier one.
pub open spec fn strict_map(ls: Seq<Seq<char>>) -> Map<Seq<char>, NicTagView>
    decreases ls.len(),
{
    if ls.len() == 0 {
        Map::empty()
    } else {
        let l = ls.last();
        strict_map(ls.drop_last()).insert(key_of(l), tag_of(key_of(l), value_of(l)))
    }
}

/// A line of a lenient file that is neither skipped nor holds an `=`.
pub open spec fn usb_bad(l: Seq<char>) -> bool {
    !is_skipped(l) && !has_eq(l)
}

/// Every line of a lenient file is skipped or holds an `=`.
pub open spec fn usb_ok(ls: Seq<Seq<char>>) -> bool {
    forall|i: int| 0 <= i < ls.len() ==> !usb_bad(#[trigger] ls[i])
}

/// Line `n` (counted from 1) is the first bad line of a lenient file.
pub open spec fn first_bad_usb(ls: Seq<Seq<char>>, n: int) -> bool {
    &&& 1 <= n <= ls.len()
    &&& usb_bad(ls[n - 1])
    &&& forall|j: int| 0 <= j < n - 1 ==> !usb_bad(#[trigger] ls[j])
}

/// A lenient line that yields a tag: not skipped, with an `=`, and a key
/// ending in `_nic`.
pub open spec fn is_retained(l: Seq<char>) -> bool {
    !is_skipped(l) && has_eq(l) && ends_with_nic(key_of(l))
}

/// The table a lenient file describes: each retained line in turn stored
/// under its key, a later line replacing an earlier one.
pub open spec fn usb_map(ls: Seq<Seq<char>>) -> Map<Seq<char>, NicTagView>
    decreases ls.len(),
{
    if ls.len() == 0 {
        Map::empty()
    } else {
        let l = ls.last();
        let m = usb_map(ls.drop_last());
        if is_retained(l) {
            m.insert(key_of(l), tag_of(key_of(l), value_of(l)))
        } else {
            m
        }
    }
}

/// A malformed line: its number, counted from 1, and its text.
pub struct LineError {
    pub line_number: usize,
    pub line: String,
}

/// Parses the strict cache file format: every line is `NAME=MAC` with exactly
/// one `=`. The first line that is not fails the whole parse.
pub fn parse_tags_file(lines: &Vec<String>) -> (r: Result<TagTable, LineError>)
    ensures
        match r {
            Ok(t) => strict_ok(line_views(lines@)) && t.wf() && t@ == strict_map(
                line_views(lines@),
            ),
            Err(e) => first_bad_strict(line_views(lines@), e.line_number as int) && e.line@
                == line_views(lines@)[e.line_number - 1],
        },
{
    let ghost lv = line_views(lines@);
    let mut table = TagTable::new();
    let mut i: usize = 0;
    while i < lines.len()
        invariant
            lv == line_views(lines@),
            i <= lines@.len(),
            table.wf(),
            table@ == strict_map(lv.subrange(0, i as int)),
            forall|j: int| 0 <= j < i ==> exactly_one_eq(#[trigger] lv[j]),
        decreases lines@.len() - i,
    {
        let line = lines[i].as_str();
        let cs = chars_of(line);
        assert(cs@ == lv[i as int]);
        match find_only_eq(&cs) {
            None => {
                return Err(LineError { line_number: i + 1, line: lines[i].clone() });
            },
            Some(p) => {
                let name = substring(line, 0, p);
                let mac = substring(line, p + 1, cs.len());
                let ghost pre = lv.subrange(0, i as int);
                let ghost next = lv.subrange(0, i as int + 1);
                assert(next.drop_last() =~= pre);
                assert(next.last() == lv[i as int]);
                let tag = NicTag::new(name, mac);
                table.insert(tag);
                i = i + 1;
            },
        }
    }
    assert(lv.subrange(0, i as int) =~= lv);
    Ok(table)
}

/// Parses the lenient configuration file format: blank and `#` lines are
/// skipped, every other line is split at its first `=`, and only keys ending
/// in `_nic` are kept. A non-skipped line without `=` fails the whole parse.
pub fn parse_usb_file(lines: &Vec<String>) -> (r: Result<TagTable, LineError>)
    ensures
        match r {
            Ok(t) => usb_ok(line_views(lines@)) && t.wf() && t@ == usb_map(line_views(lines@)),
            Err(e) => first_bad_usb(line_views(lines@), e.line_number as int) && e.line@
                == line_views(lines@)[e.line_number - 1],
        },
{
    let ghost lv = line_views(lines@);
    let mut table = TagTable::new();
    let mut i: usize = 0;
    while i < lines.len()
        invariant
            lv == line_views(lines@),
            i <= lines@.len(),
            table.wf(),
            table@ == usb_map(lv.subrange(0, i as int)),
            forall|j: int| 0 <= j < i ==> !usb_bad(#[trigger] lv[j]),
        decreases lines@.len() - i,
    {
        let line = lines[i].as_str();
        let cs = chars_of(line);
        assert(cs@ == lv[i as int]);
        let ghost pre = lv.subrange(0, i as int);
        let ghost next = lv.subrange(0, i as int + 1);
        assert(next.drop_last() =~= pre);
        assert(next.last() == lv[i as int]);
        if !is_skipped_line(&cs) {
            match find_first_eq(&cs) {
                None => {
                    return Err(LineError { line_number: i + 1, line: lines[i].clone() });
                },
                Some(p) => {
                    if key_ends_with_nic(&cs, p) {
                        let name = substring(line, 0, p);
                        let mac = substring(line, p + 1, cs.len());
                        let tag = NicTag::new(name, mac);
                        table.insert(tag);
                    }
                },
            }
        }
        i = i + 1;
    }
    assert(lv.subrange(0, i as int) =~= lv);
    Ok(table)
}

} // verus!
