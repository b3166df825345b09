//! Properties of the tables the two parsers describe.
use vstd::prelude::*;
use crate::grammar::{ends_with_nic, is_first_eq, is_skipped, key_of, lemma_first_eq};
use crate::nic_tag::tag_of;
use crate::parse::{is_retained, strict_map, usb_bad, usb_map, usb_ok};

verus! {

/// Every tag of a strict table is stored under its own name, with a MAC
/// address, no link and type `normal`.
pub proof fn lemma_strict_tags_plain(ls: Seq<Seq<char>>)
    ensures
        forall|k: Seq<char>|
            #[trigger] strict_map(ls).contains_key(k) ==> strict_map(ls)[k] == tag_of(
                k,
                strict_map(ls)[k].mac_address->0,
            ),
    decreases ls.len(),
{
    if ls.len() > 0 {
        lemma_strict_tags_plain(ls.drop_last());
    }
}

/// Every tag of a lenient table is stored under its own name, with a MAC
/// address, no link and type `normal`.
pub proof fn lemma_usb_tags_plain(ls: Seq<Seq<char>>)
    ensures
        forall|k: Seq<char>|
            #[trigger] usb_map(ls).contains_key(k) ==> usb_map(ls)[k] == tag_of(
                k,
                usb_map(ls)[k].mac_address->0,
            ),
    decreases ls.len(),
{
    if ls.len() > 0 {
        lemma_usb_tags_plain(ls.drop_last());
    }
}

/// The lenient parser keeps no key that does not end in `_nic`.
pub proof fn lemma_usb_keys_end_with_nic(ls: Seq<Seq<char>>)
    ensures
        forall|k: Seq<char>| #[trigger] usb_map(ls).contains_key(k) ==> ends_with_nic(k),
    decreases ls.len(),
{
    if ls.len() > 0 {
        lemma_usb_keys_end_with_nic(ls.drop_last());
        let l = ls.last();
        assert forall|k: Seq<char>| #[trigger] usb_map(ls).contains_key(k) implies ends_with_nic(
            k,
        ) by {
            if is_retained(l) && k == key_of(l) {
            } else {
                assert(usb_map(ls.drop_last()).contains_key(k));
            }
        }
    }
}

/// In a lenient file, the tag of a retained line that no later retained line
/// overrides has as MAC address everything after the line's first `=`,
/// further `=` included.
pub proof fn lemma_usb_value_after_first_eq(ls: Seq<Seq<char>>, i: int, p: int)
    requires
        0 <= i < ls.len(),
        is_retained(ls[i]),
        is_first_eq(ls[i], p),
        forall|j: int|
            i < j < ls.len() && is_retained(#[trigger] ls[j]) ==> key_of(ls[j]) != key_of(ls[i]),
    ensures
        usb_map(ls).contains_key(ls[i].subrange(0, p)),
        usb_map(ls)[ls[i].subrange(0, p)].mac_address == Some(
            ls[i].subrange(p + 1, ls[i].len() as int),
        ),
    decreases ls.len(),
{
    lemma_first_eq(ls[i], p);
    if i < ls.len() - 1 {
        let pre = ls.drop_last();
        assert(pre[i] == ls[i]);
        assert forall|j: int| i < j < pre.len() && is_retained(#[trigger] pre[j]) implies key_of(
            pre[j],
        ) != key_of(pre[i]) by {
            assert(pre[j] == ls[j]);
        }
        lemma_usb_value_after_first_eq(pre, i, p);
        assert(ls.last() == ls[ls.len() - 1]);
    }
}

/// A blank or comment line, wherever it stands in a lenient file, neither
/// makes the parse fail nor adds a tag.
pub proof fn lemma_usb_skipped_line_ignored(a: Seq<Seq<char>>, l: Seq<char>, b: Seq<Seq<char>>)
    requires
        is_skipped(l),
    ensures
        usb_ok(a + seq![l] + b) == usb_ok(a + b),
        usb_map(a + seq![l] + b) == usb_map(a + b),
    decreases b.len(),
{
    let with = a + seq![l] + b;
    let without = a + b;
    assert(!usb_bad(l));
    if usb_ok(without) {
        assert forall|i: int| 0 <= i < with.len() implies !usb_bad(#[trigger] with[i]) by {
            if i < a.len() {
                assert(with[i] == without[i]);
            } else if i > a.len() {
                assert(with[i] == without[i - 1]);
            }
        }
    }
    if usb_ok(with) {
        assert forall|i: int| 0 <= i < without.len() implies !usb_bad(#[trigger] without[i]) by {
            if i < a.len() {
                assert(with[i] == without[i]);
            } else {
                assert(with[i + 1] == without[i]);
            }
        }
    }
    if b.len() == 0 {
        assert(with.drop_last() =~= a);
        assert(without =~= a);
    } else {
        lemma_usb_skipped_line_ignored(a, l, b.drop_last());
        assert(with.drop_last() =~= a + seq![l] + b.drop_last());
        assert(without.drop_last() =~= a + b.drop_last());
        assert(with.last() == without.last());
    }
}

} // verus!
