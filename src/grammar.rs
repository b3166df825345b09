//! The line grammar shared by both parsers: where the `=` stands, what the
//! key and the value are, which lines are blank or comments.
use vstd::prelude::*;
use vstd::string::StrSliceExecFns;
use vstd::string::StringExecFns;

verus! {

/// A character with the Unicode White_Space property, which is what
/// trimming removes.
pub open spec fn is_ws(c: char) -> bool {
    let u = c as u32;
    ||| 0x9 <= u <= 0xd
    ||| u == 0x20
    ||| u == 0x85
    ||| u == 0xa0
    ||| u == 0x1680
    ||| 0x2000 <= u <= 0x200a
    ||| u == 0x2028
    ||| u == 0x2029
    ||| u == 0x202f
    ||| u == 0x205f
    ||| u == 0x3000
}

/// A line that is empty once whitespace is trimmed.
pub open spec fn is_blank(l: Seq<char>) -> bool {
    forall|i: int| 0 <= i < l.len() ==> is_ws(#[trigger] l[i])
}

/// A line whose first character is `#`.
pub open spec fn is_comment(l: Seq<char>) -> bool {
    l.len() > 0 && l[0] == '#'
}

/// A line the lenient grammar ignores.
pub open spec fn is_skipped(l: Seq<char>) -> bool {
    is_blank(l) || is_comment(l)
}

/// The line holds at least one `=`.
pub open spec fn has_eq(l: Seq<char>) -> bool {
    exists|p: int| 0 <= p < l.len() && l[p] == '='
}

/// `p` is the position of the first `=` of the line.
pub open spec fn is_first_eq(l: Seq<char>, p: int) -> bool {
    &&& 0 <= p < l.len()
    &&& l[p] == '='
    &&& forall|j: int| 0 <= j < p ==> l[j] != '='
}

/// The line holds exactly one `=`, so splitting it on `=` gives two fields.
pub open spec fn exactly_one_eq(l: Seq<char>) -> bool {
    exists|p: int|
        0 <= p < l.len() && l[p] == '=' && forall|j: int|
            0 <= j < l.len() && j != p ==> #[trigger] l[j] != '='
}

/// The position of the first `=`, or -1 where there is none.
pub open spec fn first_eq(l: Seq<char>) -> int {
    if exists|p: int| is_first_eq(l, p) {
        choose|p: int| is_first_eq(l, p)
    } else {
        -1
    }
}

/// What stands before the first `=`.
pub open spec fn key_of(l: Seq<char>) -> Seq<char> {
    l.subrange(0, first_eq(l))
}

/// Everything after the first `=`, further `=` included.
pub open spec fn value_of(l: Seq<char>) -> Seq<char> {
    l.subrange(first_eq(l) + 1, l.len() as int)
}

/// The suffix that marks a key as a NIC tag.
pub open spec fn nic_suffix() -> Seq<char> {
    seq!['_', 'n', 'i', 'c']
}

/// The key ends with `_nic`.
pub open spec fn ends_with_nic(k: Seq<char>) -> bool {
    k.len() >= 4 && k.subrange(k.len() - 4, k.len() as int) == nic_suffix()
}

/// The first `=` is unique, so `first_eq` names it.
pub proof fn lemma_first_eq(l: Seq<char>, p: int)
    requires
        is_first_eq(l, p),
    ensures
        first_eq(l) == p,
{
    let q = choose|q: int| is_first_eq(l, q);
    if q < p {
        assert(l[q] != '=');
    } else if p < q {
        assert(l[p] != '=');
    }
}

/// Whether `c` has the White_Space property.
pub fn is_whitespace_char(c: char) -> (r: bool)
    ensures
        r == is_ws(c),
{
    let u = c as u32;
    (0x9 <= u && u <= 0xd) || u == 0x20 || u == 0x85 || u == 0xa0 || u == 0x1680 || (0x2000 <= u
        && u <= 0x200a) || u == 0x2028 || u == 0x2029 || u == 0x202f || u == 0x205f || u == 0x3000
}

/// The characters of `s`, in order.
pub fn chars_of(s: &str) -> (r: Vec<char>)
    ensures
        r@ == s@,
{
    let n = s.unicode_len();
    let mut r: Vec<char> = Vec::new();
    let mut i: usize = 0;
    while i < n
        invariant
            n == s@.len(),
            i <= n,
            r@ == s@.subrange(0, i as int),
        decreases n - i,
    {
        let c = s.get_char(i);
        r.push(c);
        i = i + 1;
        assert(r@ =~= s@.subrange(0, i as int));
    }
    assert(r@ =~= s@);
    r
}

/// Whether the line is empty once whitespace is trimmed.
pub fn is_blank_line(l: &Vec<char>) -> (r: bool)
    ensures
        r == is_blank(l@),
{
    let mut i: usize = 0;
    while i < l.len()
        invariant
            i <= l@.len(),
            forall|j: int| 0 <= j < i ==> is_ws(#[trigger] l@[j]),
        decreases l@.len() - i,
    {
        if !is_whitespace_char(l[i]) {
            return false;
        }
        i = i + 1;
    }
    true
}

/// Whether the line is blank or a comment.
pub fn is_skipped_line(l: &Vec<char>) -> (r: bool)
    ensures
        r == is_skipped(l@),
{
    if l.len() > 0 && l[0] == '#' {
        return true;
    }
    is_blank_line(l)
}

/// The position of the first `=` of the line, if it holds one.
pub fn find_first_eq(l: &Vec<char>) -> (r: Option<usize>)
    ensures
        match r {
            Some(p) => is_first_eq(l@, p as int) && first_eq(l@) == p as int && has_eq(l@),
            None => !has_eq(l@),
        },
{
    let mut i: usize = 0;
    while i < l.len()
        invariant
            i <= l@.len(),
            forall|j: int| 0 <= j < i ==> l@[j] != '=',
        decreases l@.len() - i,
    {
        if l[i] == '=' {
            proof {
                lemma_first_eq(l@, i as int);
            }
            return Some(i);
        }
        i = i + 1;
    }
    None
}

/// The position of the `=` of a line that holds exactly one.
pub fn find_only_eq(l: &Vec<char>) -> (r: Option<usize>)
    ensures
        match r {
            Some(p) => exactly_one_eq(l@) && first_eq(l@) == p as int,
            None => !exactly_one_eq(l@),
        },
{
    match find_first_eq(l) {
        None => None,
        Some(p) => {
            assert(p < l.len());
            let mut i: usize = p + 1;
            while i < l.len()
                invariant
                    p < i <= l@.len(),
                    is_first_eq(l@, p as int),
                    forall|j: int| 0 <= j < i && j != p ==> l@[j] != '=',
                decreases l@.len() - i,
            {
                if l[i] == '=' {
                    assert(!exactly_one_eq(l@)) by {
                        if exactly_one_eq(l@) {
                            let q = choose|q: int|
                                0 <= q < l@.len() && l@[q] == '=' && forall|j: int|
                                    0 <= j < l@.len() && j != q ==> #[trigger] l@[j] != '=';
                            if q == p {
                                assert(l@[i as int] != '=');
                            } else {
                                assert(l@[p as int] != '=');
                            }
                        }
                    }
                    return None;
                }
                i = i + 1;
            }
            assert(l@[p as int] == '=');
            Some(p)
        },
    }
}

/// Whether the key, the first `end` characters of the line, ends with `_nic`.
pub fn key_ends_with_nic(l: &Vec<char>, end: usize) -> (r: bool)
    requires
        end <= l@.len(),
    ensures
        r == ends_with_nic(l@.subrange(0, end as int)),
{
    let ghost k = l@.subrange(0, end as int);
    if end < 4 {
        return false;
    }
    let r = l[end - 4] == '_' && l[end - 3] == 'n' && l[end - 2] == 'i' && l[end - 1] == 'c';
    assert(r == (k.subrange(k.len() - 4, k.len() as int) =~= nic_suffix()));
    r
}

/// The characters of `s` from position `from` up to `to`, as a new string.
pub fn substring(s: &str, from: usize, to: usize) -> (r: String)
    requires
        from <= to <= s@.len(),
    ensures
        r@ == s@.subrange(from as int, to as int),
{
    String::from_str(s.substring_char(from, to))
}

} // verus!
