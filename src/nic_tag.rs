//! The tag record and the rendering of its optional fields.
use vstd::prelude::*;
use vstd::string::StrSliceExecFns;
use vstd::string::StringExecFns;

verus! {

broadcast use vstd::string::group_string_axioms;

/// The text that stands for an absent optional field.
pub open spec fn dash() -> Seq<char> {
    seq!['-']
}

/// The literal type every parsed tag carries.
pub open spec fn normal() -> Seq<char> {
    seq!['n', 'o', 'r', 'm', 'a', 'l']
}

/// The view of an optional text field.
pub open spec fn opt_view(o: Option<String>) -> Option<Seq<char>> {
    match o {
        Some(s) => Some(s@),
        None => None,
    }
}

/// How an optional field is rendered: its text, or a dash when absent.
pub open spec fn render_opt(o: Option<Seq<char>>) -> Seq<char> {
    match o {
        Some(s) => s,
        None => dash(),
    }
}

/// The mathematical value of a tag record.
pub struct NicTagView {
    pub name: Seq<char>,
    pub mac_address: Option<Seq<char>>,
    pub link: Option<Seq<char>>,
    pub typ: Option<Seq<char>>,
}

/// The record a parser builds from a name and a MAC address.
pub open spec fn tag_of(name: Seq<char>, mac: Seq<char>) -> NicTagView {
    NicTagView { name, mac_address: Some(mac), link: None, typ: Some(normal()) }
}

/// A named NIC tag with up to three optional attributes.
pub struct NicTag {
    pub name: String,
    pub mac_address: Option<String>,
    pub link: Option<String>,
    pub typ: Option<String>,
}

impl View for NicTag {
    type V = NicTagView;

    open spec fn view(&self) -> NicTagView {
        NicTagView {
            name: self.name@,
            mac_address: opt_view(self.mac_address),
            link: opt_view(self.link),
            typ: opt_view(self.typ),
        }
    }
}

/// Returns the text of `s`, or `-` when it is absent.
pub fn format_optional_string(s: &Option<String>) -> (r: &str)
    ensures
        r@ == render_opt(opt_view(*s)),
{
    match s {
        Some(t) => t.as_str(),
        None => {
            proof {
                reveal_strlit("-");
            }
            "-"
        },
    }
}

impl NicTag {
    /// A tag with the given name and MAC address, no link, and type `normal`.
    pub fn new(name: String, mac_address: String) -> (r: NicTag)
        ensures
            r@ == tag_of(name@, mac_address@),
    {
        proof {
            reveal_strlit("normal");
        }
        let typ = String::from_str("normal");
        assert(typ@ =~= normal());
        NicTag { name, mac_address: Some(mac_address), link: None, typ: Some(typ) }
    }

    /// The short diagnostic form `<NicTag 'name'>`.
    pub fn display_form(&self) -> (r: String)
        ensures
            r@ == seq!['<', 'N', 'i', 'c', 'T', 'a', 'g', ' ', '\''] + self.name@ + seq!['\'', '>'],
    {
        proof {
            reveal_strlit("<NicTag '");
            reveal_strlit("'>");
        }
        let r = String::from_str("<NicTag '").concat(self.name.as_str()).concat("'>");
        r
    }

    /// The verbose diagnostic form, with all four fields and `-` for absent ones:
    /// `<NicTag 'name': mac_address M, link L, type T>`.
    pub fn debug_form(&self) -> (r: String)
        ensures
            r@ == seq!['<', 'N', 'i', 'c', 'T', 'a', 'g', ' ', '\''] + self.name@ + seq![
                '\'',
                ':',
                ' ',
                'm',
                'a',
                'c',
                '_',
                'a',
                'd',
                'd',
                'r',
                'e',
                's',
                's',
                ' ',
            ] + render_opt(opt_view(self.mac_address)) + seq![',', ' ', 'l', 'i', 'n', 'k', ' ']
                + render_opt(opt_view(self.link)) + seq![',', ' ', 't', 'y', 'p', 'e', ' ']
                + render_opt(opt_view(self.typ)) + seq!['>'],
    {
        proof {
            reveal_strlit("<NicTag '");
            reveal_strlit("': mac_address ");
            reveal_strlit(", link ");
            reveal_strlit(", type ");
            reveal_strlit(">");
        }
        let r = String::from_str("<NicTag '").concat(self.name.as_str()).concat(
            "': mac_address ",
        ).concat(format_optional_string(&self.mac_address)).concat(", link ").concat(
            format_optional_string(&self.link),
        ).concat(", type ").concat(format_optional_string(&self.typ)).concat(">");
        r
    }
}

} // verus!
