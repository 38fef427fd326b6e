//! The formats a configuration can be written in, and which of them a file
//! is read as.

use vstd::prelude::*;
use vstd::string::StrSliceExecFns;

verus! {

/// A configuration format.
#[derive(Debug, Clone, Copy, PartialEq, Eq, Structural)]
pub enum Codec {
    Json,
    Yaml,
}

/// Whether `c` is the letter given in its two cases.
pub open spec fn is_letter(c: char, lower: char, upper: char) -> bool {
    c == lower || c == upper
}

/// Whether `ext` spells `yaml`, in any mix of cases.
pub open spec fn spells_yaml(ext: Seq<char>) -> bool {
    &&& ext.len() == 4
    &&& is_letter(ext[0], 'y', 'Y')
    &&& is_letter(ext[1], 'a', 'A')
    &&& is_letter(ext[2], 'm', 'M')
    &&& is_letter(ext[3], 'l', 'L')
}

/// Whether `ext` spells `json`, in any mix of cases.
pub open spec fn spells_json(ext: Seq<char>) -> bool {
    &&& ext.len() == 4
    &&& is_letter(ext[0], 'j', 'J')
    &&& is_letter(ext[1], 's', 'S')
    &&& is_letter(ext[2], 'o', 'O')
    &&& is_letter(ext[3], 'n', 'N')
}

/// The format that a file extension stands for.
pub open spec fn codec_of(ext: Seq<char>) -> Option<Codec> {
    if spells_yaml(ext) {
        Some(Codec::Yaml)
    } else if spells_json(ext) {
        Some(Codec::Json)
    } else {
        None
    }
}

/// The formats to try on a file, in order: the one its extension stands
/// for, or, where it has none or an unknown one, YAML and then JSON.
pub open spec fn codecs_to_try(ext: Option<Seq<char>>) -> Seq<Codec> {
    match ext {
        Some(ext) if codec_of(ext) is Some => seq![codec_of(ext)->0],
        _ => seq![Codec::Yaml, Codec::Json],
    }
}

/// Whether the character at `at` is the letter given in its two cases.
fn letter_at(ext: &str, at: usize, lower: char, upper: char) -> (b: bool)
    requires
        at < ext@.len(),
    ensures
        b == is_letter(ext@[at as int], lower, upper),
{
    let c = ext.get_char(at);
    c == lower || c == upper
}

impl Codec {
    /// The format that a file extension, without its dot, stands for.
    /// Cases are not told apart.
    pub fn from_extension(ext: &str) -> (c: Option<Codec>)
        ensures
            c == codec_of(ext@),
    {
        if ext.unicode_len() != 4 {
            return None;
        }
        if letter_at(ext, 0, 'y', 'Y') && letter_at(ext, 1, 'a', 'A') && letter_at(ext, 2, 'm', 'M')
            && letter_at(ext, 3, 'l', 'L') {
            Some(Codec::Yaml)
        } else if letter_at(ext, 0, 'j', 'J') && letter_at(ext, 1, 's', 'S') && letter_at(
            ext,
            2,
            'o',
            'O',
        ) && letter_at(ext, 3, 'n', 'N') {
            Some(Codec::Json)
        } else {
            None
        }
    }

    /// The formats to try on a file with this extension, in order.
    pub fn candidates(ext: Option<&str>) -> (order: Vec<Codec>)
        ensures
            order@ == codecs_to_try(
                match ext {
                    Some(e) => Some(e@),
                    None => None,
                },
            ),
    {
        let known = match ext {
            Some(e) => Codec::from_extension(e),
            None => None,
        };
        let mut order: Vec<Codec> = Vec::new();
        match known {
            Some(codec) => {
                order.push(codec);
                assert(order@ =~= seq![codec]);
            },
            None => {
                order.push(Codec::Yaml);
                order.push(Codec::Json);
                assert(order@ =~= seq![Codec::Yaml, Codec::Json]);
            },
        }
        order
    }
}

} // verus!
