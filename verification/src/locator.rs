//! From a file specifier to the place of its template.
//!
//! A file specifier is the path of the file, and behind its last `@`, where
//! it has one, the tag of a variant. The template lies under the base
//! location, below a directory `@tag/` where there is a tag.

use vstd::prelude::*;
use vstd::string::*;
use crate::outside::{join, joined};
use crate::text::{find_last, split_last, string_of, to_chars};

verus! {

/// Where all templates lie.
pub const BASE: &'static str = "https://raw.githubusercontent.com/aslilac/bai/main/static/";

/// The address of a template.
#[derive(Debug)]
pub struct SourceLocator {
    pub url: String,
}

impl View for SourceLocator {
    type V = Seq<char>;

    open spec fn view(&self) -> Seq<char> {
        self.url@
    }
}

/// The part of a file specifier that gave no address.
#[derive(Clone, Copy, Debug, PartialEq, Eq, Structural)]
pub enum Part {
    /// The tag of the variant.
    Tag,
    /// The path of the file.
    Path,
}

/// A file specifier that gives no address: the part that failed, and what
/// the resolution said of it.
#[derive(Debug)]
pub struct ParseError {
    pub part: Part,
    pub detail: String,
}

/// What a `ParseError` says, as contracts speak of it.
pub struct Unresolved {
    pub part: Part,
    pub detail: Seq<char>,
}

impl View for ParseError {
    type V = Unresolved;

    open spec fn view(&self) -> Unresolved {
        Unresolved { part: self.part, detail: self.detail@ }
    }
}

impl ParseError {
    /// The text of the error: what the resolution said.
    pub fn message(&self) -> (r: String)
        ensures
            r@ == self.detail@,
    {
        self.detail.clone()
    }
}

/// `c` in lower case where it is an ASCII capital letter, else `c`.
pub open spec fn to_lower(c: char) -> char {
    if 'A' <= c <= 'Z' {
        ((c as u8) + 32) as char
    } else {
        c
    }
}

/// `s` with its ASCII capital letters in lower case.
pub open spec fn lowercase(s: Seq<char>) -> Seq<char> {
    Seq::new(s.len(), |i: int| to_lower(s[i]))
}

/// The path of the file that `specifier` names: what stands before its last
/// `@`, or all of it where it holds none.
pub open spec fn destination(specifier: Seq<char>) -> Seq<char> {
    match split_last(specifier, '@') {
        Some((path, _)) => path,
        None => specifier,
    }
}

/// The tag of the variant that `specifier` names: what stands behind its
/// last `@`, in lower case; `None` where it holds no `@`.
pub open spec fn variant(specifier: Seq<char>) -> Option<Seq<char>> {
    match split_last(specifier, '@') {
        Some((_, tag)) => Some(lowercase(tag)),
        None => None,
    }
}

/// The directory of the variant `tag`, as it is written in an address.
pub open spec fn tag_directory(tag: Seq<char>) -> Seq<char> {
    seq!['@'] + tag + seq!['/']
}

/// The base of the templates of the variant `tag`.
pub open spec fn variant_base(tag: Option<Seq<char>>) -> Result<Seq<char>, Unresolved> {
    match tag {
        None => Ok(BASE@),
        Some(tag) => match joined(BASE@, tag_directory(tag)) {
            Ok(base) => Ok(base),
            Err(detail) => Err(Unresolved { part: Part::Tag, detail }),
        },
    }
}

/// The address of the template that `specifier` names.
pub open spec fn located(specifier: Seq<char>) -> Result<Seq<char>, Unresolved> {
    match variant_base(variant(specifier)) {
        Err(unresolved) => Err(unresolved),
        Ok(base) => match joined(base, destination(specifier)) {
            Ok(url) => Ok(url),
            Err(detail) => Err(Unresolved { part: Part::Path, detail }),
        },
    }
}

/// Tests whether `c` is an ASCII capital letter, and gives it in lower case.
fn lower(c: char) -> (r: char)
    ensures
        r == to_lower(c),
{
    if 'A' <= c && c <= 'Z' {
        ((c as u8) + 32) as char
    } else {
        c
    }
}

/// The path and the tag of `specifier`.
pub fn split_specifier(specifier: &str) -> (r: (String, Option<String>))
    ensures
        r.0@ == destination(specifier@),
        r.1.deep_view() == variant(specifier@),
{
    let chars = to_chars(specifier);
    match find_last(&chars, '@') {
        None => (String::from_str(specifier), None),
        Some(n) => {
            let path = string_of(&chars, 0, n);
            let mut tag: Vec<char> = Vec::new();
            let mut i: usize = n + 1;
            assert(tag@ =~= lowercase(chars@.subrange(n + 1, i as int)));
            while i < chars.len()
                invariant
                    n < i <= chars.len(),
                    tag@ == lowercase(chars@.subrange(n + 1, i as int)),
                decreases chars.len() - i,
            {
                tag.push(lower(chars[i]));
                i += 1;
                assert(tag@ =~= lowercase(chars@.subrange(n + 1, i as int)));
            }
            assert(chars@.subrange(n + 1, chars.len() as int) =~= specifier@.skip(n + 1));
            assert(path@ =~= specifier@.take(n as int));
            (path, Some(string_of(&tag, 0, tag.len())))
        },
    }
}

/// The directory of the variant `tag`.
pub fn tag_segment(tag: &str) -> (r: String)
    ensures
        r@ == tag_directory(tag@),
{
    proof {
        reveal_strlit("@");
        reveal_strlit("/");
    }
    let mut r = String::from_str("@");
    r.append(tag);
    r.append("/");
    assert(r@ =~= tag_directory(tag@));
    r
}

/// The base of a variant, from what the resolution of its directory gave.
pub fn base_from(resolved: Result<String, String>) -> (r: Result<String, ParseError>)
    ensures
        match (resolved, r) {
            (Ok(base), Ok(same)) => same@ == base@,
            (Err(detail), Err(e)) => e@ == (Unresolved { part: Part::Tag, detail: detail@ }),
            _ => false,
        },
{
    match resolved {
        Ok(base) => Ok(base),
        Err(detail) => Err(ParseError { part: Part::Tag, detail }),
    }
}

/// The path of a file with its address, from what the resolution of the
/// path gave.
pub fn locator_from(path: String, resolved: Result<String, String>) -> (r: Result<
    (String, SourceLocator),
    ParseError,
>)
    ensures
        match (resolved, r) {
            (Ok(url), Ok((same, locator))) => same@ == path@ && locator@ == url@,
            (Err(detail), Err(e)) => e@ == (Unresolved { part: Part::Path, detail: detail@ }),
            _ => false,
        },
{
    match resolved {
        Ok(url) => Ok((path, SourceLocator { url })),
        Err(detail) => Err(ParseError { part: Part::Path, detail }),
    }
}

/// The path of the file that `file` names, and the address of its template.
pub fn parse_file_name(file: &str) -> (r: Result<(String, SourceLocator), ParseError>)
    ensures
        match r {
            Ok((path, locator)) => path@ == destination(file@) && located(file@) == Ok::<
                Seq<char>,
                Unresolved,
            >(locator@),
            Err(e) => located(file@) == Err::<Seq<char>, Unresolved>(e@),
        },
{
    let (path, tag) = split_specifier(file);
    let base = match tag {
        None => String::from_str(BASE),
        Some(tag) => {
            let directory = tag_segment(tag.as_str());
            match base_from(join(BASE, directory.as_str())) {
                Ok(base) => base,
                Err(e) => {
                    return Err(e);
                },
            }
        },
    };
    let resolved = join(base.as_str(), path.as_str());
    locator_from(path, resolved)
}

} // verus!
