//! Extraction of the single type argument of a named generic wrapper
//! (`Wrapper<Arg>`) from the tail of a normalised type text.

use regex::Regex;
use vstd::prelude::*;
use vstd::string::*;

verus! {

#[verifier::external_type_specification]
#[verifier::external_body]
pub struct ExRegex(Regex);

/// `s` is a run of one to 10000 ASCII letters, digits and underscores.
pub open spec fn is_ident_text(s: Seq<char>) -> bool {
    0 < s.len() <= 10000 && forall|i: int|
        0 <= i < s.len() ==> {
            let c = #[trigger] s[i];
            ('a' <= c <= 'z') || ('A' <= c <= 'Z') || ('0' <= c <= '9') || c == '_'
        }
}

/// A character that may stand inside a wrapper's argument.
pub open spec fn is_arg_char(c: char) -> bool {
    ('a' <= c <= 'z') || ('A' <= c <= 'Z') || ('0' <= c <= '9') || c == '_' || c == '<' || c
        == '>'
}

/// At position `p` of `s` stands `cls<`, followed by a non-empty argument made of
/// argument characters, and a final `>` that ends `s`.
pub open spec fn shape_at(cls: Seq<char>, s: Seq<char>, p: int) -> bool {
    &&& 0 <= p
    &&& p + cls.len() + 1 < s.len() - 1
    &&& s.subrange(p, p + cls.len()) == cls
    &&& s[p + cls.len()] == '<'
    &&& s.last() == '>'
    &&& forall|i: int| p + cls.len() + 1 <= i < s.len() - 1 ==> is_arg_char(#[trigger] s[i])
}

/// The smallest position `p >= k` at which `shape_at` holds, or -1 if none does.
pub open spec fn first_shape(cls: Seq<char>, s: Seq<char>, k: int) -> int
    decreases s.len() - k,
{
    if k >= s.len() || k < 0 {
        -1
    } else if shape_at(cls, s, k) {
        k
    } else {
        first_shape(cls, s, k + 1)
    }
}

/// The argument of the outermost `cls<...>` that ends `s`: the text between its
/// `<` and the final `>`. Nested angle brackets stay in the argument, so the
/// argument of `Vec` in `Vec<Vec<u8>>` is `Vec<u8>`.
pub open spec fn generic_capture(cls: Seq<char>, s: Seq<char>) -> Option<Seq<char>> {
    let p = first_shape(cls, s, 0);
    if p >= 0 && shape_at(cls, s, p) {
        Some(s.subrange(p + cls.len() + 1, s.len() - 1))
    } else {
        None
    }
}

/// The pattern text for the wrapper `cls`: the shortest prefix, then `cls<`, a
/// captured argument, and a `>` at the end.
pub open spec fn generic_pattern(cls: Seq<char>) -> Seq<char> {
    ".*?"@ + cls + "<([a-zA-Z0-9_<>]+)>$"@
}

/// A compiled matcher for one wrapper name.
pub struct GenericCapture {
    cls_name: String,
    regex: Regex,
}

/// Relies on `regex::Regex::new`: the text built by `generic_pattern` from an
/// identifier of at most 10000 characters is valid pattern syntax well under the
/// default compiled-size limit of 10 MiB, so compiling it succeeds. The matcher
/// keeps the wrapper name it was compiled for.
#[verifier::external_body]
fn compile_capture(cls_name: String, pattern: &str) -> (r: GenericCapture)
    requires
        is_ident_text(cls_name@),
        pattern@ == generic_pattern(cls_name@),
    ensures
        r.cls_name@ == cls_name@,
{
    GenericCapture { cls_name, regex: Regex::new(pattern).unwrap() }
}

impl GenericCapture {
    /// The wrapper name this matcher recognises.
    pub closed spec fn wrapper_name(&self) -> Seq<char> {
        self.cls_name@
    }

    /// Compiles the matcher for the wrapper `cls_name`.
    pub fn new(cls_name: &str) -> (r: Self)
        requires
            is_ident_text(cls_name@),
        ensures
            r.wrapper_name() == cls_name@,
    {
        let mut pattern = String::from_str(".*?");
        pattern.append(cls_name);
        pattern.append("<([a-zA-Z0-9_<>]+)>$");
        compile_capture(String::from_str(cls_name), pattern.as_str())
    }

    /// The argument of the wrapper at the end of `s`, e.g. `Tom` from `List<Tom>`.
    ///
    /// Relies on `regex::Regex::captures` over the matcher compiled from
    /// `generic_pattern(self.wrapper_name())`, the only way one is built. Matching
    /// is leftmost-first and the prefix `.*?` is lazy, so the match uses the first
    /// `wrapper<` from which the rest of `s` is argument characters closed by a
    /// final `>` (`.` stops only at a newline, which no argument holds); the group
    /// is followed by `>$`, so it runs up to that final `>`.
    #[verifier::external_body]
    pub fn captures(&self, s: &str) -> (r: Option<String>)
        ensures
            match r {
                Some(c) => generic_capture(self.wrapper_name(), s@) == Some(c@),
                None => generic_capture(self.wrapper_name(), s@) is None,
            },
    {
        match self.regex.captures(s) {
            Some(caps) => Some(caps[1].to_string()),
            None => None,
        }
    }
}

} // verus!
