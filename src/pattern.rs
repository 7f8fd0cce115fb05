//! Compiled profile patterns, and the calls into the `regex` and
//! `convert_case` crates that the loader relies on.
use convert_case::Casing;
use vstd::prelude::*;

verus! {

#[verifier::external_type_specification]
#[verifier::external_body]
pub struct ExRegex(regex::Regex);

/// Whether `regex` accepts `pattern` as a valid expression.
pub uninterp spec fn regex_compiles(pattern: Seq<char>) -> bool;

/// The successive non-overlapping matches of `pattern` in `text`: for each,
/// the whole matched text and the text of capture group 1, if it took part.
pub uninterp spec fn regex_captures(pattern: Seq<char>, text: Seq<char>) -> Seq<
    (Seq<char>, Option<Seq<char>>),
>;

/// `text` in title case, as `convert_case` writes it.
pub uninterp spec fn title_case(text: Seq<char>) -> Seq<char>;

pub open spec fn opt_view(o: Option<String>) -> Option<Seq<char>> {
    match o {
        Some(s) => Some(s@),
        None => None,
    }
}

/// A pattern together with its source text. Both are only ever set together,
/// by compiling the source.
pub struct ProfileRegex {
    source: String,
    compiled: regex::Regex,
}

impl View for ProfileRegex {
    type V = Seq<char>;

    closed spec fn view(&self) -> Seq<char> {
        self.source@
    }
}

/// One match of a pattern: its whole text and the text of group 1.
pub struct Capture {
    pub whole: String,
    pub group: Option<String>,
}

impl View for Capture {
    type V = (Seq<char>, Option<Seq<char>>);

    open spec fn view(&self) -> (Seq<char>, Option<Seq<char>>) {
        (self.whole@, opt_view(self.group))
    }
}

pub open spec fn caps_view(v: Seq<Capture>) -> Seq<(Seq<char>, Option<Seq<char>>)> {
    v.map_values(|c: Capture| c@)
}

/// Relies on `regex::Regex::new`: it compiles the pattern, or fails when the
/// syntax is invalid; which of the two depends on the pattern alone. The
/// compiled form is kept with the source it was made from.
#[verifier::external_body]
fn compile(pattern: &str) -> (r: Option<ProfileRegex>)
    ensures
        r is Some <==> regex_compiles(pattern@),
        r matches Some(p) ==> p@ == pattern@,
{
    regex::Regex::new(pattern).ok().map(|compiled| ProfileRegex { source: pattern.to_owned(), compiled })
}

/// Relies on `regex::Regex::captures_iter`: every non-overlapping match of
/// the compiled source in `text`, in order, with its group 1.
#[verifier::external_body]
pub(crate) fn captures_iter(re: &ProfileRegex, text: &str) -> (r: Vec<Capture>)
    ensures
        caps_view(r@) == regex_captures(re@, text@),
{
    re.compiled.captures_iter(text).map(|c| Capture {
        whole: c.get_match().as_str().to_owned(),
        group: c.get(1).map(|m| m.as_str().to_owned()),
    }).collect()
}

/// Relies on `convert_case::Casing::to_case` with `Case::Title`.
#[verifier::external_body]
pub(crate) fn to_title(text: &str) -> (r: String)
    ensures
        r@ == title_case(text@),
{
    text.to_case(convert_case::Case::Title)
}

impl ProfileRegex {
    /// Compiles `source`; `None` when it is not a valid pattern.
    pub fn new(source: &str) -> (r: Option<ProfileRegex>)
        ensures
            r is Some <==> regex_compiles(source@),
            r matches Some(p) ==> p@ == source@,
    {
        compile(source)
    }

    /// The source text of the pattern.
    pub fn as_str(&self) -> (r: &str)
        ensures
            r@ == self@,
    {
        self.source.as_str()
    }
}

} // verus!
