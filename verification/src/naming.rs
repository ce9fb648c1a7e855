//! The naming engine: heuristic and sed style strategies for mock names,
//! and default output file naming.

use vstd::prelude::*;

use crate::strutil::{
    ends_with_str, push_char, rfind_char, replace_all, spec_digits, spec_ends_with, spec_replace,
    spec_split, spec_starts_with, split_char, starts_with_str, str_eq, substr, u64_to_string,
    views_of,
};
use crate::MockHeader;
use crate::MocksmithError;
use crate::MocksmithResult;

verus! {

/// Whether a character counts as uppercase; the result of `char::is_uppercase`.
pub uninterp spec fn uppercase_char(c: char) -> bool;

/// Relies on `char::is_uppercase` of std: true exactly for characters with the
/// Unicode uppercase property, which holds of the ASCII letters `A`-`Z` and
/// not of `a`-`z`.
#[verifier::external_body]
pub fn char_is_uppercase(c: char) -> (r: bool)
    ensures
        r == uppercase_char(c),
        'A' <= c && c <= 'Z' ==> r,
        'a' <= c && c <= 'z' ==> !r,
{
    c.is_uppercase()
}

/// The default mock name: the class name with the first matching of the
/// markers `Interface`/`Ifc` (suffix, then prefix) or a leading `I` before an
/// uppercase letter stripped, and `Mock` prepended.
pub open spec fn spec_default_name_mock(s: Seq<char>) -> Seq<char> {
    if spec_ends_with(s, "Interface"@) {
        "Mock"@ + s.take(s.len() - "Interface"@.len())
    } else if spec_ends_with(s, "Ifc"@) {
        "Mock"@ + s.take(s.len() - "Ifc"@.len())
    } else if spec_starts_with(s, "Interface"@) {
        "Mock"@ + s.skip("Interface"@.len() as int)
    } else if spec_starts_with(s, "Ifc"@) {
        "Mock"@ + s.skip("Ifc"@.len() as int)
    } else if s.len() > 1 && s[0] == 'I' && uppercase_char(s[1]) {
        "Mock"@ + s.drop_first()
    } else {
        "Mock"@ + s
    }
}

/// Default function to generate mock names.
///
/// Strips common interface markers like `Interface`, `Ifc`, or a leading `I`
/// from the class name and prepends `Mock` to it.
pub fn default_name_mock(class_name: &str) -> (r: String)
    ensures
        r@ == spec_default_name_mock(class_name@),
{
    let n = class_name.unicode_len();
    let mut r = String::new();
    r.append("Mock");
    if ends_with_str(class_name, "Interface") {
        let li = "Interface".unicode_len();
        let body = substr(class_name, 0, n - li);
        r.append(body.as_str());
        proof {
            assert(class_name@.take(n - li) =~= class_name@.subrange(0, n - li));
        }
    } else if ends_with_str(class_name, "Ifc") {
        let li = "Ifc".unicode_len();
        let body = substr(class_name, 0, n - li);
        r.append(body.as_str());
        proof {
            assert(class_name@.take(n - li) =~= class_name@.subrange(0, n - li));
        }
    } else if starts_with_str(class_name, "Interface") {
        let li = "Interface".unicode_len();
        let body = substr(class_name, li, n);
        r.append(body.as_str());
        proof {
            assert(class_name@.skip(li as int) =~= class_name@.subrange(li as int, n as int));
        }
    } else if starts_with_str(class_name, "Ifc") {
        let li = "Ifc".unicode_len();
        let body = substr(class_name, li, n);
        r.append(body.as_str());
        proof {
            assert(class_name@.skip(li as int) =~= class_name@.subrange(li as int, n as int));
        }
    } else if n > 1 && class_name.get_char(0) == 'I' && char_is_uppercase(class_name.get_char(1)) {
        let body = substr(class_name, 1, n);
        r.append(body.as_str());
        proof {
            assert(class_name@.drop_first() =~= class_name@.subrange(1, n as int));
        }
    } else {
        r.append(class_name);
    }
    r
}

/// The part of `s` after the last occurrence of `c`; all of `s` when `c`
/// does not occur.
pub open spec fn spec_after_last(s: Seq<char>, c: char) -> Seq<char>
    decreases s.len(),
{
    if s.len() == 0 {
        s
    } else if s[s.len() - 1] == c {
        Seq::empty()
    } else {
        spec_after_last(s.drop_last(), c).push(s[s.len() - 1])
    }
}

/// The part of `s` strictly before the last occurrence of `c`; empty when
/// `c` does not occur.
pub open spec fn spec_before_last(s: Seq<char>, c: char) -> Seq<char>
    decreases s.len(),
{
    if s.len() == 0 {
        s
    } else if s[s.len() - 1] == c {
        s.drop_last()
    } else {
        spec_before_last(s.drop_last(), c)
    }
}

proof fn lemma_after_last_at(s: Seq<char>, c: char, i: int)
    requires
        0 <= i < s.len(),
        s[i] == c,
        forall|j: int| i < j < s.len() ==> s[j] != c,
    ensures
        spec_after_last(s, c) == s.skip(i + 1),
        spec_before_last(s, c) == s.take(i),
    decreases s.len(),
{
    if i == s.len() - 1 {
        assert(spec_after_last(s, c) =~= s.skip(i + 1));
        assert(s.drop_last() =~= s.take(i));
    } else {
        lemma_after_last_at(s.drop_last(), c, i);
        assert(s.drop_last().skip(i + 1).push(s[s.len() - 1]) =~= s.skip(i + 1));
        assert(s.drop_last().take(i) =~= s.take(i));
    }
}

proof fn lemma_after_last_absent(s: Seq<char>, c: char)
    requires
        !s.contains(c),
    ensures
        spec_after_last(s, c) == s,
    decreases s.len(),
{
    if s.len() > 0 {
        assert(s[s.len() - 1] != c);
        assert(!s.drop_last().contains(c)) by {
            assert(forall|j: int| 0 <= j < s.len() - 1 ==> s.drop_last()[j] == s[j]);
        }
        lemma_after_last_absent(s.drop_last(), c);
        assert(s.drop_last().push(s[s.len() - 1]) =~= s);
    }
}

/// The file name part of a path: what follows the last `/`.
pub fn file_name_part(p: &str) -> (r: String)
    ensures
        r@ == spec_after_last(p@, '/'),
{
    let n = p.unicode_len();
    match rfind_char(p, '/') {
        Some(i) => {
            let r = substr(p, i + 1, n);
            proof {
                lemma_after_last_at(p@, '/', i as int);
                assert(p@.skip(i + 1) =~= p@.subrange(i + 1, n as int));
            }
            r
        },
        None => {
            proof {
                lemma_after_last_absent(p@, '/');
            }
            p.to_owned()
        },
    }
}

/// The extension the output file should use for a given source path: what
/// follows the last `.` of the file name when that dot is not its first
/// character, else `h`.
pub open spec fn spec_path_ext(p: Seq<char>) -> Seq<char> {
    let f = spec_after_last(p, '/');
    if f.contains('.') && spec_before_last(f, '.').len() > 0 {
        spec_after_last(f, '.')
    } else {
        "h"@
    }
}

/// The stem of the file name of a path: what precedes the last `.` when that
/// dot is not the first character, else the whole file name.
pub open spec fn spec_path_stem(p: Seq<char>) -> Seq<char> {
    let f = spec_after_last(p, '/');
    if f.contains('.') && spec_before_last(f, '.').len() > 0 {
        spec_before_last(f, '.')
    } else {
        f
    }
}

fn path_ext_and_stem(p: &str) -> (r: (String, String))
    ensures
        r.0@ == spec_path_ext(p@),
        r.1@ == spec_path_stem(p@),
{
    let f = file_name_part(p);
    let n = f.as_str().unicode_len();
    match rfind_char(f.as_str(), '.') {
        Some(i) => {
            proof {
                lemma_after_last_at(f@, '.', i as int);
                assert(f@[i as int] == '.');
                assert(f@.contains('.'));
            }
            if i > 0 {
                let ext = substr(f.as_str(), i + 1, n);
                let stem = substr(f.as_str(), 0, i);
                proof {
                    assert(f@.skip(i + 1) =~= f@.subrange(i + 1, n as int));
                    assert(f@.take(i as int) =~= f@.subrange(0, i as int));
                }
                (ext, stem)
            } else {
                ("h".to_owned(), f)
            }
        },
        None => ("h".to_owned(), f),
    }
}

/// The names of the mocks within a header, in order.
pub open spec fn spec_mock_names(mocks: Seq<crate::Mock>) -> Seq<Seq<char>> {
    mocks.map_values(|m: crate::Mock| m.name@)
}

/// The source file recorded on the first mock of a header, if any.
pub open spec fn spec_first_source(mocks: Seq<crate::Mock>) -> Option<Seq<char>> {
    if mocks.len() > 0 {
        match mocks[0].source_file {
            Some(p) => Some(p@),
            None => None,
        }
    } else {
        None
    }
}

/// The default output file name: the mock's own name when the header holds
/// exactly one mock, else the source file's stem with a `_mocks` suffix, else
/// `mocks.h`; the extension follows the source file, defaulting to `h`.
pub open spec fn spec_default_name_output_file(
    names: Seq<Seq<char>>,
    source: Option<Seq<char>>,
) -> Seq<char> {
    let ext = match source {
        Some(p) => spec_path_ext(p),
        None => "h"@,
    };
    if names.len() == 1 {
        names[0].push('.') + ext
    } else {
        match source {
            Some(p) => if spec_after_last(p, '/').len() > 0 {
                spec_path_stem(p) + "_mocks."@ + ext
            } else {
                "mocks.h"@
            },
            None => "mocks.h"@,
        }
    }
}

/// Default function to generate output file names for mocks.
pub fn default_name_output_file(header: &MockHeader) -> (r: String)
    ensures
        r@ == spec_default_name_output_file(
            spec_mock_names(header.mocks@),
            spec_first_source(header.mocks@),
        ),
{
    let mut ext = "h".to_owned();
    let mut stem = String::new();
    let mut has_stem = false;
    if header.mocks.len() > 0 {
        match &header.mocks[0].source_file {
            Some(p) => {
                let es = path_ext_and_stem(p.as_str());
                ext = es.0;
                stem = es.1;
                has_stem = stem.as_str().unicode_len() > 0;
            },
            None => {},
        }
    }
    if header.mocks.len() == 1 {
        let mut r = header.mocks[0].name.clone();
        r = push_char(r, '.');
        r.append(ext.as_str());
        proof {
            assert(spec_mock_names(header.mocks@).len() == 1);
            assert(spec_mock_names(header.mocks@)[0] == header.mocks@[0].name@);
        }
        r
    } else if has_stem {
        let mut r = stem;
        r.append("_mocks.");
        r.append(ext.as_str());
        proof {
            assert(spec_mock_names(header.mocks@).len() == header.mocks@.len());
        }
        r
    } else {
        proof {
            assert(spec_mock_names(header.mocks@).len() == header.mocks@.len());
        }
        "mocks.h".to_owned()
    }
}

/// The compiled pattern a `regex::Regex` was built from, as `Regex::as_str`
/// reports it.
pub uninterp spec fn regex_pattern(re: regex::Regex) -> Seq<char>;

/// Whether a pattern is valid regex syntax, so that compiling it succeeds;
/// a function of the pattern text alone.
pub uninterp spec fn regex_compiles(pattern: Seq<char>) -> bool;

/// The captured groups of the leftmost match of a pattern on a text: one
/// entry per group, group 0 first, `None` for a group that did not
/// participate; `None` overall when the pattern does not match. A function of
/// the pattern and the text alone.
pub uninterp spec fn regex_captures_spec(pattern: Seq<char>, text: Seq<char>) -> Option<
    Seq<Option<Seq<char>>>,
>;

#[verifier::external_type_specification]
#[verifier::external_body]
pub struct ExRegex(regex::Regex);

/// Relies on `regex::Regex::new`: compiles the pattern, succeeding exactly
/// on valid pattern syntax (named by `regex_compiles`, a function of the
/// pattern alone); the returned value keeps the pattern text
/// (`Regex::as_str`). On a malformed pattern it returns the parse error,
/// rendered here into its display text.
#[verifier::external_body]
fn regex_new(pattern: &str) -> (r: Result<regex::Regex, String>)
    ensures
        (r is Ok) == regex_compiles(pattern@),
        r matches Ok(re) ==> regex_pattern(re) == pattern@,
{
    regex::Regex::new(pattern).map_err(|e| e.to_string())
}

/// Relies on `regex::Regex::captures`: the captured groups of the leftmost
/// match, here converted to plain strings; `None` when the pattern does not
/// match. The result depends on the compiled pattern and the text alone
/// (named by `regex_captures_spec`); that reading rests on every regex in
/// this crate being default-built by `regex_new`, never through
/// `RegexBuilder`, whose flags could make regexes of one pattern differ.
#[verifier::external_body]
fn regex_captures(re: &regex::Regex, text: &str) -> (r: Option<Vec<Option<String>>>)
    ensures
        r.deep_view() == regex_captures_spec(regex_pattern(*re), text@),
{
    re.captures(text).map(|caps| caps.iter().map(|m| m.map(|g| g.as_str().to_string())).collect())
}

/// A sed style replacement string is four slash-separated segments: a
/// leading literal `s`, the pattern, the template, and an empty tail (the
/// string ends with a slash).
pub open spec fn spec_sed_wellformed(s: Seq<char>) -> bool {
    let parts = spec_split(s, '/');
    parts.len() == 4 && parts[0] == "s"@ && parts[3] == Seq::<char>::empty()
}

pub open spec fn cap_text(c: Option<Seq<char>>) -> Seq<char> {
    match c {
        Some(t) => t,
        None => Seq::empty(),
    }
}

/// The template with each backreference `\k`, for `k` from `i` upward,
/// replaced in turn by the text of capture group `k` (empty for a group that
/// did not participate).
pub open spec fn spec_apply_backrefs(t: Seq<char>, caps: Seq<Option<Seq<char>>>, i: nat) -> Seq<
    char,
>
    decreases caps.len() - i,
{
    if i >= caps.len() {
        t
    } else {
        spec_apply_backrefs(
            spec_replace(t, seq!['\\'] + spec_digits(i), cap_text(caps[i as int])),
            caps,
            i + 1,
        )
    }
}

/// Helper struct to name mocks based on sed style regex replacement.
pub struct SedReplacement {
    regex: regex::Regex,
    name_pattern: String,
}

impl SedReplacement {
    /// The anchored pattern this namer matches class names against.
    pub closed spec fn spec_pattern(self) -> Seq<char> {
        regex_pattern(self.regex)
    }

    /// The replacement template backreferences are substituted into.
    pub closed spec fn spec_template(self) -> Seq<char> {
        self.name_pattern@
    }

    fn new(regex: &str, name_pattern: &str) -> (r: MocksmithResult<Self>)
        ensures
            (r is Ok) == regex_compiles("^"@ + regex@ + "$"@),
            r matches Ok(sr) ==> sr.spec_pattern() == "^"@ + regex@ + "$"@ && sr.spec_template()
                == name_pattern@,
            r matches Err(e) ==> e matches MocksmithError::InvalidSedReplacement(m)
                && spec_starts_with(m@, "Invalid regex for name replacement: "@),
    {
        let mut anchored = String::new();
        anchored.append("^");
        anchored.append(regex);
        anchored.append("$");
        match regex_new(anchored.as_str()) {
            Ok(re) => Ok(SedReplacement { regex: re, name_pattern: name_pattern.to_owned() }),
            Err(err) => {
                let mut msg = String::new();
                msg.append("Invalid regex for name replacement: ");
                msg.append(err.as_str());
                proof {
                    assert(msg@.subrange(0, "Invalid regex for name replacement: "@.len() as int)
                        =~= "Invalid regex for name replacement: "@);
                }
                Err(MocksmithError::InvalidSedReplacement(msg))
            },
        }
    }

    /// Creates a `SedReplacement` from a sed style replacement string, e.g.,
    /// `s/Ifc(.*)/Mock\1/`, to replace the prefix `Ifc` in class names with
    /// `Mock`. The regex pattern must match the entire class name.
    /// Construction succeeds exactly when the string is wellformed and the
    /// anchored pattern is valid regex syntax; rejection is eager, before
    /// any class name is processed.
    pub fn from_sed_replacement(sed_replacement: &str) -> (r: MocksmithResult<Self>)
        ensures
            (r is Ok) == (spec_sed_wellformed(sed_replacement@) && regex_compiles(
                "^"@ + spec_split(sed_replacement@, '/')[1] + "$"@,
            )),
            !spec_sed_wellformed(sed_replacement@) ==> (r matches Err(e) && (e
                matches MocksmithError::InvalidSedReplacement(m) && m@ == "Got "@
                + sed_replacement@ + ", but expected s/<regex>/<replacement>/"@)),
            spec_sed_wellformed(sed_replacement@) ==> {
                let parts = spec_split(sed_replacement@, '/');
                match r {
                    Ok(sr) => sr.spec_pattern() == "^"@ + parts[1] + "$"@ && sr.spec_template()
                        == parts[2],
                    Err(e) => e matches MocksmithError::InvalidSedReplacement(m)
                        && spec_starts_with(m@, "Invalid regex for name replacement: "@),
                }
            },
    {
        let parts = split_char(sed_replacement, '/');
        let wellformed = parts.len() == 4 && str_eq(parts[0].as_str(), "s") && parts[3].as_str()
            .unicode_len() == 0;
        proof {
            assert(views_of(parts@).len() == parts@.len());
            if parts@.len() == 4 {
                assert(views_of(parts@)[0] == parts@[0]@);
                assert(views_of(parts@)[3] == parts@[3]@);
                if parts@[3]@.len() == 0 {
                    assert(parts@[3]@ =~= Seq::<char>::empty());
                }
            }
        }
        if !wellformed {
            let mut msg = String::new();
            msg.append("Got ");
            msg.append(sed_replacement);
            msg.append(", but expected s/<regex>/<replacement>/");
            proof {
                assert(msg@ =~= "Got "@ + sed_replacement@
                    + ", but expected s/<regex>/<replacement>/"@);
            }
            return Err(MocksmithError::InvalidSedReplacement(msg));
        }
        proof {
            assert(views_of(parts@).len() == parts@.len());
            assert(views_of(parts@)[1] == parts@[1]@);
            assert(views_of(parts@)[2] == parts@[2]@);
        }
        Self::new(parts[1].as_str(), parts[2].as_str())
    }

    /// Generates a mock name based on the provided class name using the regex
    /// and name pattern. If the regex does not match, it defaults to prefixing
    /// `Mock` to the class name. A capture group that did not participate in
    /// the match substitutes empty text.
    pub fn name(&self, class_name: &str) -> (r: String)
        ensures
            match regex_captures_spec(self.spec_pattern(), class_name@) {
                None => r@ == "Mock"@ + class_name@,
                Some(caps) => r@ == spec_apply_backrefs(self.spec_template(), caps, 1),
            },
    {
        match regex_captures(&self.regex, class_name) {
            None => {
                let mut r = String::new();
                r.append("Mock");
                r.append(class_name);
                r
            },
            Some(caps) => {
                let ghost capsv = caps.deep_view();
                let mut name = self.name_pattern.clone();
                let mut i: usize = 1;
                while i < caps.len()
                    invariant
                        capsv == caps.deep_view(),
                        capsv.len() == caps@.len(),
                        spec_apply_backrefs(self.spec_template(), capsv, 1) == spec_apply_backrefs(
                            name@,
                            capsv,
                            i as nat,
                        ),
                    decreases caps@.len() - i,
                {
                    let mut token = String::new();
                    token.append("\\");
                    let digits = u64_to_string(i as u64);
                    token.append(digits.as_str());
                    proof {
                        reveal_strlit("\\");
                        assert(token@ =~= seq!['\\'] + spec_digits(i as nat));
                    }
                    let group_text = match &caps[i] {
                        Some(g) => g.clone(),
                        None => String::new(),
                    };
                    proof {
                        assert(capsv[i as int] == caps@[i as int].deep_view());
                        assert(group_text@ == cap_text(capsv[i as int]));
                    }
                    name = replace_all(name.as_str(), token.as_str(), group_text.as_str());
                    i = i + 1;
                }
                name
            },
        }
    }
}

} // verus!
