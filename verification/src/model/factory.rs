//! Builds method and class models, recovering exact type spellings and
//! qualifier tokens from the cached source text where the parser's own
//! answers may be lossy; every recovery has a safe fallback.

use vstd::prelude::*;

use super::{
    spec_class_model, spec_selected_methods, text_view, Argument, ArgumentV, ClassModel,
    MethodModel, MethodModelV,
};
use crate::entity::{ArgDecl, ClassDecl, EntityData, MethodDecl};
use crate::log::Logger;
use crate::strutil::{
    clone_strings, contains_word, find_char, is_space, is_space_char, lemma_split_at_first,
    lemma_split_nonempty, lemma_split_whole, spec_contains_word, spec_split, spec_trim, substr,
    trim_str, views_of,
};
use crate::MethodsToMockStrategy;

verus! {

/// Qualifiers read syntactically off a method declaration's source text,
/// a secondary signal for when the parser's own flags are unreliable.
#[derive(Clone, Copy, Debug, PartialEq, Eq, Structural)]
pub struct MethodSignature {
    pub is_virtual: bool,
    pub is_pure_virtual: bool,
    pub is_static: bool,
}

/// The text before the first occurrence of `c` in `s`.
pub open spec fn spec_before_first(s: Seq<char>, c: char) -> Seq<char> {
    spec_split(s, c)[0]
}

/// A pure-virtual marker: an `=` and a `0`, each standing at token borders,
/// with nothing but whitespace between them (so both `= 0` and `=0`).
pub open spec fn pure_marker_at(s: Seq<char>, i: int, j: int) -> bool {
    &&& 0 <= i < j < s.len()
    &&& s[i] == '='
    &&& s[j] == '0'
    &&& (i == 0 || is_space_char(s[i - 1]))
    &&& (j + 1 == s.len() || is_space_char(s[j + 1]))
    &&& (forall|k: int| i < k < j ==> is_space_char(s[k]))
}

pub open spec fn spec_has_pure_marker(s: Seq<char>) -> bool {
    exists|i: int, j: int| pure_marker_at(s, i, j)
}

/// The declaration's signature text: what precedes the first `;` or `{`,
/// leaving out bodies and trailing text.
pub open spec fn spec_sig_of_decl(decl: Seq<char>) -> Seq<char> {
    spec_before_first(spec_before_first(decl, ';'), '{')
}

/// Qualifiers read off a declaration's text: a `virtual` or `static` token
/// before the argument list, an `override` token or pure-virtual marker
/// after it; `None` when the text shows no closing parenthesis.
pub open spec fn spec_parse_declaration(decl: Seq<char>) -> Option<MethodSignature> {
    let sig = spec_sig_of_decl(decl);
    if !sig.contains(')') {
        None
    } else {
        let pre = spec_before_first(sig, '(');
        let post = spec_split(sig, ')')[1];
        let syntactically_virtual = spec_contains_word(pre, "virtual"@) || spec_contains_word(
            post,
            "override"@,
        );
        Some(
            MethodSignature {
                is_virtual: syntactically_virtual,
                is_pure_virtual: syntactically_virtual && spec_has_pure_marker(post),
                is_static: spec_contains_word(pre, "static"@),
            },
        )
    }
}

/// Copy of `s` up to the first occurrence of `c`, or all of it.
fn before_first(s: &str, c: char) -> (r: String)
    ensures
        r@ == spec_before_first(s@, c),
{
    let n = s.unicode_len();
    match find_char(s, c) {
        Some(i) => {
            let r = substr(s, 0, i);
            proof {
                lemma_split_at_first(s@, c, i as int);
                assert(s@.take(i as int) =~= s@.subrange(0, i as int));
            }
            r
        },
        None => {
            proof {
                lemma_split_whole(s@, c);
            }
            s.to_owned()
        },
    }
}

fn has_pure_marker(s: &str) -> (r: bool)
    ensures
        r == spec_has_pure_marker(s@),
{
    let n = s.unicode_len();
    let mut i: usize = 0;
    while i < n
        invariant
            n == s@.len(),
            i <= n,
            forall|a: int, b: int| 0 <= a < i ==> !pure_marker_at(s@, a, b),
        decreases n - i,
    {
        if s.get_char(i) == '=' && (i == 0 || is_space(s.get_char(i - 1))) {
            let mut j = i + 1;
            while j < n && is_space(s.get_char(j))
                invariant
                    n == s@.len(),
                    i < j <= n,
                    forall|k: int| i < k < j ==> is_space_char(s@[k]),
                decreases n - j,
            {
                j = j + 1;
            }
            if j < n && s.get_char(j) == '0' && (j + 1 == n || is_space(s.get_char(j + 1))) {
                proof {
                    assert(pure_marker_at(s@, i as int, j as int));
                }
                return true;
            }
            proof {
                assert forall|b: int| !pure_marker_at(s@, i as int, b) by {
                    if pure_marker_at(s@, i as int, b) {
                        if b < j {
                            assert(is_space_char(s@[b]));
                        } else if b == j {
                            assert(j < n && s@[j as int] == '0');
                        } else {
                            assert(j < n ==> !is_space_char(s@[j as int]) || s@[j as int] == '0');
                            if j < n {
                                assert(is_space_char(s@[j as int]));
                            }
                        }
                    }
                }
            }
        } else {
            proof {
                assert forall|b: int| !pure_marker_at(s@, i as int, b) by {}
            }
        }
        i = i + 1;
    }
    proof {
        assert forall|a: int, b: int| !pure_marker_at(s@, a, b) by {
            if pure_marker_at(s@, a, b) {
                assert(0 <= a < n);
            }
        }
    }
    false
}

impl MethodSignature {
    /// Reads the qualifier tokens off a method declaration's source text.
    pub fn parse_declaration(decl: &str) -> (r: Option<MethodSignature>)
        ensures
            r == spec_parse_declaration(decl@),
    {
        let cut = before_first(decl, ';');
        let sig = before_first(cut.as_str(), '{');
        let n = sig.as_str().unicode_len();
        match find_char(sig.as_str(), ')') {
            None => None,
            Some(p1) => {
                let pre = before_first(sig.as_str(), '(');
                let after = substr(sig.as_str(), p1 + 1, n);
                let post = before_first(after.as_str(), ')');
                proof {
                    lemma_split_at_first(sig@, ')', p1 as int);
                    lemma_split_nonempty(sig@.skip(p1 + 1), ')');
                    assert(after@ =~= sig@.skip(p1 + 1));
                    assert(spec_split(sig@, ')')[1] == spec_split(sig@.skip(p1 + 1), ')')[0]);
                    reveal_strlit("virtual");
                    reveal_strlit("override");
                    reveal_strlit("static");
                }
                let syntactically_virtual = contains_word(pre.as_str(), "virtual")
                    || contains_word(post.as_str(), "override");
                let pure = syntactically_virtual && has_pure_marker(post.as_str());
                let stat = contains_word(pre.as_str(), "static");
                Some(
                    MethodSignature {
                        is_virtual: syntactically_virtual,
                        is_pure_virtual: pure,
                        is_static: stat,
                    },
                )
            },
        }
    }
}

/// Start of an unnamed argument's text: scanning backward from `end`, the
/// position right after the nearest `,` or `(`, else the start of the text.
pub open spec fn spec_delim_scan(t: Seq<char>, end: int) -> int
    decreases end,
{
    if end <= 0 {
        0
    } else if t[end - 1] == ',' || t[end - 1] == '(' {
        end
    } else {
        spec_delim_scan(t, end - 1)
    }
}

/// The character range holding an argument's type text, when one can be
/// found: the parser's own range for a named argument; for an unnamed one,
/// from the nearest `,`/`(` before its location up to that location.
pub open spec fn spec_arg_range(arg: ArgDecl, text: Option<Seq<char>>) -> Option<(int, int)> {
    if arg.name is Some {
        match arg.range {
            Some((s, e)) => Some((s as int, e as int)),
            None => None,
        }
    } else {
        match (text, arg.location) {
            (Some(t), Some(end)) => if end <= t.len() {
                Some((spec_delim_scan(t, end as int), end as int))
            } else {
                Some((0, end as int))
            },
            _ => None,
        }
    }
}

/// The character count of the argument's declared name.
pub open spec fn spec_arg_name_len(arg: ArgDecl) -> int {
    match arg.name {
        Some(n) => n@.len() as int,
        None => 0,
    }
}

/// The argument's type text recovered from the source: the ranged text with
/// the name trimmed off the end and whitespace removed; `None` when the
/// offsets are unusable, so that the caller falls back rather than fails.
pub open spec fn spec_extract_arg_type(arg: ArgDecl, text: Option<Seq<char>>) -> Option<
    Seq<char>,
> {
    match (spec_arg_range(arg, text), text) {
        (Some((start, end)), Some(t)) => {
            let stop = end - spec_arg_name_len(arg);
            if start >= stop || stop > t.len() {
                None
            } else {
                Some(spec_trim(t.subrange(start, stop)))
            }
        },
        _ => None,
    }
}

/// The advisory recorded when type recovery falls back: the offsets were
/// unusable, or there was no range or source text to read at all.
pub open spec fn spec_arg_advisory(arg: ArgDecl, text: Option<Seq<char>>) -> Seq<char> {
    match (spec_arg_range(arg, text), text) {
        (Some(_), Some(_)) => {
            "Falling back to parser type for an argument due to illegal source position"@
        },
        _ => "Falling back to parser type for an argument due to missing range or source text"@,
    }
}

/// The argument type that goes into the model: the source-recovered text
/// when available, else the parser's display name.
pub open spec fn spec_arg_type(arg: ArgDecl, text: Option<Seq<char>>) -> Seq<char> {
    match spec_extract_arg_type(arg, text) {
        Some(t) => t,
        None => arg.type_display@,
    }
}

/// The method declaration's own source text, trimmed; `None` when offsets
/// or text are unusable.
pub open spec fn spec_method_decl_text(m: MethodDecl, text: Option<Seq<char>>) -> Option<
    Seq<char>,
> {
    match (m.range, text) {
        (Some((s, e)), Some(t)) => if s <= e && e <= t.len() {
            Some(spec_trim(t.subrange(s as int, e as int)))
        } else {
            None
        },
        _ => None,
    }
}

/// The syntactic qualifier flags of a method, read from its declaration text.
pub open spec fn spec_sig_flags(m: MethodDecl, text: Option<Seq<char>>) -> Option<
    MethodSignature,
> {
    match spec_method_decl_text(m, text) {
        Some(d) => spec_parse_declaration(d),
        None => None,
    }
}

pub open spec fn sig_virtual(s: Option<MethodSignature>) -> bool {
    match s {
        Some(f) => f.is_virtual,
        None => false,
    }
}

pub open spec fn sig_pure_virtual(s: Option<MethodSignature>) -> bool {
    match s {
        Some(f) => f.is_pure_virtual,
        None => false,
    }
}

pub open spec fn sig_static(s: Option<MethodSignature>) -> bool {
    match s {
        Some(f) => f.is_static,
        None => false,
    }
}

/// The model of one method: the parser's data merged with what the source
/// text shows, so that qualifiers survive an unresolved return type.
pub open spec fn spec_method_model(m: MethodDecl, text: Option<Seq<char>>) -> MethodModelV {
    let sig = spec_sig_flags(m, text);
    MethodModelV {
        name: m.name@,
        result_type: m.result_type_display@,
        arguments: m.arguments@.map_values(
            |a: ArgDecl| ArgumentV { type_text: spec_arg_type(a, text), name: a.name.deep_view() },
        ),
        is_const: m.is_const,
        is_virtual: m.is_virtual || sig_virtual(sig),
        is_pure_virtual: m.is_pure_virtual || sig_pure_virtual(sig),
        is_static: m.is_static || sig_static(sig),
        is_noexcept: m.is_noexcept,
        ref_qualifier: m.ref_qualifier,
    }
}

fn is_arg_delim(c: char) -> (r: bool)
    ensures
        r == (c == ',' || c == '('),
{
    c == ',' || c == '('
}

/// Builds model objects from declaration-tree nodes, recovering type text
/// from the cached source of the translation unit where possible.
pub struct ModelFactory {
    file_contents: Option<String>,
    pub log: Logger,
}

impl ModelFactory {
    /// The cached source text.
    pub closed spec fn spec_text(self) -> Option<Seq<char>> {
        text_view(self.file_contents)
    }

    /// The factory's message log.
    pub closed spec fn spec_log(self) -> Logger {
        self.log
    }

    pub fn new(file_contents: Option<String>, log: Logger) -> (r: Self)
        ensures
            r.spec_text() == text_view(file_contents),
            r.spec_log().spec_messages() == log.spec_messages(),
            r.spec_log().spec_verbose() == log.spec_verbose(),
    {
        ModelFactory { file_contents, log }
    }

    /// The character range of a method's declaration, as the parser gave it.
    pub fn get_method_declaration_range(&self, method: &MethodDecl) -> (r: Option<(usize, usize)>)
        ensures
            r == method.range,
    {
        method.range
    }

    /// The trimmed source text of a method's declaration.
    pub fn extract_method_declaration_from_source(&self, method: &MethodDecl) -> (r: Option<
        String,
    >)
        ensures
            r.deep_view() == spec_method_decl_text(*method, self.spec_text()),
    {
        match (self.get_method_declaration_range(method), &self.file_contents) {
            (Some((start, end)), Some(t)) => {
                let n = t.as_str().unicode_len();
                if start <= end && end <= n {
                    let piece = substr(t.as_str(), start, end);
                    Some(trim_str(piece.as_str()))
                } else {
                    None
                }
            },
            _ => None,
        }
    }

    /// The character range of an argument's type text; for an unnamed
    /// argument the start is found by scanning the source backward from its
    /// location to the nearest `,` or `(`, since argument lists are
    /// comma/parenthesis delimited.
    pub fn get_arg_range(&self, arg_entity: &ArgDecl) -> (r: Option<(usize, usize)>)
        ensures
            match (r, spec_arg_range(*arg_entity, self.spec_text())) {
                (Some((a, b)), Some((c, d))) => a as int == c && b as int == d,
                (None, None) => true,
                _ => false,
            },
    {
        if arg_entity.name.is_some() {
            arg_entity.range
        } else {
            match (&self.file_contents, arg_entity.location) {
                (Some(t), Some(end)) => {
                    let n = t.as_str().unicode_len();
                    if end <= n {
                        let mut k = end;
                        while k > 0 && !is_arg_delim(t.as_str().get_char(k - 1))
                            invariant
                                k <= end,
                                end <= n,
                                n == t@.len(),
                                spec_delim_scan(t@, end as int) == spec_delim_scan(t@, k as int),
                            decreases k,
                        {
                            k = k - 1;
                        }
                        Some((k, end))
                    } else {
                        Some((0, end))
                    }
                },
                _ => None,
            }
        }
    }

    /// The argument's type text recovered from the source, or `None` with an
    /// advisory message when the offsets are unusable.
    pub fn extract_argument_type_from_source(&mut self, arg_entity: &ArgDecl) -> (r: Option<
        String,
    >)
        ensures
            r.deep_view() == spec_extract_arg_type(*arg_entity, old(self).spec_text()),
            final(self).spec_text() == old(self).spec_text(),
            final(self).spec_log().spec_verbose() == old(self).spec_log().spec_verbose(),
            r is Some ==> final(self).spec_log().spec_messages() == old(
                self,
            ).spec_log().spec_messages(),
            r is None ==> final(self).spec_log().spec_messages() == old(
                self,
            ).spec_log().spec_messages().push(
                spec_arg_advisory(*arg_entity, old(self).spec_text()),
            ),
    {
        let range = self.get_arg_range(arg_entity);
        let mut out: Option<String> = None;
        let mut bad_position = false;
        match (range, &self.file_contents) {
            (Some((start, end)), Some(t)) => {
                let n = t.as_str().unicode_len();
                let name_len = match &arg_entity.name {
                    Some(nm) => nm.as_str().unicode_len(),
                    None => 0,
                };
                if name_len <= end {
                    let stop = end - name_len;
                    if start >= stop || stop > n {
                        bad_position = true;
                    } else {
                        let piece = substr(t.as_str(), start, stop);
                        out = Some(trim_str(piece.as_str()));
                    }
                } else {
                    bad_position = true;
                }
            },
            _ => {},
        }
        if out.is_none() {
            if bad_position {
                self.log.log(
                    "Falling back to parser type for an argument due to illegal source position"
                        .to_owned(),
                );
            } else {
                self.log.log(
                    "Falling back to parser type for an argument due to missing range or source text"
                        .to_owned(),
                );
            }
        }
        out
    }

    /// The argument type for the model: recovered source text, else the
    /// parser's display name.
    pub fn get_argument_type(&mut self, arg_entity: &ArgDecl) -> (r: String)
        ensures
            r@ == spec_arg_type(*arg_entity, old(self).spec_text()),
            final(self).spec_text() == old(self).spec_text(),
            final(self).spec_log().spec_verbose() == old(self).spec_log().spec_verbose(),
            (spec_extract_arg_type(*arg_entity, old(self).spec_text()) is Some) ==> final(self).spec_log().spec_messages() == old(self).spec_log().spec_messages(),
            (spec_extract_arg_type(*arg_entity, old(self).spec_text()) is None) ==> final(self).spec_log().spec_messages() == old(self).spec_log().spec_messages().push(
                spec_arg_advisory(*arg_entity, old(self).spec_text()),
            ),
    {
        match self.extract_argument_type_from_source(arg_entity) {
            Some(t) => t,
            None => arg_entity.type_display.clone(),
        }
    }

    /// Builds the model of one method.
    pub fn method_from_entity(&mut self, method: &MethodDecl) -> (r: MethodModel)
        ensures
            r@ == spec_method_model(*method, old(self).spec_text()),
            final(self).spec_text() == old(self).spec_text(),
            final(self).spec_log().spec_verbose() == old(self).spec_log().spec_verbose(),
    {
        let signature: Option<MethodSignature> = match self.extract_method_declaration_from_source(
            method,
        ) {
            Some(d) => MethodSignature::parse_declaration(d.as_str()),
            None => None,
        };
        let ghost text = self.spec_text();
        let mut arguments: Vec<Argument> = Vec::new();
        let mut i: usize = 0;
        while i < method.arguments.len()
            invariant
                text == self.spec_text(),
                self.spec_log().spec_verbose() == old(self).spec_log().spec_verbose(),
                i <= method.arguments@.len(),
                arguments@.len() == i,
                forall|j: int|
                    0 <= j < i ==> #[trigger] arguments@[j]@ == (ArgumentV {
                        type_text: spec_arg_type(method.arguments@[j], text),
                        name: method.arguments@[j].name.deep_view(),
                    }),
            decreases method.arguments@.len() - i,
        {
            let arg = Argument {
                type_text: self.get_argument_type(&method.arguments[i]),
                name: method.arguments[i].name.clone(),
            };
            arguments.push(arg);
            i = i + 1;
        }
        let r = MethodModel {
            name: method.name.clone(),
            result_type: method.result_type_display.clone(),
            arguments,
            is_const: method.is_const,
            is_virtual: method.is_virtual || (match signature {
                Some(f) => f.is_virtual,
                None => false,
            }),
            is_pure_virtual: method.is_pure_virtual || (match signature {
                Some(f) => f.is_pure_virtual,
                None => false,
            }),
            is_static: method.is_static || (match signature {
                Some(f) => f.is_static,
                None => false,
            }),
            is_noexcept: method.is_noexcept,
            ref_qualifier: method.ref_qualifier,
        };
        proof {
            assert(r@.arguments =~= spec_method_model(*method, old(self).spec_text()).arguments);
            assert(r@ =~= spec_method_model(*method, old(self).spec_text()));
        }
        r
    }

    /// Builds the model of one class: its name, the enclosing namespaces,
    /// and the models of the method children the strategy selects, in
    /// declaration order.
    pub fn class_from_entity(
        &mut self,
        class: &ClassDecl,
        namespaces: &Vec<String>,
        methods_to_mock: MethodsToMockStrategy,
    ) -> (r: ClassModel)
        ensures
            r@ == spec_class_model(
                *class,
                views_of(namespaces@),
                methods_to_mock,
                old(self).spec_text(),
            ),
            final(self).spec_text() == old(self).spec_text(),
            final(self).spec_log().spec_verbose() == old(self).spec_log().spec_verbose(),
    {
        let ghost text = self.spec_text();
        let mut methods: Vec<MethodModel> = Vec::new();
        let mut i: usize = 0;
        proof {
            assert(class.children@.skip(0) =~= class.children@);
            assert(methods@.map_values(|m: MethodModel| m@) =~= Seq::<MethodModelV>::empty());
        }
        while i < class.children.len()
            invariant
                text == self.spec_text(),
                self.spec_log().spec_verbose() == old(self).spec_log().spec_verbose(),
                i <= class.children@.len(),
                methods@.map_values(|m: MethodModel| m@) + spec_selected_methods(
                    class.children@.skip(i as int),
                    methods_to_mock,
                    text,
                ) == spec_selected_methods(class.children@, methods_to_mock, text),
            decreases class.children@.len() - i,
        {
            let ghost rem = class.children@.skip(i as int);
            let ghost prev = methods@;
            match &class.children[i].data {
                EntityData::Method(m) => {
                    if methods_to_mock.should_mock(m) {
                        let mm = self.method_from_entity(m);
                        let ghost mmv = mm@;
                        methods.push(mm);
                        proof {
                            assert(methods@.map_values(|x: MethodModel| x@) =~= prev.map_values(
                                |x: MethodModel| x@,
                            ).push(mmv));
                        }
                    }
                },
                _ => {},
            }
            proof {
                assert(rem[0] == class.children@[i as int]);
                assert(rem.drop_first() =~= class.children@.skip(i + 1));
                assert(prev.map_values(|x: MethodModel| x@) + spec_selected_methods(
                    rem,
                    methods_to_mock,
                    text,
                ) =~= methods@.map_values(|x: MethodModel| x@) + spec_selected_methods(
                    class.children@.skip(i + 1),
                    methods_to_mock,
                    text,
                ));
            }
            i = i + 1;
        }
        proof {
            assert(class.children@.skip(class.children@.len() as int) =~= Seq::<
                crate::entity::Entity,
            >::empty());
            assert(methods@.map_values(|x: MethodModel| x@) + spec_selected_methods(
                class.children@.skip(class.children@.len() as int),
                methods_to_mock,
                text,
            ) =~= methods@.map_values(|x: MethodModel| x@));
        }
        let r = ClassModel {
            name: class.name.clone(),
            namespaces: clone_strings(namespaces),
            methods,
        };
        proof {
            assert(r@.methods =~= spec_selected_methods(class.children@, methods_to_mock, text));
            assert(r@ =~= spec_class_model(
                *class,
                views_of(namespaces@),
                methods_to_mock,
                old(self).spec_text(),
            ));
        }
        r
    }

    /// Hands the factory's log back.
    pub fn into_log(self) -> (r: Logger)
        ensures
            r.spec_messages() == self.spec_log().spec_messages(),
            r.spec_verbose() == self.spec_log().spec_verbose(),
    {
        self.log
    }
}

} // verus!
