//! The mock-code synthesizer: renders class models into macro-safe mock
//! source and assembles complete headers.

use vstd::prelude::*;

pub mod builder;

use builder::CodeBuilder;

use crate::entity::RefQualifier;
use crate::model::{ArgumentV, ClassModel, ClassModelV, MethodModel, MethodModelV};
use crate::strutil::{
    contains_char, dedup_strings, include_line, join_strings, spec_dedup, spec_join, spec_repeat,
    views_of,
};
use crate::{Mock, MockHeader, MocksmithError, MocksmithResult};

verus! {

/// A type or argument text, wrapped in parentheses exactly when it holds a
/// comma: an unguarded top-level comma would be read as a further macro
/// argument by the mock macro.
pub open spec fn spec_wrap(s: Seq<char>) -> Seq<char> {
    if s.contains(',') {
        seq!['('] + s + seq![')']
    } else {
        s
    }
}

/// Wraps a return type or argument in parentheses when it holds a comma;
/// any other text is handed back unchanged.
pub fn wrap_with_parentheses_if_contains_comma(return_type_or_arg: String) -> (r: String)
    ensures
        r@ == spec_wrap(return_type_or_arg@),
{
    if contains_char(return_type_or_arg.as_str(), ',') {
        let mut r = String::new();
        r.append("(");
        r.append(return_type_or_arg.as_str());
        r.append(")");
        proof {
            reveal_strlit("(");
            reveal_strlit(")");
            assert(r@ =~= seq!['('] + return_type_or_arg@ + seq![')']);
        }
        r
    } else {
        return_type_or_arg
    }
}

/// Law: a type or argument text is wrapped in one pair of parentheses
/// exactly when it holds a comma, and is left untouched otherwise.
pub proof fn lemma_comma_wrapping(s: Seq<char>)
    ensures
        s.contains(',') ==> spec_wrap(s) == seq!['('] + s + seq![')'],
        !s.contains(',') ==> spec_wrap(s) == s,
{
}

/// One rendered argument: `<type> <name>` when the argument has a name, the
/// bare type otherwise; wrapped when it holds a comma.
pub open spec fn spec_render_arg(a: ArgumentV) -> Seq<char> {
    match a.name {
        Some(n) => spec_wrap(a.type_text + seq![' '] + n),
        None => spec_wrap(a.type_text),
    }
}

/// The rendered comma-wrapped return type of a method.
pub fn method_return_type(method: &MethodModel) -> (r: String)
    ensures
        r@ == spec_wrap(method@.result_type),
{
    wrap_with_parentheses_if_contains_comma(method.result_type.clone())
}

/// The rendered arguments of a method, in order.
pub fn method_arguments(method: &MethodModel) -> (r: Vec<String>)
    ensures
        views_of(r@) == method@.arguments.map_values(|a: ArgumentV| spec_render_arg(a)),
{
    let mut rendered: Vec<String> = Vec::new();
    let mut i: usize = 0;
    while i < method.arguments.len()
        invariant
            i <= method.arguments@.len(),
            rendered@.len() == i,
            forall|j: int|
                0 <= j < i ==> views_of(rendered@)[j] == spec_render_arg(
                    method.arguments@[j]@,
                ),
        decreases method.arguments@.len() - i,
    {
        let arg = &method.arguments[i];
        let text = match &arg.name {
            Some(n) => {
                let mut t = arg.type_text.clone();
                t.append(" ");
                t.append(n.as_str());
                proof {
                    reveal_strlit(" ");
                    assert(t@ =~= arg.type_text@ + seq![' '] + n@);
                }
                t
            },
            None => arg.type_text.clone(),
        };
        let wrapped = wrap_with_parentheses_if_contains_comma(text);
        let ghost prev = rendered@;
        rendered.push(wrapped);
        proof {
            assert(views_of(rendered@) =~= views_of(prev).push(rendered@[prev.len() as int]@));
        }
        i = i + 1;
    }
    proof {
        assert(views_of(rendered@) =~= method@.arguments.map_values(
            |a: ArgumentV| spec_render_arg(a),
        ));
    }
    rendered
}

/// The qualifier tokens of a method line, in fixed order: `const`,
/// `noexcept`, the ref-qualifier, `override`. A virtual method always gets
/// `override`, since the mock provides a concrete override.
pub open spec fn spec_method_qualifiers(m: MethodModelV) -> Seq<Seq<char>> {
    (if m.is_const {
        seq!["const"@]
    } else {
        Seq::empty()
    }) + (if m.is_noexcept {
        seq!["noexcept"@]
    } else {
        Seq::empty()
    }) + (match m.ref_qualifier {
        Some(RefQualifier::LValue) => seq!["ref(&)"@],
        Some(RefQualifier::RValue) => seq!["ref(&&)"@],
        None => Seq::empty(),
    }) + (if m.is_virtual {
        seq!["override"@]
    } else {
        Seq::empty()
    })
}

/// The qualifier tokens of a method line.
pub fn method_qualifiers(method: &MethodModel) -> (r: Vec<String>)
    ensures
        views_of(r@) == spec_method_qualifiers(method@),
{
    let mut qualifiers: Vec<String> = Vec::new();
    if method.is_const {
        qualifiers.push("const".to_owned());
    }
    if method.is_noexcept {
        qualifiers.push("noexcept".to_owned());
    }
    match method.ref_qualifier {
        Some(RefQualifier::LValue) => qualifiers.push("ref(&)".to_owned()),
        Some(RefQualifier::RValue) => qualifiers.push("ref(&&)".to_owned()),
        None => {},
    }
    if method.is_virtual {
        qualifiers.push("override".to_owned());
    }
    proof {
        assert(views_of(qualifiers@) =~= spec_method_qualifiers(method@));
    }
    qualifiers
}

/// One rendered mock-method line (without indentation or newline): the mock
/// macro with return type, name, argument list and qualifier list.
pub open spec fn spec_method_line(m: MethodModelV) -> Seq<char> {
    "MOCK_METHOD("@ + spec_wrap(m.result_type) + ", "@ + m.name + ", ("@ + spec_join(
        m.arguments.map_values(|a: ArgumentV| spec_render_arg(a)),
        ", "@,
    ) + "), ("@ + spec_join(spec_method_qualifiers(m), ", "@) + "));"@
}

fn mock_method_line(method: &MethodModel) -> (r: String)
    ensures
        r@ == spec_method_line(method@),
{
    let return_type = method_return_type(method);
    let arguments = method_arguments(method);
    let qualifiers = method_qualifiers(method);
    let joined_arguments = join_strings(&arguments, ", ");
    let joined_qualifiers = join_strings(&qualifiers, ", ");
    let mut r = String::new();
    r.append("MOCK_METHOD(");
    r.append(return_type.as_str());
    r.append(", ");
    r.append(method.name.as_str());
    r.append(", (");
    r.append(joined_arguments.as_str());
    r.append("), (");
    r.append(joined_qualifiers.as_str());
    r.append("));");
    proof {
        assert(r@ =~= spec_method_line(method@));
    }
    r
}

/// The single namespace-opening line: colon-joined in simplified mode, one
/// nested opener per level in classic mode.
pub open spec fn spec_namespace_start(ns: Seq<Seq<char>>, simplified: bool) -> Seq<char> {
    if simplified {
        "namespace "@ + spec_join(ns, "::"@) + " {"@
    } else {
        spec_join(ns.map_values(|n: Seq<char>| "namespace "@ + n + " {"@), " "@)
    }
}

/// The single namespace-closing line: one brace in simplified mode, one per
/// level in classic mode.
pub open spec fn spec_namespace_end(ns: Seq<Seq<char>>, simplified: bool) -> Seq<char> {
    if simplified {
        "}"@
    } else {
        spec_repeat("}"@, ns.len())
    }
}

/// Law: a class nested two namespace levels deep renders with one
/// colon-joined opening line and a single closing brace in simplified mode,
/// and with both openers on one line matched by two closing braces in
/// classic mode.
pub proof fn lemma_namespace_two_levels(a: Seq<char>, b: Seq<char>)
    ensures
        spec_namespace_start(seq![a, b], true) == "namespace "@ + (a + "::"@ + b) + " {"@,
        spec_namespace_end(seq![a, b], true) == "}"@,
        spec_namespace_start(seq![a, b], false) == ("namespace "@ + a + " {"@) + " "@ + (
        "namespace "@ + b + " {"@),
        spec_namespace_end(seq![a, b], false) == "}"@ + "}"@,
{
    let two = seq![a, b];
    assert(two.drop_first() =~= seq![b]);
    assert(spec_join(seq![b], "::"@) == b);
    assert(spec_join(two, "::"@) == a + "::"@ + b);
    let f = |n: Seq<char>| "namespace "@ + n + " {"@;
    let mapped = two.map_values(f);
    assert(mapped =~= seq![f(a), f(b)]);
    assert(mapped.drop_first() =~= seq![f(b)]);
    assert(mapped.len() == 2);
    assert(mapped[0] == f(a));
    assert(f(a) == "namespace "@ + a + " {"@);
    assert(f(b) == "namespace "@ + b + " {"@);
    assert(spec_join(mapped.drop_first(), " "@) == f(b));
    assert(spec_join(mapped, " "@) == f(a) + " "@ + f(b));
    assert(spec_repeat("}"@, 0) =~= Seq::<char>::empty());
    assert(spec_repeat("}"@, 1) =~= "}"@);
    assert(spec_repeat("}"@, 2) =~= "}"@ + "}"@);
}

/// The namespace-opening line, or `None` when the class sits in none.
pub fn namespace_start(namespaces: &Vec<String>, simplified: bool) -> (r: Option<String>)
    ensures
        namespaces@.len() == 0 ==> r is None,
        namespaces@.len() > 0 ==> (r matches Some(line) && line@ == spec_namespace_start(
            views_of(namespaces@),
            simplified,
        )),
{
    if namespaces.len() == 0 {
        return None;
    }
    if simplified {
        let joined = join_strings(namespaces, "::");
        let mut line = String::new();
        line.append("namespace ");
        line.append(joined.as_str());
        line.append(" {");
        proof {
            assert(line@ =~= spec_namespace_start(views_of(namespaces@), simplified));
        }
        Some(line)
    } else {
        let mut openers: Vec<String> = Vec::new();
        let mut i: usize = 0;
        while i < namespaces.len()
            invariant
                i <= namespaces@.len(),
                openers@.len() == i,
                forall|j: int|
                    0 <= j < i ==> views_of(openers@)[j] == "namespace "@ + views_of(
                        namespaces@,
                    )[j] + " {"@,
            decreases namespaces@.len() - i,
        {
            let mut opener = String::new();
            opener.append("namespace ");
            opener.append(namespaces[i].as_str());
            opener.append(" {");
            let ghost prev = openers@;
            openers.push(opener);
            proof {
                assert(views_of(openers@) =~= views_of(prev).push(
                    openers@[prev.len() as int]@,
                ));
            }
            i = i + 1;
        }
        proof {
            assert(views_of(openers@) =~= views_of(namespaces@).map_values(
                |n: Seq<char>| "namespace "@ + n + " {"@,
            ));
        }
        let line = join_strings(&openers, " ");
        Some(line)
    }
}

/// The namespace-closing line, or `None` when the class sits in none.
pub fn namespace_end(namespaces: &Vec<String>, simplified: bool) -> (r: Option<String>)
    ensures
        namespaces@.len() == 0 ==> r is None,
        namespaces@.len() > 0 ==> (r matches Some(line) && line@ == spec_namespace_end(
            views_of(namespaces@),
            simplified,
        )),
{
    if namespaces.len() == 0 {
        return None;
    }
    if simplified {
        Some("}".to_owned())
    } else {
        let r = crate::strutil::repeat_str("}", namespaces.len());
        proof {
            assert(views_of(namespaces@).len() == namespaces@.len());
        }
        Some(r)
    }
}

/// The rendered method lines, each indented once and newline-terminated.
pub open spec fn spec_method_lines(methods: Seq<MethodModelV>, indent: Seq<char>) -> Seq<char>
    decreases methods.len(),
{
    if methods.len() == 0 {
        Seq::empty()
    } else {
        indent + spec_method_line(methods[0]) + "\n"@ + spec_method_lines(
            methods.drop_first(),
            indent,
        )
    }
}

/// The full rendered mock class: the namespace opener when any, the
/// inheritance line `class <Mock> : public <Class>`, the public body with
/// one macro line per selected method in declaration order, and the matching
/// namespace closer.
pub open spec fn spec_mock_code(
    c: ClassModelV,
    mock_name: Seq<char>,
    simplified: bool,
    indent: Seq<char>,
) -> Seq<char> {
    (if c.namespaces.len() > 0 {
        spec_namespace_start(c.namespaces, simplified) + "\n"@
    } else {
        Seq::empty()
    }) + "class "@ + mock_name + " : public "@ + c.name + "\n"@ + "{"@ + "\n"@ + "public:"@
        + "\n"@ + spec_method_lines(c.methods, indent) + "};"@ + "\n"@ + (if c.namespaces.len()
        > 0 {
        spec_namespace_end(c.namespaces, simplified) + "\n"@
    } else {
        Seq::empty()
    })
}

/// Law: the rendered mock holds, right after the namespace opener when
/// there is one, exactly the inheritance line
/// `class <MockName> : public <ClassName>`.
pub proof fn lemma_mock_inheritance_line(
    c: ClassModelV,
    mock_name: Seq<char>,
    simplified: bool,
    indent: Seq<char>,
)
    ensures
        ({
            let code = spec_mock_code(c, mock_name, simplified, indent);
            let opener_len: int = if c.namespaces.len() > 0 {
                spec_namespace_start(c.namespaces, simplified).len() as int + 1
            } else {
                0
            };
            let line = "class "@ + mock_name + " : public "@ + c.name + "\n"@;
            code.subrange(opener_len, opener_len + line.len()) == line
        }),
{
    let code = spec_mock_code(c, mock_name, simplified, indent);
    let opener_len: int = if c.namespaces.len() > 0 {
        spec_namespace_start(c.namespaces, simplified).len() as int + 1
    } else {
        0
    };
    let line = "class "@ + mock_name + " : public "@ + c.name + "\n"@;
    let opener = (if c.namespaces.len() > 0 {
        spec_namespace_start(c.namespaces, simplified) + "\n"@
    } else {
        Seq::<char>::empty()
    });
    let tail = "{"@ + "\n"@ + "public:"@ + "\n"@ + spec_method_lines(c.methods, indent) + "};"@
        + "\n"@ + (if c.namespaces.len() > 0 {
        spec_namespace_end(c.namespaces, simplified) + "\n"@
    } else {
        Seq::<char>::empty()
    });
    assert(code =~= opener + line + tail);
    reveal_strlit("\n");
    assert(opener.len() == opener_len);
    assert((opener + line + tail).subrange(opener_len, opener_len + line.len()) =~= line);
}

/// Renders one class model into mock source text, appended to whatever the
/// builder already holds.
#[verifier::rlimit(60)]
pub fn generate_mock(
    code_builder: CodeBuilder,
    class: &ClassModel,
    mock_name: &str,
    simplified_nested_namespaces: bool,
) -> (r: String)
    requires
        code_builder.spec_indent_level() == 0,
    ensures
        r@ == code_builder.spec_code() + spec_mock_code(
            class@,
            mock_name@,
            simplified_nested_namespaces,
            code_builder.spec_indent_str(),
        ),
{
    let mut b = code_builder;
    let ghost pre = b.spec_code();
    let ghost indent = b.spec_indent_str();
    let ghost nsv = class@.namespaces;
    let ghost seg_open = (if nsv.len() > 0 {
        spec_namespace_start(nsv, simplified_nested_namespaces) + "\n"@
    } else {
        Seq::<char>::empty()
    });
    proof {
        assert(spec_repeat(indent, 0) =~= Seq::<char>::empty());
        assert(views_of(class.namespaces@).len() == class.namespaces@.len());
    }
    if let Some(ns_start) = namespace_start(&class.namespaces, simplified_nested_namespaces) {
        b.add_line(ns_start.as_str());
    }
    proof {
        assert(b.spec_code() =~= pre + seg_open);
    }
    let mut header_line = String::new();
    header_line.append("class ");
    header_line.append(mock_name);
    header_line.append(" : public ");
    header_line.append(class.name.as_str());
    b.add_line(header_line.as_str());
    proof {
        assert(b.spec_code() =~= pre + seg_open + "class "@ + mock_name@ + " : public "@
            + class@.name + "\n"@);
    }
    b.add_line("{");
    b.add_line("public:");
    proof {
        assert(b.spec_code() =~= pre + seg_open + "class "@ + mock_name@ + " : public "@
            + class@.name + "\n"@ + "{"@ + "\n"@ + "public:"@ + "\n"@);
    }
    b.push_indent();
    let ghost before_methods = b.spec_code();
    let mut i: usize = 0;
    proof {
        assert(spec_repeat(indent, 1) =~= indent);
        assert(class@.methods.skip(0) =~= class@.methods);
        assert(class@.methods.len() == class.methods@.len());
    }
    while i < class.methods.len()
        invariant
            b.spec_indent_level() == 1,
            b.spec_indent_str() == indent,
            i <= class.methods@.len(),
            class@.methods.len() == class.methods@.len(),
            before_methods + spec_method_lines(class@.methods, indent) == b.spec_code()
                + spec_method_lines(class@.methods.skip(i as int), indent),
        decreases class.methods@.len() - i,
    {
        let ghost rem = class@.methods.skip(i as int);
        let ghost precode = b.spec_code();
        let line = mock_method_line(&class.methods[i]);
        b.add_line(line.as_str());
        proof {
            assert(spec_repeat(indent, 0) =~= Seq::<char>::empty());
            assert(spec_repeat(indent, 1) =~= indent);
            assert(rem[0] == class@.methods[i as int]);
            assert(class@.methods[i as int] == class.methods@[i as int]@);
            assert(rem.drop_first() =~= class@.methods.skip(i + 1));
            assert(b.spec_code() =~= precode + (indent + spec_method_line(rem[0]) + "\n"@));
            assert(precode + (indent + spec_method_line(rem[0]) + "\n"@) + spec_method_lines(
                class@.methods.skip(i + 1),
                indent,
            ) =~= precode + ((indent + spec_method_line(rem[0]) + "\n"@) + spec_method_lines(
                class@.methods.skip(i + 1),
                indent,
            )));
        }
        i = i + 1;
    }
    proof {
        assert(class@.methods.skip(class@.methods.len() as int) =~= Seq::<MethodModelV>::empty());
        assert(b.spec_code() + Seq::<char>::empty() =~= b.spec_code());
        assert(b.spec_code() =~= pre + seg_open + "class "@ + mock_name@ + " : public "@
            + class@.name + "\n"@ + "{"@ + "\n"@ + "public:"@ + "\n"@ + spec_method_lines(
            class@.methods,
            indent,
        ));
    }
    b.pop_indent();
    b.add_line("};");
    proof {
        assert(spec_repeat(indent, 0) =~= Seq::<char>::empty());
        assert(b.spec_code() =~= pre + seg_open + "class "@ + mock_name@ + " : public "@
            + class@.name + "\n"@ + "{"@ + "\n"@ + "public:"@ + "\n"@ + spec_method_lines(
            class@.methods,
            indent,
        ) + "};"@ + "\n"@);
    }
    if let Some(ns_end) = namespace_end(&class.namespaces, simplified_nested_namespaces) {
        b.add_line(ns_end.as_str());
    }
    let r = b.build();
    proof {
        assert(spec_repeat(indent, 0) =~= Seq::<char>::empty());
        let ghost seg_close = (if nsv.len() > 0 {
            spec_namespace_end(nsv, simplified_nested_namespaces) + "\n"@
        } else {
            Seq::<char>::empty()
        });
        assert(r@ =~= pre + seg_open + "class "@ + mock_name@ + " : public "@ + class@.name
            + "\n"@ + "{"@ + "\n"@ + "public:"@ + "\n"@ + spec_method_lines(class@.methods, indent)
            + "};"@ + "\n"@ + seg_close);
        assert(r@ =~= code_builder.spec_code() + spec_mock_code(
            class@,
            mock_name@,
            simplified_nested_namespaces,
            indent,
        ));
    }
    r
}

/// The codes of a header's mocks, in order.
pub open spec fn spec_mock_codes(mocks: Seq<Mock>) -> Seq<Seq<char>> {
    mocks.map_values(|m: Mock| m.code@)
}

/// One include directive line per path, in order.
pub open spec fn spec_include_lines(paths: Seq<Seq<char>>) -> Seq<char>
    decreases paths.len(),
{
    if paths.len() == 0 {
        Seq::empty()
    } else {
        "#include \""@ + paths[0] + "\""@ + "\n"@ + spec_include_lines(paths.drop_first())
    }
}

/// The compiler-specific block that starts suppressing warnings about
/// overriding deprecated methods.
pub open spec fn spec_pragma_open() -> Seq<char> {
    "#ifdef _MSC_VER"@ + "\n"@ + "#  pragma warning(push)"@ + "\n"@
        + "#  pragma warning(disable : 4996)"@ + "\n"@ + "#endif"@ + "\n"@
}

/// The matching block that restores the warning state.
pub open spec fn spec_pragma_close() -> Seq<char> {
    "#ifdef _MSC_VER"@ + "\n"@ + "#  pragma warning(pop)"@ + "\n"@ + "#endif"@ + "\n"@
}

/// A complete assembled header: a generated-file marker, an include guard
/// pragma, one include per distinct source path, the framework include, then
/// the mock bodies separated by blank lines, optionally bracketed by the
/// deprecation-warning pragmas.
pub open spec fn spec_header_code(
    includes: Seq<Seq<char>>,
    codes: Seq<Seq<char>>,
    pragma: bool,
) -> Seq<char> {
    "// Automatically generated mocks - do not edit"@ + "\n"@ + "#pragma once"@ + "\n"@ + "\n"@
        + spec_include_lines(includes) + "#include <gmock/gmock.h>"@ + "\n"@ + "\n"@ + (if pragma {
        spec_pragma_open() + "\n"@ + spec_join(codes, "\n"@) + "\n"@ + spec_pragma_close()
    } else {
        spec_join(codes, "\n"@)
    })
}

/// Renders class models into mock code and assembles headers, under a fixed
/// set of rendering options.
pub struct Generator {
    add_deprecation_pragma: bool,
    simplified_nested_namespaces: bool,
    indent_str: String,
}

impl Generator {
    /// Whether assembled headers carry the deprecation-warning pragmas.
    pub closed spec fn spec_pragma(self) -> bool {
        self.add_deprecation_pragma
    }

    /// Whether nested namespaces render colon-joined.
    pub closed spec fn spec_simplified(self) -> bool {
        self.simplified_nested_namespaces
    }

    /// The indentation string of method lines.
    pub closed spec fn spec_indent(self) -> Seq<char> {
        self.indent_str@
    }

    /// A generator with the defaults: two-space indent, simplified nested
    /// namespaces, no deprecation pragma.
    pub fn new() -> (r: Self)
        ensures
            r.spec_pragma() == false,
            r.spec_simplified() == true,
            r.spec_indent() == "  "@,
    {
        Generator {
            add_deprecation_pragma: false,
            simplified_nested_namespaces: true,
            indent_str: "  ".to_owned(),
        }
    }

    pub fn add_deprecation_pragma(&mut self, value: bool)
        ensures
            final(self).spec_pragma() == value,
            final(self).spec_simplified() == old(self).spec_simplified(),
            final(self).spec_indent() == old(self).spec_indent(),
    {
        self.add_deprecation_pragma = value;
    }

    pub fn simplified_nested_namespaces(&mut self, value: bool)
        ensures
            final(self).spec_simplified() == value,
            final(self).spec_pragma() == old(self).spec_pragma(),
            final(self).spec_indent() == old(self).spec_indent(),
    {
        self.simplified_nested_namespaces = value;
    }

    pub fn indent_str(&mut self, indent: String)
        ensures
            final(self).spec_indent() == indent@,
            final(self).spec_pragma() == old(self).spec_pragma(),
            final(self).spec_simplified() == old(self).spec_simplified(),
    {
        self.indent_str = indent;
    }

    /// Renders one class model into a `Mock` under the given mock name.
    pub fn mock(&self, class: &ClassModel, mock_name: &str) -> (r: Mock)
        ensures
            r.source_file is None,
            r.parent_name@ == class@.name,
            r.name@ == mock_name@,
            r.code@ == spec_mock_code(
                class@,
                mock_name@,
                self.spec_simplified(),
                self.spec_indent(),
            ),
    {
        let code_builder = CodeBuilder::new(self.indent_str.clone());
        let code = generate_mock(code_builder, class, mock_name, self.simplified_nested_namespaces);
        Mock {
            source_file: None,
            parent_name: class.name.clone(),
            name: mock_name.to_owned(),
            code,
        }
    }

    /// Assembles one header document out of rendered mocks and the include
    /// paths of their source headers (one directive per distinct path).
    pub fn header(&self, source_file_include_paths: &Vec<String>, mocks: &Vec<Mock>) -> (r:
        String)
        ensures
            r@ == spec_header_code(
                spec_dedup(views_of(source_file_include_paths@)),
                spec_mock_codes(mocks@),
                self.spec_pragma(),
            ),
    {
        let distinct = dedup_strings(source_file_include_paths);
        let mut r = String::new();
        r.append("// Automatically generated mocks - do not edit");
        r.append("\n");
        r.append("#pragma once");
        r.append("\n");
        r.append("\n");
        let ghost head = r@;
        let ghost dv = views_of(distinct@);
        let mut i: usize = 0;
        proof {
            assert(dv.skip(0) =~= dv);
        }
        while i < distinct.len()
            invariant
                dv == views_of(distinct@),
                dv.len() == distinct@.len(),
                i <= distinct@.len(),
                head + spec_include_lines(dv) == r@ + spec_include_lines(dv.skip(i as int)),
            decreases distinct@.len() - i,
        {
            let ghost rem = dv.skip(i as int);
            let ghost prer = r@;
            let line = include_line(distinct[i].as_str());
            r.append(line.as_str());
            proof {
                assert(rem[0] == dv[i as int]);
                assert(dv[i as int] == distinct@[i as int]@);
                assert(rem.drop_first() =~= dv.skip(i + 1));
                assert(prer + ("#include \""@ + rem[0] + "\""@ + "\n"@ + spec_include_lines(
                    dv.skip(i + 1),
                )) =~= r@ + spec_include_lines(dv.skip(i + 1)));
            }
            i = i + 1;
        }
        proof {
            assert(dv.skip(dv.len() as int) =~= Seq::<Seq<char>>::empty());
            assert(r@ + Seq::<char>::empty() =~= r@);
            assert(r@ =~= head + spec_include_lines(dv));
        }
        r.append("#include <gmock/gmock.h>");
        r.append("\n");
        r.append("\n");
        let mut codes: Vec<String> = Vec::new();
        let mut k: usize = 0;
        while k < mocks.len()
            invariant
                k <= mocks@.len(),
                codes@.len() == k,
                forall|j: int| 0 <= j < k ==> views_of(codes@)[j] == spec_mock_codes(mocks@)[j],
            decreases mocks@.len() - k,
        {
            let ghost prev = codes@;
            codes.push(mocks[k].code.clone());
            proof {
                assert(views_of(codes@) =~= views_of(prev).push(codes@[prev.len() as int]@));
            }
            k = k + 1;
        }
        proof {
            assert(views_of(codes@) =~= spec_mock_codes(mocks@));
        }
        let body = join_strings(&codes, "\n");
        if self.add_deprecation_pragma {
            r.append("#ifdef _MSC_VER");
            r.append("\n");
            r.append("#  pragma warning(push)");
            r.append("\n");
            r.append("#  pragma warning(disable : 4996)");
            r.append("\n");
            r.append("#endif");
            r.append("\n");
            r.append("\n");
            r.append(body.as_str());
            r.append("\n");
            r.append("#ifdef _MSC_VER");
            r.append("\n");
            r.append("#  pragma warning(pop)");
            r.append("\n");
            r.append("#endif");
            r.append("\n");
        } else {
            r.append(body.as_str());
        }
        proof {
            assert(r@ =~= spec_header_code(
                spec_dedup(views_of(source_file_include_paths@)),
                spec_mock_codes(mocks@),
                self.spec_pragma(),
            ));
        }
        r
    }

    /// Assembles the header document for the collected mocks, or reports
    /// that no class qualified: a header-assembly entry point owes an error
    /// then, while a single-class rendering does not.
    pub fn assemble_header(
        &self,
        source_file_include_paths: &Vec<String>,
        mocks: Vec<Mock>,
    ) -> (r: MocksmithResult<MockHeader>)
        ensures
            (r is Ok) == (mocks@.len() > 0),
            mocks@.len() == 0 ==> (r matches Err(e) && e == MocksmithError::NothingToMock),
            mocks@.len() > 0 ==> (r matches Ok(h) && h.mocks@ == mocks@ && h.code@
                == spec_header_code(
                spec_dedup(views_of(source_file_include_paths@)),
                spec_mock_codes(mocks@),
                self.spec_pragma(),
            )),
    {
        if mocks.len() == 0 {
            return Err(MocksmithError::NothingToMock);
        }
        let code = self.header(source_file_include_paths, &mocks);
        Ok(MockHeader { mocks, code })
    }
}

} // verus!
