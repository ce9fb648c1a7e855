//! Decisions over the parser's diagnostics, and the argument list the
//! parser is invoked with.

use vstd::prelude::*;

use crate::log::Logger;
use crate::strutil::views_of;
use crate::MocksmithError;

verus! {

/// Severity of one diagnostic the parser reported.
#[derive(Clone, Copy, Debug, PartialEq, Eq, Structural)]
pub enum DiagnosticSeverity {
    Ignored,
    Note,
    Warning,
    Error,
    Fatal,
}

/// Whether a severity counts as an error.
pub open spec fn spec_is_error(s: DiagnosticSeverity) -> bool {
    s == DiagnosticSeverity::Error || s == DiagnosticSeverity::Fatal
}

impl DiagnosticSeverity {
    pub fn is_error(self) -> (r: bool)
        ensures
            r == spec_is_error(self),
    {
        match self {
            DiagnosticSeverity::Error => true,
            DiagnosticSeverity::Fatal => true,
            _ => false,
        }
    }
}

/// One diagnostic the parser reported, reduced to plain values. `file` is
/// `None` when the input came from a string rather than a file.
pub struct Diagnostic {
    pub severity: DiagnosticSeverity,
    pub message: String,
    pub file: Option<String>,
    pub line: u32,
    pub column: u32,
}

/// Index of the first diagnostic whose severity is an error.
pub open spec fn spec_first_error(ds: Seq<Diagnostic>) -> Option<int>
    decreases ds.len(),
{
    if ds.len() == 0 {
        None
    } else if spec_is_error(ds[0].severity) {
        Some(0int)
    } else {
        match spec_first_error(ds.drop_first()) {
            Some(k) => Some(k + 1),
            None => None,
        }
    }
}

proof fn lemma_first_error_at(ds: Seq<Diagnostic>, i: int)
    requires
        0 <= i < ds.len(),
        spec_is_error(ds[i].severity),
        forall|j: int| 0 <= j < i ==> !spec_is_error(ds[j].severity),
    ensures
        spec_first_error(ds) == Some(i),
    decreases i,
{
    if i == 0 {
    } else {
        lemma_first_error_at(ds.drop_first(), i - 1);
    }
}

proof fn lemma_no_error(ds: Seq<Diagnostic>)
    requires
        forall|j: int| 0 <= j < ds.len() ==> !spec_is_error(ds[j].severity),
    ensures
        spec_first_error(ds) is None,
    decreases ds.len(),
{
    if ds.len() > 0 {
        lemma_no_error(ds.drop_first());
    }
}

/// The texts of the error-level diagnostics, in order.
pub open spec fn spec_error_texts(ds: Seq<Diagnostic>) -> Seq<Seq<char>>
    decreases ds.len(),
{
    if ds.len() == 0 {
        Seq::empty()
    } else {
        (if spec_is_error(ds[0].severity) {
            seq![ds[0].message@]
        } else {
            Seq::empty()
        }) + spec_error_texts(ds.drop_first())
    }
}

/// The texts of all diagnostics, in order.
pub open spec fn spec_all_texts(ds: Seq<Diagnostic>) -> Seq<Seq<char>>
    decreases ds.len(),
{
    if ds.len() == 0 {
        Seq::empty()
    } else {
        seq![ds[0].message@] + spec_all_texts(ds.drop_first())
    }
}

/// Decides whether parsing succeeded. With errors tolerated, every
/// error-level diagnostic is logged and the result is success. Otherwise
/// every diagnostic is logged in verbose mode, and the first error-level
/// one, if any, becomes a `ParseError` carrying its message and location.
pub fn check_diagnostics(
    diagnostics: &Vec<Diagnostic>,
    ignore_errors: bool,
    log: &mut Logger,
) -> (r: Result<(), MocksmithError>)
    ensures
        ignore_errors ==> r is Ok,
        !ignore_errors ==> (match spec_first_error(diagnostics@) {
            None => r is Ok,
            Some(k) => r matches Err(e) && (e matches MocksmithError::ParseError {
                message,
                file,
                line,
                column,
            } && message@ == diagnostics@[k].message@ && file.deep_view()
                == diagnostics@[k].file.deep_view() && line == diagnostics@[k].line && column
                == diagnostics@[k].column),
        }),
        final(log).spec_verbose() == old(log).spec_verbose(),
        ignore_errors ==> final(log).spec_messages() == old(log).spec_messages()
            + spec_error_texts(diagnostics@),
        !ignore_errors && old(log).spec_verbose() ==> final(log).spec_messages() == old(
            log,
        ).spec_messages() + spec_all_texts(diagnostics@),
        !ignore_errors && !old(log).spec_verbose() ==> final(log).spec_messages() == old(
            log,
        ).spec_messages(),
{
    let ghost base = log.spec_messages();
    let ghost ds = diagnostics@;
    let mut first_error: Option<usize> = None;
    let mut i: usize = 0;
    proof {
        assert(ds.skip(0) =~= ds);
        assert(base + Seq::<Seq<char>>::empty() =~= base);
    }
    while i < diagnostics.len()
        invariant
            ds == diagnostics@,
            i <= ds.len(),
            log.spec_verbose() == old(log).spec_verbose(),
            ignore_errors ==> base + spec_error_texts(ds) == log.spec_messages()
                + spec_error_texts(ds.skip(i as int)),
            !ignore_errors && old(log).spec_verbose() ==> base + spec_all_texts(ds)
                == log.spec_messages() + spec_all_texts(ds.skip(i as int)),
            !ignore_errors && !old(log).spec_verbose() ==> log.spec_messages() == base,
            match first_error {
                Some(k) => k < i && spec_is_error(ds[k as int].severity) && (forall|j: int|
                    0 <= j < k ==> !spec_is_error(ds[j].severity)),
                None => forall|j: int| 0 <= j < i ==> !spec_is_error(ds[j].severity),
            },
        decreases ds.len() - i,
    {
        let ghost rem = ds.skip(i as int);
        let ghost msgs = log.spec_messages();
        let d = &diagnostics[i];
        if ignore_errors {
            if d.severity.is_error() {
                log.log(d.message.clone());
            }
        } else {
            log.log_verbose(d.message.clone());
        }
        proof {
            assert(rem[0] == ds[i as int]);
            assert(rem.drop_first() =~= ds.skip(i + 1));
            if ignore_errors {
                if spec_is_error(ds[i as int].severity) {
                    assert(msgs.push(rem[0].message@) + spec_error_texts(ds.skip(i + 1)) =~= msgs
                        + (seq![rem[0].message@] + spec_error_texts(ds.skip(i + 1))));
                } else {
                    assert(spec_error_texts(rem) =~= spec_error_texts(ds.skip(i + 1)));
                }
            } else if old(log).spec_verbose() {
                assert(msgs.push(rem[0].message@) + spec_all_texts(ds.skip(i + 1)) =~= msgs + (
                seq![rem[0].message@] + spec_all_texts(ds.skip(i + 1))));
            }
        }
        if first_error.is_none() && d.severity.is_error() {
            first_error = Some(i);
        }
        i = i + 1;
    }
    proof {
        assert(ds.skip(ds.len() as int) =~= Seq::<Diagnostic>::empty());
        if ignore_errors {
            assert(log.spec_messages() + Seq::<Seq<char>>::empty() =~= log.spec_messages());
        } else if old(log).spec_verbose() {
            assert(log.spec_messages() + Seq::<Seq<char>>::empty() =~= log.spec_messages());
        }
    }
    if ignore_errors {
        return Ok(());
    }
    match first_error {
        Some(k) => {
            proof {
                lemma_first_error_at(diagnostics@, k as int);
            }
            let d = &diagnostics[k];
            Err(
                MocksmithError::ParseError {
                    message: d.message.clone(),
                    file: match &d.file {
                        Some(f) => Some(f.clone()),
                        None => None,
                    },
                    line: d.line,
                    column: d.column,
                },
            )
        },
        None => {
            proof {
                lemma_no_error(diagnostics@);
            }
            Ok(())
        },
    }
}

/// The argument list handed to the parser: the language, the standard
/// (defaulting to `c++17`), a quieted pragma warning, one `-I` per include
/// directory (the current one when none is set), then any extra arguments.
pub open spec fn spec_clang_arguments(
    cpp_standard: Option<Seq<char>>,
    dirs: Seq<Seq<char>>,
    extra: Seq<Seq<char>>,
) -> Seq<Seq<char>> {
    seq![
        "--language=c++"@,
        "-std="@ + (match cpp_standard {
            Some(s) => s,
            None => "c++17"@,
        }),
        "-Wno-pragma-once-outside-header"@,
    ] + (if dirs.len() == 0 {
        seq!["-I."@]
    } else {
        dirs.map_values(|p: Seq<char>| "-I"@ + p)
    }) + extra
}

/// Builds the parser's argument list.
pub fn clang_arguments(
    cpp_standard: &Option<String>,
    include_paths: &Vec<String>,
    additional_args: &Vec<String>,
) -> (r: Vec<String>)
    ensures
        views_of(r@) == spec_clang_arguments(
            match cpp_standard {
                Some(s) => Some(s@),
                None => None,
            },
            views_of(include_paths@),
            views_of(additional_args@),
        ),
{
    let mut arguments: Vec<String> = Vec::new();
    arguments.push("--language=c++".to_owned());
    let mut std_arg = String::new();
    std_arg.append("-std=");
    match cpp_standard {
        Some(s) => std_arg.append(s.as_str()),
        None => std_arg.append("c++17"),
    }
    arguments.push(std_arg);
    arguments.push("-Wno-pragma-once-outside-header".to_owned());
    let ghost head = views_of(arguments@);
    proof {
        assert(head =~= seq![
            "--language=c++"@,
            "-std="@ + (match *cpp_standard {
                Some(s) => s@,
                None => "c++17"@,
            }),
            "-Wno-pragma-once-outside-header"@,
        ]);
    }
    if include_paths.len() == 0 {
        arguments.push("-I.".to_owned());
        proof {
            assert(views_of(arguments@) =~= head.push("-I."@));
            assert(head.push("-I."@) =~= head + seq!["-I."@]);
        }
    } else {
        let mut i: usize = 0;
        while i < include_paths.len()
            invariant
                i <= include_paths@.len(),
                views_of(arguments@).len() == head.len() + i,
                views_of(arguments@).take(head.len() as int) == head,
                forall|j: int|
                    0 <= j < i ==> views_of(arguments@)[head.len() + j] == "-I"@ + views_of(
                        include_paths@,
                    )[j],
            decreases include_paths@.len() - i,
        {
            let mut dir_arg = String::new();
            dir_arg.append("-I");
            dir_arg.append(include_paths[i].as_str());
            let ghost prev = views_of(arguments@);
            arguments.push(dir_arg);
            proof {
                assert(views_of(arguments@) =~= prev.push("-I"@ + include_paths@[i as int]@));
                assert(views_of(arguments@).take(head.len() as int) =~= prev.take(
                    head.len() as int,
                ));
            }
            i = i + 1;
        }
        proof {
            assert(views_of(arguments@) =~= head + views_of(include_paths@).map_values(
                |p: Seq<char>| "-I"@ + p,
            ));
        }
    }
    let ghost mid = views_of(arguments@);
    let mut k: usize = 0;
    while k < additional_args.len()
        invariant
            k <= additional_args@.len(),
            views_of(arguments@).len() == mid.len() + k,
            views_of(arguments@).take(mid.len() as int) == mid,
            forall|j: int|
                0 <= j < k ==> views_of(arguments@)[mid.len() + j] == views_of(
                    additional_args@,
                )[j],
        decreases additional_args@.len() - k,
    {
        let ghost prev = views_of(arguments@);
        arguments.push(additional_args[k].clone());
        proof {
            assert(views_of(arguments@) =~= prev.push(additional_args@[k as int]@));
            assert(views_of(arguments@).take(mid.len() as int) =~= prev.take(mid.len() as int));
        }
        k = k + 1;
    }
    proof {
        assert(views_of(arguments@) =~= mid + views_of(additional_args@));
        assert(views_of(arguments@) =~= spec_clang_arguments(
            match *cpp_standard {
                Some(s) => Some(s@),
                None => None,
            },
            views_of(include_paths@),
            views_of(additional_args@),
        ));
    }
    arguments
}

} // verus!
