//! From what a format call says to the code that does it.

use vstd::prelude::*;
use vstd::string::StringExecFns;
use crate::stage1::{Writer, WriterStd, WriterView};

verus! {

/// The expression that gives a standard writer.
pub open spec fn writer_std_code(std: WriterStd) -> Seq<char> {
    if std.err {
        if std.lock {
            "::std::io::stderr().lock()"@
        } else {
            "::std::io::stderr()"@
        }
    } else {
        if std.lock {
            "::std::io::stdout().lock()"@
        } else {
            "::std::io::stdout()"@
        }
    }
}

/// The expression that gives a writer: its own, or that of the standard
/// writer it names.
pub open spec fn writer_code_text(writer: WriterView) -> Seq<char> {
    match writer {
        WriterView::Expr(text) => text,
        WriterView::Std(std) => writer_std_code(std),
    }
}

/// The expression that gives a writer.
pub fn writer_code(writer: &Writer) -> (code: String)
    ensures
        code@ == writer_code_text(writer@),
{
    match writer {
        Writer::Expr(text) => text.clone(),
        Writer::Std(std) => {
            let code = if std.err {
                if std.lock {
                    "::std::io::stderr().lock()"
                } else {
                    "::std::io::stderr()"
                }
            } else {
                if std.lock {
                    "::std::io::stdout().lock()"
                } else {
                    "::std::io::stdout()"
                }
            };
            String::from_str(code)
        },
    }
}

} // verus!
