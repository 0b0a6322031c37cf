use vstd::prelude::*;

use crate::runner::{collect_output, collected, result_view, ProcessOutput};
use crate::text::{chars_of, str_eq, string_of};

verus! {

/// The external code formatters that requests are routed to.
#[derive(Debug, Clone, Copy, PartialEq, Eq, Structural)]
pub enum Formatter {
    Prettier,
    Rustfmt,
    Black,
    Gofmt,
}

/// The formatter for source text of `language`; `None` leaves the text unchanged.
pub open spec fn language_formatter(language: Seq<char>) -> Option<Formatter> {
    if language == "javascript"@ || language == "typescript"@ || language == "json"@
        || language == "html"@ || language == "css"@ {
        Some(Formatter::Prettier)
    } else if language == "rust"@ {
        Some(Formatter::Rustfmt)
    } else if language == "python"@ {
        Some(Formatter::Black)
    } else if language == "go"@ {
        Some(Formatter::Gofmt)
    } else {
        None
    }
}

/// The Prettier parser for `language`.
pub open spec fn parser_for(language: Seq<char>) -> Seq<char> {
    if language == "typescript"@ || language == "json"@ || language == "html"@ || language == "css"@ {
        language
    } else {
        "babel"@
    }
}

/// The file extension that goes with a Prettier parser.
pub open spec fn ext_for_parser(parser: Seq<char>) -> Seq<char> {
    if parser == "babel"@ {
        "js"@
    } else if parser == "typescript"@ {
        "ts"@
    } else if parser == "json"@ || parser == "html"@ || parser == "css"@ {
        parser
    } else {
        "txt"@
    }
}

/// The part of `path` after its last `.`; the whole path if it has none.
pub open spec fn extension_of(path: Seq<char>) -> Seq<char> {
    if exists|i: int| 0 <= i < path.len() && path[i] == '.' {
        let i = choose|i: int| 0 <= i < path.len() && path[i] == '.' && forall|j: int| i < j < path.len() ==> path[j] != '.';
        path.subrange(i + 1, path.len() as int)
    } else {
        path
    }
}

/// The formatter for a file with extension `ext`.
pub open spec fn file_formatter(ext: Seq<char>) -> Option<Formatter> {
    if ext == "js"@ || ext == "jsx"@ || ext == "ts"@ || ext == "tsx"@ || ext == "json"@
        || ext == "html"@ || ext == "css"@ || ext == "scss"@ || ext == "vue"@ || ext == "svelte"@ {
        Some(Formatter::Prettier)
    } else if ext == "rs"@ {
        Some(Formatter::Rustfmt)
    } else if ext == "py"@ {
        Some(Formatter::Black)
    } else if ext == "go"@ {
        Some(Formatter::Gofmt)
    } else {
        None
    }
}

/// The formatter for source text of `language`, if there is one.
pub fn formatter_for_language(language: &str) -> (r: Option<Formatter>)
    ensures
        r == language_formatter(language@),
{
    if str_eq(language, "javascript") || str_eq(language, "typescript") || str_eq(language, "json")
        || str_eq(language, "html") || str_eq(language, "css") {
        Some(Formatter::Prettier)
    } else if str_eq(language, "rust") {
        Some(Formatter::Rustfmt)
    } else if str_eq(language, "python") {
        Some(Formatter::Black)
    } else if str_eq(language, "go") {
        Some(Formatter::Gofmt)
    } else {
        None
    }
}

/// The Prettier parser for source text of `language`.
pub fn prettier_parser(language: &str) -> (r: String)
    ensures
        r@ == parser_for(language@),
{
    if str_eq(language, "typescript") || str_eq(language, "json") || str_eq(language, "html")
        || str_eq(language, "css") {
        String::from_str(language)
    } else {
        String::from_str("babel")
    }
}

/// The file extension that goes with a Prettier parser.
pub fn get_ext_for_parser(parser: &str) -> (r: &str)
    ensures
        r@ == ext_for_parser(parser@),
{
    if str_eq(parser, "babel") {
        "js"
    } else if str_eq(parser, "typescript") {
        "ts"
    } else if str_eq(parser, "json") {
        "json"
    } else if str_eq(parser, "html") {
        "html"
    } else if str_eq(parser, "css") {
        "css"
    } else {
        "txt"
    }
}

/// The part of `path` after its last `.`; the whole path if it has none.
pub fn path_extension(path: &str) -> (r: String)
    ensures
        r@ == extension_of(path@),
{
    let chars = chars_of(path);
    let mut i = chars.len();
    while i > 0
        invariant
            i <= chars@.len(),
            chars@ == path@,
            forall|j: int| i <= j < chars@.len() ==> chars@[j] != '.',
        decreases i,
    {
        if chars[i - 1] == '.' {
            let r = string_of(&chars, i, chars.len());
            proof {
                let k = (i - 1) as int;
                assert(path@[k] == '.');
                let c = choose|c: int| 0 <= c < path@.len() && path@[c] == '.' && forall|j: int| c < j < path@.len() ==> path@[j] != '.';
                assert(c == k);
            }
            return r;
        }
        i = i - 1;
    }
    let r = string_of(&chars, 0, chars.len());
    assert(chars@.subrange(0, chars@.len() as int) =~= chars@);
    r
}

/// The formatter for the file at `path`, or the message that none is available.
pub fn formatter_for_path(path: &str) -> (r: Result<Formatter, String>)
    ensures
        file_formatter(extension_of(path@)) matches Some(f) ==> r == Ok::<Formatter, String>(f),
        file_formatter(extension_of(path@)) is None ==> (r matches Err(m)
            && m@ == "No formatter available for ."@ + extension_of(path@)),
{
    let ext = path_extension(path);
    let e = ext.as_str();
    if str_eq(e, "js") || str_eq(e, "jsx") || str_eq(e, "ts") || str_eq(e, "tsx") || str_eq(e, "json")
        || str_eq(e, "html") || str_eq(e, "css") || str_eq(e, "scss") || str_eq(e, "vue")
        || str_eq(e, "svelte") {
        Ok(Formatter::Prettier)
    } else if str_eq(e, "rs") {
        Ok(Formatter::Rustfmt)
    } else if str_eq(e, "py") {
        Ok(Formatter::Black)
    } else if str_eq(e, "go") {
        Ok(Formatter::Gofmt)
    } else {
        Err(String::from_str("No formatter available for .").concat(e))
    }
}

/// A program and its arguments, to be started by the host.
#[derive(Debug, Clone, PartialEq, Eq)]
pub struct Invocation {
    pub program: String,
    pub args: Vec<String>,
}

/// The characters of each argument, in order.
pub open spec fn args_view(args: Seq<String>) -> Seq<Seq<char>> {
    args.map_values(|a: String| a@)
}

/// The program that runs `f`.
pub open spec fn program_of(f: Formatter) -> Seq<char> {
    match f {
        Formatter::Prettier => "npx"@,
        Formatter::Rustfmt => "rustfmt"@,
        Formatter::Black => "black"@,
        Formatter::Gofmt => "gofmt"@,
    }
}

/// The arguments with which `f` formats text of `language` read from standard input.
pub open spec fn code_args(f: Formatter, language: Seq<char>) -> Seq<Seq<char>> {
    match f {
        Formatter::Prettier => seq![
            "prettier"@,
            "--parser"@,
            parser_for(language),
            "--stdin-filepath"@,
            "file."@ + ext_for_parser(parser_for(language)),
            "--"@,
        ],
        Formatter::Rustfmt => seq!["--emit"@, "stdout"@],
        Formatter::Black => seq!["-"@, "--quiet"@],
        Formatter::Gofmt => Seq::empty(),
    }
}

/// The arguments with which `f` rewrites the file at `path` in place.
pub open spec fn file_args(f: Formatter, path: Seq<char>) -> Seq<Seq<char>> {
    match f {
        Formatter::Prettier => seq!["prettier"@, "--write"@, path],
        Formatter::Rustfmt => seq![path],
        Formatter::Black => seq![path],
        Formatter::Gofmt => seq!["-w"@, path],
    }
}

fn program_name(f: Formatter) -> (r: String)
    ensures
        r@ == program_of(f),
{
    match f {
        Formatter::Prettier => String::from_str("npx"),
        Formatter::Rustfmt => String::from_str("rustfmt"),
        Formatter::Black => String::from_str("black"),
        Formatter::Gofmt => String::from_str("gofmt"),
    }
}

/// How to run `f` on text of `language` given on standard input.
pub fn code_invocation(f: Formatter, language: &str) -> (r: Invocation)
    ensures
        r.program@ == program_of(f),
        args_view(r.args@) == code_args(f, language@),
{
    let mut args: Vec<String> = Vec::new();
    match f {
        Formatter::Prettier => {
            let parser = prettier_parser(language);
            let ext = get_ext_for_parser(parser.as_str());
            let path = String::from_str("file.").concat(ext);
            args.push(String::from_str("prettier"));
            args.push(String::from_str("--parser"));
            args.push(parser);
            args.push(String::from_str("--stdin-filepath"));
            args.push(path);
            args.push(String::from_str("--"));
        },
        Formatter::Rustfmt => {
            args.push(String::from_str("--emit"));
            args.push(String::from_str("stdout"));
        },
        Formatter::Black => {
            args.push(String::from_str("-"));
            args.push(String::from_str("--quiet"));
        },
        Formatter::Gofmt => {},
    }
    let r = Invocation { program: program_name(f), args };
    assert(args_view(r.args@) =~= code_args(f, language@));
    r
}

/// How to run `f` on the file at `path`, rewriting it in place.
pub fn file_invocation(f: Formatter, path: &str) -> (r: Invocation)
    ensures
        r.program@ == program_of(f),
        args_view(r.args@) == file_args(f, path@),
{
    let mut args: Vec<String> = Vec::new();
    match f {
        Formatter::Prettier => {
            args.push(String::from_str("prettier"));
            args.push(String::from_str("--write"));
        },
        Formatter::Gofmt => {
            args.push(String::from_str("-w"));
        },
        _ => {},
    }
    args.push(String::from_str(path));
    let r = Invocation { program: program_name(f), args };
    assert(args_view(r.args@) =~= file_args(f, path@));
    r
}

/// The message for a formatter that could not be started on text, given the
/// error of the attempt.
pub open spec fn code_start_error(f: Formatter, error: Seq<char>) -> Seq<char> {
    match f {
        Formatter::Prettier => "Prettier not found: "@ + error + ". Install with: npm install -g prettier"@,
        Formatter::Rustfmt => "rustfmt not found: "@ + error + ". Install with: rustup component add rustfmt"@,
        Formatter::Black => "black not found: "@ + error + ". Install with: pip install black"@,
        Formatter::Gofmt => "gofmt not found: "@ + error,
    }
}

/// The message for a formatter that could not be started on a file.
pub open spec fn file_start_error(f: Formatter, error: Seq<char>) -> Seq<char> {
    match f {
        Formatter::Prettier => "Prettier not found: "@ + error,
        Formatter::Rustfmt => "rustfmt not found: "@ + error,
        Formatter::Black => "black not found: "@ + error,
        Formatter::Gofmt => "gofmt not found: "@ + error,
    }
}

fn not_found(f: Formatter, error: &str) -> (r: String)
    ensures
        r@ == file_start_error(f, error@),
{
    let head = match f {
        Formatter::Prettier => String::from_str("Prettier not found: "),
        Formatter::Rustfmt => String::from_str("rustfmt not found: "),
        Formatter::Black => String::from_str("black not found: "),
        Formatter::Gofmt => String::from_str("gofmt not found: "),
    };
    head.concat(error)
}

/// The result of formatting text with `f`, given the output of the finished
/// formatter or the error that kept it from starting: the formatted text on
/// success, the formatter's standard error otherwise.
pub fn code_format_result(f: Formatter, run: Result<ProcessOutput, String>) -> (r: Result<String, String>)
    ensures
        run matches Ok(o) ==> result_view(r) == collected(o.success, o.stdout@, o.stderr@),
        run matches Err(e) ==> result_view(r) == Err::<Seq<char>, Seq<char>>(code_start_error(f, e@)),
{
    match run {
        Ok(output) => collect_output(&output),
        Err(error) => {
            let m = not_found(f, error.as_str());
            match f {
                Formatter::Prettier => Err(m.concat(". Install with: npm install -g prettier")),
                Formatter::Rustfmt => Err(m.concat(". Install with: rustup component add rustfmt")),
                Formatter::Black => Err(m.concat(". Install with: pip install black")),
                Formatter::Gofmt => Err(m),
            }
        },
    }
}

/// The result of formatting a file in place with `f`: a confirmation on
/// success, the formatter's standard error otherwise.
pub fn file_format_result(f: Formatter, run: Result<ProcessOutput, String>) -> (r: Result<String, String>)
    ensures
        run matches Ok(o) ==> (o.success ==> result_view(r) == Ok::<Seq<char>, Seq<char>>(
            "File formatted successfully"@)),
        run matches Ok(o) ==> (!o.success ==> result_view(r) == collected(false, o.stdout@, o.stderr@)),
        run matches Err(e) ==> result_view(r) == Err::<Seq<char>, Seq<char>>(file_start_error(f, e@)),
{
    match run {
        Ok(output) => {
            if output.success {
                Ok(String::from_str("File formatted successfully"))
            } else {
                collect_output(&output)
            }
        },
        Err(error) => Err(not_found(f, error.as_str())),
    }
}

} // verus!
