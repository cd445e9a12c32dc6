//! The whole front end: command-line flags, and the pipeline from source
//! text to tokens or tree.

use vstd::prelude::*;

use crate::error::{errors_view, BasmError, ErrorView};
use crate::lexer::{lex, lex_source, tokens_view, Token, TokenView};
use crate::node::{Node, NodeData};
use crate::parser::{nodes_are, parse, parse_tokens, Entry, ParseModel};
use crate::text::same_text;

verus! {

/// What a compilation hands back.
#[derive(Debug, Clone, Copy, PartialEq, Eq, Structural)]
pub enum OutputType {
    /// The project itself, built from the tree.
    SB3,
    /// The classified tokens.
    Lexed,
    /// The syntax tree.
    Parsed,
}

impl Default for OutputType {
    fn default() -> (r: OutputType)
        ensures
            r == OutputType::SB3,
    {
        OutputType::SB3
    }
}

/// The settings of one compilation, and its source text.
#[derive(Debug, Clone)]
pub struct CompileData {
    pub output_name: String,
    pub source: String,
    pub version_flag: bool,
    pub verbose_flag: bool,
    pub output_type: OutputType,
}

impl Default for CompileData {
    fn default() -> (r: CompileData)
        ensures
            r.output_name@ == Seq::<char>::empty(),
            r.source@ == Seq::<char>::empty(),
            !r.version_flag,
            !r.verbose_flag,
            r.output_type == OutputType::SB3,
    {
        CompileData {
            output_name: String::new(),
            source: String::new(),
            version_flag: false,
            verbose_flag: false,
            output_type: OutputType::SB3,
        }
    }
}

/// The flags read so far, and whether the next argument is the output name.
pub struct FlagsModel {
    pub output_name: Seq<char>,
    pub version_flag: bool,
    pub verbose_flag: bool,
    pub output_type: OutputType,
    pub expect_name: bool,
    pub errors: Seq<ErrorView>,
}

/// One flag, or the output name after `-o`.
pub open spec fn flag_step(m: FlagsModel, a: Seq<char>) -> FlagsModel {
    if m.expect_name {
        FlagsModel { output_name: a, expect_name: false, ..m }
    } else if a == "-o"@ {
        FlagsModel { expect_name: true, ..m }
    } else if a == "--version"@ {
        FlagsModel { version_flag: true, ..m }
    } else if a == "-v"@ || a == "--verbose"@ {
        FlagsModel { verbose_flag: true, ..m }
    } else if a == "-L"@ {
        FlagsModel {
            output_type: OutputType::Lexed,
            errors: if m.output_type == OutputType::Parsed {
                m.errors.push(ErrorView::UndeterminedOutputType)
            } else {
                m.errors
            },
            ..m
        }
    } else if a == "-P"@ {
        FlagsModel {
            output_type: OutputType::Parsed,
            errors: if m.output_type == OutputType::Lexed {
                m.errors.push(ErrorView::UndeterminedOutputType)
            } else {
                m.errors
            },
            ..m
        }
    } else {
        FlagsModel { errors: m.errors.push(ErrorView::UnknownTerminalArgument(a)), ..m }
    }
}

/// The flags after reading the given arguments in order.
pub open spec fn read_flag_args(args: Seq<Seq<char>>) -> FlagsModel
    decreases args.len(),
{
    if args.len() == 0 {
        FlagsModel {
            output_name: Seq::empty(),
            version_flag: false,
            verbose_flag: false,
            output_type: OutputType::SB3,
            expect_name: false,
            errors: Seq::empty(),
        }
    } else {
        flag_step(read_flag_args(args.drop_last()), args.last())
    }
}

/// The texts of the arguments after the program name and the source path.
pub open spec fn flag_args(args: Seq<String>) -> Seq<Seq<char>> {
    if args.len() <= 2 {
        Seq::empty()
    } else {
        args.subrange(2, args.len() as int).map_values(|a: String| a@)
    }
}

/// Reads the flags of a command line: the program name comes first and the
/// source path second, and both are skipped here. Every unknown argument and
/// every conflict between `-L` and `-P` is reported; the source is left empty.
pub fn read_flags(args: &Vec<String>) -> (r: (CompileData, Vec<BasmError>))
    ensures
        ({
            let m = read_flag_args(flag_args(args@));
            &&& r.0.output_name@ == m.output_name
            &&& r.0.source@ == Seq::<char>::empty()
            &&& r.0.version_flag == m.version_flag
            &&& r.0.verbose_flag == m.verbose_flag
            &&& r.0.output_type == m.output_type
            &&& errors_view(r.1@) == m.errors
        }),
{
    let mut data = CompileData::default();
    let mut errors: Vec<BasmError> = Vec::new();
    let mut expect_name = false;
    let ghost all = flag_args(args@);
    if args.len() <= 2 {
        proof {
            assert(errors_view(errors@) =~= Seq::<ErrorView>::empty());
        }
        return (data, errors);
    }
    let mut i: usize = 2;
    proof {
        assert(all.subrange(0, 0) =~= Seq::<Seq<char>>::empty());
        assert(errors_view(errors@) =~= Seq::<ErrorView>::empty());
    }
    while i < args.len()
        invariant
            2 <= i <= args@.len(),
            all == flag_args(args@),
            all.len() == args@.len() - 2,
            forall|j: int| 0 <= j < all.len() ==> all[j] == (#[trigger] args@[j + 2])@,
            data.source@ == Seq::<char>::empty(),
            ({
                let m = read_flag_args(all.subrange(0, i - 2));
                &&& data.output_name@ == m.output_name
                &&& data.version_flag == m.version_flag
                &&& data.verbose_flag == m.verbose_flag
                &&& data.output_type == m.output_type
                &&& expect_name == m.expect_name
                &&& errors_view(errors@) == m.errors
            }),
        decreases args@.len() - i,
    {
        proof {
            assert(all.subrange(0, i - 1).drop_last() =~= all.subrange(0, i - 2));
            assert(all.subrange(0, i - 1).last() == args@[i as int]@);
        }
        let arg = args[i].as_str();
        if expect_name {
            data.output_name = args[i].clone();
            expect_name = false;
        } else if same_text(arg, "-o") {
            expect_name = true;
        } else if same_text(arg, "--version") {
            data.version_flag = true;
        } else if same_text(arg, "-v") || same_text(arg, "--verbose") {
            data.verbose_flag = true;
        } else if same_text(arg, "-L") {
            if data.output_type == OutputType::Parsed {
                errors.push(BasmError::UndeterminedOutputType);
            }
            data.output_type = OutputType::Lexed;
        } else if same_text(arg, "-P") {
            if data.output_type == OutputType::Lexed {
                errors.push(BasmError::UndeterminedOutputType);
            }
            data.output_type = OutputType::Parsed;
        } else {
            errors.push(BasmError::UnknownTerminalArgument { arg: args[i].clone() });
        }
        proof {
            assert(errors_view(errors@) =~= read_flag_args(all.subrange(0, i - 1)).errors);
        }
        i += 1;
    }
    proof {
        assert(all.subrange(0, all.len() as int) =~= all);
    }
    (data, errors)
}

/// The result of the whole front end on a source: the parser's final state,
/// or the diagnostics of the first stage that reported any.
pub open spec fn pipeline(source: Seq<char>) -> Result<ParseModel, Seq<ErrorView>> {
    match lex_source(source) {
        Err(es) => Err(es),
        Ok(ts) => {
            let m = parse_tokens(ts);
            if m.errors.len() > 0 {
                Err(m.errors)
            } else {
                Ok(m)
            }
        },
    }
}

/// A root node whose children are built as the entries describe.
pub open spec fn tree_is(n: Node, entries: Seq<Entry>) -> bool {
    &&& n.data == NodeData::Root
    &&& n.line == 0
    &&& nodes_are(n.branches@, entries)
}

/// Scans, classifies and parses a source, and stops after the first stage
/// that reports any diagnostic, with all of that stage's diagnostics.
pub fn run_pipeline(source: &str) -> (r: Result<Node, Vec<BasmError>>)
    requires
        source@.len() < u32::MAX,
    ensures
        match pipeline(source@) {
            Ok(m) => r is Ok && tree_is(r->Ok_0, m.entries),
            Err(es) => r is Err && errors_view(r->Err_0@) == es,
        },
{
    match lex(source) {
        Err(errors) => Err(errors),
        Ok(tokens) => {
            let (root, errors) = parse(&tokens);
            if errors.len() > 0 {
                Err(errors)
            } else {
                Ok(root)
            }
        },
    }
}

/// What a compilation produced.
#[derive(Debug)]
pub enum CompileOutput {
    /// The classified tokens.
    Lexed(Vec<Token>),
    /// The syntax tree.
    Parsed(Node),
}

/// Compiles the source held in `data`: its tokens where lexed output was
/// asked for, its tree otherwise; or the diagnostics of the first stage that
/// reported any.
pub fn compile_with_data(data: CompileData) -> (r: Result<CompileOutput, Vec<BasmError>>)
    requires
        data.source@.len() < u32::MAX,
    ensures
        data.output_type == OutputType::Lexed ==> match lex_source(data.source@) {
            Ok(ts) => r is Ok && r->Ok_0 is Lexed && tokens_view(r->Ok_0->Lexed_0@) == ts,
            Err(es) => r is Err && errors_view(r->Err_0@) == es,
        },
        data.output_type != OutputType::Lexed ==> match pipeline(data.source@) {
            Ok(m) => r is Ok && r->Ok_0 is Parsed && tree_is(r->Ok_0->Parsed_0, m.entries),
            Err(es) => r is Err && errors_view(r->Err_0@) == es,
        },
{
    if data.output_type == OutputType::Lexed {
        match lex(data.source.as_str()) {
            Ok(tokens) => Ok(CompileOutput::Lexed(tokens)),
            Err(errors) => Err(errors),
        }
    } else {
        match run_pipeline(data.source.as_str()) {
            Ok(root) => Ok(CompileOutput::Parsed(root)),
            Err(errors) => Err(errors),
        }
    }
}

/// Compiles `source` with the settings that the command line gives: every
/// flag diagnostic if there is any, else the result of `compile_with_data`.
pub fn compile(args: &Vec<String>, source: String) -> (r: Result<CompileOutput, Vec<BasmError>>)
    requires
        source@.len() < u32::MAX,
    ensures
        ({
            let flags = read_flag_args(flag_args(args@));
            &&& flags.errors.len() > 0 ==> r is Err && errors_view(r->Err_0@) == flags.errors
            &&& (flags.errors.len() == 0 && flags.output_type == OutputType::Lexed) ==> match lex_source(source@) {
                Ok(ts) => r is Ok && r->Ok_0 is Lexed && tokens_view(r->Ok_0->Lexed_0@) == ts,
                Err(es) => r is Err && errors_view(r->Err_0@) == es,
            }
            &&& (flags.errors.len() == 0 && flags.output_type != OutputType::Lexed) ==> match pipeline(source@) {
                Ok(m) => r is Ok && r->Ok_0 is Parsed && tree_is(r->Ok_0->Parsed_0, m.entries),
                Err(es) => r is Err && errors_view(r->Err_0@) == es,
            }
        }),
{
    let (mut data, errors) = read_flags(args);
    if errors.len() > 0 {
        return Err(errors);
    }
    data.source = source;
    compile_with_data(data)
}

} // verus!
