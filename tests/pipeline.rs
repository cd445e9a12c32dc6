use basm::{
    compile, compile_with_data, lex, parse, read_flags, run_pipeline, BasmError, CompileData,
    CompileOutput, Node, NodeData, OutputType, Token, TokenType,
};

fn tok(kind: TokenType, data: &str, line: u32) -> Token {
    Token { token_type: kind, data: data.to_string(), line }
}

fn assert_string_leaf(n: &Node, text: &str, line: u32) {
    assert_eq!(n.data, NodeData::StringData(text.to_string()));
    assert!(n.branches.is_empty());
    assert_eq!(n.line, line);
}

fn args(list: &[&str]) -> Vec<String> {
    list.iter().map(|s| s.to_string()).collect()
}

#[test]
fn sem_ver_end_to_end() {
    let root = run_pipeline("sem_ver \"3.0.0\"").unwrap();
    assert_eq!(root.data, NodeData::Root);
    assert_eq!(root.branches.len(), 1);
    let child = &root.branches[0];
    assert_eq!(child.data, NodeData::SemVer);
    assert_eq!(child.line, 1);
    assert_eq!(child.branches.len(), 1);
    assert_string_leaf(&child.branches[0], "3.0.0", 1);
}

#[test]
fn two_unknown_words_give_two_diagnostics() {
    let r = run_pipeline("alpha\nsem_ver \"1\"\nbeta");
    match r {
        Err(errors) => assert_eq!(
            errors,
            vec![
                BasmError::UnknownSymbol { line: 1, data: "alpha".to_string() },
                BasmError::UnknownSymbol { line: 3, data: "beta".to_string() },
            ]
        ),
        Ok(_) => panic!("expected diagnostics"),
    }
}

#[test]
fn metadata_and_headers_in_order() {
    let root = run_pipeline("vm \"0.2\"\n[Stage]\nagent \"x y\"\n{my var}").unwrap();
    assert_eq!(root.branches.len(), 4);
    assert_eq!(root.branches[0].data, NodeData::VM);
    assert_string_leaf(&root.branches[0].branches[0], "0.2", 1);
    assert_eq!(root.branches[1].data, NodeData::Target);
    assert_eq!(root.branches[1].line, 2);
    assert_string_leaf(&root.branches[1].branches[0], "Stage", 2);
    assert_eq!(root.branches[2].data, NodeData::Agent);
    assert_string_leaf(&root.branches[2].branches[0], "x y", 3);
    assert_eq!(root.branches[3].data, NodeData::Monitor);
    assert_string_leaf(&root.branches[3].branches[0], "my var", 4);
}

#[test]
fn payload_may_sit_on_a_later_line() {
    let tokens = vec![
        tok(TokenType::Keyword, "sem_ver", 1),
        tok(TokenType::Literal, "\"héllo\"", 2),
    ];
    let (root, errors) = parse(&tokens);
    assert!(errors.is_empty());
    assert_eq!(root.branches.len(), 1);
    assert_eq!(root.branches[0].line, 1);
    assert_string_leaf(&root.branches[0].branches[0], "héllo", 2);
}

#[test]
fn parser_reports_every_unexpected_token() {
    let tokens = vec![
        tok(TokenType::Punctuator, "end", 1),
        tok(TokenType::Keyword, "block", 2),
        tok(TokenType::Literal, "12", 3),
        tok(TokenType::Keyword, "agent", 4),
        tok(TokenType::Literal, "[Sprite1]", 5),
        tok(TokenType::Literal, "[Sprite2]", 6),
    ];
    let (root, errors) = parse(&tokens);
    assert_eq!(
        errors,
        vec![
            BasmError::UnexpectedTokenInTopLevel { line: 1, data: "end".to_string() },
            BasmError::UnexpectedTokenInTopLevel { line: 2, data: "block".to_string() },
            BasmError::UnexpectedTokenInTopLevel { line: 3, data: "12".to_string() },
            BasmError::UnexpectedTokenInTopLevel { line: 5, data: "[Sprite1]".to_string() },
        ]
    );
    assert_eq!(root.branches.len(), 2);
    assert_eq!(root.branches[0].data, NodeData::Agent);
    assert!(root.branches[0].branches.is_empty());
    assert_eq!(root.branches[1].data, NodeData::Target);
    assert_string_leaf(&root.branches[1].branches[0], "Sprite2", 6);
}

#[test]
fn parse_of_nothing_is_an_empty_root() {
    let (root, errors) = parse(&Vec::new());
    assert!(errors.is_empty());
    assert_eq!(root.data, NodeData::Root);
    assert!(root.branches.is_empty());
}

#[test]
fn pipeline_stops_at_parser_diagnostics() {
    let r = run_pipeline("sem_ver end");
    match r {
        Err(errors) => assert_eq!(
            errors,
            vec![BasmError::UnexpectedTokenInTopLevel { line: 1, data: "end".to_string() }]
        ),
        Ok(_) => panic!("expected diagnostics"),
    }
}

#[test]
fn pipeline_stops_at_scanner_diagnostics() {
    let r = run_pipeline("zzz \"open\n");
    match r {
        Err(errors) => assert_eq!(errors, vec![BasmError::UnclosedStringLiteral { line: 1 }]),
        Ok(_) => panic!("expected diagnostics"),
    }
}

#[test]
fn parse_is_repeatable() {
    let tokens = lex("sem_ver \"1\" [S] vm end").unwrap();
    let (a, ea) = parse(&tokens);
    let (b, eb) = parse(&tokens);
    assert_eq!(ea, eb);
    assert_eq!(format!("{:?}", a), format!("{:?}", b));
}

#[test]
fn flags_output_name() {
    for name in ["test.sb3", "myProject123.sb3", "Unnamed-2019.sb3"] {
        let (data, errors) = read_flags(&args(&["basm", "tests/abcde.txt", "-o", name]));
        assert!(errors.is_empty());
        assert_eq!(data.output_name, name);
    }
}

#[test]
fn flags_output_type() {
    let (data, errors) = read_flags(&args(&["basm", "src.basm", "-L"]));
    assert!(errors.is_empty());
    assert_eq!(data.output_type, OutputType::Lexed);
    let (data, errors) = read_flags(&args(&["basm", "src.basm", "-P"]));
    assert!(errors.is_empty());
    assert_eq!(data.output_type, OutputType::Parsed);
    let (data, _) = read_flags(&args(&["basm", "src.basm"]));
    assert_eq!(data.output_type, OutputType::SB3);
}

#[test]
fn flags_conflicting_output_types() {
    let (_, errors) = read_flags(&args(&["basm", "src.basm", "-L", "-P"]));
    assert_eq!(errors, vec![BasmError::UndeterminedOutputType]);
}

#[test]
fn flags_verbose_and_version() {
    let (data, errors) = read_flags(&args(&["basm", "src.basm", "-v", "--version"]));
    assert!(errors.is_empty());
    assert!(data.verbose_flag);
    assert!(data.version_flag);
    let (data, _) = read_flags(&args(&["basm", "src.basm"]));
    assert!(!data.verbose_flag);
    assert!(!data.version_flag);
    let (data, _) = read_flags(&args(&["basm", "src.basm", "--verbose"]));
    assert!(data.verbose_flag);
}

#[test]
fn flags_name_then_more_flags() {
    let (data, errors) = read_flags(&args(&["basm", "src.basm", "-o", "out.sb3", "-v"]));
    assert!(errors.is_empty());
    assert_eq!(data.output_name, "out.sb3");
    assert!(data.verbose_flag);
}

#[test]
fn flags_unknown_argument() {
    let (_, errors) = read_flags(&args(&["basm", "src.basm", "--what", "-x"]));
    assert_eq!(
        errors,
        vec![
            BasmError::UnknownTerminalArgument { arg: "--what".to_string() },
            BasmError::UnknownTerminalArgument { arg: "-x".to_string() },
        ]
    );
}

#[test]
fn compile_with_lexed_output() {
    let data = CompileData {
        output_name: String::new(),
        source: "vm \"1\"".to_string(),
        version_flag: false,
        verbose_flag: false,
        output_type: OutputType::Lexed,
    };
    match compile_with_data(data) {
        Ok(CompileOutput::Lexed(tokens)) => assert_eq!(
            tokens,
            vec![tok(TokenType::Keyword, "vm", 1), tok(TokenType::Literal, "\"1\"", 1)]
        ),
        other => panic!("unexpected {:?}", other),
    }
}

#[test]
fn compile_with_parsed_output() {
    match compile(&args(&["basm", "src.basm", "-P"]), "agent \"me\"".to_string()) {
        Ok(CompileOutput::Parsed(root)) => {
            assert_eq!(root.branches.len(), 1);
            assert_eq!(root.branches[0].data, NodeData::Agent);
            assert_string_leaf(&root.branches[0].branches[0], "me", 1);
        }
        other => panic!("unexpected {:?}", other),
    }
}

#[test]
fn compile_reports_flag_errors_first() {
    let r = compile(&args(&["basm", "src.basm", "-L", "-P"]), "nonsense".to_string());
    match r {
        Err(errors) => assert_eq!(errors, vec![BasmError::UndeterminedOutputType]),
        Ok(_) => panic!("expected diagnostics"),
    }
}
