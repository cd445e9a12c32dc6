use basm::{scan, Symbol};

fn scan_and_compare(inputs: Vec<&str>, expected: Vec<Vec<&str>>) {
    assert_eq!(inputs.len(), expected.len());
    for (input, expected) in inputs.iter().zip(expected.iter()) {
        let (symbols, errors) = scan(input);
        assert!(errors.is_empty());
        let texts: Vec<String> = symbols.iter().map(|s: &Symbol| s.data.clone()).collect();
        let owned: Vec<String> = expected.iter().map(|x| String::from(*x)).collect();
        assert_eq!(owned, texts);
    }
}


#[test]
fn tests_scanning() {
    let inputs = vec![
        "a",
        "b cd",
        " e fg",
        "hij kl ",
        " mn op ",
        "qrs tuv",
        " w  x yz"
    ];
    let expected: Vec<Vec<&str>> = vec![
        vec!["a"],
        vec!["b", "cd"],
        vec!["e", "fg"],
        vec!["hij", "kl"],
        vec!["mn", "op"],
        vec!["qrs", "tuv"],
        vec!["w", "x", "yz"]
    ];
    scan_and_compare(inputs, expected);
}

#[test]
fn tests_string_scanning() {
    let inputs = vec![
        "\"a\"",
        "b \"cd\"",
        " \"e fg\"",
        "\"hij\" \"kl\" ",
        " \"mn\" o \"p\" ",
        "\"qr\" s \"tu\" v",
        " \"w  \" x \"y\" z "
    ];
    let expected: Vec<Vec<&str>> = vec![
        vec!["\"a\""],
        vec!["b", "\"cd\""],
        vec!["\"e fg\""],
        vec!["\"hij\"", "\"kl\""],
        vec!["\"mn\"", "o", "\"p\""],
        vec!["\"qr\"", "s", "\"tu\"", "v"],
        vec!["\"w  \"", "x", "\"y\"", "z"]
    ];
    scan_and_compare(inputs, expected);
}

#[test]
fn tests_target_scanning() {
    let inputs = vec![
        "[a]",
        "b [cd]",
        " [e fg]",
        "[hij] [kl] ",
        " [mn] o [p] ",
        "[qr] s [tu] v",
        " [w  ] x [y] z "
    ];
    let expected: Vec<Vec<&str>> = vec![
        vec!["[a]"],
        vec!["b", "[cd]"],
        vec!["[e fg]"],
        vec!["[hij]", "[kl]"],
        vec!["[mn]", "o", "[p]"],
        vec!["[qr]", "s", "[tu]", "v"],
        vec!["[w  ]", "x", "[y]", "z"]
    ];
    scan_and_compare(inputs, expected);
}

#[test]
fn tests_monitor_scanning() {
    let inputs = vec![
        "{a}",
        "b {cd}",
        " {e fg}",
        "{hij} {kl} ",
        " {mn} o {p} ",
        "{qr} s {tu} v",
        " {w  } x {y} z "
    ];
    let expected: Vec<Vec<&str>> = vec![
        vec!["{a}"],
        vec!["b", "{cd}"],
        vec!["{e fg}"],
        vec!["{hij}", "{kl}"],
        vec!["{mn}", "o", "{p}"],
        vec!["{qr}", "s", "{tu}", "v"],
        vec!["{w  }", "x", "{y}", "z"]
    ];
    scan_and_compare(inputs, expected);
}
