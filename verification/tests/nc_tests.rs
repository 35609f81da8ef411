use nefu::nc_parser::{
    is_new_syntax, nc_number_tokens, parse_arg_value, parse_nc_to_html, parse_nefu_args,
    parse_nefu_call, parse_new_syntax, remove_comments, NcError, NefuArg,
};
use nefu::nc_render::progress_pairs;

/// Numbers as the page script writes them: integral values without a
/// fraction, others in their shortest form.
fn js_number(tok: &str) -> String {
    let n = if let Ok(i) = tok.parse::<i64>() {
        i as f64
    } else if let Ok(f) = tok.parse::<f64>() {
        f
    } else {
        return tok.to_string();
    };
    if n == n.floor() {
        format!("{}", n as i64)
    } else {
        format!("{}", n)
    }
}

fn page(content: &str) -> Result<String, NcError> {
    let numbers: Vec<(String, String)> =
        nc_number_tokens(content).into_iter().map(|t| { let j = js_number(&t); (t, j) }).collect();
    let percents: Vec<(String, String, u32)> = progress_pairs(content)
        .into_iter()
        .map(|(v, m)| {
            let p = match (v.parse::<f64>(), m.parse::<f64>()) {
                (Ok(v), Ok(m)) if m > 0.0 => (v / m * 100.0) as u32,
                _ => 0,
            };
            (v, m, p)
        })
        .collect();
    parse_nc_to_html(content, &numbers, &percents)
}

#[test]
fn test_remove_comments() {
    let input = "\\ This is a comment\nimport<nefu.nch>\n/* multi-line\ncomment */\nmain\"";
    let result = remove_comments(input);
    assert!(!result.contains("This is a comment"));
    assert!(result.contains("import<nefu.nch>"));
    assert!(!result.contains("multi-line"));
    assert!(result.contains("main\""));
}

#[test]
fn test_parse_nefu_call() {
    let result = parse_nefu_call("nefu(\"list\",[1,2,3,4],BLACK)", &Vec::new()).unwrap();
    assert_eq!(result, "await nefu.invoke(\"list\", [1, 2, 3, 4], \"BLACK\")");
}

#[test]
fn test_parse_nefu_call_simple() {
    let result = parse_nefu_call("nefu(\"alert\",\"hello\")", &Vec::new()).unwrap();
    assert_eq!(result, "await nefu.invoke(\"alert\", \"hello\")");
}

#[test]
fn test_is_new_syntax() {
    assert!(is_new_syntax("import<nefu.nch>"));
    assert!(is_new_syntax("main\""));
    assert!(is_new_syntax("\\ comment"));
    assert!(!is_new_syntax("{ \"component\": \"button\" }"));
}

#[test]
fn test_parse_args() {
    let args = parse_nefu_args("\"list\",[1,2,3,4],BLACK");
    assert_eq!(args.len(), 3);
    assert!(matches!(args[0], NefuArg::String(_)));
    assert!(matches!(args[1], NefuArg::Array(_)));
    assert!(matches!(args[2], NefuArg::Identifier(_)));
}

#[test]
fn test_parse_new_syntax_basic() {
    let input = r#"
import<nefu.nch>
\ This is a test
main"
  nefu("alert","Hello World")
  nefu("list",[1,2,3],TEST)
end(all);
"#;
    let result = parse_new_syntax(input, &Vec::new()).unwrap();
    assert!(result.contains("nefu.invoke"));
    assert!(result.contains("Hello World"));
    assert!(result.contains("TEST"));
    assert!(result.contains("<html"));
}

#[test]
fn test_old_syntax_still_works() {
    let input = r#"{"component":"button","text":"Hello","color":"primary"}"#;
    let result = page(input).unwrap();
    assert!(result.contains("btn-primary"));
    assert!(result.contains("Hello"));
    assert!(result.contains("<html"));
}

// ---- further cases ----

#[test]
fn argument_kinds_render() {
    let t = Vec::new();
    assert_eq!(parse_arg_value("'x'").to_js_string(&t), "\"x\"");
    assert_eq!(parse_arg_value("\"'q'\"").to_js_string(&t), "'q'");
    assert_eq!(parse_arg_value("true").to_js_string(&t), "true");
    assert_eq!(parse_arg_value("myVar").to_js_string(&t), "myVar");
    assert_eq!(parse_arg_value("MY_CONST2").to_js_string(&t), "\"MY_CONST2\"");
    assert!(matches!(parse_arg_value("1e3"), NefuArg::Number(_)));
    assert!(matches!(parse_arg_value("-inf"), NefuArg::Number(_)));
    assert!(matches!(parse_arg_value("1.2.3"), NefuArg::Identifier(_)));
    assert!(matches!(parse_arg_value("e5"), NefuArg::Identifier(_)));
}

#[test]
fn numbers_come_from_the_table() {
    let t = vec![("2.50".to_string(), "2.5".to_string())];
    let js = parse_nefu_call("nefu(\"f\", 2.50, [3.0])", &t).unwrap();
    assert_eq!(js, "await nefu.invoke(\"f\", 2.5, [3.0])");
}

#[test]
fn script_page_with_float_numbers() {
    let src = "main\"\n  nefu(\"set\", 2.0, 0.5, +7)\nend(x)";
    let html = page(src).unwrap();
    assert!(html.contains("await nefu.invoke(\"set\", 2, 0.5, 7)"));
    assert!(html.contains("<title>Nefu App</title>"));
}

#[test]
fn call_errors_are_named() {
    assert!(matches!(parse_nefu_call("foo(1)", &Vec::new()), Err(NcError::InvalidCall(_))));
    assert!(matches!(parse_nefu_call("nefu(1", &Vec::new()), Err(NcError::UnbalancedCall(_))));
    assert!(matches!(parse_nefu_call("nefu()", &Vec::new()), Err(NcError::MissingArguments(_))));
    let err = parse_nefu_call("nefu()", &Vec::new()).unwrap_err();
    assert_eq!(err.message(), "nefu() missing arguments: nefu()");
}

#[test]
fn script_lines_and_title() {
    let src = "import<My App>>\nmain'\nlet x = 1;\nend(all);\nignored();";
    let html = parse_new_syntax(src, &Vec::new()).unwrap();
    assert!(html.contains("<title>My App</title>"));
    assert!(html.contains("// main function\n(async () => {\n  let x = 1;\n})();"));
    assert!(!html.contains("ignored"));
}

#[test]
fn unclosed_main_is_closed() {
    let html = parse_new_syntax("main\"\nfoo();", &Vec::new()).unwrap();
    assert!(html.contains("  foo();\n})();"));
}

#[test]
fn comment_edge_cases() {
    assert_eq!(remove_comments("a \\\\ b"), "a \\");
    assert_eq!(remove_comments("x /* never closed"), "x d");
    assert_eq!(remove_comments("a\\ c\nb"), "a\nb");
}

#[test]
fn json_errors() {
    assert!(matches!(page("{not json"), Err(NcError::NotJson)));
    assert!(matches!(page("[1, 2]"), Err(NcError::RootNotObject)));
    assert!(matches!(page("{\"text\": \"x\"}"), Err(NcError::MissingKind)));
}

#[test]
fn json_components_render() {
    let html = page(r#"{"type":"container","children":[
        {"component":"heading","level":"1","text":"Hi"},
        {"component":"text","children":["a","b"]},
        {"component":"progress","value":"29","max":"100"},
        {"component":"badge","text":"new","props":{"color":"danger"}}
    ]}"#)
    .unwrap();
    assert!(html.contains("<div class=\"container\"><h1>Hi</h1><p>ab<div></div><div></div></p>"));
    assert!(html.contains("style=\"width: 28%\""));
    assert!(html.contains("<span class=\"badge bg-danger\">new</span>"));
}

#[test]
fn page_root_with_html_is_the_page() {
    let html = page(r#"{"component":"page","title":"T","html":true,"children":[{"component":"divider"}]}"#).unwrap();
    assert!(html.starts_with("<!DOCTYPE html>\n<html lang=\"zh-CN\">"));
    assert!(html.contains("<title>T</title>"));
    assert!(html.contains("<hr class=\"\">"));
    assert_eq!(html.matches("<!DOCTYPE html>").count(), 1);
}

#[test]
fn unknown_kind_is_generic_element() {
    let html = page(r#"{"component":"section","class":"c","props":{"data-x":"1","other":"2"},"text":"t"}"#).unwrap();
    assert!(html.contains("<section class=\"c\" data-x=\"1\">t</section>"));
}

#[test]
fn tabs_and_table() {
    let html = page(r#"{"component":"tabs","id":"t","children":[{"component":"text","text":"A"},{"component":"text","text":"B","title":"Second"}]}"#).unwrap();
    assert!(html.contains("id=\"t-tab-0\""));
    assert!(html.contains(">Tab 1</button>"));
    assert!(html.contains(">Second</button>"));
    assert!(html.contains("<div class=\"tab-pane fade show active\" id=\"t-0\" role=\"tabpanel\"><p>A</p></div>"));
    let table = page(r#"{"component":"table","striped":"yes","children":[{"component":"thead","children":[{"children":[{"text":"H"}]}]}]}"#).unwrap();
    assert!(table.contains("<table class=\"table table-striped\"><thead><tr><th>H</th></tr></thead></table>"));
}

#[test]
fn lone_quote_arguments_are_refused() {
    let err = parse_nc_to_html("main\"\nnefu(\")", &Vec::new(), &Vec::new()).unwrap_err();
    assert!(matches!(&err, NcError::LoneQuote(l) if l == "nefu(\")"));
    assert_eq!(err.message(), "nefu() unterminated string argument: nefu(\")");
    assert!(matches!(
        parse_nc_to_html("main\"\nnefu(\"say\", ')\nend(\"", &Vec::new(), &Vec::new()),
        Err(NcError::LoneQuote(_))
    ));
    assert!(matches!(
        parse_nc_to_html("main\"\nnefu(\"say\", [1, \"])\nend(\"", &Vec::new(), &Vec::new()),
        Err(NcError::LoneQuote(_))
    ));
    assert!(matches!(parse_nefu_call("nefu(\"say\", ')", &Vec::new()), Err(NcError::LoneQuote(_))));
    // Outside `main` the line is not a call; an earlier error comes first.
    assert!(parse_nc_to_html("import<a>\nnefu(\"say\", ')", &Vec::new(), &Vec::new()).is_ok());
    assert!(matches!(
        parse_nc_to_html("main\"\nnefu()\nnefu(\"say\", ')\nend(\"", &Vec::new(), &Vec::new()),
        Err(NcError::MissingArguments(_))
    ));
    assert!(nc_number_tokens("main\"\nnefu(\"say\", ')").is_empty());
}
