use templar::config::ParserConfig;
use templar::directive::Directive;
use templar::parser::{
    cdelim, if_block, if_line, ifelse_block, include_block, named_tag, odelim, parse_template_str,
    template_block, transform_block, transform_line, ParseError,
};

fn parser_config() -> ParserConfig {
    ParserConfig {
        odelim: "!%".to_string(),
        cdelim: "%!".to_string(),
        include_: "import".to_string(),
        if_: "if".to_string(),
        else_: "else".to_string(),
        end: "end".to_string(),
        comment: "//".to_string(),
        transform: "transform".to_string(),
        to: "to".to_string(),
    }
}

fn text(s: &str) -> Directive {
    Directive::Text(s.to_string())
}

fn lines(ls: &[&str]) -> String {
    ls.join("\n")
}

#[test]
fn parser_test_parse_template_str() {
    let template = lines(&[
        "!% import ./test.html %!",
        "",
        "!% if true %!",
        "    Text inside an If",
        "!% end %!",
        "",
        "",
        "Some Text In between",
        "",
        "",
        "!% if true %!",
        "    !% import ./test.html %!",
        "",
        "    !% transform i %!",
        "        lua",
        "    !% to %!",
        "        text",
        "    !% end %!",
        "",
        "    text ouside transform",
        "!% else %!",
        "    !% import ./test.html %!",
        "",
        "    Some Text Inside",
        "!% end %!",
        "",
        "",
        "Some Text Outside",
        "",
        "",
    ]);
    let expected = vec![
        Directive::Include { path: "./test.html".to_string() },
        text("\n"),
        Directive::If {
            condition: "true".to_string(),
            blocks: vec![text("    Text inside an If\n")],
        },
        text("\n\nSome Text In between\n\n\n"),
        Directive::IfElse {
            condition: "true".to_string(),
            if_blocks: vec![
                Directive::Include { path: "./test.html".to_string() },
                text("\n"),
                Directive::Transform {
                    input_name: "i".to_string(),
                    transform: "        lua\n".to_string(),
                    blocks: vec![text("        text\n")],
                },
                text("\n    text ouside transform\n"),
            ],
            else_blocks: vec![
                Directive::Include { path: "./test.html".to_string() },
                text("\n    Some Text Inside\n"),
            ],
        },
        text("\n\nSome Text Outside\n\n"),
    ];
    let result = parse_template_str(&parser_config(), &template).unwrap();
    assert_eq!(result, expected);
}

#[test]
fn parser_test_odelim() {
    let result = odelim(&parser_config(), "   !%");
    assert_eq!(result, Some("".to_string()));
}

#[test]
fn parser_test_cdelim() {
    let result = cdelim(&parser_config(), "%!   \n ");
    assert_eq!(result, Some(" ".to_string()));
}

#[test]
fn parser_test_parse_include_block() {
    let expected = Directive::Include { path: "path".to_string() };
    let result = include_block(&parser_config(), "!% import path %!").unwrap().1;
    assert_eq!(result, expected);
}

#[test]
fn parser_test_if_block() {
    let input = "!% if condition %!\n    text\n    text\n    !% end %!\n";
    let expected = Directive::If {
        condition: "condition".to_string(),
        blocks: vec![text("    text\n    text\n")],
    };
    let result = if_block(&parser_config(), input).unwrap().1;
    assert_eq!(result, expected);
}

#[test]
fn parser_test_if_line() {
    let result = if_line(&parser_config(), "!% if condition %!").unwrap().1;
    assert_eq!(result, "condition");
}

#[test]
fn parser_test_named_tag() {
    let result = named_tag(&parser_config(), "!% name %!", "name");
    assert_eq!(result, Some("".to_string()));
}

#[test]
fn test_ifelse_block() {
    let input = "!% if condition %!\ntext\n!% else %!\ntext\n!% end %!\n";
    let expected = Directive::IfElse {
        condition: "condition".to_string(),
        if_blocks: vec![text("text\n")],
        else_blocks: vec![text("text\n")],
    };
    let result = ifelse_block(&parser_config(), input).unwrap().1;
    assert_eq!(result, expected);
}

#[test]
fn test_if_else_block() {
    let input = "!% if condition %!\ntext\n!% else %!\ntext\n!% end %!\n";
    let expected = Directive::IfElse {
        condition: "condition".to_string(),
        if_blocks: vec![text("text\n")],
        else_blocks: vec![text("text\n")],
    };
    let result = template_block(&parser_config(), input).unwrap().1;
    assert_eq!(result, expected);
}

#[test]
fn parser_test_include_block() {
    let expected = Directive::Include { path: "./some/path".to_string() };
    let result = include_block(&parser_config(), "!% import ./some/path %!").unwrap().1;
    assert_eq!(result, expected);
}

#[test]
fn parser_test_tranform_block() {
    let input = "!% transform input %!\n    luacode\n    luacode\n!% to %!\n    text\n    text\n!% end %!\n";
    let expected = Directive::Transform {
        input_name: "input".to_string(),
        transform: "    luacode\n    luacode\n".to_string(),
        blocks: vec![text("    text\n    text\n")],
    };
    let result = transform_block(&parser_config(), input).unwrap().1;
    assert_eq!(result, expected);
}

#[test]
fn test_transform_line() {
    let result = transform_line(&parser_config(), "!% transform input %!");
    assert_eq!(result, Some(("".to_string(), "input".to_string())));
}

#[test]
fn plain_text_parses_to_one_trimmed_run() {
    let result = parse_template_str(&parser_config(), "hello world  \n \t").unwrap();
    assert_eq!(result, vec![text("hello world  \n")]);
    let empty = parse_template_str(&parser_config(), "").unwrap();
    assert_eq!(empty, vec![]);
}

#[test]
fn unterminated_if_is_a_parse_error() {
    let cfg = ParserConfig {
        odelim: "<%".to_string(),
        cdelim: "%>".to_string(),
        ..Default::default()
    };
    let result = parse_template_str(&cfg, "<%if x%>body");
    assert_eq!(result, Err(ParseError { expected: Some("end".to_string()), remaining: "<%if x%>body".to_string() }));
}

#[test]
fn stray_end_tag_leaves_suffix() {
    let result = parse_template_str(&parser_config(), "abc\n!% end %!\nrest");
    let e = result.unwrap_err();
    assert_eq!(e.remaining, "!% end %!\nrest");
    assert_eq!(e.expected, None);
    assert_eq!(e.message(), "expected a directive or the end of the template at: !% end %!\nrest");
}

#[test]
fn tag_needs_blank_after_keyword() {
    assert_eq!(if_line(&parser_config(), "!% ifcondition %!"), None);
    assert_eq!(if_line(&parser_config(), "!% if cond"), None);
}

#[test]
fn payload_is_trimmed_and_keeps_inner_spaces() {
    let result = if_line(&parser_config(), "  !%   if  a == b   %!  \nrest").unwrap();
    assert_eq!(result, ("rest".to_string(), "a == b".to_string()));
}

#[test]
fn default_config_tokens() {
    let c = ParserConfig::default();
    assert_eq!(c.odelim, "!!%");
    assert_eq!(c.cdelim, "%!!");
    assert_eq!(c.comment, "##");
    assert_eq!(c.if_, "if");
    assert_eq!(c.else_, "else");
    assert_eq!(c.end, "end");
    assert_eq!(c.include_, ["inc", "lude"].concat());
    assert_eq!(c.transform, "transform");
    assert_eq!(c.to, "to");
}

#[test]
fn trim_keep_newline_strips_trailing_blanks_only() {
    assert_eq!(templar::text::trim_keep_newline("  a b \t \n \t "), "  a b \t \n");
    assert_eq!(templar::text::trim_keep_newline(" \t "), "");
    assert_eq!(templar::text::trim_keep_newline("x\n"), "x\n");
}

#[test]
fn unclosed_transform_names_end_keyword() {
    let e = parse_template_str(&parser_config(), "x\n!% transform v %!\nreturn v\n!% to %!\nbody").unwrap_err();
    assert_eq!(e.expected, Some("end".to_string()));
    assert_eq!(e.remaining, "!% transform v %!\nreturn v\n!% to %!\nbody");
    assert_eq!(
        e.message(),
        "expected the closing `end` tag of the block at: !% transform v %!\nreturn v\n!% to %!\nbody"
    );
}

#[test]
fn transform_without_to_tag_names_to_keyword() {
    let e = parse_template_str(&parser_config(), "!% transform v %!\nreturn v\nbody").unwrap_err();
    assert_eq!(e.expected, Some("to".to_string()));
    assert_eq!(e.remaining, "!% transform v %!\nreturn v\nbody");
}
