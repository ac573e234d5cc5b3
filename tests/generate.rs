use templar::config::ParserConfig;
use templar::directive::Directive;
use templar::engine::{Template, Trebuchet};
use templar::eval::{generate, TemplateError};
use templar::parser::ParseError;
use templar::script::ScriptContext;

fn no_files(_path: &str) -> Result<String, String> {
    Err("not found".to_string())
}

fn text(s: &str) -> Directive {
    Directive::Text(s.to_string())
}

fn angle_config() -> ParserConfig {
    ParserConfig {
        include_: "import".to_string(),
        transform: "transform".to_string(),
        to: "to".to_string(),
        end: "end".to_string(),
        odelim: "<%".to_string(),
        cdelim: "%>".to_string(),
        ..Default::default()
    }
}

fn run(template: &str) -> Result<String, TemplateError> {
    Trebuchet::new(angle_config()).process_template_str(template, &no_files)
}

#[test]
fn directives_test_directive_str() {
    let mut ctx = ScriptContext::new();
    let result = generate(&ParserConfig::default(), &vec![text("some text")], &mut ctx, &no_files);
    assert_eq!(result.unwrap(), "some text".to_string());
}

#[test]
fn directives_test_directive_string() {
    let mut ctx = ScriptContext::new();
    let directive = Directive::Text("some text".to_string());
    let result = generate(&ParserConfig::default(), &vec![directive], &mut ctx, &no_files);
    assert_eq!(result.unwrap(), "some text".to_string());
}

#[test]
fn directives_test_directive_if() {
    let cfg = ParserConfig::default();
    let directive_true = Directive::If {
        condition: "true".to_string(),
        blocks: vec![text("some text")],
    };
    let directive_false = Directive::If {
        condition: "false".to_string(),
        blocks: vec![text("some text")],
    };
    let mut ctx = ScriptContext::new();
    let result = generate(&cfg, &vec![directive_true], &mut ctx, &no_files).unwrap();
    assert_eq!(result, "some text".to_string());
    let result = generate(&cfg, &vec![directive_false], &mut ctx, &no_files).unwrap();
    assert_eq!(result, "".to_string());
}

#[test]
fn directives_test_directive_ifelse() {
    let cfg = ParserConfig::default();
    let directive_true = Directive::IfElse {
        condition: "true".to_string(),
        if_blocks: vec![text("some text")],
        else_blocks: vec![text("some more text")],
    };
    let directive_false = Directive::IfElse {
        condition: "false".to_string(),
        if_blocks: vec![text("some text")],
        else_blocks: vec![text("some more text")],
    };
    let mut ctx = ScriptContext::new();
    let result = generate(&cfg, &vec![directive_true], &mut ctx, &no_files).unwrap();
    assert_eq!(result, "some text".to_string());
    let result = generate(&cfg, &vec![directive_false], &mut ctx, &no_files).unwrap();
    assert_eq!(result, "some more text".to_string());
}

#[test]
fn directives_test_directive_include() {
    let read = |p: &str| -> Result<String, String> {
        if p == "test_directive_include.lua" {
            Ok("some text\n".to_string())
        } else {
            Err("not found".to_string())
        }
    };
    let directive = Directive::Include { path: "test_directive_include.lua".to_string() };
    let mut ctx = ScriptContext::new();
    let result = generate(&ParserConfig::default(), &vec![directive], &mut ctx, &read).unwrap();
    assert_eq!(result, "some text\n".to_string());
}

#[test]
fn directives_test_directive_transform() {
    let directive = Directive::Transform {
        input_name: "input".to_string(),
        transform: "input:gsub(\"RED\", \"#FF0000\")".to_string(),
        blocks: vec![text("some text in RED")],
    };
    let mut ctx = ScriptContext::new();
    let result = generate(&ParserConfig::default(), &vec![directive], &mut ctx, &no_files).unwrap();
    assert_eq!(result, "some text in #FF0000".to_string());
}

const NESTED_IFS: &str = "<% if \"something\" == \"something\" %>
text
<% if \"something\" == \"NO\" %>
text2
<% end %>
<% end %>
<% if \"something\" == \"something\" %>
text3
<% end %>
";

const LOCAL_TRANSFORM: &str = "<% transform input %>
local text = \"wooo\";
return text;
<% to %>
text1
text2
text3
<% end %>
";

#[test]
fn test_trebuchet() {
    let trebuchet = Trebuchet::new(angle_config());
    let output = trebuchet.process_template_str(NESTED_IFS, &no_files).unwrap();
    assert_eq!(output, "text\ntext3\n");

    let trebuchet = Trebuchet::new(angle_config());
    let output = trebuchet.process_template_str(LOCAL_TRANSFORM, &no_files).unwrap();
    assert_eq!(output, "wooo".to_string());
}

#[test]
fn template_test_templar() {
    let t = Trebuchet::new(angle_config());
    let _ = t.process_template_str(NESTED_IFS, &no_files).unwrap();
    let _ = t.process_template_str(LOCAL_TRANSFORM, &no_files).unwrap();
}

#[test]
fn mod_test_templar() {
    let t = Trebuchet::new(angle_config());
    let _ = t.run(NESTED_IFS, &no_files).unwrap();
    let _ = t.run(LOCAL_TRANSFORM, &no_files).unwrap();
}

#[test]
fn main_test_templar() {
    let t = Trebuchet::new(angle_config());
    let _ = t.process_template_str(NESTED_IFS, &no_files).unwrap();
    let _ = t.process_template_str(LOCAL_TRANSFORM, &no_files).unwrap();
}

#[test]
fn plain_text_generates_trimmed_source() {
    assert_eq!(run("hello world  \n \t").unwrap(), "hello world  \n");
    assert_eq!(run("").unwrap(), "");
}

#[test]
fn if_with_equal_strings_outputs_body() {
    assert_eq!(run("<%if \"a\"==\"a\"%>X<%end%>").unwrap(), "X");
}

#[test]
fn if_else_with_different_strings_outputs_else_branch() {
    assert_eq!(run("<%if \"a\"==\"b\"%>X<%else%>Y<%end%>").unwrap(), "Y");
}

#[test]
fn transform_upper_cases_its_body() {
    assert_eq!(run("<%transform v%>return v:upper()<%to%>hello<%end%>").unwrap(), "HELLO");
}

#[test]
fn nested_template_runs_in_a_fresh_context() {
    let read = |p: &str| -> Result<String, String> {
        if p == "inc" {
            Ok("<%if g == nil%>abc<%end%>".to_string())
        } else {
            Err("not found".to_string())
        }
    };
    let template =
        "<%if (function() g = 1 return true end)()%>P<%end%><%import inc%><%if g == 1%>!<%end%>";
    let output = Trebuchet::new(angle_config()).run(template, &read).unwrap();
    assert_eq!(output, "Pabc!");
    let plain = |_p: &str| -> Result<String, String> { Ok("abc".to_string()) };
    let output = Trebuchet::new(angle_config()).run("<%import f%>", &plain).unwrap();
    assert_eq!(output, "abc");
}

#[test]
fn nested_template_cannot_read_parent_global() {
    let read = |_p: &str| -> Result<String, String> { Ok("<%if g%>seen<%end%>".to_string()) };
    let template = "<%if (function() g = true return true end)()%><%end%><%import f%>";
    let result = Trebuchet::new(angle_config()).run(template, &read);
    assert_eq!(result, Err(TemplateError::NotBoolean { condition: "g".to_string() }));
}

#[test]
fn missing_end_is_a_parse_error() {
    let result = run("<%if x%>body");
    assert_eq!(
        result,
        Err(TemplateError::Parse(ParseError { expected: Some("end".to_string()), remaining: "<%if x%>body".to_string() }))
    );
}

#[test]
fn else_branch_never_runs_when_condition_holds() {
    let directive = Directive::IfElse {
        condition: "true".to_string(),
        if_blocks: vec![text("a")],
        else_blocks: vec![Directive::Transform {
            input_name: "v".to_string(),
            transform: "error('boom')".to_string(),
            blocks: vec![],
        }],
    };
    let mut ctx = ScriptContext::new();
    let result = generate(&ParserConfig::default(), &vec![directive], &mut ctx, &no_files);
    assert_eq!(result, Ok("a".to_string()));
}

#[test]
fn transform_binding_is_unset_afterwards() {
    let output = run("<%transform v%>return v<%to%>x<%end%><%if v == nil%>unset<%end%>").unwrap();
    assert_eq!(output, "xunset");
}

#[test]
fn non_boolean_condition_is_an_error() {
    assert_eq!(
        run("<%if 1%>x<%end%>"),
        Err(TemplateError::NotBoolean { condition: "1".to_string() })
    );
}

#[test]
fn non_string_transform_result_is_an_error() {
    assert_eq!(
        run("<%transform v%>return 1<%to%>x<%end%>"),
        Err(TemplateError::NotText { script: "return 1".to_string() })
    );
}

#[test]
fn failing_condition_is_a_script_error() {
    let result = run("<%if error(\"no\")%>x<%end%>");
    assert!(matches!(result, Err(TemplateError::Script(_))));
}

#[test]
fn unreadable_nested_file_is_an_io_error() {
    assert_eq!(
        run("<%import missing.txt%>"),
        Err(TemplateError::Io { path: "missing.txt".to_string(), reason: "not found".to_string() })
    );
}

#[test]
fn malformed_nested_file_is_a_parse_error() {
    let read = |_p: &str| -> Result<String, String> { Ok("<%if x%>".to_string()) };
    let result = Trebuchet::new(angle_config()).run("<%import f%>", &read);
    assert_eq!(
        result,
        Err(TemplateError::Parse(ParseError { expected: Some("end".to_string()), remaining: "<%if x%>".to_string() }))
    );
}

#[test]
fn self_nesting_file_stops_at_the_depth_limit() {
    let read = |_p: &str| -> Result<String, String> { Ok("<%import self%>".to_string()) };
    let result = Trebuchet::new(angle_config()).run("<%import self%>", &read);
    assert_eq!(result, Err(TemplateError::TooDeep { path: "self".to_string() }));
}

#[test]
fn default_engine_uses_default_delimiters() {
    let t = Trebuchet::default();
    assert_eq!(t.config, ParserConfig::default());
    let output = t.run("!!% if true %!!\nyes\n!!% end %!!\n", &no_files).unwrap();
    assert_eq!(output, "yes\n");
}

#[test]
fn template_keeps_its_config_and_blocks() {
    let cfg = angle_config();
    let t = Template::from_str(&cfg, "<%if true%>a<%end%>b").unwrap();
    assert_eq!(t.parser_config, cfg);
    assert_eq!(
        t.blocks,
        vec![Directive::If { condition: "true".to_string(), blocks: vec![text("a")] }, text("b")]
    );
    assert_eq!(t.process(&no_files), Ok("ab".to_string()));
    assert!(Template::from_str(&cfg, "<%end%>").is_err());
}

#[test]
fn scripts_have_the_standard_libraries() {
    let output = run("<%if type(os.time()) == \"number\" and io ~= nil and package ~= nil%>full<%end%>").unwrap();
    assert_eq!(output, "full");
}

#[test]
fn default_syntax_names_nested_files_with_the_standard_keyword() {
    let keyword = ["inc", "lude"].concat();
    let template = format!("a\n!!% {} part.txt %!!\nb", keyword);
    let read = |p: &str| -> Result<String, String> {
        if p == "part.txt" {
            Ok("nested\n".to_string())
        } else {
            Err("not found".to_string())
        }
    };
    let output = Trebuchet::default().run(&template, &read).unwrap();
    assert_eq!(output, "a\nnested\nb");
}

#[test]
fn binding_ignores_metamethods_on_globals() {
    let template = "<%if (function() setmetatable(_G, {__newindex = function() error(\"no\") end}) return true end)()%><%end%><%transform v%>return v<%to%>x<%end%>";
    assert_eq!(run(template).unwrap(), "x");
}
