use templar::lua_def::{lua_functions, LuaDef};

fn foo() -> String {
    "foo".to_string()
}

fn bar(_argum: String) -> String {
    "bar".to_string()
}

#[test]
fn test_lua_export() {
    let defs = vec![
        LuaDef { name: "foo".to_string(), args: vec![] },
        LuaDef { name: "bar".to_string(), args: vec!["_argum".to_string()] },
    ];
    let lua_functions = lua_functions(&defs);
    assert_eq!(lua_functions.len(), 2);
    assert_eq!(foo(), "foo");
    assert_eq!(bar("woo".to_string()), "bar");
}

#[test]
fn lua_code_of_function_with_arguments() {
    let def = LuaDef { name: "bar".to_string(), args: vec!["a".to_string(), "b".to_string()] };
    assert_eq!(def.to_lua_code(), "function M.bar(a, b)\n\treturn bar(a, b)\nend\n\n");
}

#[test]
fn lua_code_of_function_without_arguments() {
    let def = LuaDef { name: "foo".to_string(), args: vec![] };
    assert_eq!(def.to_lua_code(), "function M.foo()\n\treturn foo()\nend\n\n");
    let all = lua_functions(&vec![def]);
    assert_eq!(all, vec!["function M.foo()\n\treturn foo()\nend\n\n".to_string()]);
}
