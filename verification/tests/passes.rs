use glsl2wgsl::insert_new_arg_vars::{add_var_to_reassigned_args, decl_is_reassigned, get_arg_name};
use glsl2wgsl::let2var::{
    decl_is_reassigned as let_decl_is_reassigned, get_named_var, let2var_parser, read_type,
    replace_1_let, till_space, verify_identifier2, write_var_or_let,
};
use glsl2wgsl::nom_helpers::{
    anychar_underscore, argument1, function_call_args_anychar, get_function_body, identifier,
    search_and_replace_identifier, till_next_brace, till_next_paren_or_comma, type_argument1,
    ParseError,
};
use glsl2wgsl::postprocessing;
use glsl2wgsl::replace_inouts::{
    add_ptr_to_arg, check_inout_arg, function_call_args_anychar2, replace_inouts,
    search_and_replace_void,
};
use glsl2wgsl::replace_main::{
    anychar_type, parse_var_and_type, replace_main, replace_main_line, replace_main_vars,
};
use glsl2wgsl::replace_mod::{replace_all_mods, replace_one_mod};
use glsl2wgsl::replace_texel_fetch::{check_one_texture, replace_all_texture_and_texel_fetch};
use glsl2wgsl::replace_unis::uniform_vars_parser;

const UPDATE_INIT: &str = "[[stage(compute), workgroup_size(8, 8, 1)]]
fn update([[builtin(global_invocation_id)]] invocation_id: vec3<u32>) {
    let R: vec2<f32> = uni.iResolution.xy;
    let y_inverted_location = vec2<i32>(i32(invocation_id.x), i32(R.y) - i32(invocation_id.y));
    let location = vec2<i32>(i32(invocation_id.x), i32(invocation_id.y));
    ";

fn out(r: Result<(&str, String), ParseError>) -> (String, String) {
    match r {
        Ok((rest, o)) => (rest.to_string(), o),
        Err(e) => panic!("unexpected error {:?}", e),
    }
}

#[test]
fn void_return_is_taken_out() {
    let (rest, o) = out(search_and_replace_void("fn f() -> () {\n}\nfn g() -> f32 {}"));
    assert_eq!(rest, "");
    assert_eq!(o, "fn f()  {\n}\nfn g() -> f32 {}");
}

#[test]
fn uniforms_get_the_root() {
    let (rest, o) = out(uniform_vars_parser("let t = iTime + iTimeDelta * iResolution.x;"));
    assert_eq!(rest, "");
    assert_eq!(o, "let t = uni.iTime + uni.iTimeDelta * uni.iResolution.x;");
}

#[test]
fn main_line_is_replaced() {
    let i = "fn mainImage(fragColor: vec4<f32>, fragCoord: vec2<f32>) -> () {\n}\n";
    let (rest, o) = out(replace_main_line(i));
    assert_eq!(rest, "");
    let expected = UPDATE_INIT.to_string()
        + "\n\tvar fragColor: vec4<f32>;"
        + "\n\tvar fragCoord = vec2<f32>(f32(location.x), f32(location.y) );\n"
        + "\n}\n";
    assert_eq!(o, expected);
}

#[test]
fn main_line_absent_leaves_the_text() {
    let i = "fn main()  {\n} \n";
    let (rest, o) = out(replace_main_line(i));
    assert_eq!(rest, i);
    assert_eq!(o, i);
}

#[test]
fn main_pieces() {
    let (rest, o) = out(replace_main("abc fn mainImage(x"));
    assert_eq!((rest.as_str(), o.as_str()), ("x", "abc "));
    assert_eq!(replace_main("no main here"), Err(ParseError::Mismatch));
    let (rest, o) = out(parse_var_and_type("frag.x: vec4<f32>, y"));
    assert_eq!((rest.as_str(), o.as_str()), (", y", "frag.x"));
    assert!(parse_var_and_type("x:vec4").is_err());
    let (rest, o) = out(anychar_type("vec2<f32>) {"));
    assert_eq!((rest.as_str(), o.as_str()), (") {", "vec2<f32>"));
    match replace_main_vars("a: f32, b: vec2<f32>, c: i32) -> () {rest") {
        Ok((rest, vars)) => {
            assert_eq!(rest, "rest");
            assert_eq!(vars, vec!["a".to_string(), "b".to_string(), "c".to_string()]);
        }
        Err(_) => panic!("expected a parameter list"),
    }
    assert!(replace_main_vars("a: f32) {").is_err());
}

#[test]
fn call_arguments() {
    match function_call_args_anychar("(a, f(b, c),  d) + 1") {
        Ok((rest, args)) => {
            assert_eq!(rest, " + 1");
            assert_eq!(args, vec!["a".to_string(), "f(b, c)".to_string(), "d".to_string()]);
        }
        Err(_) => panic!("expected arguments"),
    }
    assert!(function_call_args_anychar("(a, b").is_err());
    let (rest, o) = out(argument1("g(1,2)), 3"));
    assert_eq!((rest.as_str(), o.as_str()), ("), 3", "g(1,2)"));
    match till_next_paren_or_comma("abc(d") {
        Ok((rest, (text, delim))) => {
            assert_eq!((rest, text.as_str(), delim.as_str()), ("(d", "abc", "("));
        }
        Err(_) => panic!("expected a delimiter"),
    }
    let (rest, o) = out(type_argument1("vec2<f32>, f32>"));
    assert_eq!((rest.as_str(), o.as_str()), (", f32>", "vec2<f32>"));
    assert!(type_argument1("vec2<f32)").is_err());
}

#[test]
fn mod_is_rewritten() {
    let (rest, o) = out(replace_one_mod("x = mod(a, b);"));
    assert_eq!((rest.as_str(), o.as_str()), (";", "x = ((a) % (b))"));
    let (rest, o) = out(replace_all_mods("x = mod(a, b) + mod(c, d);"));
    assert_eq!(rest, "");
    assert_eq!(o, "x = ((a) % (b)) + ((c) % (d));");
}

#[test]
fn nested_mod_needs_two_passes() {
    let (_, once) = out(replace_all_mods("mod(mod(a, b), c)"));
    assert_eq!(once, "((mod(a, b)) % (c))");
    let (_, twice) = out(replace_all_mods(&once));
    assert_eq!(twice, "((((a) % (b))) % (c))");
}

#[test]
fn mod_search_stops_at_a_mod_without_arguments() {
    let (_, o) = out(replace_all_mods("model(x) + mod(a, b)"));
    assert_eq!(o, "model(x) + mod(a, b)");
}

#[test]
fn texture_reads_are_rewritten() {
    let (rest, o) = out(check_one_texture("let c = texture(iChannel0, uv);"));
    assert_eq!((rest.as_str(), o.as_str()), (";", "let c = sample_texture(BUFFER_iChannel0, uv)"));
    let (_, o) = out(replace_all_texture_and_texel_fetch(
        "a = texelFetch(ch0, ivec2(p), 0);\n\tb = textureLod(ch0, uv, 2.);",
    ));
    assert_eq!(
        o,
        "a = textureLoad(BUFFER_ch0, vec2<i32>(ivec2(p)));\n\tb = textureSampleLevel(BUFFER_ch0, buffer_sampler, uv, f32(2.));"
    );
    assert!(check_one_texture("no read here").is_err());
}

#[test]
fn let_becomes_var_when_reassigned() {
    let (rest, o) = out(let2var_parser("let x = 1;\nx = 2;\nlet y = 3;\n"));
    assert_eq!(rest, "");
    assert_eq!(o, "var x = 1;\nx = 2;\nlet y = 3;\n");
    let (_, o) = out(let2var_parser("let x: f32 = 1.;\nx = 2.;"));
    assert_eq!(o, "var x: f32 = 1.;\nx = 2.;");
}

#[test]
fn let_pieces() {
    let (rest, o) = out(get_named_var("let abc: f32 = 2.;"));
    assert_eq!((rest.as_str(), o.as_str()), ("2.;", "abc"));
    let (rest, o) = out(read_type(": vec2<f32> = v;"));
    assert_eq!((rest.as_str(), o.as_str()), ("v;", ": vec2<f32>  = "));
    let (rest, o) = out(till_space("ab cd"));
    assert_eq!((rest.as_str(), o.as_str()), (" cd", "ab "));
    assert_eq!(let_decl_is_reassigned("let a = 1;\n a = 2;"), Ok(("", true)));
    assert_eq!(let_decl_is_reassigned("let a = 1;\n b = a;"), Ok((";", false)));
    let (rest, o) = out(write_var_or_let("let a = 1;\n a = 2;"));
    assert_eq!((rest.as_str(), o.as_str()), ("let a = 1;\n a = 2;", "var "));
    let (rest, o) = out(replace_1_let("x; let a = 1;"));
    assert_eq!((rest.as_str(), o.as_str()), ("a = 1;", "x; let "));
    assert!(verify_identifier2("abc"));
    assert!(!verify_identifier2("1bc"));
}

#[test]
fn identifiers() {
    match identifier("abc_1 = 2") {
        Ok((rest, id)) => assert_eq!((rest, id), (" = 2", "abc_1")),
        Err(_) => panic!("expected an identifier"),
    }
    assert!(identifier("1abc ").is_err());
    assert!(identifier("abc").is_err());
    let (rest, o) = out(anychar_underscore("a.b_c: x"));
    assert_eq!((rest.as_str(), o.as_str()), (": x", "a.b_c"));
}

#[test]
fn identifier_replacement() {
    let (rest, o) = out(search_and_replace_identifier(
        "\tP.x = P.x + aP;",
        "P".to_string(),
        "(*P)".to_string(),
    ));
    assert_eq!(rest, "");
    assert_eq!(o, "\t(*P).x = (*P).x + aP;");
    let (_, o) = out(search_and_replace_identifier("P = 1", "P".to_string(), "Q".to_string()));
    assert_eq!(o, "P = 1");
}

#[test]
fn braces_and_bodies() {
    match till_next_brace("ab {c}") {
        Ok((rest, (text, brace))) => assert_eq!((rest, text.as_str(), brace.as_str()), ("c}", "ab ", "{")),
        Err(_) => panic!("expected a brace"),
    }
    let (rest, o) = out(get_function_body(" -> f32 { a { b } c } d", 0));
    assert_eq!((rest.as_str(), o.as_str()), (" d", " -> f32 { a { b } c }"));
    let (rest, o) = out(get_function_body(" a } b", 1));
    assert_eq!((rest.as_str(), o.as_str()), (" b", " a }"));
    assert!(get_function_body(" { a ", 0).is_err());
}

#[test]
fn inout_pieces() {
    let (rest, o) = out(check_inout_arg("inout P: vec4<f32>"));
    assert_eq!((rest.as_str(), o.as_str()), (": vec4<f32>", "P"));
    let (rest, o) = out(add_ptr_to_arg("P: vec4<f32>"));
    assert_eq!((rest.as_str(), o.as_str()), ("", "P: ptr<function, vec4<f32>>"));
    match function_call_args_anychar2("(a: f32 , inout b: i32)x") {
        Ok((rest, args)) => {
            assert_eq!(rest, "x");
            assert_eq!(args, vec!["a: f32 ".to_string(), "inout b: i32".to_string()]);
        }
        Err(_) => panic!("expected arguments"),
    }
}

#[test]
fn inout_parameters_become_pointers() {
    let i = "fn f(a: f32, inout p: vec2<f32>)  {\n\tp.x = a;\n}\n";
    let (rest, o) = out(replace_inouts(i));
    assert_eq!(rest, "");
    assert_eq!(o, "fn f(a: f32, p: ptr<function, vec2<f32>>)  {\n\t(*p).x = a;\n}\n");
}

#[test]
fn reassigned_parameters_get_variables() {
    let i = "fn g(c: vec3<f32>) -> f32 {\n\tc = 23;\n\treturn c;\n}\n";
    let (rest, o) = out(add_var_to_reassigned_args(i));
    assert_eq!(rest, "");
    assert_eq!(o, "fn g(c: vec3<f32>) -> f32 {\n\tvar c_var = c;\n\tc_var = 23;\n\treturn c_var;\n}\n");
    assert_eq!(decl_is_reassigned("\tx += 1;", "x".to_string()), Ok(("\tx += 1;", true)));
    assert_eq!(decl_is_reassigned("\ty = x;", "x".to_string()), Ok(("\ty = x;", false)));
    let (rest, o) = out(get_arg_name("c: vec3<f32>"));
    assert_eq!((rest.as_str(), o.as_str()), (" vec3<f32>", "c"));
}

#[test]
fn postprocessing_reassigned_arg() {
    let printed = "fn func(fragColor: vec2<f32>, fragCoord: vec2<f32>)  {\n\tfragCoord = vec2<f32>(0.);\n\tfragColor = vec2<f32>(1.);\n} \n\n";
    let b = "fn func(fragColor: vec2<f32>, fragCoord: vec2<f32>)  {
	var fragCoord_var = fragCoord;
	var fragColor_var = fragColor;
	fragCoord_var = vec2<f32>(0.);
	fragColor_var = vec2<f32>(1.);
} 

";
    assert_eq!(postprocessing(printed), b);
}

#[test]
fn postprocessing_texel_fetch() {
    let printed = "fn main()  {\n\tlet wqe: vec4<f32> = texelFetch(ch0, q);\n\tlet wqe: vec4<f32> = texture(ch0, q / R);\n\tlet wqe: vec4<f32> = textureLod(ch0, q / R, 0.5);\n} \n\n";
    let b = "fn main()  {
	var wqe: vec4<f32> = textureLoad(BUFFER_ch0, vec2<i32>(q));
	var wqe: vec4<f32> = sample_texture(BUFFER_ch0, q / R);
	let wqe: vec4<f32> = textureSampleLevel(BUFFER_ch0, buffer_sampler, q / R, f32(0.5));
} 

";
    assert_eq!(postprocessing(printed), b);
}

#[test]
fn postprocessing_inout2() {
    let printed = "fn func(a: f32, inout P: vec4<f32>)  {\n\tP.x = P.x + (1.);\n\tlet a2: f32 = P.w;\n} \n\nfn func2(inout wert: vec4<f32>, c: vec3<f32>, inout a: f32) -> f32 {\n\twert = 56;\n\ta = vec2<f32>(1., 1.);\n\n\tfor (var i: i32 = 0; i < octaveNum; i = i + 1) {\n\t\tacc = acc + (vec2<f32>(noise(c), noise(p2 + vec3<f32>(0., 0., 10.))) * amp);\n\t\tc = 23;\n\t}\n\n} \n\n";
    let b = "fn func(a: f32, P: ptr<function, vec4<f32>>)  {
	(*P).x = (*P).x + (1.);
	let a2: f32 = (*P).w;
} 

fn func2(wert: ptr<function, vec4<f32>>, c: vec3<f32>, a: ptr<function, f32>) -> f32 {
	var c_var = c;
	(*wert) = 56;
	(*a) = vec2<f32>(1., 1.);

	for (var i: i32 = 0; i < octaveNum; i = i + 1) {
		acc = acc + (vec2<f32>(noise(c_var), noise(p2 + vec3<f32>(0., 0., 10.))) * amp);
		c_var = 23;
	}

} 

";
    assert_eq!(postprocessing(printed), b);
}

#[test]
fn postprocessing_main_image() {
    let printed = "fn mainImage(fragColor: vec4<f32>, fragCoord: vec2<f32>) -> () {\n\tlet t: f32 = iTime;\n\tfragColor = vec4<f32>(mod(t, 2.));\n} \n\n";
    let expected = UPDATE_INIT.to_string()
        + "\n\tvar fragColor: vec4<f32>;"
        + "\n\tvar fragCoord = vec2<f32>(f32(location.x), f32(location.y) );\n"
        + "\n\tlet t: f32 = uni.iTime;\n\tfragColor = vec4<f32>(((t) % (2.)));\n} \n\n";
    assert_eq!(postprocessing(printed), expected);
}

#[test]
fn plain_text_is_kept_by_the_passes() {
    let i = "var x = 1;\nx = 2;\n";
    assert_eq!(postprocessing(i), i);
}

#[test]
fn let2var_changes_only_the_keyword() {
    let i = "let a = 1; a = 2; let b = a;";
    let (_, o) = out(let2var_parser(i));
    assert_eq!(o, "var a = 1; a = 2; let b = a;");
    assert_eq!(o.len(), i.len());
}

#[test]
fn replacing_a_name_by_itself_changes_nothing() {
    let (_, o) = out(search_and_replace_identifier(" a = a + ab;", "a".to_string(), "a".to_string()));
    assert_eq!(o, " a = a + ab;");
    let (_, o) = out(glsl2wgsl::nom_helpers::search_and_replace(
        "f(#arg_0)",
        "#arg_0".to_string(),
        "#arg_0".to_string(),
    ));
    assert_eq!(o, "f(#arg_0)");
}

#[test]
fn syntax_error_messages() {
    let intro = "There seems to be a syntax error in the input GLSL code: \nline: 3, column: 7, \nbuggy line:";
    assert_eq!(
        glsl2wgsl::syntax_error_message(3, 7, "float x = ;\nfoo\nbar"),
        intro.to_string() + "\nfloat x = ;\nfoo"
    );
    let long = "x".repeat(50) + " y z";
    assert_eq!(
        glsl2wgsl::syntax_error_message(3, 7, &long),
        intro.to_string() + &"x".repeat(50) + "\n\t y z"
    );
    assert_eq!(
        glsl2wgsl::syntax_error_message(3, 7, ""),
        intro.to_string() + "Error within error: there is no line to be parsed."
    );
}

#[test]
fn checked_postprocessing() {
    assert_eq!(glsl2wgsl::postprocessing_checked("x = mod(a);"), None);
    assert_eq!(glsl2wgsl::postprocessing_checked("fn f(a: f32) } {"), None);
    assert_eq!(glsl2wgsl::postprocessing_checked("let c = texture(ch0);"), None);
    let i = "fn f(a: f32)  {\n\ta = mod(a, 2.);\n} \n";
    assert_eq!(glsl2wgsl::postprocessing_checked(i), Some(postprocessing(i)));
    assert_eq!(
        postprocessing(i),
        "fn f(a: f32)  {\n\tvar a_var = a;\n\ta_var = ((a_var) % (2.));\n} \n"
    );
}

#[test]
fn line_ends() {
    assert_eq!(glsl2wgsl::nom_helpers::eoi(""), Ok(("", ())));
    assert!(glsl2wgsl::nom_helpers::eoi("a").is_err());
    assert_eq!(glsl2wgsl::nom_helpers::eol("\r\nx"), Ok(("x", ())));
    assert!(glsl2wgsl::nom_helpers::eol("x").is_err());
    let (rest, o) = out(glsl2wgsl::nom_helpers::str_till_eol("a \\\nb\nc"));
    assert_eq!((rest.as_str(), o.as_str()), ("c", "a \\\nb"));
}

#[test]
fn constant_parser() {
    assert_eq!(glsl2wgsl::nom_helpers::cnst(&5u32, "abc"), Ok(("abc", 5u32)));
}

#[test]
fn blanks() {
    let (rest, o) = out(glsl2wgsl::nom_helpers::blank_space(" \t\\\n  x"));
    assert_eq!((rest.as_str(), o.as_str()), ("x", " \t\\\n  "));
    assert!(glsl2wgsl::nom_helpers::blank_space2("  x").is_err());
}

#[test]
fn call_characters() {
    let (rest, o) = out(glsl2wgsl::nom_helpers::anychar_func("f(a, b);x"));
    assert_eq!((rest.as_str(), o.as_str()), (";x", "f(a, b)"));
    assert!(glsl2wgsl::nom_helpers::anychar_func(";").is_err());
}

#[test]
fn identifier_text_must_not_start_with_a_digit() {
    assert!(glsl2wgsl::nom_helpers::verify_identifier("abc1"));
    assert!(glsl2wgsl::nom_helpers::verify_identifier("_9"));
    assert!(!glsl2wgsl::nom_helpers::verify_identifier("9a"));
    assert!(!glsl2wgsl::nom_helpers::verify_identifier("0"));
}
