use glsl2wgsl::nom_helpers::{function_call_args, rest_of_script, search_and_replace, ParseError};
use glsl2wgsl::parse_func_defines::{
    construct_assignment_vars, detect_identifier_as_arg, erase_all_func_defines,
    find_and_replace_single_define_func, func_definition_parser, get_all_define_funcs,
    get_assignment, get_name_and_args, replace_define_tag, DefineFunc,
};
use glsl2wgsl::preprocessing;
use glsl2wgsl::replace_defines::{
    definition_parser, erase_all_defines, erase_one_define, find_and_replace_single_define,
    find_define_tag, get_one_define,
};
use glsl2wgsl::replace_defs::{defs_parser, ifdefs_parser};

fn out(r: Result<(&str, String), ParseError>) -> (String, String) {
    match r {
        Ok((rest, o)) => (rest.to_string(), o),
        Err(e) => panic!("unexpected error {:?}", e),
    }
}

#[test]
fn flag_defines() {
    let (rest, o) = out(defs_parser("#define SOME\n// #define OTHER\n"));
    assert_eq!(rest, "");
    assert_eq!(o, "bool  SOME = true;\nbool OTHER = false;\n");
}

#[test]
fn flag_defines_stop_at_a_valued_define() {
    let (_, o) = out(defs_parser("#define PI 3.14\n#define FLAG\n"));
    assert_eq!(o, "#define PI 3.14\n#define FLAG\n");
}

#[test]
fn ifdef_blocks() {
    let (rest, o) = out(ifdefs_parser("#ifdef SOME_VAR\n t = 1;\n#else\n t = 2;\n#endif\n"));
    assert_eq!(rest, "");
    assert_eq!(o, "if (SOME_VAR) {\n t = 1;\n} else {\n t = 2;\n}\n");
}

#[test]
fn valued_defines() {
    match get_one_define("in_body 10.0\nrest") {
        Ok((rest, d)) => {
            assert_eq!(rest, "rest");
            assert_eq!((d.name.as_str(), d.replace_by.as_str()), ("in_body", "10.0"));
        }
        Err(_) => panic!("expected a definition"),
    }
    match find_define_tag("x\n#define  q 12\ny") {
        Ok((rest, d)) => {
            assert_eq!(rest, "y");
            assert_eq!((d.name.as_str(), d.replace_by.as_str()), ("q", "12"));
        }
        Err(_) => panic!("expected a definition"),
    }
    let (rest, o) = out(erase_one_define("a\n#define q 12\nb"));
    assert_eq!((rest.as_str(), o.as_str()), ("b", "a\n"));
    let (_, o) = out(erase_all_defines("#define q 12\np = q;\n#define r 1\n"));
    assert_eq!(o, "p = q;\n");
    let (_, o) = out(find_and_replace_single_define(
        "p = q;\nq2 = q+1;",
        "q".to_string(),
        "12".to_string(),
    ));
    assert_eq!(o, "p = 12;\nq2 = 12+1;");
}

#[test]
fn define_replaces_names() {
    let i = "\n#define q 12\nfloat q2;\nvoid main() {\np = q;\nq2 = 4;\n  }\n";
    let (rest, o) = out(definition_parser(i));
    assert_eq!(rest, "");
    assert_eq!(o, "\nfloat q2;\nvoid main() {\np = 12;\nq2 = 4;\n  }\n");
}

#[test]
fn name_lists_and_words() {
    match function_call_args("(a, b.c ,d) x") {
        Ok((rest, names)) => {
            assert_eq!(rest, " x");
            assert_eq!(names, vec!["a".to_string(), "b.c".to_string(), "d".to_string()]);
        }
        Err(_) => panic!("expected names"),
    }
    assert!(function_call_args("(a, 1+2)").is_err());
    let (_, o) = out(search_and_replace("f(#arg_0, #arg_01)", "#arg_0".to_string(), "x".to_string()));
    assert_eq!(o, "f(x, #arg_01)");
    let (rest, o) = out(rest_of_script("abc"));
    assert_eq!((rest.as_str(), o.as_str()), ("", "abc"));
}

#[test]
fn function_like_defines() {
    match replace_define_tag("#define  t(pk, l) x") {
        Ok((rest, (name, args))) => {
            assert_eq!(rest, " x");
            assert_eq!(name, "t");
            assert_eq!(args, vec!["pk".to_string(), "l".to_string()]);
        }
        Err(_) => panic!("expected a definition"),
    }
    match get_name_and_args("#define q 12\n#define t(pk) y") {
        Ok((rest, (name, args))) => {
            assert_eq!((rest, name.as_str()), (" y", "t"));
            assert_eq!(args, vec!["pk".to_string()]);
        }
        Err(_) => panic!("expected a definition"),
    }
    let (rest, o) = out(get_assignment("  bob(pk)\nnext"));
    assert_eq!((rest.as_str(), o.as_str()), ("next", "bob(pk)"));
    match construct_assignment_vars("#define t(pk, l) bobbyFisher(15, pk)\nvoid") {
        Ok((rest, d)) => {
            assert_eq!(rest, "void");
            assert_eq!(d.name, "t");
            assert_eq!(d.replace_by, "bobbyFisher(15, #arg_0)");
        }
        Err(_) => panic!("expected a definition"),
    }
    match get_all_define_funcs("#define a(x) x+1\n#define b(y) y*2\nrest") {
        Ok((rest, defs)) => {
            assert_eq!(rest, "rest");
            assert_eq!(defs.len(), 2);
            assert_eq!(defs[1].replace_by, "y*2");
        }
        Err(_) => panic!("expected definitions"),
    }
    let (rest, o) = out(detect_identifier_as_arg("pk)", "pk".to_string()));
    assert_eq!((rest.as_str(), o.as_str()), (")", "pk"));
    let (_, o) = out(erase_all_func_defines("#define a(x) x+1\n#define q 12\nz"));
    assert_eq!(o, "#define q 12\nz");
    let def = DefineFunc {
        name: "t".to_string(),
        args: vec!["pk".to_string()],
        replace_by: "bobbyFisher(15, #arg_0)".to_string(),
    };
    let (_, o) = out(find_and_replace_single_define_func("st(a) + t(GR, big)", def));
    assert_eq!(o, "st(a) + bobbyFisher(15, GR)");
}

#[test]
fn define_func_preprocessing() {
    let i = "
#define texel(ax, p) texelFetch(ax(i), Bi(p(a)), ax(i))
#define q 12
#define t(pk, l) bobbyFisher(15, pk)
void main() {
   texel(ch0, f);
   texel(ch4, st);
   gold = q + t(GR, big);
 }
";
    let (rest, o) = out(preprocessing(i));
    assert_eq!(rest, "");
    assert_eq!(
        o,
        "\nvoid main() {\n   texelFetch(ch0(i), Bi(f(a)), ch0(i));\n   texelFetch(ch4(i), Bi(st(a)), ch4(i));\n   gold = 12 + bobbyFisher(15, GR);\n }\n"
    );
}

#[test]
fn range_preprocessing() {
    let i = "
#define range(i,a,b) for(int i = a; i <= b; i++)
void Simulation()
{
    range(i, -2, 2) range(j, -2, 2)
    {
        vec2 tpos = pos + vec2(i,j);
    }
}";
    let (_, o) = out(func_definition_parser(i));
    assert_eq!(
        o,
        "\nvoid Simulation()\n{\n    for(int i = -2; i <= 2; i++) for(int j = -2; j <= 2; j++)\n    {\n        vec2 tpos = pos + vec2(i,j);\n    }\n}"
    );
    let (_, p) = out(preprocessing(i));
    assert_eq!(p, o + "\n");
}

#[test]
fn comments_are_cut() {
    let (_, o) = out(preprocessing("a = 1; // one\r\nb = 2;"));
    assert_eq!(o, "a = 1; \nb = 2;\n");
}

#[test]
fn text_without_directives_only_loses_comments() {
    let (_, o) = out(preprocessing("void main() {\r\n  x = 1; // set\n}"));
    assert_eq!(o, "void main() {\n  x = 1; \n}\n");
}
