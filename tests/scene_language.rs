use raytracer::expr::{car, cdr, parse_all, parse_expr, Expr};
use raytracer::literal::{is_decimal, read_integer};
use raytracer::scene::{scene_from_text, Material, Primitive, REFLECTIONS};
use raytracer::token::{is_sep, new_word, tokenize, Token};

fn word(s: &str) -> Token {
    Token::Word(s.to_string())
}

fn sym(s: &str) -> Expr {
    Expr::Symbol(s.to_string())
}

fn cons(a: Expr, b: Expr) -> Expr {
    Expr::Cons(Box::new(a), Box::new(b))
}

#[test]
fn tokenize_splits_words_and_parentheses() {
    let toks = tokenize("(camera 640\t480\n(x))");
    assert_eq!(
        toks,
        vec![
            Token::Lpar,
            word("camera"),
            word("640"),
            word("480"),
            Token::Lpar,
            word("x"),
            Token::Rpar,
            Token::Rpar
        ]
    );
}

#[test]
fn tokenize_keeps_last_word_and_empty_input() {
    assert_eq!(tokenize("abc"), vec![word("abc")]);
    assert_eq!(tokenize(""), Vec::<Token>::new());
    assert_eq!(tokenize("  \n "), Vec::<Token>::new());
}

#[test]
fn tokenize_quote_starts_a_new_word() {
    assert_eq!(tokenize("ab'cd"), vec![word("ab"), word("'cd")]);
    assert_eq!(tokenize("'a b"), vec![word("'a"), word("b")]);
}

#[test]
fn separators() {
    for c in ['(', ')', ' ', '\t', '\n', '\''] {
        assert!(is_sep(c));
    }
    assert!(!is_sep('a'));
    assert!(!is_sep('.'));
}

#[test]
fn new_word_collects_characters() {
    assert_eq!(new_word(&vec!['x', 'y', 'z']), word("xyz"));
}

#[test]
fn integers_are_read_as_std_does() {
    assert_eq!(read_integer("42"), Some(42));
    assert_eq!(read_integer("+7"), Some(7));
    assert_eq!(read_integer("-13"), Some(-13));
    assert_eq!(read_integer("-9223372036854775808"), Some(i64::MIN));
    assert_eq!(read_integer("9223372036854775808"), None);
    assert_eq!(read_integer("1.0"), None);
    assert_eq!(read_integer("-"), None);
    assert_eq!(read_integer(""), None);
    assert_eq!(read_integer("12a"), None);
}

#[test]
fn decimal_literals() {
    for s in ["1.5", ".5", "5.", "-0.25", "+3", "1e10", "1E+3", "2.5e-2", "inf", "-Infinity", "NaN"] {
        assert!(is_decimal(s), "{}", s);
        assert!(s.parse::<f64>().is_ok(), "{}", s);
    }
    for s in [".", "e5", "1e", "1e+", "abc", "", "-", "1.2.3", "1_0", "0x10", "infin"] {
        assert!(!is_decimal(s), "{}", s);
        assert!(s.parse::<f64>().is_err(), "{}", s);
    }
}

#[test]
fn parse_atoms() {
    let toks = tokenize("12 1.5 name 99999999999999999999");
    let exprs = parse_all(&toks).unwrap();
    assert_eq!(
        exprs,
        vec![
            Expr::Num(12),
            Expr::Float("1.5".to_string()),
            sym("name"),
            Expr::Float("99999999999999999999".to_string())
        ]
    );
}

#[test]
fn parse_nested_list() {
    let toks = tokenize("(a (1 2) ())");
    let (e, rest) = parse_expr(&toks).unwrap();
    assert!(rest.is_empty());
    let inner = cons(Expr::Num(1), cons(Expr::Num(2), Expr::Nil));
    assert_eq!(e, cons(sym("a"), cons(inner, cons(Expr::Nil, Expr::Nil))));
}

#[test]
fn parse_dotted_pair_and_rest() {
    let toks = vec![Token::Lpar, word("a"), Token::Dot, word("b"), Token::Rpar, word("c")];
    let (e, rest) = parse_expr(&toks).unwrap();
    assert_eq!(e, cons(sym("a"), sym("b")));
    assert_eq!(rest.to_vec(), vec![word("c")]);
}

#[test]
fn parse_rejects_malformed_input() {
    assert!(parse_expr(&[]).is_none());
    assert!(parse_expr(&[Token::Rpar]).is_none());
    assert!(parse_expr(&[Token::Lpar, Token::Dot, word("a"), Token::Rpar]).is_none());
    assert!(parse_all(&tokenize("(a b")).is_none());
    assert!(parse_all(&tokenize("a)")).is_none());
    assert_eq!(parse_all(&[]), Some(vec![]));
}

#[test]
fn car_and_cdr() {
    let e = cons(sym("a"), cons(Expr::Num(2), Expr::Nil));
    assert_eq!(car(&e), sym("a"));
    assert_eq!(cdr(&e), cons(Expr::Num(2), Expr::Nil));
    assert_eq!(car(&Expr::Num(3)), Expr::Nil);
    assert_eq!(cdr(&Expr::Nil), Expr::Nil);
}

const SCENE: &str = "(camera 320 200 400)
(mat red solid (color 255.0 0.0 0.0) (spec 2.0 0.5) (reflection 0.25))
(mat floor checkboard (color 1.0 1.0 1.0) (color 0.0 0.0 0.0) (uv 50) (spec 1.0 0.0) (reflection 0.0))
(sphere (0.0 0.0 500.0) 100.0 red)
(plane (0.0 100.0 0.0) (0.0 1.0 0.0) floor)
(reflections 3)";

#[test]
fn load_a_full_scene() {
    let scene = scene_from_text(SCENE).unwrap();
    assert_eq!(scene.camera.width, 320);
    assert_eq!(scene.camera.height, 200);
    assert_eq!(scene.camera.depth, 400);
    assert_eq!(scene.reflections, 3);
    assert_eq!(scene.objects.len(), 2);
    match &scene.objects[0] {
        Primitive::Sphere(s) => {
            assert_eq!(s.pos.2, "500.0");
            assert_eq!(s.radius, "100.0");
            match &s.mat {
                Material::Solid(m) => {
                    assert_eq!(m.color.0, "255.0");
                    assert_eq!(m.specular, ("2.0".to_string(), "0.5".to_string()));
                    assert_eq!(m.reflection, "0.25");
                }
                _ => panic!("expected a solid material"),
            }
        }
        _ => panic!("expected a sphere"),
    }
    match &scene.objects[1] {
        Primitive::Plane(p) => {
            assert_eq!(p.normal.1, "1.0");
            match &p.mat {
                Material::Checker(c) => {
                    assert_eq!(c.uv, 50);
                    assert_eq!(c.colors.1 .0, "0.0");
                }
                _ => panic!("expected a checker material"),
            }
        }
        _ => panic!("expected a plane"),
    }
}

#[test]
fn default_reflection_depth() {
    let scene = scene_from_text("(camera 1 2 3)").unwrap();
    assert_eq!(scene.reflections, REFLECTIONS);
    assert!(scene.objects.is_empty());
}

#[test]
fn load_fails_without_camera() {
    assert!(scene_from_text("(reflections 2)").is_none());
    assert!(scene_from_text("(camera 1 2)").is_none());
}

#[test]
fn load_fails_on_unknown_directive() {
    assert!(scene_from_text("(camera 1 2 3) (light 1.0)").is_none());
}

#[test]
fn load_fails_on_undeclared_material() {
    assert!(scene_from_text("(camera 1 2 3) (sphere (0.0 0.0 0.0) 1.0 red)").is_none());
}

#[test]
fn load_fails_on_integer_coordinates() {
    let text = "(camera 1 2 3) (mat m solid (color 1.0 1.0 1.0) (spec 1.0 1.0) (reflection 0.0)) (sphere (0 0 0) 1.0 m)";
    assert!(scene_from_text(text).is_none());
}

#[test]
fn load_fails_on_unparsable_text() {
    assert!(scene_from_text("(camera 1 2 3").is_none());
}

#[test]
fn duplicate_material_fails_the_load() {
    let text = "(camera 1 2 3)
(mat m solid (color 1.0 1.0 1.0) (spec 1.0 1.0) (reflection 0.0))
(mat m solid (color 2.0 2.0 2.0) (spec 1.0 1.0) (reflection 0.5))
(sphere (0.0 0.0 0.0) 1.0 m)";
    assert!(scene_from_text(text).is_none());
}

#[test]
fn malformed_camera_fails_the_load() {
    assert!(scene_from_text("(camera 4.0 4 10) (camera 4 4 10)").is_none());
    assert!(scene_from_text("(camera 4 4 10) (camera a 4 10)").is_none());
}

#[test]
fn camera_values_out_of_range_fail_the_load() {
    assert!(scene_from_text("(camera -1 2 3)").is_none());
    assert!(scene_from_text("(camera 1 4294967296 3)").is_none());
    let scene = scene_from_text("(camera 4294967295 0 7)").unwrap();
    assert_eq!(scene.camera.width, u32::MAX);
    assert_eq!(scene.camera.height, 0);
}

#[test]
fn reflection_depth_must_be_a_count() {
    assert!(scene_from_text("(camera 1 2 3) (reflections -1)").is_none());
    assert!(scene_from_text("(camera 1 2 3) (reflections 4294967296)").is_none());
    assert!(scene_from_text("(camera 1 2 3) (reflections 1.0)").is_none());
    assert_eq!(scene_from_text("(camera 1 2 3) (reflections 0)").unwrap().reflections, 0);
}

#[test]
fn checker_cell_size_must_be_positive() {
    for uv in ["0", "-5", "2147483648"] {
        let text = format!(
            "(camera 1 2 3) (mat c checkboard (color 1.0 1.0 1.0) (color 0.0 0.0 0.0) (uv {}) (spec 1.0 0.0) (reflection 0.0))",
            uv
        );
        assert!(scene_from_text(&text).is_none(), "{}", uv);
    }
    let text = "(camera 1 2 3) (mat c checkboard (color 1.0 1.0 1.0) (color 0.0 0.0 0.0) (uv 2147483647) (spec 1.0 0.0) (reflection 0.0)) (plane (0.0 0.0 0.0) (0.0 1.0 0.0) c)";
    assert!(scene_from_text(text).is_some());
}

#[test]
fn non_directive_forms_are_passed_over() {
    let scene = scene_from_text("stray (1 2) (camera 4 5 6)").unwrap();
    assert_eq!(scene.camera.width, 4);
}

#[test]
fn expressions_print_as_lists() {
    let e = cons(sym("a"), cons(cons(Expr::Num(1), cons(Expr::Num(-20), Expr::Nil)), sym("b")));
    assert_eq!(e.to_text(), "(a (1 -20) . b)");
    assert_eq!(Expr::Nil.to_text(), "()");
    assert_eq!(Expr::Float("2.50".to_string()).to_text(), "2.50");
    assert_eq!(Expr::Num(i64::MIN).to_text(), "-9223372036854775808");
    assert_eq!(Expr::Num(0).to_text(), "0");
}

#[test]
fn printed_list_parses_back() {
    let toks = tokenize("(camera 640 480 (x 1.5))");
    let (e, _) = parse_expr(&toks).unwrap();
    assert_eq!(e.to_text(), "(camera 640 480 (x 1.5))");
}

#[test]
fn duplicate_is_equal() {
    let e = cons(sym("a"), cons(Expr::Float("1.0".to_string()), Expr::Nil));
    assert_eq!(e.duplicate(), e);
}
