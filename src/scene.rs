use vstd::prelude::*;
use vstd::string::StringExecFns;
use crate::expr::{
    car, car_of, cdr, cdr_of, expr_views, parse_all, parse_all_spec, Expr, ExprView,
};
use crate::literal::{is_decimal, is_decimal_literal};
use crate::token::{tokenize, tokens_of};
use crate::Camera;

verus! {

// A scene as the scene language describes it. Every decimal quantity is
// kept as the literal that writes it, which the renderer reads as a number.
/// Three decimal literals: a point, a direction or a color.
pub struct Triple(pub String, pub String, pub String);

pub type TripleView = (Seq<char>, Seq<char>, Seq<char>);

impl View for Triple {
    type V = TripleView;

    open spec fn view(&self) -> TripleView {
        (self.0@, self.1@, self.2@)
    }
}

impl Triple {
    pub fn duplicate(&self) -> (r: Triple)
        ensures
            r@ == self@,
    {
        Triple(self.0.clone(), self.1.clone(), self.2.clone())
    }
}

/// A flat color with a specular exponent and intensity, and a reflection
/// coefficient.
pub struct Solid {
    pub color: Triple,
    pub specular: (String, String),
    pub reflection: String,
}

/// Two colors alternating over a lattice of cell size `uv`, with a specular
/// exponent and intensity, and a reflection coefficient.
pub struct Checker {
    pub colors: (Triple, Triple),
    pub uv: i32,
    pub specular: (String, String),
    pub reflection: String,
}

/// The shading of a surface.
pub enum Material {
    Solid(Solid),
    Checker(Checker),
}

pub enum MaterialView {
    Solid { color: TripleView, specular: (Seq<char>, Seq<char>), reflection: Seq<char> },
    Checker {
        colors: (TripleView, TripleView),
        uv: i32,
        specular: (Seq<char>, Seq<char>),
        reflection: Seq<char>,
    },
}

impl View for Material {
    type V = MaterialView;

    open spec fn view(&self) -> MaterialView {
        match self {
            Material::Solid(s) => MaterialView::Solid {
                color: s.color@,
                specular: (s.specular.0@, s.specular.1@),
                reflection: s.reflection@,
            },
            Material::Checker(c) => MaterialView::Checker {
                colors: (c.colors.0@, c.colors.1@),
                uv: c.uv,
                specular: (c.specular.0@, c.specular.1@),
                reflection: c.reflection@,
            },
        }
    }
}

impl Material {
    pub fn duplicate(&self) -> (r: Material)
        ensures
            r@ == self@,
    {
        match self {
            Material::Solid(s) => Material::Solid(
                Solid {
                    color: s.color.duplicate(),
                    specular: (s.specular.0.clone(), s.specular.1.clone()),
                    reflection: s.reflection.clone(),
                },
            ),
            Material::Checker(c) => Material::Checker(
                Checker {
                    colors: (c.colors.0.duplicate(), c.colors.1.duplicate()),
                    uv: c.uv,
                    specular: (c.specular.0.clone(), c.specular.1.clone()),
                    reflection: c.reflection.clone(),
                },
            ),
        }
    }
}

/// A sphere: its center, its radius and its material.
pub struct Sphere {
    pub pos: Triple,
    pub radius: String,
    pub mat: Material,
}

/// A plane: a point on it, its normal and its material.
pub struct Plane {
    pub pos: Triple,
    pub normal: Triple,
    pub mat: Material,
}

/// The sphere of center `p` and radius `r`, made of `m`.
pub fn new_sphere(p: Triple, r: String, m: Material) -> (s: Sphere)
    ensures
        s.pos@ == p@,
        s.radius@ == r@,
        s.mat@ == m@,
{
    Sphere { pos: p, radius: r, mat: m }
}

/// The plane through `p` with normal `n`, made of `m`.
pub fn new_plane(p: Triple, n: Triple, m: Material) -> (s: Plane)
    ensures
        s.pos@ == p@,
        s.normal@ == n@,
        s.mat@ == m@,
{
    Plane { pos: p, normal: n, mat: m }
}

/// A renderable shape.
pub enum Primitive {
    Sphere(Sphere),
    Plane(Plane),
}

pub enum PrimitiveView {
    Sphere { pos: TripleView, radius: Seq<char>, mat: MaterialView },
    Plane { pos: TripleView, normal: TripleView, mat: MaterialView },
}

impl View for Primitive {
    type V = PrimitiveView;

    open spec fn view(&self) -> PrimitiveView {
        match self {
            Primitive::Sphere(s) => PrimitiveView::Sphere {
                pos: s.pos@,
                radius: s.radius@,
                mat: s.mat@,
            },
            Primitive::Plane(p) => PrimitiveView::Plane {
                pos: p.pos@,
                normal: p.normal@,
                mat: p.mat@,
            },
        }
    }
}

/// A loaded scene: the camera, the primitives in the order they were
/// declared, and the bound on reflection depth.
pub struct Scene {
    pub camera: Camera,
    pub objects: Vec<Primitive>,
    pub reflections: u32,
}

pub struct SceneView {
    pub camera: Camera,
    pub objects: Seq<PrimitiveView>,
    pub reflections: u32,
}

impl View for Scene {
    type V = SceneView;

    open spec fn view(&self) -> SceneView {
        SceneView {
            camera: self.camera,
            objects: self.objects@.map_values(|p: Primitive| p@),
            reflections: self.reflections,
        }
    }
}

/// The bound on reflection depth when a scene sets none.
pub const REFLECTIONS: u32 = 10;

// ---------------------------------------------------------------------------
// What each form of the scene language stands for.
// ---------------------------------------------------------------------------

/// A decimal number: a decimal atom whose text writes a decimal literal.
pub open spec fn float_of(e: ExprView) -> Option<Seq<char>> {
    match e {
        ExprView::Float(s) => if is_decimal_literal(s) {
            Some(s)
        } else {
            None
        },
        _ => None,
    }
}

pub open spec fn num_of(e: ExprView) -> Option<i64> {
    match e {
        ExprView::Num(n) => Some(n),
        _ => None,
    }
}

/// A count: an integer from 0 to `u32::MAX`.
pub open spec fn count_of(e: ExprView) -> Option<u32> {
    match num_of(e) {
        Some(n) => if 0 <= n <= u32::MAX {
            Some(n as u32)
        } else {
            None
        },
        None => None,
    }
}

pub open spec fn symbol_of(e: ExprView) -> Option<Seq<char>> {
    match e {
        ExprView::Symbol(s) => Some(s),
        _ => None,
    }
}

/// The `n`-th element of a list (nil past its end).
pub open spec fn nth(e: ExprView, n: nat) -> ExprView
    decreases n,
{
    if n == 0 {
        car_of(e)
    } else {
        nth(cdr_of(e), (n - 1) as nat)
    }
}

/// `(W H D)`: three counts.
pub open spec fn cam_of(e: ExprView) -> Option<Camera> {
    match (count_of(nth(e, 0)), count_of(nth(e, 1)), count_of(nth(e, 2))) {
        (Some(width), Some(height), Some(depth)) => Some(Camera { width, height, depth }),
        _ => None,
    }
}

/// `(X Y Z)`: three decimal numbers.
pub open spec fn vec_of(e: ExprView) -> Option<TripleView> {
    match (float_of(nth(e, 0)), float_of(nth(e, 1)), float_of(nth(e, 2))) {
        (Some(x), Some(y), Some(z)) => Some((x, y, z)),
        _ => None,
    }
}

pub open spec fn is_label(e: ExprView, label: Seq<char>) -> bool {
    symbol_of(e) == Some(label)
}

/// `(color R G B)`.
pub open spec fn color_of(e: ExprView) -> Option<TripleView> {
    if is_label(car_of(e), "color"@) {
        vec_of(cdr_of(e))
    } else {
        None
    }
}

/// `(spec EXP INTENSITY)`.
pub open spec fn specular_of(e: ExprView) -> Option<(Seq<char>, Seq<char>)> {
    if is_label(car_of(e), "spec"@) {
        match (float_of(nth(e, 1)), float_of(nth(e, 2))) {
            (Some(a), Some(b)) => Some((a, b)),
            _ => None,
        }
    } else {
        None
    }
}

/// `(reflection K)`.
pub open spec fn reflection_of(e: ExprView) -> Option<Seq<char>> {
    if is_label(car_of(e), "reflection"@) {
        float_of(nth(e, 1))
    } else {
        None
    }
}

/// `(uv N)`.
/// `(uv N)`, with `N` from 1 to `i32::MAX`.
pub open spec fn uv_of(e: ExprView) -> Option<i32> {
    if is_label(car_of(e), "uv"@) {
        match num_of(nth(e, 1)) {
            Some(n) => if 0 < n <= i32::MAX {
                Some(n as i32)
            } else {
                None
            },
            None => None,
        }
    } else {
        None
    }
}

/// `(color ...) (spec ...) (reflection ...)`.
pub open spec fn solid_of(e: ExprView) -> Option<MaterialView> {
    match (color_of(nth(e, 0)), specular_of(nth(e, 1)), reflection_of(nth(e, 2))) {
        (Some(color), Some(specular), Some(reflection)) => Some(
            MaterialView::Solid { color, specular, reflection },
        ),
        _ => None,
    }
}

/// `(color ...) (color ...) (uv N) (spec ...) (reflection ...)`.
pub open spec fn checker_of(e: ExprView) -> Option<MaterialView> {
    match (
        color_of(nth(e, 0)),
        color_of(nth(e, 1)),
        uv_of(nth(e, 2)),
        specular_of(nth(e, 3)),
        reflection_of(nth(e, 4)),
    ) {
        (Some(c1), Some(c2), Some(uv), Some(specular), Some(reflection)) => Some(
            MaterialView::Checker { colors: (c1, c2), uv, specular, reflection },
        ),
        _ => None,
    }
}

/// `NAME solid ...` or `NAME checkboard ...`: the name and the material.
pub open spec fn material_of(e: ExprView) -> Option<(Seq<char>, MaterialView)> {
    match (symbol_of(nth(e, 0)), symbol_of(nth(e, 1))) {
        (Some(name), Some(shader)) => {
            let m = if shader == "solid"@ {
                solid_of(cdr_of(cdr_of(e)))
            } else if shader == "checkboard"@ {
                checker_of(cdr_of(cdr_of(e)))
            } else {
                None
            };
            match m {
                Some(m) => Some((name, m)),
                None => None,
            }
        },
        _ => None,
    }
}

/// The material declared last under `name` in `mats`.
pub open spec fn lookup(mats: Seq<(Seq<char>, MaterialView)>, name: Seq<char>) -> Option<
    MaterialView,
>
    decreases mats.len(),
{
    if mats.len() == 0 {
        None
    } else if mats.last().0 == name {
        Some(mats.last().1)
    } else {
        lookup(mats.drop_last(), name)
    }
}

/// `(X Y Z) RADIUS MAT_NAME`.
pub open spec fn sphere_of(e: ExprView, mats: Seq<(Seq<char>, MaterialView)>) -> Option<
    PrimitiveView,
> {
    match (vec_of(nth(e, 0)), float_of(nth(e, 1)), symbol_of(nth(e, 2))) {
        (Some(pos), Some(radius), Some(name)) => match lookup(mats, name) {
            Some(mat) => Some(PrimitiveView::Sphere { pos, radius, mat }),
            None => None,
        },
        _ => None,
    }
}

/// `(PX PY PZ) (NX NY NZ) MAT_NAME`.
pub open spec fn plane_of(e: ExprView, mats: Seq<(Seq<char>, MaterialView)>) -> Option<
    PrimitiveView,
> {
    match (vec_of(nth(e, 0)), vec_of(nth(e, 1)), symbol_of(nth(e, 2))) {
        (Some(pos), Some(normal), Some(name)) => match lookup(mats, name) {
            Some(mat) => Some(PrimitiveView::Plane { pos, normal, mat }),
            None => None,
        },
        _ => None,
    }
}

/// What the loader knows after some of the directives.
pub struct LoadState {
    pub camera: Option<Camera>,
    pub objects: Seq<PrimitiveView>,
    pub materials: Seq<(Seq<char>, MaterialView)>,
    pub reflections: u32,
}

pub open spec fn initial_state() -> LoadState {
    LoadState {
        camera: None,
        objects: Seq::empty(),
        materials: Seq::empty(),
        reflections: REFLECTIONS,
    }
}

/// The effect of one top-level form. A list headed by a symbol is a
/// directive: `camera` sets the camera, `sphere` and `plane` add a primitive,
/// `mat` declares a material under a name not declared before, `reflections`
/// sets the depth bound. A malformed directive, a material declared twice, a
/// primitive whose material is not declared, and any other symbol fail the
/// load. Other forms are passed over.
pub open spec fn load_step(s: LoadState, e: ExprView) -> Option<LoadState> {
    match e {
        ExprView::Cons(head, rest) => match *head {
            ExprView::Symbol(d) => {
                let rest = *rest;
                if d == "camera"@ {
                    match cam_of(rest) {
                        Some(c) => Some(LoadState { camera: Some(c), ..s }),
                        None => None,
                    }
                } else if d == "sphere"@ {
                    match sphere_of(rest, s.materials) {
                        Some(p) => Some(LoadState { objects: s.objects.push(p), ..s }),
                        None => None,
                    }
                } else if d == "plane"@ {
                    match plane_of(rest, s.materials) {
                        Some(p) => Some(LoadState { objects: s.objects.push(p), ..s }),
                        None => None,
                    }
                } else if d == "mat"@ {
                    match material_of(rest) {
                        Some(m) => if lookup(s.materials, m.0) is Some {
                            None
                        } else {
                            Some(LoadState { materials: s.materials.push(m), ..s })
                        },
                        None => None,
                    }
                } else if d == "reflections"@ {
                    match count_of(car_of(rest)) {
                        Some(n) => Some(LoadState { reflections: n, ..s }),
                        None => None,
                    }
                } else {
                    None
                }
            },
            _ => Some(s),
        },
        _ => Some(s),
    }
}

/// The loader's state after the forms `es`, or `None` once one fails.
pub open spec fn load_all(es: Seq<ExprView>) -> Option<LoadState>
    decreases es.len(),
{
    if es.len() == 0 {
        Some(initial_state())
    } else {
        match load_all(es.drop_last()) {
            Some(s) => load_step(s, es.last()),
            None => None,
        }
    }
}

/// The scene that the forms `es` describe: it needs a camera.
pub open spec fn scene_of_exprs(es: Seq<ExprView>) -> Option<SceneView> {
    match load_all(es) {
        Some(s) => match s.camera {
            Some(camera) => Some(
                SceneView { camera, objects: s.objects, reflections: s.reflections },
            ),
            None => None,
        },
        None => None,
    }
}

// ---------------------------------------------------------------------------
// What a loaded scene guarantees.
// ---------------------------------------------------------------------------

pub open spec fn triple_ok(t: TripleView) -> bool {
    is_decimal_literal(t.0) && is_decimal_literal(t.1) && is_decimal_literal(t.2)
}

/// Every decimal field of the material writes a decimal literal, and a
/// checker's cell size is positive.
pub open spec fn material_ok(m: MaterialView) -> bool {
    match m {
        MaterialView::Solid { color, specular, reflection } => triple_ok(color)
            && is_decimal_literal(specular.0) && is_decimal_literal(specular.1)
            && is_decimal_literal(reflection),
        MaterialView::Checker { colors, uv, specular, reflection } => triple_ok(colors.0)
            && triple_ok(colors.1) && uv > 0 && is_decimal_literal(specular.0)
            && is_decimal_literal(specular.1) && is_decimal_literal(reflection),
    }
}

/// Every decimal field of the primitive and of its material writes a
/// decimal literal, and a checker's cell size is positive.
pub open spec fn primitive_ok(p: PrimitiveView) -> bool {
    match p {
        PrimitiveView::Sphere { pos, radius, mat } => triple_ok(pos) && is_decimal_literal(
            radius,
        ) && material_ok(mat),
        PrimitiveView::Plane { pos, normal, mat } => triple_ok(pos) && triple_ok(normal)
            && material_ok(mat),
    }
}

/// Every primitive of the scene is well formed (see `primitive_ok`).
pub open spec fn scene_ok(s: SceneView) -> bool {
    forall|i: int| 0 <= i < s.objects.len() ==> primitive_ok(#[trigger] s.objects[i])
}

proof fn lemma_lookup_ok(mats: Seq<(Seq<char>, MaterialView)>, name: Seq<char>)
    requires
        forall|i: int| 0 <= i < mats.len() ==> material_ok(#[trigger] mats[i].1),
    ensures
        lookup(mats, name) matches Some(m) ==> material_ok(m),
    decreases mats.len(),
{
    if mats.len() > 0 && mats.last().0 != name {
        lemma_lookup_ok(mats.drop_last(), name);
    }
}

proof fn lemma_load_all_ok(es: Seq<ExprView>)
    ensures
        load_all(es) matches Some(st) ==> {
            &&& forall|i: int| 0 <= i < st.objects.len() ==> primitive_ok(#[trigger] st.objects[i])
            &&& forall|i: int|
                0 <= i < st.materials.len() ==> material_ok(#[trigger] st.materials[i].1)
        },
    decreases es.len(),
{
    if es.len() > 0 {
        lemma_load_all_ok(es.drop_last());
        if let Some(st) = load_all(es.drop_last()) {
            let e = es.last();
            if let ExprView::Cons(_, rest) = e {
                let rest = *rest;
                lemma_lookup_ok(st.materials, symbol_of(nth(rest, 2))->0);
            }
        }
    }
}

/// A loaded scene is well formed: every decimal field writes a decimal
/// literal, and every checker's cell size is positive.
pub proof fn lemma_loaded_scene_ok(es: Seq<ExprView>)
    ensures
        scene_of_exprs(es) matches Some(s) ==> scene_ok(s),
{
    lemma_load_all_ok(es);
}

/// The scene that the text `s` describes, if it is well formed.
pub open spec fn scene_of_text(s: Seq<char>) -> Option<SceneView> {
    match parse_all_spec(tokens_of(s)) {
        Some(es) => scene_of_exprs(es),
        None => None,
    }
}

// ---------------------------------------------------------------------------
// The loader.
// ---------------------------------------------------------------------------

pub open spec fn text_view(o: Option<String>) -> Option<Seq<char>> {
    match o {
        Some(s) => Some(s@),
        None => None,
    }
}

pub open spec fn triple_view(o: Option<Triple>) -> Option<TripleView> {
    match o {
        Some(t) => Some(t@),
        None => None,
    }
}

pub open spec fn material_view(o: Option<Material>) -> Option<MaterialView> {
    match o {
        Some(m) => Some(m@),
        None => None,
    }
}

pub open spec fn primitive_view(o: Option<Primitive>) -> Option<PrimitiveView> {
    match o {
        Some(p) => Some(p@),
        None => None,
    }
}

/// The declared materials, by name, in the order of declaration.
pub open spec fn materials_view(mats: Seq<(String, Material)>) -> Seq<(Seq<char>, MaterialView)> {
    mats.map_values(|m: (String, Material)| (m.0@, m.1@))
}

fn is_word(s: &String, label: &str) -> (r: bool)
    ensures
        r == (s@ == label@),
{
    *s == String::from_str(label)
}

/// The `n`-th element of the list `expr`.
fn element(expr: &Expr, n: usize) -> (r: Expr)
    ensures
        r@ == nth(expr@, n as nat),
{
    let mut cur = expr.duplicate();
    let mut i: usize = 0;
    while i < n
        invariant
            i <= n,
            nth(expr@, n as nat) == nth(cur@, (n - i) as nat),
        decreases n - i,
    {
        cur = cdr(&cur);
        i = i + 1;
    }
    car(&cur)
}

fn get_float(expr: &Expr) -> (r: Option<String>)
    ensures
        text_view(r) == float_of(expr@),
{
    match expr {
        Expr::Float(f) => if is_decimal(f.as_str()) {
            Some(f.clone())
        } else {
            None
        },
        _ => None,
    }
}

fn get_num(expr: &Expr) -> (r: Option<i64>)
    ensures
        r == num_of(expr@),
{
    match expr {
        Expr::Num(n) => Some(*n),
        _ => None,
    }
}

fn get_count(expr: &Expr) -> (r: Option<u32>)
    ensures
        r == count_of(expr@),
{
    let n = get_num(expr)?;
    if 0 <= n && n <= u32::MAX as i64 {
        Some(n as u32)
    } else {
        None
    }
}

fn get_symbol(expr: &Expr) -> (r: Option<String>)
    ensures
        text_view(r) == symbol_of(expr@),
{
    match expr {
        Expr::Symbol(s) => Some(s.clone()),
        _ => None,
    }
}

fn get_cam(expr: &Expr) -> (r: Option<Camera>)
    ensures
        r == cam_of(expr@),
{
    let width = get_count(&element(expr, 0))?;
    let height = get_count(&element(expr, 1))?;
    let depth = get_count(&element(expr, 2))?;
    Some(Camera { width, height, depth })
}

fn get_vec(expr: &Expr) -> (r: Option<Triple>)
    ensures
        triple_view(r) == vec_of(expr@),
{
    let x = get_float(&element(expr, 0))?;
    let y = get_float(&element(expr, 1))?;
    let z = get_float(&element(expr, 2))?;
    Some(Triple(x, y, z))
}

fn is_symbol(expr: &Expr, label: &str) -> (r: bool)
    ensures
        r == is_label(expr@, label@),
{
    match expr {
        Expr::Symbol(s) => is_word(s, label),
        _ => false,
    }
}

fn get_color(expr: &Expr) -> (r: Option<Triple>)
    ensures
        triple_view(r) == color_of(expr@),
{
    if !is_symbol(&car(expr), "color") {
        return None;
    }
    get_vec(&cdr(expr))
}

fn get_specular(expr: &Expr) -> (r: Option<(String, String)>)
    ensures
        match r {
            Some((a, b)) => specular_of(expr@) == Some((a@, b@)),
            None => specular_of(expr@) is None,
        },
{
    if !is_symbol(&car(expr), "spec") {
        return None;
    }
    let y = get_float(&element(expr, 1))?;
    let z = get_float(&element(expr, 2))?;
    Some((y, z))
}

fn get_reflection(expr: &Expr) -> (r: Option<String>)
    ensures
        text_view(r) == reflection_of(expr@),
{
    if !is_symbol(&car(expr), "reflection") {
        return None;
    }
    get_float(&element(expr, 1))
}

fn get_uv(expr: &Expr) -> (r: Option<i32>)
    ensures
        r == uv_of(expr@),
{
    if !is_symbol(&car(expr), "uv") {
        return None;
    }
    let n = get_num(&element(expr, 1))?;
    if 0 < n && n <= i32::MAX as i64 {
        Some(n as i32)
    } else {
        None
    }
}

fn get_solid(expr: &Expr) -> (r: Option<Material>)
    ensures
        material_view(r) == solid_of(expr@),
{
    let color = get_color(&element(expr, 0))?;
    let specular = get_specular(&element(expr, 1))?;
    let reflection = get_reflection(&element(expr, 2))?;
    Some(Material::Solid(Solid { color, specular, reflection }))
}

fn get_checkboard(expr: &Expr) -> (r: Option<Material>)
    ensures
        material_view(r) == checker_of(expr@),
{
    let color1 = get_color(&element(expr, 0))?;
    let color2 = get_color(&element(expr, 1))?;
    let uv = get_uv(&element(expr, 2))?;
    let specular = get_specular(&element(expr, 3))?;
    let reflection = get_reflection(&element(expr, 4))?;
    Some(
        Material::Checker(
            Checker { colors: (color1, color2), uv, specular, reflection },
        ),
    )
}

fn get_material(expr: &Expr) -> (r: Option<(String, Material)>)
    ensures
        match r {
            Some((name, m)) => material_of(expr@) == Some((name@, m@)),
            None => material_of(expr@) is None,
        },
{
    let name = get_symbol(&element(expr, 0))?;
    let shader = get_symbol(&element(expr, 1))?;
    let body = cdr(&cdr(expr));
    let m = if is_word(&shader, "solid") {
        get_solid(&body)
    } else if is_word(&shader, "checkboard") {
        get_checkboard(&body)
    } else {
        None
    };
    match m {
        Some(m) => Some((name, m)),
        None => None,
    }
}

/// The material declared last under `name`.
fn find_material(materials: &Vec<(String, Material)>, name: &String) -> (r: Option<Material>)
    ensures
        material_view(r) == lookup(materials_view(materials@), name@),
{
    let mut i: usize = materials.len();
    assert(materials@.take(i as int) =~= materials@);
    while i > 0
        invariant
            i <= materials@.len(),
            lookup(materials_view(materials@), name@) == lookup(
                materials_view(materials@.take(i as int)),
                name@,
            ),
        decreases i,
    {
        let ghost mv = materials_view(materials@.take(i as int));
        assert(mv.drop_last() =~= materials_view(materials@.take(i - 1)));
        if materials[i - 1].0 == *name {
            return Some(materials[i - 1].1.duplicate());
        }
        i = i - 1;
    }
    None
}

fn get_sphere(expr: &Expr, materials: &Vec<(String, Material)>) -> (r: Option<Primitive>)
    ensures
        primitive_view(r) == sphere_of(expr@, materials_view(materials@)),
{
    let pos = get_vec(&element(expr, 0))?;
    let radius = get_float(&element(expr, 1))?;
    let name = get_symbol(&element(expr, 2))?;
    let mat = find_material(materials, &name)?;
    Some(Primitive::Sphere(new_sphere(pos, radius, mat)))
}

fn get_plane(expr: &Expr, materials: &Vec<(String, Material)>) -> (r: Option<Primitive>)
    ensures
        primitive_view(r) == plane_of(expr@, materials_view(materials@)),
{
    let pos = get_vec(&element(expr, 0))?;
    let normal = get_vec(&element(expr, 1))?;
    let name = get_symbol(&element(expr, 2))?;
    let mat = find_material(materials, &name)?;
    Some(Primitive::Plane(new_plane(pos, normal, mat)))
}

proof fn lemma_load_stays_failed(es: Seq<ExprView>, i: int)
    requires
        0 <= i <= es.len(),
        load_all(es.take(i)) is None,
    ensures
        load_all(es) is None,
    decreases es.len() - i,
{
    if i < es.len() {
        assert(es.take(i + 1).drop_last() =~= es.take(i));
        lemma_load_stays_failed(es, i + 1);
    } else {
        assert(es.take(i) =~= es);
    }
}

pub open spec fn objects_view(objects: Seq<Primitive>) -> Seq<PrimitiveView> {
    objects.map_values(|p: Primitive| p@)
}

/// Builds the scene that the top-level forms `exprs` describe, or `None` when
/// a directive fails or no camera is set.
pub fn load_exprs(exprs: &Vec<Expr>) -> (r: Option<Scene>)
    ensures
        match r {
            Some(scene) => scene_of_exprs(expr_views(exprs@)) == Some(scene@),
            None => scene_of_exprs(expr_views(exprs@)) is None,
        },
        r matches Some(scene) ==> scene_ok(scene@),
{
    proof {
        lemma_loaded_scene_ok(expr_views(exprs@));
    }
    let ghost es = expr_views(exprs@);
    let mut cam: Option<Camera> = None;
    let mut objects: Vec<Primitive> = Vec::new();
    let mut materials: Vec<(String, Material)> = Vec::new();
    let mut reflections: u32 = REFLECTIONS;
    let mut i: usize = 0;
    assert(es.take(0) =~= Seq::<ExprView>::empty());
    assert(objects_view(objects@) =~= Seq::<PrimitiveView>::empty());
    assert(materials_view(materials@) =~= Seq::<(Seq<char>, MaterialView)>::empty());
    while i < exprs.len()
        invariant
            i <= exprs@.len(),
            es == expr_views(exprs@),
            load_all(es.take(i as int)) == Some(
                LoadState {
                    camera: cam,
                    objects: objects_view(objects@),
                    materials: materials_view(materials@),
                    reflections,
                },
            ),
        decreases exprs@.len() - i,
    {
        let ghost before = LoadState {
            camera: cam,
            objects: objects_view(objects@),
            materials: materials_view(materials@),
            reflections,
        };
        let ghost e = es[i as int];
        assert(es.take(i + 1).drop_last() =~= es.take(i as int));
        assert(es.take(i + 1).last() == e);
        assert(e == exprs@[i as int]@);
        let expr = &exprs[i];
        match expr {
            Expr::Cons(e_car, e_cdr) => match &**e_car {
                Expr::Symbol(d) => {
                    assert(e == ExprView::Cons(Box::new(e_car@), Box::new(e_cdr@)));
                    assert(e_car@ == ExprView::Symbol(d@));
                    if is_word(d, "camera") {
                        match get_cam(e_cdr) {
                            Some(c) => {
                                cam = Some(c);
                            },
                            None => {
                                proof {
                                    lemma_load_stays_failed(es, i + 1);
                                }
                                return None;
                            },
                        }
                    } else if is_word(d, "sphere") {
                        match get_sphere(e_cdr, &materials) {
                            Some(p) => {
                                objects.push(p);
                                assert(objects_view(objects@) =~= before.objects.push(p@));
                            },
                            None => {
                                proof {
                                    lemma_load_stays_failed(es, i + 1);
                                }
                                return None;
                            },
                        }
                    } else if is_word(d, "plane") {
                        match get_plane(e_cdr, &materials) {
                            Some(p) => {
                                objects.push(p);
                                assert(objects_view(objects@) =~= before.objects.push(p@));
                            },
                            None => {
                                proof {
                                    lemma_load_stays_failed(es, i + 1);
                                }
                                return None;
                            },
                        }
                    } else if is_word(d, "mat") {
                        match get_material(e_cdr) {
                            Some(m) => {
                                if let Some(_) = find_material(&materials, &m.0) {
                                    proof {
                                        lemma_load_stays_failed(es, i + 1);
                                    }
                                    return None;
                                }
                                let ghost mv = (m.0@, m.1@);
                                materials.push(m);
                                assert(materials_view(materials@) =~= before.materials.push(mv));
                            },
                            None => {
                                proof {
                                    lemma_load_stays_failed(es, i + 1);
                                }
                                return None;
                            },
                        }
                    } else if is_word(d, "reflections") {
                        match get_count(&car(e_cdr)) {
                            Some(n) => {
                                reflections = n;
                            },
                            None => {
                                proof {
                                    lemma_load_stays_failed(es, i + 1);
                                }
                                return None;
                            },
                        }
                    } else {
                        proof {
                            lemma_load_stays_failed(es, i + 1);
                        }
                        return None;
                    }
                },
                _ => {},
            },
            _ => {},
        }
        i = i + 1;
    }
    assert(es.take(i as int) =~= es);
    match cam {
        Some(camera) => Some(Scene { camera, objects, reflections }),
        None => None,
    }
}

/// Loads the scene that the text `contents` describes: `None` when the text
/// does not parse, a directive fails, or no camera is set.
pub fn scene_from_text(contents: &str) -> (r: Option<Scene>)
    ensures
        match r {
            Some(scene) => scene_of_text(contents@) == Some(scene@),
            None => scene_of_text(contents@) is None,
        },
        r matches Some(scene) ==> scene_ok(scene@),
{
    proof {
        if let Some(es) = parse_all_spec(tokens_of(contents@)) {
            lemma_loaded_scene_ok(es);
        }
    }
    let tokens = tokenize(contents);
    let exprs = parse_all(tokens.as_slice())?;
    load_exprs(&exprs)
}

} // verus!
