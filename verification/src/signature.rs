//! Human-readable signatures rendered from the type model of rustdoc JSON.
//!
//! The types below hold, as plain values, what rendering reads of rustdoc's
//! types, paths, generic arguments and bounds.
use vstd::prelude::*;
use crate::text::{append, append_str, chars_eq, chars_of, join, join_exec};

verus! {

/// A type, as rustdoc describes it.
pub enum SigType {
    /// A named type with optional generic arguments.
    ResolvedPath(SigPath),
    /// `dyn Trait + 'a`.
    DynTrait(SigDyn),
    /// A generic parameter.
    Generic(String),
    /// A primitive type.
    Primitive(String),
    /// A function pointer.
    FunctionPointer(Box<SigFnPointer>),
    /// A tuple.
    Tuple(Vec<SigType>),
    /// A slice `[T]`.
    Slice(Box<SigType>),
    /// An array `[T; len]`.
    Array {
        /// The element type.
        type_: Box<SigType>,
        /// The length expression.
        len: String,
    },
    /// A pattern type; rendered as its base type.
    Pat {
        /// The base type.
        type_: Box<SigType>,
    },
    /// `impl Trait`.
    ImplTrait(Vec<SigBound>),
    /// `_`.
    Infer,
    /// `*const T` or `*mut T`.
    RawPointer {
        /// Whether the pointer is `*mut`.
        is_mutable: bool,
        /// The pointee.
        type_: Box<SigType>,
    },
    /// `&'a mut T`.
    BorrowedRef {
        /// The lifetime, if written.
        lifetime: Option<String>,
        /// Whether the reference is `&mut`.
        is_mutable: bool,
        /// The referent.
        type_: Box<SigType>,
    },
    /// `<T as Trait>::Name` or `T::Name`.
    QualifiedPath {
        /// The associated item's name.
        name: String,
        /// Its generic arguments.
        args: Option<Box<SigArgs>>,
        /// The self type.
        self_type: Box<SigType>,
        /// The trait, if written.
        trait_: Option<SigPath>,
    },
}

/// A path with optional generic arguments.
pub struct SigPath {
    /// The path as written.
    pub path: String,
    /// Its generic arguments.
    pub args: Option<Box<SigArgs>>,
}

/// Generic arguments of a path.
pub enum SigArgs {
    /// `<A, B, Item = C>`.
    AngleBracketed {
        /// The arguments.
        args: Vec<SigArg>,
        /// The associated item constraints.
        constraints: Vec<SigConstraint>,
    },
    /// `(A, B) -> C`.
    Parenthesized {
        /// The inputs.
        inputs: Vec<SigType>,
        /// The output.
        output: Option<SigType>,
    },
    /// `(..)`.
    ReturnTypeNotation,
}

/// One generic argument.
pub enum SigArg {
    /// A lifetime.
    Lifetime(String),
    /// A type.
    Type(SigType),
    /// A constant expression.
    Const(String),
    /// `_`.
    Infer,
}

/// An associated item constraint: `Item = u32` or `IntoIter: Clone`.
pub struct SigConstraint {
    /// The associated item's name.
    pub name: String,
    /// Its generic arguments.
    pub args: Option<Box<SigArgs>>,
    /// The equality or the bounds.
    pub binding: SigBinding,
}

/// The right side of an associated item constraint.
pub enum SigBinding {
    /// `= term`.
    Equality(SigTerm),
    /// `: bounds`.
    Constraint(Vec<SigBound>),
}

/// A type or a constant.
pub enum SigTerm {
    /// A type.
    Type(SigType),
    /// A constant expression.
    Constant(String),
}

/// The modifier of a trait bound.
#[derive(Debug, Clone, Copy, PartialEq, Eq, Structural)]
pub enum SigModifier {
    /// No modifier.
    Plain,
    /// `?Trait`.
    Maybe,
    /// `~const Trait`.
    MaybeConst,
}

/// A generic bound.
pub enum SigBound {
    /// A trait bound, possibly higher-ranked.
    TraitBound {
        /// The trait.
        trait_: SigPath,
        /// Its `for<..>` parameters.
        generic_params: Vec<SigParam>,
        /// Its modifier.
        modifier: SigModifier,
    },
    /// A lifetime bound.
    Outlives(String),
    /// `use<..>` precise capturing.
    Use(Vec<String>),
}

/// A generic parameter definition.
pub struct SigParam {
    /// The parameter's name.
    pub name: String,
    /// What kind of parameter it is.
    pub kind: SigParamKind,
}

/// The kind of a generic parameter.
pub enum SigParamKind {
    /// A lifetime with the lifetimes it outlives.
    Lifetime {
        /// The lifetimes it outlives.
        outlives: Vec<String>,
    },
    /// A type parameter.
    Type {
        /// Its bounds.
        bounds: Vec<SigBound>,
        /// Its default.
        default: Option<SigType>,
        /// Whether the compiler made it up for an `impl Trait` argument.
        is_synthetic: bool,
    },
    /// A const parameter.
    Const {
        /// Its type.
        type_: SigType,
        /// Its default expression.
        default: Option<String>,
    },
}

/// `dyn` trait objects.
pub struct SigDyn {
    /// The traits.
    pub traits: Vec<SigPolyTrait>,
    /// The lifetime bound, if written.
    pub lifetime: Option<String>,
}

/// A possibly higher-ranked trait.
pub struct SigPolyTrait {
    /// The trait.
    pub trait_: SigPath,
    /// Its `for<..>` parameters.
    pub generic_params: Vec<SigParam>,
}

/// The calling convention of a function.
pub enum SigAbi {
    /// The default Rust ABI.
    Rust,
    /// `extern "C"`.
    C { unwind: bool },
    /// `extern "cdecl"`.
    Cdecl { unwind: bool },
    /// `extern "stdcall"`.
    Stdcall { unwind: bool },
    /// `extern "fastcall"`.
    Fastcall { unwind: bool },
    /// `extern "aapcs"`.
    Aapcs { unwind: bool },
    /// `extern "win64"`.
    Win64 { unwind: bool },
    /// `extern "sysv64"`.
    SysV64 { unwind: bool },
    /// `extern "system"`.
    System { unwind: bool },
    /// Any other ABI, by name.
    Other(String),
}

/// Function qualifiers.
pub struct SigHeader {
    /// `const fn`.
    pub is_const: bool,
    /// `async fn`.
    pub is_async: bool,
    /// `unsafe fn`.
    pub is_unsafe: bool,
    /// The ABI.
    pub abi: SigAbi,
}

/// A function pointer type.
pub struct SigFnPointer {
    /// Its `for<..>` parameters.
    pub generic_params: Vec<SigParam>,
    /// Its qualifiers.
    pub header: SigHeader,
    /// The parameter types.
    pub inputs: Vec<SigType>,
    /// Whether it ends in `...`.
    pub is_c_variadic: bool,
    /// The return type.
    pub output: Option<SigType>,
}

// ---------------------------------------------------------------------------
// What a type renders to
// ---------------------------------------------------------------------------

/// `", "`.
pub open spec fn comma() -> Seq<char> {
    ", "@
}

/// `" + "`.
pub open spec fn plus() -> Seq<char> {
    " + "@
}

/// The views of strings.
pub open spec fn strs(v: Seq<String>) -> Seq<Seq<char>> {
    v.map_values(|s: String| s@)
}

/// `for<P, ..> ` for higher-ranked parameters, nothing without any.
pub open spec fn for_prefix(ps: Seq<Seq<char>>) -> Seq<char> {
    if ps.len() == 0 {
        seq![]
    } else {
        "for<"@ + join(ps, comma()) + "> "@
    }
}

/// The text of a type.
pub open spec fn type_str(t: SigType) -> Seq<char>
    decreases t,
{
    match t {
        SigType::ResolvedPath(p) => path_str(p),
        SigType::DynTrait(d) => dyn_str(d),
        SigType::Generic(n) => n@,
        SigType::Primitive(n) => n@,
        SigType::FunctionPointer(fp) => fnptr_str(*fp),
        SigType::Tuple(ts) => if ts@.len() == 0 {
            "()"@
        } else {
            seq!['('] + join(types_str(ts@), comma()) + seq![')']
        },
        SigType::Slice(b) => seq!['['] + type_str(*b) + seq![']'],
        SigType::Array { type_, len } => seq!['['] + type_str(*type_) + "; "@ + len@ + seq![']'],
        SigType::Pat { type_ } => type_str(*type_),
        SigType::ImplTrait(bs) => "impl "@ + join(bounds_str(bs@), plus()),
        SigType::Infer => "_"@,
        SigType::RawPointer { is_mutable, type_ } => (if is_mutable {
            "*mut "@
        } else {
            "*const "@
        }) + type_str(*type_),
        SigType::BorrowedRef { lifetime, is_mutable, type_ } => seq!['&'] + (match lifetime {
            Some(l) => l@ + seq![' '],
            None => seq![],
        }) + (if is_mutable {
            "mut "@
        } else {
            seq![]
        }) + type_str(*type_),
        SigType::QualifiedPath { name, args, self_type, trait_ } => (match trait_ {
            Some(tr) => seq!['<'] + type_str(*self_type) + " as "@ + path_str(tr) + ">::"@ + name@,
            None => type_str(*self_type) + "::"@ + name@,
        }) + (match args {
            Some(a) => args_str(*a),
            None => seq![],
        }),
    }
}

/// The lifetime part of a reference: `'a ` when a lifetime is written.
pub open spec fn lifetime_part(lifetime: Option<String>) -> Seq<char> {
    match lifetime {
        Some(l) => l@ + seq![' '],
        None => seq![],
    }
}

/// References are told apart by mutability: a shared reference is `&`, the
/// lifetime and the referent; the mutable one is the same text with `mut `
/// inserted before the referent, so the two never render alike. The same
/// holds of raw pointers, `*const T` against `*mut T`.
pub proof fn lemma_reference_mutability(lifetime: Option<String>, referent: Box<SigType>)
    ensures
        type_str(SigType::BorrowedRef { lifetime, is_mutable: false, type_: referent }) == seq!['&']
            + lifetime_part(lifetime) + type_str(*referent),
        type_str(SigType::BorrowedRef { lifetime, is_mutable: true, type_: referent }) == seq!['&']
            + lifetime_part(lifetime) + "mut "@ + type_str(*referent),
        type_str(SigType::BorrowedRef { lifetime, is_mutable: true, type_: referent }).len()
            == type_str(SigType::BorrowedRef { lifetime, is_mutable: false, type_: referent }).len() + 4,
        type_str(SigType::RawPointer { is_mutable: true, type_: referent }) == "*mut "@ + type_str(*referent),
        type_str(SigType::RawPointer { is_mutable: false, type_: referent }) == "*const "@ + type_str(
            *referent,
        ),
{
    reveal_strlit("mut ");
    reveal_strlit("*mut ");
    reveal_strlit("*const ");
}

/// The texts of types.
pub open spec fn types_str(v: Seq<SigType>) -> Seq<Seq<char>>
    decreases v,
{
    if v.len() == 0 {
        seq![]
    } else {
        types_str(v.subrange(0, v.len() - 1)).push(type_str(v[v.len() - 1]))
    }
}

/// The text of a path: the path, then its generic arguments.
pub open spec fn path_str(p: SigPath) -> Seq<char>
    decreases p,
{
    p.path@ + match p.args {
        Some(a) => args_str(*a),
        None => seq![],
    }
}

/// The text of generic arguments.
pub open spec fn args_str(a: SigArgs) -> Seq<char>
    decreases a,
{
    match a {
        SigArgs::AngleBracketed { args, constraints } => if args@.len() == 0 && constraints@.len()
            == 0 {
            seq![]
        } else {
            seq!['<'] + join(arg_strs(args@) + constraints_str(constraints@), comma()) + seq!['>']
        },
        SigArgs::Parenthesized { inputs, output } => seq!['('] + join(types_str(inputs@), comma())
            + seq![')'] + match output {
            Some(o) => " -> "@ + type_str(o),
            None => seq![],
        },
        SigArgs::ReturnTypeNotation => "(..)"@,
    }
}

/// The text of a generic argument.
pub open spec fn arg_str(a: SigArg) -> Seq<char>
    decreases a,
{
    match a {
        SigArg::Lifetime(l) => l@,
        SigArg::Type(t) => type_str(t),
        SigArg::Const(e) => e@,
        SigArg::Infer => "_"@,
    }
}

/// The texts of generic arguments.
pub open spec fn arg_strs(v: Seq<SigArg>) -> Seq<Seq<char>>
    decreases v,
{
    if v.len() == 0 {
        seq![]
    } else {
        arg_strs(v.subrange(0, v.len() - 1)).push(arg_str(v[v.len() - 1]))
    }
}

/// The text of an associated item constraint.
pub open spec fn constraint_str(c: SigConstraint) -> Seq<char>
    decreases c,
{
    c.name@ + (match c.args {
        Some(a) => args_str(*a),
        None => seq![],
    }) + match c.binding {
        SigBinding::Equality(t) => " = "@ + term_str(t),
        SigBinding::Constraint(bs) => ": "@ + join(bounds_str(bs@), plus()),
    }
}

/// The texts of associated item constraints.
pub open spec fn constraints_str(v: Seq<SigConstraint>) -> Seq<Seq<char>>
    decreases v,
{
    if v.len() == 0 {
        seq![]
    } else {
        constraints_str(v.subrange(0, v.len() - 1)).push(constraint_str(v[v.len() - 1]))
    }
}

/// The text of a term.
pub open spec fn term_str(t: SigTerm) -> Seq<char>
    decreases t,
{
    match t {
        SigTerm::Type(ty) => type_str(ty),
        SigTerm::Constant(e) => e@,
    }
}

/// The text of a bound modifier.
pub open spec fn modifier_str(m: SigModifier) -> Seq<char> {
    match m {
        SigModifier::Maybe => "?"@,
        SigModifier::MaybeConst => "~const "@,
        SigModifier::Plain => seq![],
    }
}

/// The text of a generic bound.
pub open spec fn bound_str(b: SigBound) -> Seq<char>
    decreases b,
{
    match b {
        SigBound::TraitBound { trait_, generic_params, modifier } => for_prefix(
            params_str(generic_params@),
        ) + modifier_str(modifier) + path_str(trait_),
        SigBound::Outlives(l) => l@,
        SigBound::Use(parts) => "use<"@ + join(strs(parts@), comma()) + seq!['>'],
    }
}

/// The texts of generic bounds.
pub open spec fn bounds_str(v: Seq<SigBound>) -> Seq<Seq<char>>
    decreases v,
{
    if v.len() == 0 {
        seq![]
    } else {
        bounds_str(v.subrange(0, v.len() - 1)).push(bound_str(v[v.len() - 1]))
    }
}

/// The text of a generic parameter definition.
pub open spec fn param_str(p: SigParam) -> Seq<char>
    decreases p,
{
    match p.kind {
        SigParamKind::Lifetime { outlives } => p.name@ + if outlives@.len() == 0 {
            seq![]
        } else {
            ": "@ + join(strs(outlives@), plus())
        },
        SigParamKind::Type { bounds, default, .. } => p.name@ + (if bounds@.len() == 0 {
            seq![]
        } else {
            ": "@ + join(bounds_str(bounds@), plus())
        }) + match default {
            Some(d) => " = "@ + type_str(d),
            None => seq![],
        },
        SigParamKind::Const { type_, default } => "const "@ + p.name@ + ": "@ + type_str(type_)
            + match default {
            Some(d) => " = "@ + d@,
            None => seq![],
        },
    }
}

/// The texts of generic parameter definitions.
pub open spec fn params_str(v: Seq<SigParam>) -> Seq<Seq<char>>
    decreases v,
{
    if v.len() == 0 {
        seq![]
    } else {
        params_str(v.subrange(0, v.len() - 1)).push(param_str(v[v.len() - 1]))
    }
}

/// The text of a possibly higher-ranked trait.
pub open spec fn poly_str(p: SigPolyTrait) -> Seq<char>
    decreases p,
{
    for_prefix(params_str(p.generic_params@)) + path_str(p.trait_)
}

/// The texts of possibly higher-ranked traits.
pub open spec fn polys_str(v: Seq<SigPolyTrait>) -> Seq<Seq<char>>
    decreases v,
{
    if v.len() == 0 {
        seq![]
    } else {
        polys_str(v.subrange(0, v.len() - 1)).push(poly_str(v[v.len() - 1]))
    }
}

/// The text of a trait object: `dyn` and the traits, then the lifetime.
pub open spec fn dyn_str(d: SigDyn) -> Seq<char>
    decreases d,
{
    "dyn "@ + join(
        polys_str(d.traits@) + match d.lifetime {
            Some(l) => seq![l@],
            None => seq![],
        },
        plus(),
    )
}

/// The name of an ABI, or nothing for the Rust ABI.
pub open spec fn abi_name(a: SigAbi) -> Option<Seq<char>> {
    match a {
        SigAbi::Rust => None,
        SigAbi::C { unwind } => Some(if unwind { "C-unwind"@ } else { "C"@ }),
        SigAbi::Cdecl { unwind } => Some(if unwind { "cdecl-unwind"@ } else { "cdecl"@ }),
        SigAbi::Stdcall { unwind } => Some(if unwind { "stdcall-unwind"@ } else { "stdcall"@ }),
        SigAbi::Fastcall { unwind } => Some(if unwind { "fastcall-unwind"@ } else { "fastcall"@ }),
        SigAbi::Aapcs { unwind } => Some(if unwind { "aapcs-unwind"@ } else { "aapcs"@ }),
        SigAbi::Win64 { unwind } => Some(if unwind { "win64-unwind"@ } else { "win64"@ }),
        SigAbi::SysV64 { unwind } => Some(if unwind { "sysv64-unwind"@ } else { "sysv64"@ }),
        SigAbi::System { unwind } => Some(if unwind { "system-unwind"@ } else { "system"@ }),
        SigAbi::Other(s) => Some(s@),
    }
}

/// The qualifiers of a function: `const`, `async`, `unsafe`, then
/// `extern "abi"` for a non-Rust ABI.
pub open spec fn qualifiers_str(h: SigHeader) -> Seq<char> {
    (if h.is_const { "const "@ } else { seq![] }) + (if h.is_async { "async "@ } else { seq![] })
        + (if h.is_unsafe { "unsafe "@ } else { seq![] }) + match abi_name(h.abi) {
        Some(n) => "extern \""@ + n + "\" "@,
        None => seq![],
    }
}

/// ` -> T` for a return type other than `()`.
pub open spec fn return_str(r: Seq<char>) -> Seq<char> {
    if r == "()"@ {
        seq![]
    } else {
        " -> "@ + r
    }
}

/// The text of a function pointer type.
pub open spec fn fnptr_str(f: SigFnPointer) -> Seq<char>
    decreases f,
{
    for_prefix(params_str(f.generic_params@)) + qualifiers_str(f.header) + "fn("@ + join(
        types_str(f.inputs@),
        comma(),
    ) + (if f.is_c_variadic {
        (if f.inputs@.len() > 0 { comma() } else { seq![] }) + "..."@
    } else {
        seq![]
    }) + seq![')'] + match f.output {
        Some(o) => return_str(type_str(o)),
        None => seq![],
    }
}

// ---------------------------------------------------------------------------
// Rendering
// ---------------------------------------------------------------------------

/// The views of rendered parts.
pub open spec fn part_views(v: Seq<Vec<char>>) -> Seq<Seq<char>> {
    v.map_values(|x: Vec<char>| x@)
}

/// Joins rendered parts with a separator.
fn join_parts(parts: &Vec<Vec<char>>, sep: &str) -> (r: Vec<char>)
    ensures
        r@ == join(part_views(parts@), sep@),
{
    join_exec(parts.as_slice(), chars_of(sep).as_slice())
}

/// The characters of each string.
fn str_parts(v: &Vec<String>) -> (r: Vec<Vec<char>>)
    ensures
        part_views(r@) == strs(v@),
{
    let mut out: Vec<Vec<char>> = Vec::new();
    let mut i: usize = 0;
    while i < v.len()
        invariant
            i <= v@.len(),
            part_views(out@) == strs(v@).take(i as int),
        decreases v.len() - i,
    {
        let ghost before = part_views(out@);
        out.push(chars_of(v[i].as_str()));
        assert(part_views(out@) =~= before.push(v@[i as int]@));
        assert(strs(v@).take(i + 1) =~= strs(v@).take(i as int).push(v@[i as int]@));
        i = i + 1;
    }
    assert(strs(v@).take(i as int) =~= strs(v@));
    out
}

fn push_for_prefix(out: &mut Vec<char>, ps: &Vec<Vec<char>>)
    ensures
        final(out)@ == old(out)@ + for_prefix(part_views(ps@)),
{
    let ghost before = out@;
    if ps.len() > 0 {
        append_str(out, "for<");
        append(out, join_parts(ps, ", ").as_slice());
        append_str(out, "> ");
    }
    assert(out@ =~= before + for_prefix(part_views(ps@)));
}

/// Renders a type.
pub fn render_type(t: &SigType) -> (r: Vec<char>)
    ensures
        r@ == type_str(*t),
    decreases t,
{
    let mut out: Vec<char> = Vec::new();
    match t {
        SigType::ResolvedPath(p) => {
            proof { assert(decreases_to!(*t => (*t)->ResolvedPath_0)); }
            out = render_path(p);
        },
        SigType::DynTrait(d) => {
            proof { assert(decreases_to!(*t => (*t)->DynTrait_0)); }
            out = render_dyn(d);
        },
        SigType::Generic(n) => {
            out = chars_of(n.as_str());
        },
        SigType::Primitive(n) => {
            out = chars_of(n.as_str());
        },
        SigType::FunctionPointer(fp) => {
            proof { assert(decreases_to!(*t => (*t)->FunctionPointer_0)); }
            out = render_fnptr(fp);
        },
        SigType::Tuple(ts) => {
            if ts.len() == 0 {
                append_str(&mut out, "()");
            } else {
                proof { assert(decreases_to!(*t => (*t)->Tuple_0)); }
                let parts = render_types(ts);
                out.push('(');
                append(&mut out, join_parts(&parts, ", ").as_slice());
                out.push(')');
            }
        },
        SigType::Slice(b) => {
            proof { assert(decreases_to!(*t => (*t)->Slice_0)); }
            out.push('[');
            append(&mut out, render_type(b).as_slice());
            out.push(']');
        },
        SigType::Array { type_, len } => {
            proof { assert(decreases_to!(*t => (*t)->Array_type_)); }
            out.push('[');
            append(&mut out, render_type(type_).as_slice());
            append_str(&mut out, "; ");
            append_str(&mut out, len.as_str());
            out.push(']');
        },
        SigType::Pat { type_ } => {
            proof { assert(decreases_to!(*t => (*t)->Pat_type_)); }
            out = render_type(type_);
        },
        SigType::ImplTrait(bs) => {
            proof { assert(decreases_to!(*t => (*t)->ImplTrait_0)); }
            let parts = render_bounds(bs);
            append_str(&mut out, "impl ");
            append(&mut out, join_parts(&parts, " + ").as_slice());
        },
        SigType::Infer => {
            append_str(&mut out, "_");
        },
        SigType::RawPointer { is_mutable, type_ } => {
            proof { assert(decreases_to!(*t => (*t)->RawPointer_type_)); }
            if *is_mutable {
                append_str(&mut out, "*mut ");
            } else {
                append_str(&mut out, "*const ");
            }
            append(&mut out, render_type(type_).as_slice());
        },
        SigType::BorrowedRef { lifetime, is_mutable, type_ } => {
            proof { assert(decreases_to!(*t => (*t)->BorrowedRef_type_)); }
            out.push('&');
            match lifetime {
                Some(l) => {
                    append_str(&mut out, l.as_str());
                    out.push(' ');
                },
                None => {},
            }
            if *is_mutable {
                append_str(&mut out, "mut ");
            }
            append(&mut out, render_type(type_).as_slice());
        },
        SigType::QualifiedPath { name, args, self_type, trait_ } => {
            proof {
                assert(decreases_to!(*t => (*t)->QualifiedPath_self_type));
                assert(decreases_to!(*t => (*t)->QualifiedPath_trait_));
                assert(decreases_to!(*t => (*t)->QualifiedPath_args));
            }
            match trait_ {
                Some(tr) => {
                    proof { assert(decreases_to!((*t)->QualifiedPath_trait_ => (*t)->QualifiedPath_trait_->Some_0)); }
                    out.push('<');
                    append(&mut out, render_type(self_type).as_slice());
                    append_str(&mut out, " as ");
                    append(&mut out, render_path(tr).as_slice());
                    append_str(&mut out, ">::");
                    append_str(&mut out, name.as_str());
                },
                None => {
                    append(&mut out, render_type(self_type).as_slice());
                    append_str(&mut out, "::");
                    append_str(&mut out, name.as_str());
                },
            }
            match args {
                Some(a) => {
                    proof { assert(decreases_to!((*t)->QualifiedPath_args => (*t)->QualifiedPath_args->Some_0)); }
                    append(&mut out, render_args(a).as_slice());
                },
                None => {},
            }
        },
    }
    assert(out@ =~= type_str(*t));
    out
}

/// Renders each type.
pub fn render_types(v: &Vec<SigType>) -> (r: Vec<Vec<char>>)
    ensures
        part_views(r@) == types_str(v@),
    decreases v,
{
    let mut out: Vec<Vec<char>> = Vec::new();
    let mut i: usize = 0;
    while i < v.len()
        invariant
            i <= v@.len(),
            part_views(out@) == types_str(v@.subrange(0, i as int)),
        decreases v.len() - i,
    {
        proof {
            assert(decreases_to!(*v => v@));
            assert(decreases_to!(v@ => v@[i as int]));
        }
        let x = render_type(&v[i]);
        let ghost before = part_views(out@);
        out.push(x);
        assert(v@.subrange(0, i + 1).subrange(0, i as int) =~= v@.subrange(0, i as int));
        assert(part_views(out@) =~= before.push(type_str(v@[i as int])));
        i = i + 1;
    }
    assert(v@.subrange(0, v@.len() as int) =~= v@);
    out
}

/// Renders a path with its generic arguments.
pub fn render_path(p: &SigPath) -> (r: Vec<char>)
    ensures
        r@ == path_str(*p),
    decreases p,
{
    let mut out = chars_of(p.path.as_str());
    match &p.args {
        Some(a) => {
            proof {
                assert(decreases_to!(*p => (*p).args));
                assert(decreases_to!((*p).args => (*p).args->Some_0));
            }
            append(&mut out, render_args(a).as_slice());
        },
        None => {},
    }
    assert(out@ =~= path_str(*p));
    out
}

/// Renders generic arguments.
pub fn render_args(a: &SigArgs) -> (r: Vec<char>)
    ensures
        r@ == args_str(*a),
    decreases a,
{
    let mut out: Vec<char> = Vec::new();
    match a {
        SigArgs::AngleBracketed { args, constraints } => {
            if args.len() == 0 && constraints.len() == 0 {
            } else {
                proof {
                    assert(decreases_to!(*a => (*a)->AngleBracketed_args));
                    assert(decreases_to!(*a => (*a)->AngleBracketed_constraints));
                }
                let mut parts = render_arg_list(args);
                let cs = render_constraints(constraints);
                let ghost pa = part_views(parts@);
                let ghost pc = part_views(cs@);
                let mut k: usize = 0;
                while k < cs.len()
                    invariant
                        k <= cs@.len(),
                        pc == part_views(cs@),
                        part_views(parts@) == pa + pc.take(k as int),
                    decreases cs.len() - k,
                {
                    let ghost before = part_views(parts@);
                    parts.push(crate::text::copy_chars(cs[k].as_slice()));
                    assert(part_views(parts@) =~= before.push(pc[k as int]));
                    assert(pc.take(k + 1) =~= pc.take(k as int).push(pc[k as int]));
                    k = k + 1;
                }
                assert(pc.take(k as int) =~= pc);
                out.push('<');
                append(&mut out, join_parts(&parts, ", ").as_slice());
                out.push('>');
            }
        },
        SigArgs::Parenthesized { inputs, output } => {
            proof {
                assert(decreases_to!(*a => (*a)->Parenthesized_inputs));
                assert(decreases_to!(*a => (*a)->Parenthesized_output));
            }
            let parts = render_types(inputs);
            out.push('(');
            append(&mut out, join_parts(&parts, ", ").as_slice());
            out.push(')');
            match output {
                Some(o) => {
                    proof { assert(decreases_to!((*a)->Parenthesized_output => (*a)->Parenthesized_output->Some_0)); }
                    append_str(&mut out, " -> ");
                    append(&mut out, render_type(o).as_slice());
                },
                None => {},
            }
        },
        SigArgs::ReturnTypeNotation => {
            append_str(&mut out, "(..)");
        },
    }
    assert(out@ =~= args_str(*a));
    out
}

/// Renders a generic argument.
pub fn render_arg(a: &SigArg) -> (r: Vec<char>)
    ensures
        r@ == arg_str(*a),
    decreases a,
{
    match a {
        SigArg::Lifetime(l) => chars_of(l.as_str()),
        SigArg::Type(t) => {
            proof { assert(decreases_to!(*a => (*a)->Type_0)); }
            render_type(t)
        },
        SigArg::Const(e) => chars_of(e.as_str()),
        SigArg::Infer => chars_of("_"),
    }
}

/// Renders each generic argument.
pub fn render_arg_list(v: &Vec<SigArg>) -> (r: Vec<Vec<char>>)
    ensures
        part_views(r@) == arg_strs(v@),
    decreases v,
{
    let mut out: Vec<Vec<char>> = Vec::new();
    let mut i: usize = 0;
    while i < v.len()
        invariant
            i <= v@.len(),
            part_views(out@) == arg_strs(v@.subrange(0, i as int)),
        decreases v.len() - i,
    {
        proof {
            assert(decreases_to!(*v => v@));
            assert(decreases_to!(v@ => v@[i as int]));
        }
        let x = render_arg(&v[i]);
        let ghost before = part_views(out@);
        out.push(x);
        assert(v@.subrange(0, i + 1).subrange(0, i as int) =~= v@.subrange(0, i as int));
        assert(part_views(out@) =~= before.push(arg_str(v@[i as int])));
        i = i + 1;
    }
    assert(v@.subrange(0, v@.len() as int) =~= v@);
    out
}

/// Renders an associated item constraint.
pub fn render_constraint(c: &SigConstraint) -> (r: Vec<char>)
    ensures
        r@ == constraint_str(*c),
    decreases c,
{
    let mut out = chars_of(c.name.as_str());
    match &c.args {
        Some(a) => {
            proof {
                assert(decreases_to!(*c => (*c).args));
                assert(decreases_to!((*c).args => (*c).args->Some_0));
            }
            append(&mut out, render_args(a).as_slice());
        },
        None => {},
    }
    proof { assert(decreases_to!(*c => (*c).binding)); }
    match &c.binding {
        SigBinding::Equality(term) => {
            proof { assert(decreases_to!((*c).binding => (*c).binding->Equality_0)); }
            append_str(&mut out, " = ");
            append(&mut out, render_term(term).as_slice());
        },
        SigBinding::Constraint(bs) => {
            proof { assert(decreases_to!((*c).binding => (*c).binding->Constraint_0)); }
            let parts = render_bounds(bs);
            append_str(&mut out, ": ");
            append(&mut out, join_parts(&parts, " + ").as_slice());
        },
    }
    assert(out@ =~= constraint_str(*c));
    out
}

/// Renders each associated item constraint.
pub fn render_constraints(v: &Vec<SigConstraint>) -> (r: Vec<Vec<char>>)
    ensures
        part_views(r@) == constraints_str(v@),
    decreases v,
{
    let mut out: Vec<Vec<char>> = Vec::new();
    let mut i: usize = 0;
    while i < v.len()
        invariant
            i <= v@.len(),
            part_views(out@) == constraints_str(v@.subrange(0, i as int)),
        decreases v.len() - i,
    {
        proof {
            assert(decreases_to!(*v => v@));
            assert(decreases_to!(v@ => v@[i as int]));
        }
        let x = render_constraint(&v[i]);
        let ghost before = part_views(out@);
        out.push(x);
        assert(v@.subrange(0, i + 1).subrange(0, i as int) =~= v@.subrange(0, i as int));
        assert(part_views(out@) =~= before.push(constraint_str(v@[i as int])));
        i = i + 1;
    }
    assert(v@.subrange(0, v@.len() as int) =~= v@);
    out
}

/// Renders a term.
pub fn render_term(t: &SigTerm) -> (r: Vec<char>)
    ensures
        r@ == term_str(*t),
    decreases t,
{
    match t {
        SigTerm::Type(ty) => {
            proof { assert(decreases_to!(*t => (*t)->Type_0)); }
            render_type(ty)
        },
        SigTerm::Constant(e) => chars_of(e.as_str()),
    }
}

/// Renders a generic bound.
pub fn render_bound(b: &SigBound) -> (r: Vec<char>)
    ensures
        r@ == bound_str(*b),
    decreases b,
{
    let mut out: Vec<char> = Vec::new();
    match b {
        SigBound::TraitBound { trait_, generic_params, modifier } => {
            proof {
                assert(decreases_to!(*b => (*b)->TraitBound_trait_));
                assert(decreases_to!(*b => (*b)->TraitBound_generic_params));
            }
            let ps = render_params(generic_params);
            push_for_prefix(&mut out, &ps);
            match modifier {
                SigModifier::Maybe => append_str(&mut out, "?"),
                SigModifier::MaybeConst => append_str(&mut out, "~const "),
                SigModifier::Plain => {},
            }
            append(&mut out, render_path(trait_).as_slice());
        },
        SigBound::Outlives(l) => {
            out = chars_of(l.as_str());
        },
        SigBound::Use(parts) => {
            let ps = str_parts(parts);
            append_str(&mut out, "use<");
            append(&mut out, join_parts(&ps, ", ").as_slice());
            out.push('>');
        },
    }
    assert(out@ =~= bound_str(*b));
    out
}

/// Renders each generic bound.
pub fn render_bounds(v: &Vec<SigBound>) -> (r: Vec<Vec<char>>)
    ensures
        part_views(r@) == bounds_str(v@),
    decreases v,
{
    let mut out: Vec<Vec<char>> = Vec::new();
    let mut i: usize = 0;
    while i < v.len()
        invariant
            i <= v@.len(),
            part_views(out@) == bounds_str(v@.subrange(0, i as int)),
        decreases v.len() - i,
    {
        proof {
            assert(decreases_to!(*v => v@));
            assert(decreases_to!(v@ => v@[i as int]));
        }
        let x = render_bound(&v[i]);
        let ghost before = part_views(out@);
        out.push(x);
        assert(v@.subrange(0, i + 1).subrange(0, i as int) =~= v@.subrange(0, i as int));
        assert(part_views(out@) =~= before.push(bound_str(v@[i as int])));
        i = i + 1;
    }
    assert(v@.subrange(0, v@.len() as int) =~= v@);
    out
}

/// Renders a generic parameter definition.
pub fn render_param(p: &SigParam) -> (r: Vec<char>)
    ensures
        r@ == param_str(*p),
    decreases p,
{
    let mut out: Vec<char> = Vec::new();
    proof { assert(decreases_to!(*p => (*p).kind)); }
    match &p.kind {
        SigParamKind::Lifetime { outlives } => {
            out = chars_of(p.name.as_str());
            if outlives.len() > 0 {
                let ps = str_parts(outlives);
                append_str(&mut out, ": ");
                append(&mut out, join_parts(&ps, " + ").as_slice());
            }
        },
        SigParamKind::Type { bounds, default, .. } => {
            proof {
                assert(decreases_to!((*p).kind => (*p).kind->Type_bounds));
                assert(decreases_to!((*p).kind => (*p).kind->Type_default));
            }
            out = chars_of(p.name.as_str());
            if bounds.len() > 0 {
                let ps = render_bounds(bounds);
                append_str(&mut out, ": ");
                append(&mut out, join_parts(&ps, " + ").as_slice());
            }
            match default {
                Some(d) => {
                    proof { assert(decreases_to!((*p).kind->Type_default => (*p).kind->Type_default->Some_0)); }
                    append_str(&mut out, " = ");
                    append(&mut out, render_type(d).as_slice());
                },
                None => {},
            }
        },
        SigParamKind::Const { type_, default } => {
            proof { assert(decreases_to!((*p).kind => (*p).kind->Const_type_)); }
            append_str(&mut out, "const ");
            append_str(&mut out, p.name.as_str());
            append_str(&mut out, ": ");
            append(&mut out, render_type(type_).as_slice());
            match default {
                Some(d) => {
                    append_str(&mut out, " = ");
                    append_str(&mut out, d.as_str());
                },
                None => {},
            }
        },
    }
    assert(out@ =~= param_str(*p));
    out
}

/// Renders each generic parameter definition.
pub fn render_params(v: &Vec<SigParam>) -> (r: Vec<Vec<char>>)
    ensures
        part_views(r@) == params_str(v@),
    decreases v,
{
    let mut out: Vec<Vec<char>> = Vec::new();
    let mut i: usize = 0;
    while i < v.len()
        invariant
            i <= v@.len(),
            part_views(out@) == params_str(v@.subrange(0, i as int)),
        decreases v.len() - i,
    {
        proof {
            assert(decreases_to!(*v => v@));
            assert(decreases_to!(v@ => v@[i as int]));
        }
        let x = render_param(&v[i]);
        let ghost before = part_views(out@);
        out.push(x);
        assert(v@.subrange(0, i + 1).subrange(0, i as int) =~= v@.subrange(0, i as int));
        assert(part_views(out@) =~= before.push(param_str(v@[i as int])));
        i = i + 1;
    }
    assert(v@.subrange(0, v@.len() as int) =~= v@);
    out
}

/// Renders a possibly higher-ranked trait.
pub fn render_poly(pt: &SigPolyTrait) -> (r: Vec<char>)
    ensures
        r@ == poly_str(*pt),
    decreases pt,
{
    proof {
        assert(decreases_to!(*pt => (*pt).generic_params));
        assert(decreases_to!(*pt => (*pt).trait_));
    }
    let mut out: Vec<char> = Vec::new();
    let ps = render_params(&pt.generic_params);
    push_for_prefix(&mut out, &ps);
    append(&mut out, render_path(&pt.trait_).as_slice());
    assert(out@ =~= poly_str(*pt));
    out
}

/// Renders each possibly higher-ranked trait.
pub fn render_polys(v: &Vec<SigPolyTrait>) -> (r: Vec<Vec<char>>)
    ensures
        part_views(r@) == polys_str(v@),
    decreases v,
{
    let mut out: Vec<Vec<char>> = Vec::new();
    let mut i: usize = 0;
    while i < v.len()
        invariant
            i <= v@.len(),
            part_views(out@) == polys_str(v@.subrange(0, i as int)),
        decreases v.len() - i,
    {
        proof {
            assert(decreases_to!(*v => v@));
            assert(decreases_to!(v@ => v@[i as int]));
        }
        let x = render_poly(&v[i]);
        let ghost before = part_views(out@);
        out.push(x);
        assert(v@.subrange(0, i + 1).subrange(0, i as int) =~= v@.subrange(0, i as int));
        assert(part_views(out@) =~= before.push(poly_str(v@[i as int])));
        i = i + 1;
    }
    assert(v@.subrange(0, v@.len() as int) =~= v@);
    out
}

/// Renders a trait object type.
pub fn render_dyn(d: &SigDyn) -> (r: Vec<char>)
    ensures
        r@ == dyn_str(*d),
    decreases d,
{
    proof { assert(decreases_to!(*d => (*d).traits)); }
    let mut parts = render_polys(&d.traits);
    let ghost pv = part_views(parts@);
    match &d.lifetime {
        Some(l) => {
            parts.push(chars_of(l.as_str()));
            assert(part_views(parts@) =~= pv + seq![l@]);
        },
        None => {
            assert(part_views(parts@) =~= pv + Seq::<Seq<char>>::empty());
        },
    }
    let mut out = chars_of("dyn ");
    append(&mut out, join_parts(&parts, " + ").as_slice());
    out
}

/// Renders function qualifiers.
pub fn render_qualifiers(h: &SigHeader) -> (r: Vec<char>)
    ensures
        r@ == qualifiers_str(*h),
{
    let mut out: Vec<char> = Vec::new();
    if h.is_const {
        append_str(&mut out, "const ");
    }
    if h.is_async {
        append_str(&mut out, "async ");
    }
    if h.is_unsafe {
        append_str(&mut out, "unsafe ");
    }
    let ghost q = out@;
    let name: Option<&str> = match &h.abi {
        SigAbi::Rust => None,
        SigAbi::C { unwind } => Some(if *unwind { "C-unwind" } else { "C" }),
        SigAbi::Cdecl { unwind } => Some(if *unwind { "cdecl-unwind" } else { "cdecl" }),
        SigAbi::Stdcall { unwind } => Some(if *unwind { "stdcall-unwind" } else { "stdcall" }),
        SigAbi::Fastcall { unwind } => Some(if *unwind { "fastcall-unwind" } else { "fastcall" }),
        SigAbi::Aapcs { unwind } => Some(if *unwind { "aapcs-unwind" } else { "aapcs" }),
        SigAbi::Win64 { unwind } => Some(if *unwind { "win64-unwind" } else { "win64" }),
        SigAbi::SysV64 { unwind } => Some(if *unwind { "sysv64-unwind" } else { "sysv64" }),
        SigAbi::System { unwind } => Some(if *unwind { "system-unwind" } else { "system" }),
        SigAbi::Other(s) => Some(s.as_str()),
    };
    match name {
        Some(n) => {
            append_str(&mut out, "extern \"");
            append_str(&mut out, n);
            append_str(&mut out, "\" ");
        },
        None => {},
    }
    assert(out@ =~= qualifiers_str(*h));
    out
}

fn push_return(out: &mut Vec<char>, r: &Vec<char>)
    ensures
        final(out)@ == old(out)@ + return_str(r@),
{
    let ghost before = out@;
    let unit = chars_of("()");
    if !chars_eq(r.as_slice(), unit.as_slice()) {
        append_str(out, " -> ");
        append(out, r.as_slice());
    }
    assert(out@ =~= before + return_str(r@));
}

/// Renders a function pointer type.
pub fn render_fnptr(f: &SigFnPointer) -> (r: Vec<char>)
    ensures
        r@ == fnptr_str(*f),
    decreases f,
{
    proof {
        assert(decreases_to!(*f => (*f).generic_params));
        assert(decreases_to!(*f => (*f).inputs));
        assert(decreases_to!(*f => (*f).output));
    }
    let mut out: Vec<char> = Vec::new();
    let ps = render_params(&f.generic_params);
    push_for_prefix(&mut out, &ps);
    append(&mut out, render_qualifiers(&f.header).as_slice());
    append_str(&mut out, "fn(");
    let parts = render_types(&f.inputs);
    append(&mut out, join_parts(&parts, ", ").as_slice());
    if f.is_c_variadic {
        if f.inputs.len() > 0 {
            append_str(&mut out, ", ");
        }
        append_str(&mut out, "...");
    }
    out.push(')');
    match &f.output {
        Some(o) => {
            proof { assert(decreases_to!((*f).output => (*f).output->Some_0)); }
            let r = render_type(o);
            push_return(&mut out, &r);
        },
        None => {},
    }
    assert(out@ =~= fnptr_str(*f));
    out
}

// ---------------------------------------------------------------------------
// Generics and where clauses
// ---------------------------------------------------------------------------

/// A where-clause predicate.
pub enum SigWhere {
    /// `for<..> T: Bounds`.
    BoundPredicate {
        /// The bounded type.
        type_: SigType,
        /// Its bounds.
        bounds: Vec<SigBound>,
        /// Its `for<..>` parameters.
        generic_params: Vec<SigParam>,
    },
    /// `'a: 'b + 'c`.
    LifetimePredicate {
        /// The lifetime.
        lifetime: String,
        /// The lifetimes it outlives.
        outlives: Vec<String>,
    },
    /// `T = U`.
    EqPredicate {
        /// The left side.
        lhs: SigType,
        /// The right side.
        rhs: SigTerm,
    },
}

/// Generic parameters and where predicates of an item.
pub struct SigGenerics {
    /// The parameters.
    pub params: Vec<SigParam>,
    /// The where predicates.
    pub where_predicates: Vec<SigWhere>,
}

/// Whether a parameter was made up by the compiler for an `impl Trait`
/// argument.
pub open spec fn is_synthetic(p: SigParam) -> bool {
    p.kind matches SigParamKind::Type { is_synthetic, .. } && is_synthetic
}

/// The parameters written in the source (synthetic ones dropped).
pub open spec fn written_params(v: Seq<SigParam>) -> Seq<SigParam>
    decreases v.len(),
{
    if v.len() == 0 {
        seq![]
    } else {
        let prev = written_params(v.drop_last());
        if is_synthetic(v.last()) {
            prev
        } else {
            prev.push(v.last())
        }
    }
}

/// The `<..>` part of an item: its written parameters, if any.
pub open spec fn generics_inline_str(g: SigGenerics) -> Seq<char> {
    let ps = params_str(written_params(g.params@));
    if ps.len() == 0 {
        seq![]
    } else {
        seq!['<'] + join(ps, comma()) + seq!['>']
    }
}

/// The text of a where predicate.
pub open spec fn pred_str(p: SigWhere) -> Seq<char> {
    match p {
        SigWhere::BoundPredicate { type_, bounds, generic_params } => for_prefix(
            params_str(generic_params@),
        ) + type_str(type_) + ": "@ + join(bounds_str(bounds@), plus()),
        SigWhere::LifetimePredicate { lifetime, outlives } => lifetime@ + if outlives@.len() == 0 {
            seq![]
        } else {
            ": "@ + join(strs(outlives@), plus())
        },
        SigWhere::EqPredicate { lhs, rhs } => type_str(lhs) + " = "@ + term_str(rhs),
    }
}

/// The texts of where predicates.
pub open spec fn preds_str(v: Seq<SigWhere>) -> Seq<Seq<char>>
    decreases v.len(),
{
    if v.len() == 0 {
        seq![]
    } else {
        preds_str(v.drop_last()).push(pred_str(v.last()))
    }
}

/// The ` where ..` clause of an item, if it has predicates.
pub open spec fn where_str(g: SigGenerics) -> Seq<char> {
    if g.where_predicates@.len() == 0 {
        seq![]
    } else {
        " where "@ + join(preds_str(g.where_predicates@), comma())
    }
}

fn push_generics_inline(out: &mut Vec<char>, g: &SigGenerics)
    ensures
        final(out)@ == old(out)@ + generics_inline_str(*g),
{
    let ghost before = out@;
    let mut written: Vec<Vec<char>> = Vec::new();
    let ghost v = g.params@;
    let mut i: usize = 0;
    while i < g.params.len()
        invariant
            i <= v.len(),
            v == g.params@,
            part_views(written@) == params_str(written_params(v.take(i as int))),
        decreases g.params.len() - i,
    {
        assert(v.take(i + 1).drop_last() =~= v.take(i as int));
        assert(v.take(i + 1).last() == v[i as int]);
        let p = &g.params[i];
        let synthetic = match &p.kind {
            SigParamKind::Type { is_synthetic, .. } => *is_synthetic,
            _ => false,
        };
        if !synthetic {
            let ghost before_w = part_views(written@);
            let x = render_param(p);
            written.push(x);
            let ghost wp = written_params(v.take(i as int));
            assert(written_params(v.take(i + 1)) == wp.push(v[i as int]));
            assert(wp.push(v[i as int]).subrange(0, wp.len() as int) =~= wp);
            assert(part_views(written@) =~= before_w.push(param_str(v[i as int])));
        }
        i = i + 1;
    }
    assert(v.take(i as int) =~= v);
    if written.len() > 0 {
        out.push('<');
        append(out, join_parts(&written, ", ").as_slice());
        out.push('>');
    }
    assert(out@ =~= before + generics_inline_str(*g));
}

fn render_pred(p: &SigWhere) -> (r: Vec<char>)
    ensures
        r@ == pred_str(*p),
{
    let mut out: Vec<char> = Vec::new();
    match p {
        SigWhere::BoundPredicate { type_, bounds, generic_params } => {
            let ps = render_params(generic_params);
            push_for_prefix(&mut out, &ps);
            append(&mut out, render_type(type_).as_slice());
            append_str(&mut out, ": ");
            let bs = render_bounds(bounds);
            append(&mut out, join_parts(&bs, " + ").as_slice());
        },
        SigWhere::LifetimePredicate { lifetime, outlives } => {
            out = chars_of(lifetime.as_str());
            if outlives.len() > 0 {
                let os = str_parts(outlives);
                append_str(&mut out, ": ");
                append(&mut out, join_parts(&os, " + ").as_slice());
            }
        },
        SigWhere::EqPredicate { lhs, rhs } => {
            out = render_type(lhs);
            append_str(&mut out, " = ");
            append(&mut out, render_term(rhs).as_slice());
        },
    }
    assert(out@ =~= pred_str(*p));
    out
}

fn push_where(out: &mut Vec<char>, g: &SigGenerics)
    ensures
        final(out)@ == old(out)@ + where_str(*g),
{
    let ghost before = out@;
    if g.where_predicates.len() > 0 {
        let ghost v = g.where_predicates@;
        let mut parts: Vec<Vec<char>> = Vec::new();
        let mut i: usize = 0;
        while i < g.where_predicates.len()
            invariant
                i <= v.len(),
                v == g.where_predicates@,
                part_views(parts@) == preds_str(v.take(i as int)),
            decreases g.where_predicates.len() - i,
        {
            assert(v.take(i + 1).drop_last() =~= v.take(i as int));
            let ghost before_p = part_views(parts@);
            parts.push(render_pred(&g.where_predicates[i]));
            assert(part_views(parts@) =~= before_p.push(pred_str(v[i as int])));
            i = i + 1;
        }
        assert(v.take(i as int) =~= v);
        append_str(out, " where ");
        append(out, join_parts(&parts, ", ").as_slice());
    }
    assert(out@ =~= before + where_str(*g));
}

// ---------------------------------------------------------------------------
// Items
// ---------------------------------------------------------------------------

/// A field an item refers to, as found in the crate.
pub struct SigField {
    /// The field's name (tuple fields have none).
    pub name: Option<String>,
    /// Whether the field is public.
    pub is_public: bool,
    /// The field's type; `None` when the item found is not a field.
    pub type_: Option<SigType>,
}

/// The shape of a struct.
pub enum SigStructShape {
    /// `struct S;`
    Unit,
    /// `struct S(A, B);` with one entry per field (`None` where the field is
    /// not in the crate).
    Tuple(Vec<Option<SigField>>),
    /// `struct S { .. }` with the fields found in the crate.
    Plain {
        /// The fields.
        fields: Vec<SigField>,
        /// Whether some fields were left out of the documentation.
        has_stripped_fields: bool,
    },
}

/// The shape of an enum variant.
pub enum SigVariantShape {
    /// `V`.
    Plain,
    /// `V(A, B)` with one entry per field (`None` where the field is not in
    /// the crate).
    Tuple(Vec<Option<SigField>>),
    /// `V { a: A }` with the fields found in the crate.
    Struct(Vec<SigField>),
}

/// The kind of a procedural macro.
#[derive(Debug, Clone, Copy, PartialEq, Eq, Structural)]
pub enum SigMacroKind {
    /// `#[proc_macro]`.
    Bang,
    /// `#[proc_macro_attribute]`.
    Attr,
    /// `#[proc_macro_derive]`.
    Derive,
}

/// What a signature is rendered from, for each kind of item.
pub enum SigItem {
    /// A struct.
    Struct { generics: SigGenerics, shape: SigStructShape },
    /// An enum.
    Enum { generics: SigGenerics },
    /// A union with the fields found in the crate.
    Union { generics: SigGenerics, fields: Vec<SigField> },
    /// A trait.
    Trait { is_unsafe: bool, is_auto: bool, generics: SigGenerics, bounds: Vec<SigBound> },
    /// A trait alias.
    TraitAlias { generics: SigGenerics, params: Vec<SigBound> },
    /// A function or method.
    Function {
        /// Its qualifiers.
        header: SigHeader,
        /// Its generics.
        generics: SigGenerics,
        /// Its parameters: names and types.
        inputs: Vec<(String, SigType)>,
        /// Whether it ends in `...`.
        is_c_variadic: bool,
        /// Its return type.
        output: Option<SigType>,
    },
    /// A type alias.
    TypeAlias { generics: SigGenerics, type_: SigType },
    /// A constant.
    Constant { type_: SigType },
    /// An associated constant.
    AssocConst { type_: SigType },
    /// A static.
    Static { is_mutable: bool, type_: SigType },
    /// A declarative macro.
    Macro,
    /// A procedural macro.
    ProcMacro(SigMacroKind),
    /// A module.
    Module,
    /// An enum variant.
    Variant(SigVariantShape),
    /// A struct field.
    StructField(SigType),
    /// An associated type.
    AssocType { generics: SigGenerics, bounds: Vec<SigBound>, type_: Option<SigType> },
    /// A primitive type.
    Primitive,
    /// An item without a signature (impl blocks, `use` items, extern crates
    /// and extern types).
    Unrenderable,
}

/// `pub ` for public items, nothing otherwise.
pub open spec fn vis_str(is_public: bool) -> Seq<char> {
    if is_public { "pub "@ } else { seq![] }
}

/// A field's name, or `_`.
pub open spec fn field_name(f: SigField) -> Seq<char> {
    match f.name {
        Some(n) => n@,
        None => "_"@,
    }
}

/// A tuple field: its visibility and type (with `pub` where `vis`), or `_`
/// where it is missing or not a field.
pub open spec fn tuple_field_str(f: Option<SigField>, vis: bool) -> Seq<char> {
    match f {
        Some(x) => match x.type_ {
            Some(t) => (if vis { vis_str(x.is_public) } else { seq![] }) + type_str(t),
            None => "_"@,
        },
        None => "_"@,
    }
}

/// The tuple fields.
pub open spec fn tuple_fields_str(v: Seq<Option<SigField>>, vis: bool) -> Seq<Seq<char>>
    decreases v.len(),
{
    if v.len() == 0 {
        seq![]
    } else {
        tuple_fields_str(v.drop_last(), vis).push(tuple_field_str(v.last(), vis))
    }
}

/// Which named fields are shown: `0` the public ones as `pub name: T`,
/// `1` all with their visibility, `2` all as `name: T`; fields that are not
/// fields are left out.
pub open spec fn named_fields_str(v: Seq<SigField>, mode: u8) -> Seq<Seq<char>>
    decreases v.len(),
{
    if v.len() == 0 {
        seq![]
    } else {
        let prev = named_fields_str(v.drop_last(), mode);
        let f = v.last();
        match f.type_ {
            Some(t) => if mode == 0 && !f.is_public {
                prev
            } else {
                prev.push(
                    (if mode == 0 {
                        "pub "@
                    } else if mode == 1 {
                        vis_str(f.is_public)
                    } else {
                        seq![]
                    }) + field_name(f) + ": "@ + type_str(t),
                )
            },
            None => prev,
        }
    }
}

/// A function parameter; `self` is written in its short forms (`self`,
/// `&self`, `&'a mut self`) where its type allows.
pub open spec fn fn_param_str(name: Seq<char>, t: SigType) -> Seq<char> {
    if name == "self"@ {
        match t {
            SigType::BorrowedRef { lifetime, is_mutable, type_ } => if *type_ matches SigType::Generic(
                n,
            ) && n@ == "Self"@ {
                seq!['&'] + (match lifetime {
                    Some(l) => l@ + seq![' '],
                    None => seq![],
                }) + (if is_mutable {
                    "mut "@
                } else {
                    seq![]
                }) + "self"@
            } else {
                "self: "@ + type_str(t)
            },
            SigType::Generic(n) => if n@ == "Self"@ {
                "self"@
            } else {
                "self: "@ + type_str(t)
            },
            _ => "self: "@ + type_str(t),
        }
    } else {
        name + ": "@ + type_str(t)
    }
}

/// The function parameters.
pub open spec fn fn_params_str(v: Seq<(String, SigType)>) -> Seq<Seq<char>>
    decreases v.len(),
{
    if v.len() == 0 {
        seq![]
    } else {
        fn_params_str(v.drop_last()).push(fn_param_str(v.last().0@, v.last().1))
    }
}

/// The signature of a struct.
pub open spec fn struct_sig(vis: Seq<char>, name: Seq<char>, generics: SigGenerics, shape: SigStructShape) -> Seq<char> {
    vis + "struct "@ + name + generics_inline_str(generics) + (match shape {
        SigStructShape::Unit => seq![],
        SigStructShape::Tuple(fs) => seq!['('] + join(tuple_fields_str(fs@, true), comma()) + seq![')'],
        SigStructShape::Plain { fields, has_stripped_fields } => {
            let shown = named_fields_str(fields@, 0);
            if shown.len() == 0 {
                seq![]
            } else {
                " { "@ + join(shown, comma()) + (if has_stripped_fields {
                    ", /* private fields */"@
                } else {
                    seq![]
                }) + " }"@
            }
        },
    }) + where_str(generics)
}

/// The signature of a union.
pub open spec fn union_sig(vis: Seq<char>, name: Seq<char>, generics: SigGenerics, fields: Seq<SigField>) -> Seq<char> {
    let shown = named_fields_str(fields, 1);
    vis + "union "@ + name + generics_inline_str(generics) + (if shown.len() == 0 {
        seq![]
    } else {
        " { "@ + join(shown, comma()) + " }"@
    }) + where_str(generics)
}

/// `lead` and the bounds joined by ` + `, or nothing without bounds.
pub open spec fn bounds_tail(lead: Seq<char>, bounds: Seq<SigBound>) -> Seq<char> {
    if bounds.len() == 0 {
        seq![]
    } else {
        lead + join(bounds_str(bounds), plus())
    }
}

/// The signature of a trait.
pub open spec fn trait_sig(vis: Seq<char>, name: Seq<char>, is_unsafe: bool, is_auto: bool, generics: SigGenerics, bounds: Seq<SigBound>) -> Seq<char> {
    vis + (if is_unsafe { "unsafe "@ } else { seq![] }) + (if is_auto { "auto "@ } else { seq![] })
        + "trait "@ + name + generics_inline_str(generics) + bounds_tail(": "@, bounds) + where_str(generics)
}

/// The signature of a function.
pub open spec fn fn_sig(
    vis: Seq<char>,
    name: Seq<char>,
    header: SigHeader,
    generics: SigGenerics,
    inputs: Seq<(String, SigType)>,
    is_c_variadic: bool,
    output: Option<SigType>,
) -> Seq<char> {
    vis + qualifiers_str(header) + "fn "@ + name + generics_inline_str(generics) + seq!['(']
        + join(fn_params_str(inputs), comma()) + (if is_c_variadic {
        (if inputs.len() > 0 { comma() } else { seq![] }) + "..."@
    } else {
        seq![]
    }) + seq![')'] + (match output {
        Some(o) => return_str(type_str(o)),
        None => seq![],
    }) + where_str(generics)
}

/// The signature of an enum variant.
pub open spec fn variant_sig(name: Seq<char>, shape: SigVariantShape) -> Seq<char> {
    match shape {
        SigVariantShape::Plain => name,
        SigVariantShape::Tuple(fs) => name + seq!['('] + join(tuple_fields_str(fs@, false), comma()) + seq![')'],
        SigVariantShape::Struct(fs) => name + " { "@ + join(named_fields_str(fs@, 2), comma()) + " }"@,
    }
}

/// The signature of an associated type.
pub open spec fn assoc_type_sig(name: Seq<char>, generics: SigGenerics, bounds: Seq<SigBound>, type_: Option<SigType>) -> Seq<char> {
    "type "@ + name + generics_inline_str(generics) + bounds_tail(": "@, bounds) + (match type_ {
        Some(t) => " = "@ + type_str(t),
        None => seq![],
    }) + where_str(generics)
}

/// The attribute of a procedural macro.
pub open spec fn proc_macro_attr(k: SigMacroKind) -> Seq<char> {
    match k {
        SigMacroKind::Bang => "#[proc_macro]"@,
        SigMacroKind::Attr => "#[proc_macro_attribute]"@,
        SigMacroKind::Derive => "#[proc_macro_derive]"@,
    }
}

/// The signature of an item named `name`, or nothing for items without one.
pub open spec fn spec_render_signature(is_public: bool, name: Seq<char>, item: SigItem) -> Option<
    Seq<char>,
> {
    let vis = vis_str(is_public);
    match item {
        SigItem::Struct { generics, shape } => Some(struct_sig(vis, name, generics, shape)),
        SigItem::Enum { generics } => Some(
            vis + "enum "@ + name + generics_inline_str(generics) + where_str(generics),
        ),
        SigItem::Union { generics, fields } => Some(union_sig(vis, name, generics, fields@)),
        SigItem::Trait { is_unsafe, is_auto, generics, bounds } => Some(
            trait_sig(vis, name, is_unsafe, is_auto, generics, bounds@),
        ),
        SigItem::TraitAlias { generics, params } => Some(
            vis + "trait "@ + name + generics_inline_str(generics) + bounds_tail(" = "@, params@)
                + where_str(generics),
        ),
        SigItem::Function { header, generics, inputs, is_c_variadic, output } => Some(
            fn_sig(vis, name, header, generics, inputs@, is_c_variadic, output),
        ),
        SigItem::TypeAlias { generics, type_ } => Some(
            vis + "type "@ + name + generics_inline_str(generics) + " = "@ + type_str(type_)
                + where_str(generics),
        ),
        SigItem::Constant { type_ } => Some(vis + "const "@ + name + ": "@ + type_str(type_)),
        SigItem::AssocConst { type_ } => Some("const "@ + name + ": "@ + type_str(type_)),
        SigItem::Static { is_mutable, type_ } => Some(
            vis + "static "@ + (if is_mutable { "mut "@ } else { seq![] }) + name + ": "@ + type_str(type_),
        ),
        SigItem::Macro => Some("macro_rules! "@ + name),
        SigItem::ProcMacro(k) => Some(proc_macro_attr(k) + seq![' '] + name),
        SigItem::Module => Some(vis + "mod "@ + name),
        SigItem::Variant(shape) => Some(variant_sig(name, shape)),
        SigItem::StructField(t) => Some(vis + name + ": "@ + type_str(t)),
        SigItem::AssocType { generics, bounds, type_ } => Some(assoc_type_sig(name, generics, bounds@, type_)),
        SigItem::Primitive => Some(vis + "primitive "@ + name),
        SigItem::Unrenderable => None,
    }
}

fn render_tuple_fields(v: &Vec<Option<SigField>>, vis: bool) -> (r: Vec<Vec<char>>)
    ensures
        part_views(r@) == tuple_fields_str(v@, vis),
{
    let mut out: Vec<Vec<char>> = Vec::new();
    let mut i: usize = 0;
    while i < v.len()
        invariant
            i <= v@.len(),
            part_views(out@) == tuple_fields_str(v@.take(i as int), vis),
        decreases v.len() - i,
    {
        assert(v@.take(i + 1).drop_last() =~= v@.take(i as int));
        let mut x: Vec<char> = Vec::new();
        match &v[i] {
            Some(f) => match &f.type_ {
                Some(t) => {
                    if vis && f.is_public {
                        append_str(&mut x, "pub ");
                    }
                    append(&mut x, render_type(t).as_slice());
                },
                None => append_str(&mut x, "_"),
            },
            None => append_str(&mut x, "_"),
        }
        assert(x@ =~= tuple_field_str(v@[i as int], vis));
        let ghost before = part_views(out@);
        out.push(x);
        assert(part_views(out@) =~= before.push(tuple_field_str(v@[i as int], vis)));
        i = i + 1;
    }
    assert(v@.take(i as int) =~= v@);
    out
}

fn render_named_fields(v: &Vec<SigField>, mode: u8) -> (r: Vec<Vec<char>>)
    ensures
        part_views(r@) == named_fields_str(v@, mode),
{
    let mut out: Vec<Vec<char>> = Vec::new();
    let mut i: usize = 0;
    while i < v.len()
        invariant
            i <= v@.len(),
            part_views(out@) == named_fields_str(v@.take(i as int), mode),
        decreases v.len() - i,
    {
        assert(v@.take(i + 1).drop_last() =~= v@.take(i as int));
        let f = &v[i];
        match &f.type_ {
            Some(t) => {
                if !(mode == 0 && !f.is_public) {
                    let mut x: Vec<char> = Vec::new();
                    if mode == 0 {
                        append_str(&mut x, "pub ");
                    } else if mode == 1 && f.is_public {
                        append_str(&mut x, "pub ");
                    }
                    match &f.name {
                        Some(n) => append_str(&mut x, n.as_str()),
                        None => append_str(&mut x, "_"),
                    }
                    append_str(&mut x, ": ");
                    append(&mut x, render_type(t).as_slice());
                    let ghost before = part_views(out@);
                    out.push(x);
                    assert(part_views(out@) =~= before.push(part_views(out@).last()));
                }
            },
            None => {},
        }
        i = i + 1;
    }
    assert(v@.take(i as int) =~= v@);
    out
}

fn render_fn_param(name: &str, t: &SigType) -> (r: Vec<char>)
    ensures
        r@ == fn_param_str(name@, *t),
{
    let mut out: Vec<char> = Vec::new();
    if chars_eq(chars_of(name).as_slice(), chars_of("self").as_slice()) {
        let self_ty = chars_of("Self");
        match t {
            SigType::BorrowedRef { lifetime, is_mutable, type_ } => {
                let inner_self = match &**type_ {
                    SigType::Generic(n) => chars_eq(chars_of(n.as_str()).as_slice(), self_ty.as_slice()),
                    _ => false,
                };
                if inner_self {
                    out.push('&');
                    match lifetime {
                        Some(l) => {
                            append_str(&mut out, l.as_str());
                            out.push(' ');
                        },
                        None => {},
                    }
                    if *is_mutable {
                        append_str(&mut out, "mut ");
                    }
                    append_str(&mut out, "self");
                } else {
                    append_str(&mut out, "self: ");
                    append(&mut out, render_type(t).as_slice());
                }
            },
            SigType::Generic(n) => {
                if chars_eq(chars_of(n.as_str()).as_slice(), self_ty.as_slice()) {
                    append_str(&mut out, "self");
                } else {
                    append_str(&mut out, "self: ");
                    append(&mut out, render_type(t).as_slice());
                }
            },
            _ => {
                append_str(&mut out, "self: ");
                append(&mut out, render_type(t).as_slice());
            },
        }
    } else {
        append_str(&mut out, name);
        append_str(&mut out, ": ");
        append(&mut out, render_type(t).as_slice());
    }
    assert(out@ =~= fn_param_str(name@, *t));
    out
}

fn render_fn_params(v: &Vec<(String, SigType)>) -> (r: Vec<Vec<char>>)
    ensures
        part_views(r@) == fn_params_str(v@),
{
    let mut out: Vec<Vec<char>> = Vec::new();
    let mut i: usize = 0;
    while i < v.len()
        invariant
            i <= v@.len(),
            part_views(out@) == fn_params_str(v@.take(i as int)),
        decreases v.len() - i,
    {
        assert(v@.take(i + 1).drop_last() =~= v@.take(i as int));
        let ghost before = part_views(out@);
        out.push(render_fn_param(v[i].0.as_str(), &v[i].1));
        assert(part_views(out@) =~= before.push(fn_param_str(v@[i as int].0@, v@[i as int].1)));
        i = i + 1;
    }
    assert(v@.take(i as int) =~= v@);
    out
}

fn push_joined_bounds(out: &mut Vec<char>, lead: &str, bounds: &Vec<SigBound>)
    ensures
        final(out)@ == old(out)@ + bounds_tail(lead@, bounds@),
{
    let ghost before = out@;
    if bounds.len() > 0 {
        append_str(out, lead);
        let bs = render_bounds(bounds);
        append(out, join_parts(&bs, " + ").as_slice());
    }
    assert(out@ =~= before + bounds_tail(lead@, bounds@));
}

fn render_struct_sig(vis: &Vec<char>, name: &str, generics: &SigGenerics, shape: &SigStructShape) -> (r: Vec<char>)
    ensures
        r@ == struct_sig(vis@, name@, *generics, *shape),
{
    let mut out = crate::text::copy_chars(vis.as_slice());
    append_str(&mut out, "struct ");
    append_str(&mut out, name);
    push_generics_inline(&mut out, generics);
    let ghost head = out@;
    match shape {
        SigStructShape::Unit => {},
        SigStructShape::Tuple(fs) => {
            let parts = render_tuple_fields(fs, true);
            out.push('(');
            append(&mut out, join_parts(&parts, ", ").as_slice());
            out.push(')');
        },
        SigStructShape::Plain { fields, has_stripped_fields } => {
            let parts = render_named_fields(fields, 0);
            if parts.len() > 0 {
                append_str(&mut out, " { ");
                append(&mut out, join_parts(&parts, ", ").as_slice());
                if *has_stripped_fields {
                    append_str(&mut out, ", /* private fields */");
                }
                append_str(&mut out, " }");
            }
        },
    }
    push_where(&mut out, generics);
    assert(out@ =~= struct_sig(vis@, name@, *generics, *shape));
    out
}

fn render_union_sig(vis: &Vec<char>, name: &str, generics: &SigGenerics, fields: &Vec<SigField>) -> (r: Vec<char>)
    ensures
        r@ == union_sig(vis@, name@, *generics, fields@),
{
    let mut out = crate::text::copy_chars(vis.as_slice());
    append_str(&mut out, "union ");
    append_str(&mut out, name);
    push_generics_inline(&mut out, generics);
    let parts = render_named_fields(fields, 1);
    if parts.len() > 0 {
        append_str(&mut out, " { ");
        append(&mut out, join_parts(&parts, ", ").as_slice());
        append_str(&mut out, " }");
    }
    push_where(&mut out, generics);
    assert(out@ =~= union_sig(vis@, name@, *generics, fields@));
    out
}

fn render_trait_sig(vis: &Vec<char>, name: &str, is_unsafe: bool, is_auto: bool, generics: &SigGenerics, bounds: &Vec<SigBound>) -> (r: Vec<char>)
    ensures
        r@ == trait_sig(vis@, name@, is_unsafe, is_auto, *generics, bounds@),
{
    let mut out = crate::text::copy_chars(vis.as_slice());
    if is_unsafe {
        append_str(&mut out, "unsafe ");
    }
    if is_auto {
        append_str(&mut out, "auto ");
    }
    append_str(&mut out, "trait ");
    append_str(&mut out, name);
    push_generics_inline(&mut out, generics);
    push_joined_bounds(&mut out, ": ", bounds);
    push_where(&mut out, generics);
    assert(out@ =~= trait_sig(vis@, name@, is_unsafe, is_auto, *generics, bounds@));
    out
}

fn render_fn_sig(
    vis: &Vec<char>,
    name: &str,
    header: &SigHeader,
    generics: &SigGenerics,
    inputs: &Vec<(String, SigType)>,
    is_c_variadic: bool,
    output: &Option<SigType>,
) -> (r: Vec<char>)
    ensures
        r@ == fn_sig(vis@, name@, *header, *generics, inputs@, is_c_variadic, *output),
{
    let mut out = crate::text::copy_chars(vis.as_slice());
    append(&mut out, render_qualifiers(header).as_slice());
    append_str(&mut out, "fn ");
    append_str(&mut out, name);
    push_generics_inline(&mut out, generics);
    out.push('(');
    let ps = render_fn_params(inputs);
    append(&mut out, join_parts(&ps, ", ").as_slice());
    if is_c_variadic {
        if inputs.len() > 0 {
            append_str(&mut out, ", ");
        }
        append_str(&mut out, "...");
    }
    out.push(')');
    match output {
        Some(o) => {
            let r = render_type(o);
            push_return(&mut out, &r);
        },
        None => {},
    }
    push_where(&mut out, generics);
    assert(out@ =~= fn_sig(vis@, name@, *header, *generics, inputs@, is_c_variadic, *output));
    out
}

fn render_variant_sig(name: &str, shape: &SigVariantShape) -> (r: Vec<char>)
    ensures
        r@ == variant_sig(name@, *shape),
{
    let mut out = chars_of(name);
    match shape {
        SigVariantShape::Plain => {},
        SigVariantShape::Tuple(fs) => {
            let parts = render_tuple_fields(fs, false);
            out.push('(');
            append(&mut out, join_parts(&parts, ", ").as_slice());
            out.push(')');
        },
        SigVariantShape::Struct(fs) => {
            let parts = render_named_fields(fs, 2);
            append_str(&mut out, " { ");
            append(&mut out, join_parts(&parts, ", ").as_slice());
            append_str(&mut out, " }");
        },
    }
    assert(out@ =~= variant_sig(name@, *shape));
    out
}

fn render_assoc_type_sig(name: &str, generics: &SigGenerics, bounds: &Vec<SigBound>, type_: &Option<SigType>) -> (r: Vec<char>)
    ensures
        r@ == assoc_type_sig(name@, *generics, bounds@, *type_),
{
    let mut out = chars_of("type ");
    append_str(&mut out, name);
    push_generics_inline(&mut out, generics);
    push_joined_bounds(&mut out, ": ", bounds);
    match type_ {
        Some(t) => {
            append_str(&mut out, " = ");
            append(&mut out, render_type(t).as_slice());
        },
        None => {},
    }
    push_where(&mut out, generics);
    assert(out@ =~= assoc_type_sig(name@, *generics, bounds@, *type_));
    out
}

fn render_simple_sig(vis: &Vec<char>, name: &str, item: &SigItem) -> (r: Vec<char>)
    requires
        !(item is Struct || item is Union || item is Trait || item is Function || item is Variant
            || item is AssocType || item is Unrenderable),
    ensures
        spec_render_signature(vis@ == vis_str(true), name@, *item) == Some(r@) || !(vis@ == vis_str(true) || vis@ == vis_str(false)),
{
    let mut out = crate::text::copy_chars(vis.as_slice());
    match item {
        SigItem::Enum { generics } => {
            append_str(&mut out, "enum ");
            append_str(&mut out, name);
            push_generics_inline(&mut out, generics);
            push_where(&mut out, generics);
        },
        SigItem::TraitAlias { generics, params } => {
            append_str(&mut out, "trait ");
            append_str(&mut out, name);
            push_generics_inline(&mut out, generics);
            push_joined_bounds(&mut out, " = ", params);
            push_where(&mut out, generics);
        },
        SigItem::TypeAlias { generics, type_ } => {
            append_str(&mut out, "type ");
            append_str(&mut out, name);
            push_generics_inline(&mut out, generics);
            append_str(&mut out, " = ");
            append(&mut out, render_type(type_).as_slice());
            push_where(&mut out, generics);
        },
        SigItem::Constant { type_ } => {
            append_str(&mut out, "const ");
            append_str(&mut out, name);
            append_str(&mut out, ": ");
            append(&mut out, render_type(type_).as_slice());
        },
        SigItem::AssocConst { type_ } => {
            out = chars_of("const ");
            append_str(&mut out, name);
            append_str(&mut out, ": ");
            append(&mut out, render_type(type_).as_slice());
        },
        SigItem::Static { is_mutable, type_ } => {
            append_str(&mut out, "static ");
            if *is_mutable {
                append_str(&mut out, "mut ");
            }
            append_str(&mut out, name);
            append_str(&mut out, ": ");
            append(&mut out, render_type(type_).as_slice());
        },
        SigItem::Macro => {
            out = chars_of("macro_rules! ");
            append_str(&mut out, name);
        },
        SigItem::ProcMacro(k) => {
            out = match k {
                SigMacroKind::Bang => chars_of("#[proc_macro]"),
                SigMacroKind::Attr => chars_of("#[proc_macro_attribute]"),
                SigMacroKind::Derive => chars_of("#[proc_macro_derive]"),
            };
            out.push(' ');
            append_str(&mut out, name);
        },
        SigItem::Module => {
            append_str(&mut out, "mod ");
            append_str(&mut out, name);
        },
        SigItem::StructField(t) => {
            append_str(&mut out, name);
            append_str(&mut out, ": ");
            append(&mut out, render_type(t).as_slice());
        },
        SigItem::Primitive => {
            append_str(&mut out, "primitive ");
            append_str(&mut out, name);
        },
        _ => {},
    }
    proof {
        if vis@ == vis_str(true) || vis@ == vis_str(false) {
            assert(Some(out@) =~= spec_render_signature(vis@ == vis_str(true), name@, *item));
        }
    }
    out
}

/// Renders a human-readable signature for an item, or nothing for items
/// without one (impl blocks, `use` items).
pub fn render_signature(is_public: bool, name: &str, item: &SigItem) -> (r: Option<String>)
    ensures
        match r {
            Some(s) => spec_render_signature(is_public, name@, *item) == Some(s@),
            None => spec_render_signature(is_public, name@, *item) is None,
        },
{
    let mut vis: Vec<char> = Vec::new();
    if is_public {
        append_str(&mut vis, "pub ");
    }
    assert(vis@ =~= vis_str(is_public));
    let out = match item {
        SigItem::Struct { generics, shape } => render_struct_sig(&vis, name, generics, shape),
        SigItem::Union { generics, fields } => render_union_sig(&vis, name, generics, fields),
        SigItem::Trait { is_unsafe, is_auto, generics, bounds } => render_trait_sig(
            &vis,
            name,
            *is_unsafe,
            *is_auto,
            generics,
            bounds,
        ),
        SigItem::Function { header, generics, inputs, is_c_variadic, output } => render_fn_sig(
            &vis,
            name,
            header,
            generics,
            inputs,
            *is_c_variadic,
            output,
        ),
        SigItem::Variant(shape) => render_variant_sig(name, shape),
        SigItem::AssocType { generics, bounds, type_ } => render_assoc_type_sig(name, generics, bounds, type_),
        SigItem::Unrenderable => {
            return None;
        },
        _ => {
            let r = render_simple_sig(&vis, name, item);
            assert(vis@ == vis_str(true) <==> is_public) by {
                reveal_strlit("pub ");
                if !is_public {
                    assert(vis@.len() == 0);
                    assert(vis_str(true).len() == 4);
                }
            }
            r
        },
    };
    Some(crate::text::string_of(out.as_slice()))
}

} // verus!
