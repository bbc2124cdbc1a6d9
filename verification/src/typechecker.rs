//! The type inference engine and its typing context.
//!
//! `infer` walks a term once, extending the context at each binder and
//! consulting substitution when a universal type is eliminated, and returns
//! either the term's type or the first typing error found. The whole
//! behaviour is pinned by `spec_type_of`, the syntax-directed typing rules
//! written as one recursive definition over the models of terms and types.

use vstd::prelude::*;

use crate::ast::{clone_term, clone_type, type_eq, SpecTerm, SpecType, Term, Type};

verus! {

/// A typing error. Exactly one error is reported per inference run: the
/// first failure of the single top-to-bottom walk.
#[derive(Debug, PartialEq)]
pub enum TypecheckerError {
    /// A variable reference has no binding in the current context.
    UndefinedVariable(String),
    /// An argument's inferred type does not structurally equal the parameter
    /// type that the applied abstraction declares.
    TypeMismatch { term: Term, expected: Type, got: Type },
    /// A position that requires an abstraction (for application) or a type
    /// abstraction (for type application) holds something else.
    UnexpectedTerm { expected: String, got: Term },
}

/// The model of a typing error.
pub enum SpecError {
    UndefinedVariable(Seq<char>),
    TypeMismatch { term: SpecTerm, expected: SpecType, got: SpecType },
    UnexpectedTerm { expected: Seq<char>, got: SpecTerm },
}

impl View for TypecheckerError {
    type V = SpecError;

    open spec fn view(&self) -> SpecError {
        match self {
            TypecheckerError::UndefinedVariable(x) => SpecError::UndefinedVariable(x@),
            TypecheckerError::TypeMismatch { term, expected, got } => (SpecError::TypeMismatch {
                term: term@,
                expected: expected@,
                got: got@,
            }),
            TypecheckerError::UnexpectedTerm { expected, got } => (SpecError::UnexpectedTerm {
                expected: expected@,
                got: got@,
            }),
        }
    }
}

/// The model of a typing context: the bindings as pairs of a name and a
/// type, the most recently assigned binding first.
pub type SpecContext = Seq<(Seq<char>, SpecType)>;

/// The type bound to the nearest occurrence of `name`, scanning the most
/// recent binding first, or nothing when `name` is unbound.
pub open spec fn spec_lookup(ctx: SpecContext, name: Seq<char>) -> Option<SpecType>
    decreases ctx.len(),
{
    if ctx.len() == 0 {
        None
    } else if ctx[0].0 == name {
        Some(ctx[0].1)
    } else {
        spec_lookup(ctx.drop_first(), name)
    }
}

/// The persistent list of bindings behind a `TypingContext`.
#[derive(Debug)]
enum AssignmentList {
    Cons(String, Type, Box<AssignmentList>),
    Nil,
}

spec fn view_assignments(l: AssignmentList) -> SpecContext
    decreases l,
{
    match l {
        AssignmentList::Nil => Seq::empty(),
        AssignmentList::Cons(name, typ, tail) => seq![(name@, typ@)] + view_assignments(*tail),
    }
}

/// Structural deep copy of a binding list; the copy is equal to the original.
fn clone_assignments(l: &AssignmentList) -> (r: AssignmentList)
    ensures
        r == *l,
    decreases *l,
{
    match l {
        AssignmentList::Nil => AssignmentList::Nil,
        AssignmentList::Cons(name, typ, tail) => AssignmentList::Cons(
            name.clone(),
            clone_type(typ),
            Box::new(clone_assignments(&**tail)),
        ),
    }
}

/// An immutable environment mapping variable names to types. Extension is
/// non-destructive: `assign` returns a new context and leaves the old one
/// untouched, so sibling branches of a term can be typed independently from
/// the same parent context.
#[derive(Debug)]
pub struct TypingContext {
    type_assignments: AssignmentList,
}

impl View for TypingContext {
    type V = SpecContext;

    closed spec fn view(&self) -> SpecContext {
        view_assignments(self.type_assignments)
    }
}

impl TypingContext {
    /// The empty context: no bindings at all.
    pub fn new() -> (r: Self)
        ensures
            r@ == SpecContext::empty(),
    {
        Self { type_assignments: AssignmentList::Nil }
    }

    /// A new context identical to this one except that `var` now resolves to
    /// `typ`; the receiver is not altered.
    pub fn assign(&self, var: String, typ: Type) -> (r: TypingContext)
        ensures
            r@ == seq![(var@, typ@)] + self@,
    {
        TypingContext {
            type_assignments: AssignmentList::Cons(
                var,
                typ,
                Box::new(clone_assignments(&self.type_assignments)),
            ),
        }
    }

    fn get_var(xs: &AssignmentList, var: &String) -> (r: Option<Type>)
        ensures
            (match r {
                Some(t) => spec_lookup(view_assignments(*xs), var@) == Some(t@),
                None => spec_lookup(view_assignments(*xs), var@) is None,
            }),
        decreases *xs,
    {
        match xs {
            AssignmentList::Nil => None,
            AssignmentList::Cons(x, typ, tail) => {
                proof {
                    assert(view_assignments(*xs)[0] == (x@, typ@));
                    assert(view_assignments(*xs).drop_first() =~= view_assignments(**tail));
                }
                if *x == *var {
                    Some(clone_type(typ))
                } else {
                    Self::get_var(&**tail, var)
                }
            },
        }
    }

    /// The type of the nearest binding of `var`, or nothing if unbound: when
    /// the same name is assigned twice, the most recent assignment shadows
    /// the earlier one.
    pub fn get(&self, var: &String) -> (r: Option<Type>)
        ensures
            (match r {
                Some(t) => spec_lookup(self@, var@) == Some(t@),
                None => spec_lookup(self@, var@) is None,
            }),
    {
        Self::get_var(&self.type_assignments, var)
    }
}

/// `target` with every occurrence of the type variable `type_var` replaced
/// by `replacement`. The recursion descends into the body of a `Forall`
/// unconditionally: there is neither a shadowing guard when the binder
/// equals `type_var` nor any renaming to protect free variables of
/// `replacement` from capture.
pub open spec fn spec_subst(type_var: Seq<char>, target: SpecType, replacement: SpecType) -> SpecType
    decreases target,
{
    match target {
        SpecType::Int => SpecType::Int,
        SpecType::Arrow(p, r) => SpecType::Arrow(
            Box::new(spec_subst(type_var, *p, replacement)),
            Box::new(spec_subst(type_var, *r, replacement)),
        ),
        SpecType::TypeVar(x) => if x == type_var {
            replacement
        } else {
            SpecType::TypeVar(x)
        },
        SpecType::Forall { type_var: bound, kind, param_type, return_type } => (SpecType::Forall {
            type_var: bound,
            kind,
            param_type,
            return_type: Box::new(spec_subst(type_var, *return_type, replacement)),
        }),
    }
}

/// The syntax-directed typing rules, one case per term constructor, no
/// backtracking; the first failure of the walk is the result.
pub open spec fn spec_type_of(ctx: SpecContext, term: SpecTerm) -> Result<SpecType, SpecError>
    decreases term,
{
    match term {
        SpecTerm::Int(_) => Ok(SpecType::Int),
        SpecTerm::Var(x) => match spec_lookup(ctx, x) {
            Some(typ) => Ok(typ),
            None => Err(SpecError::UndefinedVariable(x)),
        },
        SpecTerm::App(f, arg) => match *f {
            SpecTerm::Abs { param_name, param_type, body } => match spec_type_of(ctx, *arg) {
                Ok(arg_type) => if arg_type == param_type {
                    spec_type_of(seq![(param_name, param_type)] + ctx, *body)
                } else {
                    Err(SpecError::TypeMismatch { term: *arg, expected: param_type, got: arg_type })
                },
                Err(e) => Err(e),
            },
            _ => Err(SpecError::UnexpectedTerm { expected: "abstraction"@, got: *f }),
        },
        SpecTerm::Abs { param_name, param_type, body } => {
            match spec_type_of(seq![(param_name, param_type)] + ctx, *body) {
                Ok(body_type) => Ok(SpecType::Arrow(Box::new(param_type), Box::new(body_type))),
                Err(e) => Err(e),
            }
        },
        SpecTerm::UniversalAbs { type_var, kind, body } => match spec_type_of(ctx, *body) {
            Ok(body_type) => Ok(SpecType::Forall {
                type_var: type_var,
                kind: kind,
                param_type: Box::new(SpecType::TypeVar(type_var)),
                return_type: Box::new(body_type),
            }),
            Err(e) => Err(e),
        },
        SpecTerm::UniversalApp(f, type_arg) => match spec_type_of(ctx, *f) {
            Ok(f_type) => match f_type {
                SpecType::Forall { type_var, return_type, .. } => Ok(
                    spec_subst(type_var, *return_type, type_arg),
                ),
                _ => Err(SpecError::UnexpectedTerm { expected: "type abstraction"@, got: *f }),
            },
            Err(e) => Err(e),
        },
    }
}

/// The model of an inference result.
pub open spec fn view_inference(r: Result<Type, TypecheckerError>) -> Result<SpecType, SpecError> {
    match r {
        Ok(t) => Ok(t@),
        Err(e) => Err(e@),
    }
}

/// Inference from the empty context: what `infer` returns.
pub open spec fn spec_infer(term: SpecTerm) -> Result<SpecType, SpecError> {
    spec_type_of(SpecContext::empty(), term)
}

/// `target` with every occurrence of the type variable `type_var` replaced
/// by `replacement`, as `spec_subst` states it.
fn subst(type_var: &String, target: &Type, replacement: Type) -> (r: Type)
    ensures
        r@ == spec_subst(type_var@, target@, replacement@),
    decreases *target,
{
    match target {
        Type::Int => Type::Int,
        Type::Arrow(param_type, return_type) => Type::Arrow(
            Box::new(subst(type_var, &**param_type, clone_type(&replacement))),
            Box::new(subst(type_var, &**return_type, replacement)),
        ),
        Type::TypeVar(x) => {
            if *x == *type_var {
                replacement
            } else {
                Type::TypeVar(x.clone())
            }
        },
        Type::Forall { type_var: bound, kind, param_type, return_type } => Type::Forall {
            type_var: bound.clone(),
            kind: *kind,
            param_type: Box::new(clone_type(&**param_type)),
            return_type: Box::new(subst(type_var, &**return_type, replacement)),
        },
    }
}

fn type_of(ctx: &TypingContext, term: &Term) -> (r: Result<Type, TypecheckerError>)
    ensures
        view_inference(r) == spec_type_of(ctx@, term@),
    decreases *term,
{
    match term {
        Term::Int(_) => Ok(Type::Int),
        Term::Var(x) => match ctx.get(x) {
            None => Err(TypecheckerError::UndefinedVariable(x.clone())),
            Some(typ) => Ok(typ),
        },
        Term::App(f, arg) => match &**f {
            Term::Abs { param_name, param_type, body } => {
                proof {
                    assert(term@ == SpecTerm::App(Box::new((**f)@), Box::new((**arg)@)));
                    assert((**f)@ == (SpecTerm::Abs {
                        param_name: param_name@,
                        param_type: param_type@,
                        body: Box::new((**body)@),
                    }));
                }
                let arg_type = match type_of(ctx, &**arg) {
                    Ok(t) => t,
                    Err(e) => {
                        return Err(e);
                    },
                };
                if !type_eq(param_type, &arg_type) {
                    return Err(TypecheckerError::TypeMismatch {
                        term: clone_term(&**arg),
                        expected: clone_type(param_type),
                        got: arg_type,
                    });
                }
                let extended = ctx.assign(param_name.clone(), clone_type(param_type));
                type_of(&extended, &**body)
            },
            _ => Err(TypecheckerError::UnexpectedTerm {
                expected: "abstraction".to_owned(),
                got: clone_term(&**f),
            }),
        },
        Term::Abs { param_name, param_type, body } => {
            let extended = ctx.assign(param_name.clone(), clone_type(param_type));
            match type_of(&extended, &**body) {
                Ok(body_type) => Ok(Type::Arrow(
                    Box::new(clone_type(param_type)),
                    Box::new(body_type),
                )),
                Err(e) => Err(e),
            }
        },
        Term::UniversalAbs { type_var, kind, body } => match type_of(ctx, &**body) {
            Ok(body_type) => {
                let param = Type::TypeVar(type_var.clone());
                proof {
                    assert(param@ == SpecType::TypeVar(type_var@));
                }
                Ok(Type::Forall {
                    type_var: type_var.clone(),
                    kind: *kind,
                    param_type: Box::new(param),
                    return_type: Box::new(body_type),
                })
            },
            Err(e) => Err(e),
        },
        Term::UniversalApp(f, type_arg) => match type_of(ctx, &**f) {
            Ok(f_type) => match f_type {
                Type::Forall { type_var, return_type, .. } => Ok(
                    subst(&type_var, &*return_type, clone_type(type_arg)),
                ),
                _ => Err(TypecheckerError::UnexpectedTerm {
                    expected: "type abstraction".to_owned(),
                    got: clone_term(&**f),
                }),
            },
            Err(e) => Err(e),
        },
    }
}

/// The sole entry point of the engine: the type of a term under the empty
/// context, or the first typing error of the walk.
pub fn infer(term: &Term) -> (r: Result<Type, TypecheckerError>)
    ensures
        view_inference(r) == spec_infer(term@),
{
    type_of(&TypingContext::new(), term)
}

/// Inference is pure: any two results that `infer` can return for the same
/// term agree, so repeated calls yield identical results.
pub proof fn lemma_infer_deterministic(
    term: SpecTerm,
    r1: Result<Type, TypecheckerError>,
    r2: Result<Type, TypecheckerError>,
)
    requires
        view_inference(r1) == spec_infer(term),
        view_inference(r2) == spec_infer(term),
    ensures
        view_inference(r1) == view_inference(r2),
{
}

/// An integer literal has type `Int` under every context, whatever the
/// integer is.
pub proof fn lemma_int_literal(ctx: SpecContext, n: i32)
    ensures
        spec_type_of(ctx, SpecTerm::Int(n)) == Ok::<SpecType, SpecError>(SpecType::Int),
{
}

/// Under the empty context every variable is unbound, so inferring the type
/// of a bare variable reference always reports it as undefined.
pub proof fn lemma_unbound_var(x: Seq<char>)
    ensures
        spec_infer(SpecTerm::Var(x)) == Err::<SpecType, SpecError>(
            SpecError::UndefinedVariable(x),
        ),
{
}

/// Looking a name up right after assigning it returns the assigned type:
/// the most recent binding of a name shadows every earlier one.
pub proof fn lemma_lookup_assigned(ctx: SpecContext, x: Seq<char>, t: SpecType)
    ensures
        spec_lookup(seq![(x, t)] + ctx, x) == Some(t),
{
    assert((seq![(x, t)] + ctx)[0] == (x, t));
}

/// Extension never loses a prior binding unless it shadows the same name:
/// after assigning one name, every other name still resolves exactly as it
/// did before.
pub proof fn lemma_assign_preserves_others(
    ctx: SpecContext,
    x: Seq<char>,
    y: Seq<char>,
    t: SpecType,
)
    requires
        x != y,
    ensures
        spec_lookup(seq![(y, t)] + ctx, x) == spec_lookup(ctx, x),
{
    assert((seq![(y, t)] + ctx).drop_first() =~= ctx);
}

} // verus!
