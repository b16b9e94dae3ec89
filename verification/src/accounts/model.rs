use vstd::prelude::*;

verus! {

/// Whether a field is one account or a nested accounts struct.
#[derive(Clone, Copy, PartialEq, Eq, Structural)]
pub enum FieldKind {
    Single,
    Composite,
}

/// The parts of a directive's value expression that the derive inspects.
pub enum ValueExpr {
    /// A path such as `authority`, `None`, `MY_CONST` or `module::Type`; `qself` is set
    /// for a qualified path such as `<T as Trait>::X`.
    Path { qself: bool, segments: Vec<String> },
    /// A call such as `Some(x)`.
    Call { func: Box<ValueExpr>, args: Vec<ValueExpr> },
    /// A literal such as `42`, `true` or `"str"`.
    Lit { text: String },
    /// Any other expression (method call, field access, cast, arithmetic, ...).
    Other,
}

/// A type, as far as the derive looks into it: a path whose segments may carry type
/// arguments, or anything else.
pub enum TypeModel {
    Path { segments: Vec<TypeSegment> },
    Other,
}

/// One segment of a type path, with its type arguments.
pub struct TypeSegment {
    pub ident: String,
    pub args: Vec<TypeModel>,
}

/// The identifier the value names when it is a bare single-segment path.
pub open spec fn bare_ident(e: ValueExpr) -> Option<String> {
    match e {
        ValueExpr::Path { qself, segments } => if !qself && segments@.len() == 1 {
            Some(segments@[0])
        } else {
            None
        },
        _ => None,
    }
}

/// The single argument of `Some(arg)`, when the value is such a call.
pub open spec fn some_call_arg(e: ValueExpr) -> Option<ValueExpr> {
    match e {
        ValueExpr::Call { func, args } => match *func {
            ValueExpr::Path { qself: _, segments } => if segments@.len() == 1 && segments@[0]@
                == "Some"@ && args@.len() == 1 {
                Some(args@[0])
            } else {
                None
            },
            _ => None,
        },
        _ => None,
    }
}

/// A behavior group directive: `path(key = value, ...)`.
pub struct BehaviorGroup {
    pub path: Vec<String>,
    pub args: Vec<BehaviorArg>,
}

/// A single `key = value` arg in a behavior group directive.
pub struct BehaviorArg {
    pub key: String,
    pub value: ValueExpr,
}

/// The structural facts of one field of an accounts struct.
pub struct FieldCore {
    pub ident: String,
    pub kind: FieldKind,
    /// The field's type with `Option<..>` and references removed.
    pub effective_ty: TypeModel,
    /// The field is `Option<..>`.
    pub optional: bool,
    /// The field is marked `mut` (or is a migration, which is always mutable).
    pub is_mut: bool,
    /// The field is marked `dup`.
    pub dup: bool,
    /// The field carries a doc comment (the `/// CHECK:` that `dup` requires).
    pub has_doc: bool,
}

/// Parsed `init` / `init(idempotent)` directive.
#[derive(Clone, Copy, PartialEq, Eq, Structural)]
pub struct InitDirective {
    pub idempotent: bool,
}

/// One field of an accounts struct with all its directives.
pub struct FieldSemantics {
    pub core: FieldCore,
    /// `init` / `init(idempotent)`.
    pub init: Option<InitDirective>,
    /// Top-level `payer = field`.
    pub payer: Option<String>,
    /// `address = expr`.
    pub address: Option<ValueExpr>,
    /// `realloc = expr`.
    pub realloc: Option<ValueExpr>,
    /// `close(dest = field)`.
    pub close_dest: Option<String>,
    /// All behavior groups.
    pub groups: Vec<BehaviorGroup>,
    /// The field type is `Migration<From, To>`.
    pub is_migration: bool,
}

impl FieldSemantics {
    pub open spec fn spec_has_init(&self) -> bool {
        self.init.is_some()
    }

    pub open spec fn spec_is_writable(&self) -> bool {
        self.core.is_mut || self.spec_has_init()
    }

    /// The field carries an `init` directive.
    #[verifier::when_used_as_spec(spec_has_init)]
    pub fn has_init(&self) -> (r: bool)
        ensures
            r == self.spec_has_init(),
    {
        self.init.is_some()
    }

    /// The account is written by the instruction: marked `mut`, or created by `init`.
    #[verifier::when_used_as_spec(spec_is_writable)]
    pub fn is_writable(&self) -> (r: bool)
        ensures
            r == self.spec_is_writable(),
    {
        self.core.is_mut || self.has_init()
    }
}

impl BehaviorGroup {
    /// The last segment of the path, used for variable naming (empty for an empty path,
    /// which a parsed path never is).
    pub open spec fn spec_name(&self) -> Seq<char> {
        if self.path@.len() == 0 {
            seq![]
        } else {
            self.path@.last()@
        }
    }

    /// The last segment of the path, used for variable naming.
    pub fn name(&self) -> (r: String)
        ensures
            r@ == self.spec_name(),
    {
        let n = self.path.len();
        if n == 0 {
            String::new()
        } else {
            crate::text::string_from(self.path[n - 1].as_str())
        }
    }
}

/// A client must sign for an `init` field without an address constraint: the new
/// account is a fresh keypair rather than a PDA.
pub fn client_requires_signer(sem: &FieldSemantics) -> (r: bool)
    ensures
        r == (sem.init.is_some() && sem.address.is_none()),
{
    sem.has_init() && sem.address.is_none()
}

/// Whether `name` is among `names`.
pub open spec fn names_contain(names: Seq<String>, name: Seq<char>) -> bool {
    exists|i: int| 0 <= i < names.len() && names[i]@ == name
}

/// Whether `name` is among `names`.
pub fn contains_name(names: &Vec<String>, name: &str) -> (r: bool)
    ensures
        r == names_contain(names@, name@),
{
    let n = names.len();
    let mut i: usize = 0;
    while i < n
        invariant
            n == names@.len(),
            i <= n,
            forall|j: int| 0 <= j < i ==> names@[j]@ != name@,
        decreases n - i,
    {
        if crate::text::str_eq(names[i].as_str(), name) {
            return true;
        }
        i = i + 1;
    }
    false
}

} // verus!
