use vstd::prelude::*;
use vstd::string::StringExecFns;

verus! {

/// The type the semantic model inferred for an expression.
#[derive(Debug)]
pub enum ResolvedType {
    /// Inference failed, or nothing constrains the type.
    Unknown,
    /// A type with the types that stand inside it. `rendered` is the whole
    /// type as it is written in source. `parameters` may hold the types
    /// that stand directly inside, each with its own parameters, or, as the
    /// semantic model hands them out, every type that stands anywhere
    /// inside in one row.
    Applied { rendered: String, parameters: Vec<ResolvedType> },
    /// A type that is not looked into any further.
    Other { rendered: String },
}

impl ResolvedType {
    /// Whether the type is `Unknown` or has a parameter that is, at any depth.
    pub open spec fn spec_is_unknown(self) -> bool
        decreases self,
    {
        match self {
            ResolvedType::Unknown => true,
            ResolvedType::Applied { parameters, .. } => exists|i: int|
                0 <= i < parameters@.len() && (#[trigger] parameters@[i]).spec_is_unknown(),
            ResolvedType::Other { .. } => false,
        }
    }

    /// A type is usable where nothing in it is unknown.
    pub open spec fn usable(self) -> bool {
        !self.spec_is_unknown()
    }

    /// The type that stands in this one at `path`: the type itself at the
    /// empty path, else what stands at the rest of the path in the parameter
    /// that the path begins with.
    pub open spec fn at(self, path: Seq<int>) -> Option<ResolvedType>
        decreases path.len(),
    {
        if path.len() == 0 {
            Some(self)
        } else {
            match self {
                ResolvedType::Applied { parameters, .. } => if 0 <= path[0] < parameters@.len() {
                    parameters@[path[0]].at(path.drop_first())
                } else {
                    None
                },
                _ => None,
            }
        }
    }

    /// The type as it is written in source.
    pub open spec fn spec_format(self) -> Seq<char> {
        match self {
            ResolvedType::Unknown => "{unknown}"@,
            ResolvedType::Applied { rendered, .. } => rendered@,
            ResolvedType::Other { rendered } => rendered@,
        }
    }
}

/// Returns true if the type itself or any type parameter is unknown.
#[verifier::loop_isolation(false)]
pub fn is_unknown(ty: &ResolvedType) -> (unknown: bool)
    ensures
        unknown == ty.spec_is_unknown(),
    decreases ty,
{
    match ty {
        ResolvedType::Unknown => true,
        ResolvedType::Applied { parameters, .. } => {
            let mut i: usize = 0;
            while i < parameters.len()
                invariant
                    i <= parameters@.len(),
                    forall|j: int| 0 <= j < i ==> !(#[trigger] parameters@[j]).spec_is_unknown(),
                decreases parameters@.len() - i,
            {
                if is_unknown(&parameters[i]) {
                    return true;
                }
                i += 1;
            }
            false
        },
        ResolvedType::Other { .. } => false,
    }
}

/// Renders the type as it is written in source. The text is the one that the
/// semantic model gave with the type; an unknown type has only a
/// placeholder.
pub fn format(ty: &ResolvedType) -> (text: String)
    ensures
        text@ == ty.spec_format(),
{
    match ty {
        ResolvedType::Unknown => String::from_str("{unknown}"),
        ResolvedType::Applied { rendered, .. } => rendered.clone(),
        ResolvedType::Other { rendered } => rendered.clone(),
    }
}

/// An unknown type at some path makes the whole type unknown.
pub proof fn lemma_unknown_at(ty: ResolvedType, path: Seq<int>)
    requires
        ty.at(path) == Some(ResolvedType::Unknown),
    ensures
        ty.spec_is_unknown(),
    decreases path.len(),
{
    if path.len() > 0 {
        match ty {
            ResolvedType::Applied { parameters, .. } => {
                lemma_unknown_at(parameters@[path[0]], path.drop_first());
            },
            _ => {},
        }
    }
}

/// A type that is unknown has an unknown type at some path.
pub proof fn lemma_unknown_path(ty: ResolvedType) -> (path: Seq<int>)
    requires
        ty.spec_is_unknown(),
    ensures
        ty.at(path) == Some(ResolvedType::Unknown),
    decreases ty,
{
    match ty {
        ResolvedType::Applied { parameters, .. } => {
            let i = choose|i: int|
                0 <= i < parameters@.len() && (#[trigger] parameters@[i]).spec_is_unknown();
            let rest = lemma_unknown_path(parameters@[i]);
            let path = seq![i] + rest;
            assert(path.drop_first() =~= rest);
            path
        },
        _ => Seq::empty(),
    }
}

/// A type is usable exactly where no path into it leads to an unknown type:
/// one unknown parameter, however deep, makes it unusable, and a type that is
/// concrete all the way down is usable.
pub proof fn lemma_usable_iff_no_unknown(ty: ResolvedType)
    ensures
        ty.usable() <==> forall|path: Seq<int>| #[trigger]
            ty.at(path) != Some(ResolvedType::Unknown),
{
    if ty.spec_is_unknown() {
        let path = lemma_unknown_path(ty);
        assert(ty.at(path) == Some(ResolvedType::Unknown));
    } else {
        assert forall|path: Seq<int>| #[trigger] ty.at(path) != Some(ResolvedType::Unknown) by {
            if ty.at(path) == Some(ResolvedType::Unknown) {
                lemma_unknown_at(ty, path);
            }
        }
    }
}

} // verus!
