use vstd::prelude::*;
use crate::binding::PengBinded;
use crate::parser::ast::{PengBindedDeclaration, PengDeclaration};

verus! {

/// The name a declaration introduces, whatever its binding.
pub fn declaration_name(declaration: &PengBindedDeclaration) -> (res: String)
    ensures
        res@ == crate::optimizer::constant_propagation::declaration_name(declaration.bound()),
{
    let declaration = match declaration {
        PengBinded::Mutable(declaration) => declaration,
        PengBinded::Immutable(declaration) => declaration,
    };
    match declaration {
        PengDeclaration::Var(declaration) => declaration.value.name.value.clone(),
        PengDeclaration::As(declaration) => declaration.value.name.value.clone(),
        PengDeclaration::Function(declaration) => declaration.value.name.value.clone(),
        PengDeclaration::Type(declaration) => declaration.value.name.value.clone(),
        PengDeclaration::Module(declaration) => declaration.value.name.value.clone(),
        PengDeclaration::Operation(declaration) => declaration.value.name.value.clone(),
    }
}

} // verus!
