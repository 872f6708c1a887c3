//! The symbol binding: what is asked of the rebinding primitive, and what is
//! kept of its answer.
//!
//! The primitive itself patches the import tables of the loaded images and
//! lies outside this library. It is handed the target symbol's name and the
//! replacement's address; it answers with a status and with the address that
//! the symbol was bound to before. `SymbolBinding::install` reads that answer.

use vstd::prelude::*;
use crate::config::{
    is_plain_name, lemma_target_symbol_is_plain, INSTALLED_LINE, PATCH_FAILED_LINE,
    SYMBOL_NOT_FOUND_LINE, TARGET_SYMBOL,
};

verus! {

/// Why an installation did not arm the binding.
#[derive(Clone, Copy, PartialEq, Eq, Structural, Debug)]
pub enum InstallError {
    /// The primitive reported success and handed back no previous address:
    /// no loaded image imports the symbol.
    SymbolNotFound,
    /// The primitive reported that it could not patch.
    PatchFailed,
}

/// A binding as contracts see it.
pub struct BindingView {
    /// The address of the function that takes the calls once installed.
    pub replacement: usize,
    /// The address that the symbol was bound to before, once captured.
    pub original: Option<usize>,
}

impl BindingView {
    /// Neither address is null.
    pub open spec fn valid(self) -> bool {
        &&& self.replacement != 0
        &&& self.original matches Some(address) ==> address != 0
    }

    /// An original address has been captured.
    pub open spec fn armed(self) -> bool {
        self.original is Some
    }

    /// The binding after the primitive has answered `status` and `previous`:
    /// armed with `previous` where the answer is a success, unchanged where
    /// it is not.
    pub open spec fn installed(self, status: i32, previous: usize) -> BindingView {
        match install_outcome(status, previous) {
            Ok(original) => BindingView { original: Some(original), ..self },
            Err(_) => self,
        }
    }
}

/// What an answer of the rebinding primitive means: a status other than zero
/// is a failed patch; status zero without a previous address is a symbol that
/// was not found; status zero with one is that address.
pub open spec fn install_outcome(status: i32, previous: usize) -> Result<usize, InstallError> {
    if status != 0 {
        Err(InstallError::PatchFailed)
    } else if previous == 0 {
        Err(InstallError::SymbolNotFound)
    } else {
        Ok(previous)
    }
}

/// The process-wide record of one rebound symbol. It starts without an
/// original address and takes one at most once.
pub struct SymbolBinding {
    replacement: usize,
    original: Option<usize>,
}

impl View for SymbolBinding {
    type V = BindingView;

    closed spec fn view(&self) -> BindingView {
        BindingView { replacement: self.replacement, original: self.original }
    }
}

impl SymbolBinding {
    #[verifier::type_invariant]
    spec fn well_formed(self) -> bool {
        self@.valid()
    }

    /// A binding for `replacement` that is not armed yet.
    pub fn new(replacement: usize) -> (binding: Self)
        requires
            replacement != 0,
        ensures
            binding@ == (BindingView { replacement, original: None }),
            binding@.valid(),
    {
        SymbolBinding { replacement, original: None }
    }

    /// The name to hand to the rebinding primitive.
    pub fn target_name(&self) -> (name: &'static str)
        ensures
            name == TARGET_SYMBOL,
            is_plain_name(name),
    {
        proof {
            lemma_target_symbol_is_plain();
        }
        TARGET_SYMBOL
    }

    /// The replacement's address, to hand to the rebinding primitive.
    pub fn replacement(&self) -> (address: usize)
        ensures
            address == self@.replacement,
            address != 0,
    {
        proof {
            use_type_invariant(self);
        }
        self.replacement
    }

    /// The captured original address, if the binding is armed.
    pub fn original(&self) -> (address: Option<usize>)
        ensures
            address == self@.original,
            address matches Some(a) ==> a != 0,
    {
        proof {
            use_type_invariant(self);
        }
        self.original
    }

    /// Whether an original address has been captured.
    pub fn is_armed(&self) -> (armed: bool)
        ensures
            armed == self@.armed(),
    {
        self.original.is_some()
    }

    /// Takes the answer of the rebinding primitive. On success the binding is
    /// armed with the previous address, which is returned. On failure the
    /// binding stays as it was, so that nothing is ever forwarded to an
    /// address that was not captured.
    pub fn install(&mut self, status: i32, previous: usize) -> (outcome: Result<usize, InstallError>)
        requires
            !old(self)@.armed(),
        ensures
            outcome == install_outcome(status, previous),
            final(self)@ == old(self)@.installed(status, previous),
            final(self)@.armed() <==> outcome is Ok,
            final(self)@.valid(),
    {
        proof {
            use_type_invariant(&*self);
        }
        if status != 0 {
            Err(InstallError::PatchFailed)
        } else if previous == 0 {
            Err(InstallError::SymbolNotFound)
        } else {
            self.original = Some(previous);
            Ok(previous)
        }
    }
}

/// The one line that reports an installation on the diagnostic stream.
pub open spec fn diagnostic_line(outcome: Result<usize, InstallError>) -> &'static str {
    match outcome {
        Ok(_) => INSTALLED_LINE,
        Err(InstallError::SymbolNotFound) => SYMBOL_NOT_FOUND_LINE,
        Err(InstallError::PatchFailed) => PATCH_FAILED_LINE,
    }
}

/// Picks the diagnostic line for `outcome`.
pub fn diagnostic(outcome: &Result<usize, InstallError>) -> (line: &'static str)
    ensures
        line == diagnostic_line(*outcome),
{
    match outcome {
        Ok(_) => INSTALLED_LINE,
        Err(InstallError::SymbolNotFound) => SYMBOL_NOT_FOUND_LINE,
        Err(InstallError::PatchFailed) => PATCH_FAILED_LINE,
    }
}

} // verus!
