//! The value cache: one canonical native value, built at most once, of which
//! every request gets a claim of its own.
//!
//! The native runtime builds, retains and releases values; the cache decides
//! which of these is due. `acquire` names the next step. After building, the
//! caller hands the new handle to `store`, which names the step after that.
//! The caller holds the cache exclusively from `acquire` until the last step
//! is carried out, so that two first requests cannot both build.

use vstd::prelude::*;
use crate::config::{is_plain_name, lemma_spoofed_uuid_is_formatted, ENCODING_UTF8, SPOOFED_UUID};

verus! {

/// What the caller asks of the native runtime next.
#[derive(Clone, Copy, Debug)]
pub enum CacheStep {
    /// Build a native string from `text` in `encoding`; it comes with one
    /// claim, which becomes the cache's own. Hand its handle to `store`.
    Construct { text: &'static str, encoding: u32 },
    /// Add one claim to the value at `handle` and give the handle to the
    /// requester, who releases that claim when done with it.
    Retain { handle: usize },
}

/// The step that is due on a request, given what the cache holds.
pub open spec fn plan(entry: Option<usize>) -> CacheStep {
    match entry {
        None => CacheStep::Construct { text: SPOOFED_UUID, encoding: ENCODING_UTF8 },
        Some(handle) => CacheStep::Retain { handle },
    }
}

/// The cache entry. Its view is the handle of the canonical value, once
/// there is one.
pub struct ValueCache {
    entry: Option<usize>,
}

impl View for ValueCache {
    type V = Option<usize>;

    closed spec fn view(&self) -> Option<usize> {
        self.entry
    }
}

/// The constant `kCFStringEncodingUTF8` of `core_foundation_sys::string`: the
/// number under which the native string functions know UTF-8. The crate sets
/// it to 0x0800_0100, which is all that is claimed here.
#[verifier::external_body]
fn native_utf8() -> (encoding: u32)
    ensures
        encoding == ENCODING_UTF8,
{
    core_foundation_sys::string::kCFStringEncodingUTF8
}

impl ValueCache {
    #[verifier::type_invariant]
    spec fn well_formed(self) -> bool {
        self.entry matches Some(handle) ==> handle != 0
    }

    /// A cache that holds nothing yet.
    pub fn new() -> (cache: Self)
        ensures
            cache@ is None,
    {
        ValueCache { entry: None }
    }

    /// The handle of the canonical value, if it has been built.
    pub fn entry(&self) -> (entry: Option<usize>)
        ensures
            entry == self@,
            entry matches Some(handle) ==> handle != 0,
    {
        proof {
            use_type_invariant(self);
        }
        self.entry
    }

    /// Begins a request. An empty cache asks for the canonical value to be
    /// built from the fixed text; a filled one asks for one more claim on the
    /// value it holds. The cache itself is not changed.
    pub fn acquire(&self) -> (step: CacheStep)
        ensures
            step == plan(self@),
            step matches CacheStep::Construct { text, .. } ==> is_plain_name(text),
            step matches CacheStep::Retain { handle } ==> handle != 0,
    {
        proof {
            use_type_invariant(self);
            lemma_spoofed_uuid_is_formatted();
        }
        match self.entry {
            None => CacheStep::Construct { text: SPOOFED_UUID, encoding: native_utf8() },
            Some(handle) => CacheStep::Retain { handle },
        }
    }

    /// Takes the handle of the value that was just built. It becomes the
    /// canonical entry for good, and the request goes on with a claim on it.
    pub fn store(&mut self, handle: usize) -> (step: CacheStep)
        requires
            old(self)@ is None,
            handle != 0,
        ensures
            final(self)@ == Some(handle),
            step == plan(final(self)@),
    {
        self.entry = Some(handle);
        CacheStep::Retain { handle }
    }
}

} // verus!
