//! The dispatcher: for each intercepted call, whether it is answered from the
//! cache or forwarded to the original function.
//!
//! A call is decided in at most two steps. `dispatch` looks at the arguments
//! alone; where a key is present it asks for the key's length and text, and
//! `resume` decides on them. Nothing is kept between two calls.
//!
//! The text comes in a zero-terminated buffer, which shows a key only up to
//! its first zero character. The length that the native runtime reports
//! tells whether the key ends there: a key that goes on behind a zero
//! character is not the target key, and is forwarded like any other.

use vstd::prelude::*;
use vstd::string::StringSliceAdditionalSpecFns;
use crate::config::{lemma_target_key_fits, ENCODING_UTF8, KEY_BUFFER_LEN, TARGET_KEY};
use crate::key::{
    code_units, lemma_code_units_ascii, lemma_code_units_behind_zero, lemma_ends_text_unique,
    lemma_text_len_ends_text, text_equals, text_len, text_of,
};
use crate::rebind::{install_outcome, BindingView, SymbolBinding};

verus! {

/// The arguments of one intercepted call, each as the machine word that was
/// passed. A null reference is zero.
#[derive(Clone, Copy, PartialEq, Eq, Structural, Debug)]
pub struct CallArguments {
    /// The registry entry that is asked.
    pub entry: usize,
    /// The reference to the key that names the property.
    pub key: usize,
    /// The reference to the allocator for the result.
    pub allocator: usize,
    /// The option bits.
    pub options: u32,
}

/// What the native runtime told of a key.
#[derive(Clone, Copy, Debug)]
pub enum KeyReading<'a> {
    /// The key could not be read as text.
    ConversionFailed,
    /// The key has `length` UTF-16 code units, and the conversion filled
    /// `buffer` with its text in UTF-8 and a zero byte behind it.
    Converted { length: isize, buffer: &'a [u8] },
}

/// A reading that succeeded, as contracts see it.
pub struct Reading {
    /// The length of the key in UTF-16 code units.
    pub length: int,
    /// The buffer that the conversion filled.
    pub buffer: Seq<u8>,
}

impl<'a> View for KeyReading<'a> {
    type V = Option<Reading>;

    open spec fn view(&self) -> Option<Reading> {
        match *self {
            KeyReading::ConversionFailed => None,
            KeyReading::Converted { length, buffer } => Some(
                Reading { length: length as int, buffer: buffer@ },
            ),
        }
    }
}

/// What is to be done with a call.
#[derive(Clone, Copy, PartialEq, Eq, Structural, Debug)]
pub enum Action {
    /// Call the function at `original` with `arguments` and return what it
    /// returns, a null result too.
    Delegate { original: usize, arguments: CallArguments },
    /// Return a handle acquired from the value cache.
    Spoof,
}

/// What `dispatch` found on the arguments alone.
#[derive(Clone, Copy, PartialEq, Eq, Structural, Debug)]
pub enum Step {
    /// Ask the native runtime for the length of the key at `key`, convert
    /// the key into a buffer of `capacity` bytes in `encoding`, then call
    /// `resume` with both.
    ReadKey { key: usize, capacity: usize, encoding: u32 },
    /// The call is decided.
    Done(Action),
}

/// Why a call could not be decided.
#[derive(Clone, Copy, PartialEq, Eq, Structural, Debug)]
pub enum DispatchError {
    /// The call has to be forwarded and no original address was captured.
    OriginalUnavailable,
}

/// The bytes of the one key that is answered from the cache.
pub open spec fn target_key() -> Seq<u8> {
    TARGET_KEY.spec_bytes()
}

/// What the native runtime may tell of a key whose whole text has the UTF-8
/// bytes `text`, zero characters included: that it cannot convert it, or
/// its length in code units and a buffer that holds the text and a zero byte
/// right behind it.
pub open spec fn reads(text: Seq<u8>, reading: Option<Reading>) -> bool {
    reading matches Some(read) ==> {
        &&& read.length == code_units(text)
        &&& text.len() < read.buffer.len()
        &&& read.buffer.take(text.len() as int) == text
        &&& read.buffer[text.len() as int] == 0
    }
}

/// A call is answered from the cache only where its key is present, was read,
/// is as long as the target key, and shows the target key in the buffer,
/// byte for byte. The target key is plain ASCII: it has as many code units
/// as bytes.
pub open spec fn wants_spoof(arguments: CallArguments, reading: Option<Reading>) -> bool {
    &&& arguments.key != 0
    &&& reading matches Some(read)
    &&& read.length == target_key().len()
    &&& text_of(read.buffer) == target_key()
}

/// Forwarding a call: to the captured original with the arguments as they
/// came, or an error where none was captured.
pub open spec fn delegation(original: Option<usize>, arguments: CallArguments) -> Result<
    Action,
    DispatchError,
> {
    match original {
        Some(original) => Ok(Action::Delegate { original, arguments }),
        None => Err(DispatchError::OriginalUnavailable),
    }
}

/// The whole decision on a call, given what was read of its key: answered
/// from the cache on an exact match, forwarded otherwise.
pub open spec fn decision(
    original: Option<usize>,
    arguments: CallArguments,
    reading: Option<Reading>,
) -> Result<Action, DispatchError> {
    if wants_spoof(arguments, reading) {
        Ok(Action::Spoof)
    } else {
        delegation(original, arguments)
    }
}

/// A decision that was reached on the first step.
pub open spec fn done(decided: Result<Action, DispatchError>) -> Result<Step, DispatchError> {
    match decided {
        Ok(action) => Ok(Step::Done(action)),
        Err(error) => Err(error),
    }
}

/// The first step on a call. A call without a key is forwarded at once; for
/// any other the key's text is asked for, in a buffer of `KEY_BUFFER_LEN`
/// bytes.
pub fn dispatch(binding: &SymbolBinding, arguments: CallArguments) -> (step: Result<
    Step,
    DispatchError,
>)
    ensures
        arguments.key == 0 ==> step == done(delegation(binding@.original, arguments)),
        arguments.key != 0 ==> step == Ok::<Step, DispatchError>(
            Step::ReadKey { key: arguments.key, capacity: KEY_BUFFER_LEN, encoding: ENCODING_UTF8 },
        ),
        step matches Ok(Step::Done(Action::Delegate { original, .. })) ==> original != 0,
{
    if arguments.key != 0 {
        return Ok(
            Step::ReadKey { key: arguments.key, capacity: KEY_BUFFER_LEN, encoding: ENCODING_UTF8 },
        );
    }
    match binding.original() {
        Some(original) => Ok(Step::Done(Action::Delegate { original, arguments })),
        None => Err(DispatchError::OriginalUnavailable),
    }
}

/// The second step on a call, with what was read of its key. The call is
/// answered from the cache where the key is exactly the target key and
/// forwarded in every other case: a failed conversion, any other text, the
/// target key with more behind a zero character. A forwarded call keeps its
/// arguments and goes to the captured original.
pub fn resume(binding: &SymbolBinding, arguments: CallArguments, reading: KeyReading<'_>) -> (action:
    Result<Action, DispatchError>)
    ensures
        action == decision(binding@.original, arguments, reading@),
        action matches Ok(Action::Delegate { original, .. }) ==> original != 0,
{
    proof {
        lemma_target_key_fits();
    }
    let hit = arguments.key != 0 && match reading {
        KeyReading::ConversionFailed => false,
        KeyReading::Converted { length, buffer } => {
            length >= 0 && length as usize == TARGET_KEY.len() && text_equals(buffer, TARGET_KEY)
        },
    };
    if hit {
        Ok(Action::Spoof)
    } else {
        match binding.original() {
            Some(original) => Ok(Action::Delegate { original, arguments }),
            None => Err(DispatchError::OriginalUnavailable),
        }
    }
}

/// Only the target key is answered from the cache. Whatever the whole text
/// of a key is, with zero characters or without: what is read of it makes
/// the call a spoofed one if and only if the key is present, the conversion
/// succeeded and the text is the target key. Every other key is forwarded to
/// the captured original with the arguments as they came.
pub proof fn lemma_only_the_target_key_is_spoofed(
    original: Option<usize>,
    arguments: CallArguments,
    text: Seq<u8>,
    reading: Option<Reading>,
)
    requires
        reads(text, reading),
    ensures
        wants_spoof(arguments, reading) <==> (arguments.key != 0 && reading is Some && text
            == target_key()),
        text != target_key() ==> decision(original, arguments, reading) == delegation(
            original,
            arguments,
        ),
        arguments.key == 0 || reading is None ==> decision(original, arguments, reading)
            == delegation(original, arguments),
        arguments.key != 0 && reading is Some && text == target_key() ==> decision(
            original,
            arguments,
            reading,
        ) == Ok::<Action, DispatchError>(Action::Spoof),
{
    lemma_target_key_fits();
    let target = target_key();
    if let Some(read) = reading {
        let n = text.len() as int;
        if text == target {
            lemma_code_units_ascii(target);
            assert forall|i: int| 0 <= i < n implies read.buffer[i] != 0 by {
                assert(read.buffer.take(n)[i] == target[i]);
            }
            lemma_ends_text_unique(read.buffer, n);
            assert(text_of(read.buffer) =~= read.buffer.take(n));
            assert(text_of(read.buffer) == target);
        } else if read.length == target.len() && text_of(read.buffer) == target {
            lemma_text_len_ends_text(read.buffer);
            let cut = text_len(read.buffer) as int;
            assert(cut == target.len()) by {
                assert(text_of(read.buffer).len() == cut);
            }
            assert forall|i: int| 0 <= i < cut implies read.buffer[i] == target[i] by {
                assert(text_of(read.buffer)[i] == read.buffer[i]);
            }
            if n < cut {
                assert(read.buffer[n] != 0);
            } else if n == cut {
                assert(text =~= target);
            } else {
                assert(text[cut] == read.buffer.take(n)[cut]);
                assert(text.take(cut) =~= target);
                lemma_code_units_behind_zero(text, cut);
                lemma_code_units_ascii(target);
            }
        }
    }
}

/// A call is never forwarded anywhere but to the captured original, with
/// the arguments it came with; with a valid binding that address is not null.
pub proof fn lemma_delegates_to_captured_original(
    binding: BindingView,
    arguments: CallArguments,
    reading: Option<Reading>,
)
    requires
        binding.valid(),
    ensures
        decision(binding.original, arguments, reading) matches Ok(
            Action::Delegate { original, arguments: forwarded },
        ) ==> binding.original == Some(original) && original != 0 && forwarded == arguments,
        decision(binding.original, arguments, reading) is Err ==> !binding.armed(),
{
}

/// Once an installation has succeeded, every call whose key is not the
/// target key goes to the address that the rebinding primitive handed back,
/// with its arguments unchanged: whether the key is absent, unreadable or
/// another text.
pub proof fn lemma_installed_binding_delegates(
    binding: BindingView,
    status: i32,
    previous: usize,
    arguments: CallArguments,
    text: Seq<u8>,
    reading: Option<Reading>,
)
    requires
        binding.valid(),
        !binding.armed(),
        install_outcome(status, previous) is Ok,
        reads(text, reading),
        arguments.key == 0 || reading is None || text != target_key(),
    ensures
        binding.installed(status, previous).valid(),
        binding.installed(status, previous).armed(),
        decision(binding.installed(status, previous).original, arguments, reading) == Ok::<
            Action,
            DispatchError,
        >(Action::Delegate { original: previous, arguments }),
{
    lemma_only_the_target_key_is_spoofed(None, arguments, text, reading);
}

/// An installation that fails leaves the binding unarmed, and an unarmed
/// binding forwards nothing: no call reaches an address that was never
/// captured. A call for the target key is still answered from the cache, and
/// any other is refused.
pub proof fn lemma_failed_install_never_delegates(
    binding: BindingView,
    status: i32,
    previous: usize,
    arguments: CallArguments,
    text: Seq<u8>,
    reading: Option<Reading>,
)
    requires
        binding.valid(),
        !binding.armed(),
        install_outcome(status, previous) is Err,
        reads(text, reading),
    ensures
        binding.installed(status, previous) == binding,
        !binding.installed(status, previous).armed(),
        decision(binding.installed(status, previous).original, arguments, reading) == (if arguments.key
            != 0 && reading is Some && text == target_key() {
            Ok::<Action, DispatchError>(Action::Spoof)
        } else {
            Err::<Action, DispatchError>(DispatchError::OriginalUnavailable)
        }),
        !(decision(binding.installed(status, previous).original, arguments, reading) matches Ok(
            Action::Delegate { .. },
        )),
{
    lemma_only_the_target_key_is_spoofed(None, arguments, text, reading);
}

} // verus!
