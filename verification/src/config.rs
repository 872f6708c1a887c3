//! The fixed names and values that the interposer is built with.

use vstd::prelude::*;
use vstd::string::{is_ascii, is_ascii_spec_bytes, StringSliceAdditionalSpecFns};

verus! {

/// The symbol whose imports are rebound.
pub const TARGET_SYMBOL: &'static str = "IORegistryEntryCreateCFProperty";

/// The one property key that is answered from the cache.
pub const TARGET_KEY: &'static str = "IOPlatformUUID";

/// The text that is handed out in place of the platform's identifier.
pub const SPOOFED_UUID: &'static str = "DEADBEEF-DEAD-BEEF-DEAD-BEEFDEADBEEF";

/// The size in bytes of the buffer that a key is converted into.
pub const KEY_BUFFER_LEN: usize = 256;

/// The native encoding number for UTF-8.
pub const ENCODING_UTF8: u32 = 0x0800_0100;

/// The diagnostic line of an installation that armed the binding.
pub const INSTALLED_LINE: &'static str =
    "[uuid_spoofer] Successfully hooked IORegistryEntryCreateCFProperty.";

/// The diagnostic line of an installation that patched and captured nothing.
pub const SYMBOL_NOT_FOUND_LINE: &'static str =
    "[uuid_spoofer] Error: fishhook succeeded but did not return original function pointer.";

/// The diagnostic line of an installation whose patch was refused.
pub const PATCH_FAILED_LINE: &'static str =
    "[uuid_spoofer] Error: Failed to hook IORegistryEntryCreateCFProperty using fishhook.";

/// `c` is a hexadecimal digit.
pub open spec fn is_hex_digit(c: char) -> bool {
    ('0' <= c && c <= '9') || ('A' <= c && c <= 'F') || ('a' <= c && c <= 'f')
}

/// `text` can be handed over as a zero-terminated string as it stands: it is
/// not empty, it is plain ASCII, so that its bytes are its characters, and
/// none of its bytes is zero.
pub open spec fn is_plain_name(text: &str) -> bool {
    &&& text@.len() > 0
    &&& is_ascii(text)
    &&& text.spec_bytes().len() == text@.len()
    &&& forall|i: int|
        0 <= i < text.spec_bytes().len() ==> 0 < #[trigger] text.spec_bytes()[i] < 0x80
}

/// The spoofed text is a formatted identifier of 36 characters: groups of 8,
/// 4, 4, 4 and 12 hexadecimal digits with a hyphen between them.
pub proof fn lemma_spoofed_uuid_is_formatted()
    ensures
        SPOOFED_UUID@.len() == 36,
        forall|i: int|
            0 <= i < 36 ==> (#[trigger] SPOOFED_UUID@[i] == '-') == (i == 8 || i == 13 || i == 18
                || i == 23),
        forall|i: int|
            0 <= i < 36 && !(i == 8 || i == 13 || i == 18 || i == 23) ==> is_hex_digit(
                #[trigger] SPOOFED_UUID@[i],
            ),
        is_plain_name(SPOOFED_UUID),
{
    reveal_strlit("DEADBEEF-DEAD-BEEF-DEAD-BEEFDEADBEEF");
    is_ascii_spec_bytes(SPOOFED_UUID);
}

/// The target key is a plain name that fits the key buffer together with
/// its terminator, so that a conversion of that very key is never cut short.
pub proof fn lemma_target_key_fits()
    ensures
        is_plain_name(TARGET_KEY),
        TARGET_KEY.spec_bytes().len() == 14,
        TARGET_KEY.spec_bytes().len() < KEY_BUFFER_LEN,
{
    reveal_strlit("IOPlatformUUID");
    is_ascii_spec_bytes(TARGET_KEY);
}

/// The target symbol is a plain name.
pub proof fn lemma_target_symbol_is_plain()
    ensures
        is_plain_name(TARGET_SYMBOL),
{
    reveal_strlit("IORegistryEntryCreateCFProperty");
    is_ascii_spec_bytes(TARGET_SYMBOL);
}

} // verus!
