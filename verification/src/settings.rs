use vstd::prelude::*;

use crate::text::{char_is_control, chars_of, is_control};

verus! {

/// Longest device name, in characters.
pub const MAX_DEVICE_NAME_CHARS: usize = 32;

/// A device name is 1 to 32 characters, none of them a control character.
pub open spec fn spec_valid_device_name(name: Seq<char>) -> bool {
    &&& 1 <= name.len() <= MAX_DEVICE_NAME_CHARS
    &&& forall|i: int| 0 <= i < name.len() ==> !is_control(#[trigger] name[i])
}

/// Whether `value` may serve as the human-friendly device name.
pub fn valid_device_name(value: &str) -> (valid: bool)
    ensures
        valid == spec_valid_device_name(value@),
{
    let chars = chars_of(value);
    let mut i: usize = 0;
    while i < chars.len()
        invariant
            i <= chars.len(),
            chars@ == value@,
            forall|j: int| 0 <= j < i ==> !is_control(#[trigger] value@[j]),
        decreases chars.len() - i,
    {
        if char_is_control(chars[i]) {
            return false;
        }
        i += 1;
    }
    1 <= chars.len() && chars.len() <= MAX_DEVICE_NAME_CHARS
}

/// The stored settings.
pub struct Settings {
    pub device_name: String,
}

impl Default for Settings {
    fn default() -> (settings: Settings)
        ensures
            settings.device_name@ == Seq::<char>::empty(),
    {
        Settings { device_name: String::new() }
    }
}

/// Why settings were refused.
#[derive(Clone, Copy, Debug, PartialEq, Eq, Structural)]
pub enum SettingsError {
    InvalidDeviceName,
}

impl SettingsError {
    /// The message shown to the user.
    pub fn message(&self) -> (text: String)
        ensures
            text@ == "Device name must be 1–32 visible characters"@,
    {
        match self {
            SettingsError::InvalidDeviceName => "Device name must be 1–32 visible characters".to_owned(),
        }
    }
}

/// The settings that store `value` as the device name, if it is a valid name.
pub fn set_device_name(value: &str) -> (result: Result<Settings, SettingsError>)
    ensures
        result is Ok <==> spec_valid_device_name(value@),
        result matches Ok(settings) ==> settings.device_name@ == value@,
        result matches Err(e) ==> e == SettingsError::InvalidDeviceName,
{
    if !valid_device_name(value) {
        return Err(SettingsError::InvalidDeviceName);
    }
    Ok(Settings { device_name: value.to_owned() })
}

/// The name used when no valid name is configured.
pub open spec fn fallback_device_name() -> Seq<char> {
    "Omarchy"@
}

/// The first valid name among the environment override, the stored setting
/// and the host name; the fallback when none is valid.
pub open spec fn spec_choose_device_name(
    from_env: Option<Seq<char>>,
    stored: Option<Seq<char>>,
    host: Option<Seq<char>>,
) -> Seq<char> {
    if from_env matches Some(n) && spec_valid_device_name(n) {
        from_env->0
    } else if stored matches Some(n) && spec_valid_device_name(n) {
        stored->0
    } else if host matches Some(n) && spec_valid_device_name(n) {
        host->0
    } else {
        fallback_device_name()
    }
}

/// The view of an optional string.
pub open spec fn opt_view(value: Option<String>) -> Option<Seq<char>> {
    match value {
        Some(s) => Some(s@),
        None => None,
    }
}

/// Picks the device name from the `UNIFIED_SHARE_DEVICE_NAME` override, the
/// stored setting and the host name, in that order of preference.
pub fn choose_device_name(
    from_env: Option<String>,
    stored: Option<String>,
    host: Option<String>,
) -> (name: String)
    ensures
        name@ == spec_choose_device_name(opt_view(from_env), opt_view(stored), opt_view(host)),
{
    if let Some(n) = from_env {
        if valid_device_name(n.as_str()) {
            return n;
        }
    }
    if let Some(n) = stored {
        if valid_device_name(n.as_str()) {
            return n;
        }
    }
    if let Some(n) = host {
        if valid_device_name(n.as_str()) {
            return n;
        }
    }
    "Omarchy".to_owned()
}

/// Whatever the environment, the stored file and the host name hold, the
/// chosen device name is a valid one.
pub proof fn lemma_chosen_name_is_valid(
    from_env: Option<Seq<char>>,
    stored: Option<Seq<char>>,
    host: Option<Seq<char>>,
)
    ensures
        spec_valid_device_name(spec_choose_device_name(from_env, stored, host)),
{
    reveal_strlit("Omarchy");
}

/// A name accepted by `set_device_name` is the name chosen afterwards, unless
/// the environment overrides it with a valid name of its own.
pub proof fn lemma_stored_name_is_used(
    value: Seq<char>,
    from_env: Option<Seq<char>>,
    host: Option<Seq<char>>,
)
    requires
        spec_valid_device_name(value),
        !(from_env matches Some(n) && spec_valid_device_name(n)),
    ensures
        spec_choose_device_name(from_env, Some(value), host) == value,
{
}

} // verus!
