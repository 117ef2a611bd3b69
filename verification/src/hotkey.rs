//! The hold-to-talk binding, as the config writes it and as the keyboard hook knows it.
use vstd::prelude::*;

use crate::config::Config;

verus! {

/// A hotkey: the modifiers to hold, as bits, and the key to hold with them, by its name.
#[derive(Debug)]
pub struct Binding {
    pub modifiers: u32,
    pub key: Option<String>,
}

/// A hotkey that nobody can press.
#[derive(Debug)]
pub struct HotkeyError {
    /// What the config says.
    pub hotkey: String,
    /// What is wrong with it.
    pub reason: String,
}

/// What `handy_keys` reads in a hotkey: the bits of its modifiers and the name of its key, or what
/// is wrong with it.
pub uninterp spec fn hotkey_reading(text: Seq<char>) -> Result<
    (u32, Option<Seq<char>>),
    Seq<char>,
>;

impl Binding {
    /// The bits and the name that make up the binding.
    pub open spec fn parts(self) -> (u32, Option<Seq<char>>) {
        (
            self.modifiers,
            match self.key {
                Some(name) => Some(name@),
                None => None,
            },
        )
    }
}

/// Calls `handy_keys::Hotkey::from_str`.
///
/// The result is a function of the text, and only has a name here: which words stand for which
/// keys, and how a mistake is worded, is up to `handy_keys`. A hotkey that was read names a
/// modifier or a key at least, and there is none in an empty text.
#[verifier::external_body]
fn read_hotkey(text: &str) -> (r: Result<Binding, String>)
    ensures
        hotkey_reading(text@) == (match r {
            Ok(binding) => Ok::<_, Seq<char>>(binding.parts()),
            Err(reason) => Err(reason@),
        }),
        r matches Ok(binding) ==> binding.modifiers != 0 || binding.key is Some,
        text@.len() == 0 ==> r is Err,
{
    match text.parse::<handy_keys::Hotkey>() {
        Ok(hotkey) => Ok(Binding {
            modifiers: hotkey.modifiers.bits(),
            key: match hotkey.key {
                Some(key) => Some(key.to_string()),
                None => None,
            },
        }),
        Err(error) => Err(error.to_string()),
    }
}

/// What becomes of the reading of `hotkey`: a mistake is reported along with the hotkey.
pub fn accept_hotkey(hotkey: &str, reading: Result<Binding, String>) -> (r: Result<
    Binding,
    HotkeyError,
>)
    ensures
        match reading {
            Ok(binding) => r == Ok::<Binding, HotkeyError>(binding),
            Err(reason) => r matches Err(e) && e.hotkey@ == hotkey@ && e.reason == reason,
        },
{
    match reading {
        Ok(binding) => Ok(binding),
        Err(reason) => Err(HotkeyError { hotkey: hotkey.to_string(), reason }),
    }
}

impl Config {
    /// The binding to register with the keyboard hook.
    pub fn binding(&self) -> (r: Result<Binding, HotkeyError>)
        ensures
            match hotkey_reading(self.hotkey@) {
                Ok(parts) => r matches Ok(binding) && binding.parts() == parts,
                Err(reason) => r matches Err(e) && e.hotkey@ == self.hotkey@ && e.reason@
                    == reason,
            },
            r matches Ok(binding) ==> binding.modifiers != 0 || binding.key is Some,
            self.hotkey@.len() == 0 ==> r is Err,
    {
        accept_hotkey(self.hotkey.as_str(), read_hotkey(self.hotkey.as_str()))
    }
}

impl HotkeyError {
    /// What the user is told, in front of the reason.
    pub fn message(&self) -> (r: String)
        ensures
            r@ == "'"@ + self.hotkey@ + "' is not a valid hotkey"@,
    {
        let mut out = "'".to_string();
        out.append(self.hotkey.as_str());
        out.append("' is not a valid hotkey");
        out
    }
}

/// A binding is its modifiers and the name of its key: two that read the same are the same.
pub proof fn law_a_binding_is_its_parts(a: Binding, b: Binding)
    requires
        a.parts() == b.parts(),
    ensures
        a.modifiers == b.modifiers,
        a.key is Some <==> b.key is Some,
        a.key is Some ==> a.key->0@ == b.key->0@,
        a.parts().0 == a.modifiers,
        a.key matches Some(name) ==> a.parts().1 == Some(name@),
        a.key is None ==> a.parts().1 is None,
{
}

} // verus!
