//! A string that does not show its contents and wipes its memory when dropped.

use vstd::prelude::*;
use zeroize::Zeroize;

verus! {

/// `zeroize::Zeroize::zeroize` on a `String` overwrites its bytes with zeros and
/// leaves it empty.
#[verifier::external_body]
fn wipe(s: &mut String)
    ensures
        final(s)@ == Seq::<char>::empty(),
    opens_invariants none
    no_unwind
{
    s.zeroize();
}

/// A string that is never shown by accident: [`SecretString::expose`] is the one
/// way to read it. Each copy is wiped on its own when it is dropped.
pub struct SecretString {
    value: String,
}

impl View for SecretString {
    type V = Seq<char>;

    closed spec fn view(&self) -> Seq<char> {
        self.value@
    }
}

impl DeepView for SecretString {
    type V = Seq<char>;

    open spec fn deep_view(&self) -> Seq<char> {
        self@
    }
}

impl SecretString {
    /// Wrap a string as a secret.
    pub fn new(value: &str) -> (secret: Self)
        ensures
            secret@ == value@,
    {
        SecretString { value: value.to_owned() }
    }

    /// Expose the underlying string. Use with care.
    pub fn expose(&self) -> (value: &str)
        ensures
            value@ == self@,
    {
        self.value.as_str()
    }

    /// Consume the secret and return the underlying string, which is no longer
    /// wiped when it is dropped.
    pub fn into_inner(self) -> (value: String)
        ensures
            value@ == self@,
    {
        let mut this = self;
        let mut value = String::new();
        core::mem::swap(&mut value, &mut this.value);
        value
    }

    /// What a log shows in place of the secret.
    pub fn debug_text(&self) -> (text: String)
        ensures
            text@ == "SecretString([REDACTED])"@,
    {
        "SecretString([REDACTED])".to_owned()
    }

    /// What a user sees in place of the secret.
    pub fn display_text(&self) -> (text: String)
        ensures
            text@ == "[REDACTED]"@,
    {
        "[REDACTED]".to_owned()
    }
}

impl Clone for SecretString {
    fn clone(&self) -> (copy: Self)
        ensures
            copy@ == self@,
    {
        SecretString { value: self.value.clone() }
    }
}

impl Drop for SecretString {
    fn drop(&mut self)
        opens_invariants none
        no_unwind
    {
        wipe(&mut self.value);
    }
}

} // verus!
