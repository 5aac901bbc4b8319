//! Checking a password against the shadow database of the system.

use crate::text::same_bytes;
use vstd::prelude::*;
use vstd::string::*;

verus! {

/// How many bytes an entry of the shadow database is given first.
pub const FIRST_ENTRY_BUFFER: usize = 1024;

/// From how many bytes on an entry of the shadow database is given no more.
pub const LARGEST_ENTRY_BUFFER: usize = 1_048_576;

/// Whether a text can be handed to the system as it is.
pub open spec fn without_nul(text: Seq<u8>) -> bool {
    forall|i: int| 0 <= i < text.len() ==> #[trigger] text[i] != 0
}

fn has_no_nul(text: &str) -> (clean: bool)
    ensures
        clean == without_nul(text.spec_bytes()),
{
    let bytes: &[u8] = text.as_bytes();
    let mut i: usize = 0;
    while i < bytes.len()
        invariant
            i <= bytes@.len(),
            bytes@ == text.spec_bytes(),
            forall|j: int| 0 <= j < i ==> #[trigger] bytes@[j] != 0,
        decreases bytes@.len() - i,
    {
        if bytes[i] == 0 {
            return false;
        }
        i = i + 1;
    }
    true
}

/// Refuses a name or a password that cannot be handed to the system, with the reason.
pub fn check_credentials(username: &str, password: &str) -> (result: Result<(), String>)
    ensures
        match result {
            Ok(()) => without_nul(username.spec_bytes()) && without_nul(password.spec_bytes()),
            Err(reason) => if !without_nul(username.spec_bytes()) {
                reason@ == "username contains NUL byte"@
            } else {
                !without_nul(password.spec_bytes()) && reason@ == "password contains NUL byte"@
            },
        },
{
    if !has_no_nul(username) {
        return Err("username contains NUL byte".to_owned());
    }
    if !has_no_nul(password) {
        return Err("password contains NUL byte".to_owned());
    }
    Ok(())
}

/// What looking up a user in the shadow database came to.
#[derive(Clone, Debug, PartialEq, Eq)]
pub enum ShadowLookup {
    /// The hash of the user's password.
    Found(Vec<u8>),
    /// There is no such user, or no hash.
    Missing,
    /// The entry does not fit in the buffer.
    TooLarge,
    Failed,
}

/// The mathematical counterpart of [`ShadowLookup`].
pub enum ShadowLookupView {
    Found(Seq<u8>),
    Missing,
    TooLarge,
    Failed,
}

impl View for ShadowLookup {
    type V = ShadowLookupView;

    open spec fn view(&self) -> ShadowLookupView {
        match *self {
            ShadowLookup::Found(hash) => ShadowLookupView::Found(hash@),
            ShadowLookup::Missing => ShadowLookupView::Missing,
            ShadowLookup::TooLarge => ShadowLookupView::TooLarge,
            ShadowLookup::Failed => ShadowLookupView::Failed,
        }
    }
}

/// What follows from a lookup.
#[derive(Clone, Debug, PartialEq, Eq)]
pub enum PasswordStep {
    Reject,
    /// Hash the password as this hash was made, and compare.
    Hash(Vec<u8>),
    /// Look the user up again, with a buffer of this size.
    Retry(usize),
    /// Fail as the lookup did.
    Fail,
}

/// The mathematical counterpart of [`PasswordStep`].
pub enum PasswordStepView {
    Reject,
    Hash(Seq<u8>),
    Retry(nat),
    Fail,
}

impl View for PasswordStep {
    type V = PasswordStepView;

    open spec fn view(&self) -> PasswordStepView {
        match *self {
            PasswordStep::Reject => PasswordStepView::Reject,
            PasswordStep::Hash(hash) => PasswordStepView::Hash(hash@),
            PasswordStep::Retry(size) => PasswordStepView::Retry(size as nat),
            PasswordStep::Fail => PasswordStepView::Fail,
        }
    }
}

/// Whether a hash says that the user cannot log in with a password.
pub open spec fn locked(hash: Seq<u8>) -> bool {
    hash.len() == 0 || hash[0] == 33 || hash[0] == 42
}

/// What follows from a lookup with a buffer of this size.
pub open spec fn step_after(lookup: ShadowLookupView, buffer_len: nat) -> PasswordStepView {
    match lookup {
        ShadowLookupView::Found(hash) => if locked(hash) {
            PasswordStepView::Reject
        } else {
            PasswordStepView::Hash(hash)
        },
        ShadowLookupView::Missing => PasswordStepView::Reject,
        ShadowLookupView::TooLarge => if buffer_len < LARGEST_ENTRY_BUFFER {
            PasswordStepView::Retry(buffer_len * 2)
        } else {
            PasswordStepView::Fail
        },
        ShadowLookupView::Failed => PasswordStepView::Fail,
    }
}

pub fn after_lookup(lookup: ShadowLookup, buffer_len: usize) -> (step: PasswordStep)
    ensures
        step@ == step_after(lookup@, buffer_len as nat),
{
    match lookup {
        ShadowLookup::Found(hash) => if hash.len() == 0 || hash[0] == 33 || hash[0] == 42 {
            PasswordStep::Reject
        } else {
            PasswordStep::Hash(hash)
        },
        ShadowLookup::Missing => PasswordStep::Reject,
        ShadowLookup::TooLarge => if buffer_len < LARGEST_ENTRY_BUFFER {
            PasswordStep::Retry(buffer_len * 2)
        } else {
            PasswordStep::Fail
        },
        ShadowLookup::Failed => PasswordStep::Fail,
    }
}

/// Whether a password is the user's: its hash is the one in the database.
pub fn hashes_match(stored: &[u8], computed: &[u8]) -> (matching: bool)
    ensures
        matching == (stored@ == computed@),
{
    same_bytes(stored, computed)
}

/// Looking a user up ends: a buffer grows no further than twice the largest size that is tried
/// again.
pub proof fn buffers_stay_bounded(lookup: ShadowLookupView, buffer_len: nat)
    ensures
        step_after(lookup, buffer_len) matches PasswordStepView::Retry(next) ==> next
            == 2 * buffer_len && next < 2 * LARGEST_ENTRY_BUFFER,
{
}

/// The hash of a user who may log in with a password is what the password is held against; a user
/// without one, whose hash is empty or starts with one of the two signs that lock it, may not.
pub proof fn hash_is_used_unless_it_is_locked(hash: Seq<u8>, buffer_len: nat)
    ensures
        hash.len() > 0 && hash[0] != 33 && hash[0] != 42 ==> step_after(
            ShadowLookupView::Found(hash),
            buffer_len,
        ) == PasswordStepView::Hash(hash),
        hash.len() == 0 || hash[0] == 33 || hash[0] == 42 ==> step_after(
            ShadowLookupView::Found(hash),
            buffer_len,
        ) is Reject,
        step_after(ShadowLookupView::Missing, buffer_len) is Reject,
        step_after(ShadowLookupView::Failed, buffer_len) is Fail,
{
}

/// An entry that does not fit is looked up again with a buffer twice as large, up to a mebibyte.
pub proof fn larger_buffers_are_tried(buffer_len: nat)
    ensures
        buffer_len < 1_048_576 ==> step_after(ShadowLookupView::TooLarge, buffer_len)
            == PasswordStepView::Retry(buffer_len * 2),
        buffer_len >= 1_048_576 ==> step_after(ShadowLookupView::TooLarge, buffer_len) is Fail,
        FIRST_ENTRY_BUFFER == 1024,
{
}

/// A text that has a zero byte anywhere cannot be handed to the system, and any other can.
pub proof fn zero_bytes_cannot_be_handed_on(before: Seq<u8>, after: Seq<u8>, text: Seq<u8>)
    ensures
        !without_nul(before + seq![0u8] + after),
        without_nul(text) <==> !text.contains(0),
        without_nul(before + after) <==> without_nul(before) && without_nul(after),
{
    let whole = before + seq![0u8] + after;
    assert(whole[before.len() as int] == 0);
    let both = before + after;
    if without_nul(both) {
        assert forall|i: int| 0 <= i < before.len() implies #[trigger] before[i] != 0 by {
            assert(both[i] == before[i]);
        }
        assert forall|i: int| 0 <= i < after.len() implies #[trigger] after[i] != 0 by {
            assert(both[before.len() + i] == after[i]);
        }
    }
}

} // verus!
