use vstd::prelude::*;
use vstd::string::StrSliceExecFns;

verus! {

/// The shortest nickname, in characters.
pub const NICKNAME_MIN: usize = 3;

/// The longest nickname, in characters.
pub const NICKNAME_MAX: usize = 32;

/// A nickname is accepted when it has 3 to 32 characters, both ends
/// included, however many bytes its encoding takes.
pub open spec fn valid_nickname(nickname: Seq<char>) -> bool {
    NICKNAME_MIN <= nickname.len() <= NICKNAME_MAX
}

pub fn is_valid_nickname(nickname: &String) -> (ok: bool)
    ensures
        ok == valid_nickname(nickname@),
{
    let n: usize = nickname.as_str().unicode_len();
    NICKNAME_MIN <= n && n <= NICKNAME_MAX
}

/// What the registry knows of a user: a nickname, and the ledger sequence
/// number at which it was last written.
#[derive(Debug, PartialEq, Eq)]
pub struct UserProfile {
    pub nickname: String,
    pub registered_at: u32,
}

/// A profile as a mathematical value.
pub struct ProfileView {
    pub nickname: Seq<char>,
    pub registered_at: u32,
}

impl View for UserProfile {
    type V = ProfileView;

    open spec fn view(&self) -> ProfileView {
        ProfileView { nickname: self.nickname@, registered_at: self.registered_at }
    }
}

impl Clone for UserProfile {
    fn clone(&self) -> (r: UserProfile)
        ensures
            r == *self,
    {
        UserProfile { nickname: self.nickname.clone(), registered_at: self.registered_at }
    }
}

} // verus!
