//! The token record handed to callers, and the sentinel returned for ids that
//! were never minted.
use vstd::prelude::*;

verus! {

/// The view of a token: id, owner, name, description, media URI and level.
pub type TokenRecordView = (u128, Seq<char>, Seq<char>, Seq<char>, Seq<char>, u128);

/// A minted token. It is never changed once created.
#[derive(Clone, Debug)]
pub struct Token {
    pub token_id: u128,
    pub owner_id: String,
    pub name: String,
    pub description: String,
    pub media_uri: String,
    pub level: u128,
}

impl View for Token {
    type V = TokenRecordView;

    open spec fn view(&self) -> TokenRecordView {
        (self.token_id, self.owner_id@, self.name@, self.description@, self.media_uri@, self.level)
    }
}

/// The text held by every text field of the sentinel token.
pub open spec fn not_found_text() -> Seq<char> {
    "Token not found"@
}

/// The sentinel returned in place of a token that does not exist: id 0, the
/// reader's own identity as owner, the not-found text in each text field, level 0.
pub open spec fn sentinel(caller_id: Seq<char>) -> TokenRecordView {
    (0, caller_id, not_found_text(), not_found_text(), not_found_text(), 0)
}

impl Token {
    /// The sentinel token for a reader with identity `caller_id`.
    pub fn not_found(caller_id: String) -> (r: Token)
        ensures
            r@ == sentinel(caller_id@),
    {
        proof {
            reveal_strlit("Token not found");
        }
        Token {
            token_id: 0,
            owner_id: caller_id,
            name: "Token not found".to_string(),
            description: "Token not found".to_string(),
            media_uri: "Token not found".to_string(),
            level: 0,
        }
    }

    /// A copy of this token, field for field.
    pub fn copy(&self) -> (r: Token)
        ensures
            r@ == self@,
    {
        Token {
            token_id: self.token_id,
            owner_id: self.owner_id.clone(),
            name: self.name.clone(),
            description: self.description.clone(),
            media_uri: self.media_uri.clone(),
            level: self.level,
        }
    }
}

} // verus!
