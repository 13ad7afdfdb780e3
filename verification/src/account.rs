use vstd::prelude::*;

verus! {

/// A character that may separate the parts of an account identifier.
pub open spec fn is_separator(c: char) -> bool {
    c == '-' || c == '_' || c == '.'
}

/// A lower-case letter or a digit.
pub open spec fn is_plain(c: char) -> bool {
    ('a' <= c && c <= 'z') || ('0' <= c && c <= '9')
}

/// The text of a well-formed account identifier: between 2 and 64 characters,
/// each a lower-case letter, a digit or a separator, with no separator at
/// either end and no two separators in a row.
pub open spec fn valid_account_text(s: Seq<char>) -> bool {
    &&& 2 <= s.len() <= 64
    &&& forall|i: int| 0 <= i < s.len() ==> is_plain(#[trigger] s[i]) || is_separator(s[i])
    &&& !is_separator(s[0])
    &&& !is_separator(s[s.len() - 1])
    &&& forall|i: int|
        0 <= i < s.len() - 1 ==> !(is_separator(#[trigger] s[i]) && is_separator(s[i + 1]))
}

/// Asks `near_sdk` whether it accepts `text` as an account identifier, by
/// `near_sdk::AccountId::try_from(String)`. That conversion succeeds exactly
/// where `near_sdk::env::is_valid_account_id` holds of the text's bytes, and
/// the contract restates the rule that this function implements. The contract
/// is trusted: nothing here proves it of `near_sdk`.
#[verifier::external_body]
fn sdk_accepts_account(text: &str) -> (ok: bool)
    ensures
        ok == valid_account_text(text@),
{
    near_sdk::AccountId::try_from(text.to_string()).is_ok()
}

/// An account identifier that `near_sdk` accepts.
#[derive(Debug, PartialEq, Eq)]
pub struct AccountId {
    text: String,
}

impl View for AccountId {
    type V = Seq<char>;

    closed spec fn view(&self) -> Seq<char> {
        self.text@
    }
}

impl AccountId {
    /// Holds of every account identifier: its text is valid.
    #[verifier::type_invariant]
    pub open spec fn well_formed(self) -> bool {
        valid_account_text(self@)
    }

    /// Wraps `text` if it is a valid account identifier.
    pub fn new(text: String) -> (account: Option<AccountId>)
        ensures
            account is Some <==> valid_account_text(text@),
            account matches Some(a) ==> a@ == text@,
    {
        if sdk_accepts_account(text.as_str()) {
            Some(AccountId { text })
        } else {
            None
        }
    }

    /// The identifier's text.
    pub fn as_str(&self) -> (text: &str)
        ensures
            text@ == self@,
            valid_account_text(text@),
    {
        proof {
            use_type_invariant(self);
        }
        self.text.as_str()
    }

    /// The identifier's text, as the key under which maps file the account.
    pub fn as_string(&self) -> (text: &String)
        ensures
            text@ == self@,
    {
        &self.text
    }

    /// Whether two identifiers name the same account.
    pub fn same(&self, other: &AccountId) -> (equal: bool)
        ensures
            equal == (self@ == other@),
    {
        self.text == other.text
    }
}

impl Clone for AccountId {
    fn clone(&self) -> (copy: Self)
        ensures
            copy@ == self@,
    {
        proof {
            use_type_invariant(self);
        }
        AccountId { text: self.text.clone() }
    }
}

} // verus!
