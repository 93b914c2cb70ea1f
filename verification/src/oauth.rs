//! The data that OAuth provider scripts read.
use std::collections::HashMap;
use vstd::prelude::*;
use vstd::std_specs::hash::{contains_borrowed_key, maps_borrowed_key_to_value, obeys_key_model};

use crate::text::{owned, str_eq};

verus! {

/// The text parameters handed to a provider script, by name.
pub struct RuneMap(pub HashMap<String, String>);

impl RuneMap {
    /// The parameter named `key`, if there is one.
    pub fn get(&self, key: &str) -> (r: Option<String>)
        ensures
            obeys_key_model::<String>() ==> match r {
                Some(v) => maps_borrowed_key_to_value(self.0@, key, v),
                None => !contains_borrowed_key(self.0@, key),
            },
    {
        self.0.get(key).cloned()
    }
}

/// Why the answer of a provider script was refused.
#[derive(Clone, Debug)]
pub enum OAuthError {
    /// The answer lacks the member of this name.
    MissingField(String),
    /// The script answered with an error.
    ScriptError(String),
    /// The engine could not read the answer: its description of why.
    EngineError(String),
}

/// What a provider script's `login` or `bind` answered, as plain values.
#[derive(Clone, Debug)]
pub enum ScriptAnswer {
    /// `Ok` with an object: its members in order, each with its value as text, or the engine's
    /// description of why that value is not text.
    Object(Vec<(String, Result<String, String>)>),
    /// `Err`, with any value.
    Refused,
    /// Anything else: the engine's description of why it is not a result of an object.
    Malformed(String),
}

/// One member of an answer's object.
pub type AnswerMember = (String, Result<String, String>);

/// The object has a member named `key`.
pub open spec fn has_member(members: Seq<AnswerMember>, key: Seq<char>) -> bool {
    exists|i: int| 0 <= i < members.len() && (#[trigger] members[i]).0@ == key
}

/// The engine's description for the first member whose value is not text, if there is one.
pub open spec fn first_unreadable(members: Seq<AnswerMember>) -> Option<Seq<char>>
    decreases members.len(),
{
    if members.len() == 0 {
        None
    } else {
        match members[0].1 {
            Err(t) => Some(t@),
            Ok(_) => first_unreadable(members.drop_first()),
        }
    }
}

proof fn lemma_first_unreadable(m: Seq<AnswerMember>, k: int)
    requires
        0 <= k <= m.len(),
        forall|j: int| 0 <= j < k ==> (#[trigger] m[j]).1 is Ok,
    ensures
        first_unreadable(m) == first_unreadable(m.skip(k)),
    decreases k,
{
    if k == 0 {
        assert(m.skip(0) =~= m);
    } else {
        let t = m.drop_first();
        assert forall|j: int| 0 <= j < k - 1 implies (#[trigger] t[j]).1 is Ok by {
            assert(t[j] == m[j + 1]);
        }
        assert(m[0].1 is Ok);
        lemma_first_unreadable(t, k - 1);
        assert(t.skip(k - 1) =~= m.skip(k));
    }
}

/// Reads what a provider script's `login` or `bind` answered: an object that has an
/// `auth_key` member and whose values are all text gives its members, in order; an object
/// without `auth_key` is refused as missing that field; one with a value that is not text, as
/// the engine described the first such value; an error answer, as an unexpected value; and any
/// other answer, as the engine described it.
pub fn read_oauth_answer(answer: ScriptAnswer) -> (r: Result<Vec<(String, String)>, OAuthError>)
    ensures
        match answer {
            ScriptAnswer::Object(m) => if !has_member(m@, "auth_key"@) {
                r matches Err(OAuthError::MissingField(f)) && f@ == "auth_key"@
            } else {
                match first_unreadable(m@) {
                    Some(t) => r matches Err(OAuthError::EngineError(e)) && e@ == t,
                    None => r matches Ok(d) && d@.len() == m@.len() && forall|i: int|
                        0 <= i < m@.len() ==> (#[trigger] d@[i]).0@ == m@[i].0@ && (m@[i].1 matches Ok(v)
                            && d@[i].1@ == v@),
                }
            },
            ScriptAnswer::Refused => r matches Err(OAuthError::ScriptError(t)) && t@
                == "unexpected value in oauth script"@,
            ScriptAnswer::Malformed(t) => r matches Err(OAuthError::EngineError(e)) && e@ == t@,
        },
{
    let members = match answer {
        ScriptAnswer::Object(m) => m,
        ScriptAnswer::Refused => {
            return Err(OAuthError::ScriptError(owned("unexpected value in oauth script")));
        },
        ScriptAnswer::Malformed(t) => {
            return Err(OAuthError::EngineError(t));
        },
    };
    let ghost all = members@;
    let mut found = false;
    let mut i: usize = 0;
    while i < members.len()
        invariant
            members@ == all,
            i <= members.len(),
            found <==> exists|j: int| 0 <= j < i && (#[trigger] all[j]).0@ == "auth_key"@,
        decreases members.len() - i,
    {
        if str_eq(members[i].0.as_str(), "auth_key") {
            found = true;
        }
        i = i + 1;
    }
    if !found {
        return Err(OAuthError::MissingField(owned("auth_key")));
    }
    let mut data: Vec<(String, String)> = Vec::new();
    for x in it: members
        invariant
            it.seq() == all,
            (answer matches ScriptAnswer::Object(m) && m@ == all),
            has_member(all, "auth_key"@),
            data@.len() == it.index(),
            forall|j: int| 0 <= j < it.index() ==> (#[trigger] all[j]).1 is Ok,
            forall|j: int|
                0 <= j < it.index() ==> (#[trigger] data@[j]).0@ == all[j].0@ && (all[j].1 matches Ok(v)
                    && data@[j].1@ == v@),
    {
        let ghost k = it.index();
        assert(x == all[k]);
        let (key, value) = x;
        match value {
            Ok(v) => {
                data.push((key, v));
            },
            Err(t) => {
                proof {
                    lemma_first_unreadable(all, k);
                    assert(all.skip(k)[0] == all[k]);
                }
                return Err(OAuthError::EngineError(t));
            },
        }
    }
    proof {
        lemma_first_unreadable(all, all.len() as int);
    }
    Ok(data)
}

/// The OAuth service, which runs the provider scripts.
#[derive(Clone, Copy, Debug, Default)]
pub struct OAuth;

} // verus!
