//! The login request and its reply bodies.

use vstd::prelude::*;
use crate::validation::ValidationErrorSet;
use crate::validation::FieldCheck;
use crate::validation::FieldRule;
use crate::validation::FieldValue;
use crate::validation::aggregate;
use crate::validation::email_ok;
use crate::validation::lemma_aggregate2;
use crate::validation::lemma_single_rule;

verus! {

/// Login request body: an email and a password.
pub struct LoginRequest {
    pub email: String,
    pub password: String,
}

/// The exact error set login validation produces: every violated field,
/// in declaration order, none stopping at the first.
pub open spec fn login_errors(email: Seq<char>, password: Seq<char>) -> Seq<
    (Seq<char>, Seq<Seq<char>>),
> {
    (if !email_ok(email) {
        seq![("email"@, seq!["Email tidak valid"@])]
    } else {
        Seq::empty()
    }) + (if password.len() < 6 {
        seq![("password"@, seq!["Password minimal 6 karakter"@])]
    } else {
        Seq::empty()
    })
}

impl LoginRequest {
    /// Evaluate every declared rule, collecting all violations.
    pub fn validate(&self) -> (r: ValidationErrorSet)
        ensures
            r@ == login_errors(self.email@, self.password@),
    {
        let mut email_rules: Vec<FieldRule> = Vec::new();
        email_rules.push(FieldRule::Email { message: "Email tidak valid".to_owned() });
        let mut pw_rules: Vec<FieldRule> = Vec::new();
        pw_rules.push(
            FieldRule::MinLength { min: 6, message: "Password minimal 6 karakter".to_owned() },
        );
        let mut fields: Vec<FieldCheck> = Vec::new();
        fields.push(
            FieldCheck {
                name: "email".to_owned(),
                value: FieldValue::Required(self.email.clone()),
                rules: email_rules,
            },
        );
        fields.push(
            FieldCheck {
                name: "password".to_owned(),
                value: FieldValue::Required(self.password.clone()),
                rules: pw_rules,
            },
        );
        let r = aggregate(&fields);
        proof {
            let f0 = fields@[0];
            let f1 = fields@[1];
            assert(fields@ =~= seq![f0, f1]);
            lemma_aggregate2(f0, f1);
            assert(f0.rules@ =~= seq![f0.rules@[0]]);
            assert(f1.rules@ =~= seq![f1.rules@[0]]);
            lemma_single_rule(f0.rules@[0], self.email@);
            lemma_single_rule(f1.rules@[0], self.password@);
            assert(r@ =~= login_errors(self.email@, self.password@));
        }
        r
    }
}

/// Login validation collects every violation and only those: the set is
/// empty exactly when both rules pass, and each field appears exactly when
/// its own rule is violated, whatever the other field did.
pub proof fn lemma_login_errors_complete(email: Seq<char>, password: Seq<char>)
    ensures
        (login_errors(email, password).len() == 0) <==> (email_ok(email) && password.len() >= 6),
        (exists|i: int|
            0 <= i < login_errors(email, password).len() && (#[trigger] login_errors(
                email,
                password,
            )[i]).0 == "email"@) <==> !email_ok(email),
        (exists|i: int|
            0 <= i < login_errors(email, password).len() && (#[trigger] login_errors(
                email,
                password,
            )[i]).0 == "password"@) <==> password.len() < 6,
{
    reveal_strlit("email");
    reveal_strlit("password");
    let es = login_errors(email, password);
    if !email_ok(email) {
        assert(es[0].0 == "email"@);
    }
    if password.len() < 6 {
        let idx: int = if !email_ok(email) {
            1
        } else {
            0
        };
        assert(es[idx].0 == "password"@);
    }
    assert("email"@.len() == 5 && "password"@.len() == 8);
}

/// The user as the login reply reports it.
#[derive(Debug)]
pub struct UserResponse {
    pub id: i64,
    pub name: String,
    pub email: String,
}

/// Successful login reply: the user and a fresh token.
#[derive(Debug)]
pub struct LoginResponse {
    pub user: UserResponse,
    pub token: String,
}

} // verus!
