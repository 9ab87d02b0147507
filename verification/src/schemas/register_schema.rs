//! The registration request and its reply body.

use vstd::prelude::*;
use crate::validation::ValidationErrorSet;
use crate::validation::FieldCheck;
use crate::validation::FieldRule;
use crate::validation::FieldValue;
use crate::validation::aggregate;
use crate::validation::email_ok;
use crate::validation::lemma_aggregate3;
use crate::validation::lemma_single_rule;

verus! {

/// Registration request body: a name, an email and a password.
pub struct RegisterRequest {
    pub name: String,
    pub email: String,
    pub password: String,
}

/// The exact error set registration validation produces.
pub open spec fn register_errors(name: Seq<char>, email: Seq<char>, password: Seq<char>) -> Seq<
    (Seq<char>, Seq<Seq<char>>),
> {
    (if name.len() < 3 {
        seq![("name"@, seq!["Nama minimal 3 karakter"@])]
    } else {
        Seq::empty()
    }) + ((if !email_ok(email) {
        seq![("email"@, seq!["Email tidak valid"@])]
    } else {
        Seq::empty()
    }) + (if password.len() < 6 {
        seq![("password"@, seq!["Password minimal 6 karakter"@])]
    } else {
        Seq::empty()
    }))
}

impl RegisterRequest {
    /// Evaluate every declared rule, collecting all violations.
    pub fn validate(&self) -> (r: ValidationErrorSet)
        ensures
            r@ == register_errors(self.name@, self.email@, self.password@),
    {
        let mut name_rules: Vec<FieldRule> = Vec::new();
        name_rules.push(
            FieldRule::MinLength { min: 3, message: "Nama minimal 3 karakter".to_owned() },
        );
        let mut email_rules: Vec<FieldRule> = Vec::new();
        email_rules.push(FieldRule::Email { message: "Email tidak valid".to_owned() });
        let mut pw_rules: Vec<FieldRule> = Vec::new();
        pw_rules.push(
            FieldRule::MinLength { min: 6, message: "Password minimal 6 karakter".to_owned() },
        );
        let mut fields: Vec<FieldCheck> = Vec::new();
        fields.push(
            FieldCheck {
                name: "name".to_owned(),
                value: FieldValue::Required(self.name.clone()),
                rules: name_rules,
            },
        );
        fields.push(
            FieldCheck {
                name: "email".to_owned(),
                value: FieldValue::Required(self.email.clone()),
                rules: email_rules,
            },
        );
        fields.push(
            FieldCheck {
                name: "password".to_owned(),
                value: FieldValue::Required(self.password.clone()),
                rules: pw_rules,
            },
        );
        let r = aggregate(&fields);
        proof {
            let f0 = fields@[0];
            let f1 = fields@[1];
            let f2 = fields@[2];
            assert(fields@ =~= seq![f0, f1, f2]);
            lemma_aggregate3(f0, f1, f2);
            assert(f0.rules@ =~= seq![f0.rules@[0]]);
            assert(f1.rules@ =~= seq![f1.rules@[0]]);
            assert(f2.rules@ =~= seq![f2.rules@[0]]);
            lemma_single_rule(f0.rules@[0], self.name@);
            lemma_single_rule(f1.rules@[0], self.email@);
            lemma_single_rule(f2.rules@[0], self.password@);
            assert(r@ =~= register_errors(self.name@, self.email@, self.password@));
        }
        r
    }
}

/// Registration validation collects every violation and only those: the
/// set is empty exactly when all three rules pass, and each field appears
/// exactly when its own rule is violated, whatever the other fields did.
pub proof fn lemma_register_errors_complete(name: Seq<char>, email: Seq<char>, password: Seq<char>)
    ensures
        (register_errors(name, email, password).len() == 0) <==> (name.len() >= 3 && email_ok(
            email,
        ) && password.len() >= 6),
        (exists|i: int|
            0 <= i < register_errors(name, email, password).len() && (
            #[trigger] register_errors(name, email, password)[i]).0 == "name"@) <==> name.len()
            < 3,
        (exists|i: int|
            0 <= i < register_errors(name, email, password).len() && (
            #[trigger] register_errors(name, email, password)[i]).0 == "email"@) <==> !email_ok(
            email,
        ),
        (exists|i: int|
            0 <= i < register_errors(name, email, password).len() && (
            #[trigger] register_errors(name, email, password)[i]).0 == "password"@)
            <==> password.len() < 6,
{
    reveal_strlit("name");
    reveal_strlit("email");
    reveal_strlit("password");
    let es = register_errors(name, email, password);
    if name.len() < 3 {
        assert(es[0].0 == "name"@);
    }
    if !email_ok(email) {
        let idx: int = if name.len() < 3 {
            1
        } else {
            0
        };
        assert(es[idx].0 == "email"@);
    }
    if password.len() < 6 {
        let idx: int = (if name.len() < 3 {
            1int
        } else {
            0int
        }) + (if !email_ok(email) {
            1int
        } else {
            0int
        });
        assert(es[idx].0 == "password"@);
    }
    assert("name"@.len() == 4 && "email"@.len() == 5 && "password"@.len() == 8);
}

/// Successful registration reply: the stored row without the password.
#[derive(Debug)]
pub struct RegisterResponse {
    pub id: i64,
    pub name: String,
    pub email: String,
    pub created_at: Option<String>,
    pub updated_at: Option<String>,
}

} // verus!
