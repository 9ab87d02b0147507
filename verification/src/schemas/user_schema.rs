//! The user-management requests and reply body.

use vstd::prelude::*;
use crate::validation::ValidationErrorSet;
use crate::validation::FieldCheck;
use crate::validation::FieldRule;
use crate::validation::FieldValue;
use crate::validation::aggregate;
use crate::validation::email_ok;
use crate::validation::lemma_aggregate3;
use crate::validation::lemma_single_rule;
use crate::schemas::register_schema::register_errors;

verus! {

/// Body for creating a user: the same rules as registration.
pub struct UserStoreRequest {
    pub name: String,
    pub email: String,
    pub password: String,
}

impl UserStoreRequest {
    /// Evaluate every declared rule, collecting all violations.
    pub fn validate(&self) -> (r: ValidationErrorSet)
        ensures
            r@ == register_errors(self.name@, self.email@, self.password@),
    {
        let mut name_rules: Vec<FieldRule> = Vec::new();
        name_rules.push(
            FieldRule::MinLength { min: 3, message: "Nama minimal 3 karakter".to_owned() },
        );
        let mut email_rules: Vec<FieldRule> = Vec::new();
        email_rules.push(FieldRule::Email { message: "Email tidak valid".to_owned() });
        let mut pw_rules: Vec<FieldRule> = Vec::new();
        pw_rules.push(
            FieldRule::MinLength { min: 6, message: "Password minimal 6 karakter".to_owned() },
        );
        let mut fields: Vec<FieldCheck> = Vec::new();
        fields.push(
            FieldCheck {
                name: "name".to_owned(),
                value: FieldValue::Required(self.name.clone()),
                rules: name_rules,
            },
        );
        fields.push(
            FieldCheck {
                name: "email".to_owned(),
                value: FieldValue::Required(self.email.clone()),
                rules: email_rules,
            },
        );
        fields.push(
            FieldCheck {
                name: "password".to_owned(),
                value: FieldValue::Required(self.password.clone()),
                rules: pw_rules,
            },
        );
        let r = aggregate(&fields);
        proof {
            let f0 = fields@[0];
            let f1 = fields@[1];
            let f2 = fields@[2];
            assert(fields@ =~= seq![f0, f1, f2]);
            lemma_aggregate3(f0, f1, f2);
            assert(f0.rules@ =~= seq![f0.rules@[0]]);
            assert(f1.rules@ =~= seq![f1.rules@[0]]);
            assert(f2.rules@ =~= seq![f2.rules@[0]]);
            lemma_single_rule(f0.rules@[0], self.name@);
            lemma_single_rule(f1.rules@[0], self.email@);
            lemma_single_rule(f2.rules@[0], self.password@);
            assert(r@ =~= register_errors(self.name@, self.email@, self.password@));
        }
        r
    }
}

/// The user as replies report it.
#[derive(Debug)]
pub struct UserResponse {
    pub id: i64,
    pub name: String,
    pub email: String,
    pub created_at: Option<String>,
    pub updated_at: Option<String>,
}

/// Body for updating a user: the password is optional and only validated
/// when present and non-empty.
pub struct UserUpdateRequest {
    pub name: String,
    pub email: String,
    pub password: Option<String>,
}

/// The exact error set update validation produces. An absent or empty
/// optional password yields no violation.
pub open spec fn update_errors(
    name: Seq<char>,
    email: Seq<char>,
    password: Option<Seq<char>>,
) -> Seq<(Seq<char>, Seq<Seq<char>>)> {
    (if name.len() < 3 {
        seq![("name"@, seq!["Nama minimal 3 karakter"@])]
    } else {
        Seq::empty()
    }) + ((if !email_ok(email) {
        seq![("email"@, seq!["Email tidak valid"@])]
    } else {
        Seq::empty()
    }) + (match password {
        Some(p) => if 0 < p.len() < 6 {
            seq![("password"@, seq!["Password minimal 6 karakter"@])]
        } else {
            Seq::empty()
        },
        None => Seq::empty(),
    }))
}

/// Update validation collects every violation and only those; an absent or
/// empty optional password never contributes one.
pub proof fn lemma_update_errors_complete(
    name: Seq<char>,
    email: Seq<char>,
    password: Option<Seq<char>>,
)
    ensures
        (update_errors(name, email, password).len() == 0) <==> (name.len() >= 3 && email_ok(email)
            && (match password {
            Some(p) => !(0 < p.len() < 6),
            None => true,
        })),
        (exists|i: int|
            0 <= i < update_errors(name, email, password).len() && (#[trigger] update_errors(
                name,
                email,
                password,
            )[i]).0 == "password"@) <==> (match password {
            Some(p) => 0 < p.len() < 6,
            None => false,
        }),
{
    reveal_strlit("name");
    reveal_strlit("email");
    reveal_strlit("password");
    let es = update_errors(name, email, password);
    let pw_violated: bool = match password {
        Some(p) => 0 < p.len() < 6,
        None => false,
    };
    if pw_violated {
        let idx: int = (if name.len() < 3 {
            1int
        } else {
            0int
        }) + (if !email_ok(email) {
            1int
        } else {
            0int
        });
        assert(es[idx].0 == "password"@);
    }
    assert("name"@.len() == 4 && "email"@.len() == 5 && "password"@.len() == 8);
}

impl UserUpdateRequest {
    /// Evaluate every declared rule, collecting all violations.
    pub fn validate(&self) -> (r: ValidationErrorSet)
        ensures
            r@ == update_errors(
                self.name@,
                self.email@,
                match self.password {
                    Some(p) => Some(p@),
                    None => None,
                },
            ),
    {
        let mut name_rules: Vec<FieldRule> = Vec::new();
        name_rules.push(
            FieldRule::MinLength { min: 3, message: "Nama minimal 3 karakter".to_owned() },
        );
        let mut email_rules: Vec<FieldRule> = Vec::new();
        email_rules.push(FieldRule::Email { message: "Email tidak valid".to_owned() });
        let mut pw_rules: Vec<FieldRule> = Vec::new();
        pw_rules.push(
            FieldRule::MinLength { min: 6, message: "Password minimal 6 karakter".to_owned() },
        );
        let pw: Option<String> = match &self.password {
            Some(p) => Some(p.clone()),
            None => None,
        };
        let mut fields: Vec<FieldCheck> = Vec::new();
        fields.push(
            FieldCheck {
                name: "name".to_owned(),
                value: FieldValue::Required(self.name.clone()),
                rules: name_rules,
            },
        );
        fields.push(
            FieldCheck {
                name: "email".to_owned(),
                value: FieldValue::Required(self.email.clone()),
                rules: email_rules,
            },
        );
        fields.push(
            FieldCheck {
                name: "password".to_owned(),
                value: FieldValue::Optional(pw),
                rules: pw_rules,
            },
        );
        let r = aggregate(&fields);
        proof {
            let f0 = fields@[0];
            let f1 = fields@[1];
            let f2 = fields@[2];
            assert(fields@ =~= seq![f0, f1, f2]);
            lemma_aggregate3(f0, f1, f2);
            assert(f0.rules@ =~= seq![f0.rules@[0]]);
            assert(f1.rules@ =~= seq![f1.rules@[0]]);
            assert(f2.rules@ =~= seq![f2.rules@[0]]);
            lemma_single_rule(f0.rules@[0], self.name@);
            lemma_single_rule(f1.rules@[0], self.email@);
            match &self.password {
                Some(p) => {
                    if p@.len() > 0 {
                        lemma_single_rule(f2.rules@[0], p@);
                    }
                },
                None => {},
            }
            assert(r@ =~= update_errors(
                self.name@,
                self.email@,
                match self.password {
                    Some(p) => Some(p@),
                    None => None,
                },
            ));
        }
        r
    }
}

} // verus!
