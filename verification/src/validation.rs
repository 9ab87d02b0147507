//! Declarative per-field validation with full aggregation: every rule of
//! every field is evaluated, never stopping at the first failure, and the
//! violations are grouped per field in declaration order.

use vstd::prelude::*;
use validator::ValidateEmail;

verus! {

/// Whether a string is a syntactically valid email address, as the outside
/// validator defines it. A function of the string alone.
pub uninterp spec fn email_ok(s: Seq<char>) -> bool;

/// Relies on `validator::ValidateEmail::validate_email` for `&str`: a pure
/// syntactic check of the string against the HTML5 email shape.
#[verifier::external_body]
fn email_is_valid(s: &str) -> (r: bool)
    ensures
        r == email_ok(s@),
{
    s.validate_email()
}

/// One declarative rule: a predicate together with the message reported
/// when the predicate fails.
pub enum FieldRule {
    /// The value must have at least `min` characters.
    MinLength { min: usize, message: String },
    /// The value must be a syntactically valid email address.
    Email { message: String },
}

pub open spec fn rule_violated(r: FieldRule, value: Seq<char>) -> bool {
    match r {
        FieldRule::MinLength { min, message } => value.len() < min,
        FieldRule::Email { message } => !email_ok(value),
    }
}

pub open spec fn rule_message(r: FieldRule) -> Seq<char> {
    match r {
        FieldRule::MinLength { min, message } => message@,
        FieldRule::Email { message } => message@,
    }
}

/// A field's value. Required fields are always checked; optional fields
/// only when present and non-empty.
pub enum FieldValue {
    Required(String),
    Optional(Option<String>),
}

/// The value a field's rules run against, if any.
pub open spec fn checked_value(v: FieldValue) -> Option<Seq<char>> {
    match v {
        FieldValue::Required(s) => Some(s@),
        FieldValue::Optional(o) => match o {
            Some(s) => if s@.len() > 0 {
                Some(s@)
            } else {
                None
            },
            None => None,
        },
    }
}

/// One field of a request: its name, its value, and its rules in
/// declaration order.
pub struct FieldCheck {
    pub name: String,
    pub value: FieldValue,
    pub rules: Vec<FieldRule>,
}

/// Messages of the violated rules, in rule order.
pub open spec fn violation_msgs(rules: Seq<FieldRule>, value: Seq<char>) -> Seq<Seq<char>>
    decreases rules.len(),
{
    if rules.len() == 0 {
        Seq::empty()
    } else {
        let rest = violation_msgs(rules.skip(1), value);
        if rule_violated(rules[0], value) {
            seq![rule_message(rules[0])] + rest
        } else {
            rest
        }
    }
}

/// All messages a field collects; empty when its value is not checked.
pub open spec fn field_msgs(f: FieldCheck) -> Seq<Seq<char>> {
    match checked_value(f.value) {
        Some(v) => violation_msgs(f.rules@, v),
        None => Seq::empty(),
    }
}

/// A field's contribution to the error set: absent entirely when it has no
/// violation, never present with an empty list.
pub open spec fn field_entry(f: FieldCheck) -> Seq<(Seq<char>, Seq<Seq<char>>)> {
    if field_msgs(f).len() > 0 {
        seq![(f.name@, field_msgs(f))]
    } else {
        Seq::empty()
    }
}

/// The aggregated outcome over all fields, in declaration order.
pub open spec fn aggregate_spec(fields: Seq<FieldCheck>) -> Seq<(Seq<char>, Seq<Seq<char>>)>
    decreases fields.len(),
{
    if fields.len() == 0 {
        Seq::empty()
    } else {
        field_entry(fields[0]) + aggregate_spec(fields.skip(1))
    }
}

/// One violated field with all its messages, in rule order.
#[derive(Debug)]
pub struct FieldViolations {
    pub field: String,
    pub messages: Vec<String>,
}

impl View for FieldViolations {
    type V = (Seq<char>, Seq<Seq<char>>);

    open spec fn view(&self) -> Self::V {
        (self.field@, self.messages.deep_view())
    }
}

/// Mapping from field name (unique keys) to its ordered violation
/// messages, preserving the order fields were declared. Empty means the
/// input passed every rule.
#[derive(Debug)]
pub struct ValidationErrorSet {
    pub entries: Vec<FieldViolations>,
}

impl View for ValidationErrorSet {
    type V = Seq<(Seq<char>, Seq<Seq<char>>)>;

    open spec fn view(&self) -> Self::V {
        Seq::new(self.entries@.len(), |i: int| self.entries@[i]@)
    }
}

impl ValidationErrorSet {
    /// An empty set is "no errors".
    pub fn is_empty(&self) -> (r: bool)
        ensures
            r == (self@.len() == 0),
    {
        self.entries.len() == 0
    }
}

/// A JSON string literal.
pub open spec fn string_json(s: Seq<char>) -> Seq<char> {
    seq!['"'] + crate::envelope::json_escape(s) + seq!['"']
}

/// Comma-led JSON string literals, one per message.
pub open spec fn rest_strings(msgs: Seq<Seq<char>>) -> Seq<char>
    decreases msgs.len(),
{
    if msgs.len() == 0 {
        Seq::empty()
    } else {
        seq![','] + string_json(msgs[0]) + rest_strings(msgs.skip(1))
    }
}

/// A JSON array of string literals.
pub open spec fn strings_json(msgs: Seq<Seq<char>>) -> Seq<char> {
    seq!['['] + (if msgs.len() == 0 {
        Seq::<char>::empty()
    } else {
        string_json(msgs[0]) + rest_strings(msgs.skip(1))
    }) + seq![']']
}

/// One member of the error object: the field name mapped to its messages.
pub open spec fn entry_json(e: (Seq<char>, Seq<Seq<char>>)) -> Seq<char> {
    string_json(e.0) + seq![':'] + strings_json(e.1)
}

/// Comma-led members, one per violated field.
pub open spec fn rest_entries(es: Seq<(Seq<char>, Seq<Seq<char>>)>) -> Seq<char>
    decreases es.len(),
{
    if es.len() == 0 {
        Seq::empty()
    } else {
        seq![','] + entry_json(es[0]) + rest_entries(es.skip(1))
    }
}

/// The whole error set as one JSON object, fields in declaration order.
pub open spec fn errors_json(es: Seq<(Seq<char>, Seq<Seq<char>>)>) -> Seq<char> {
    seq!['{'] + (if es.len() == 0 {
        Seq::<char>::empty()
    } else {
        entry_json(es[0]) + rest_entries(es.skip(1))
    }) + seq!['}']
}

proof fn lemma_rest_strings_snoc(msgs: Seq<Seq<char>>, m: Seq<char>)
    ensures
        rest_strings(msgs.push(m)) == rest_strings(msgs) + seq![','] + string_json(m),
    decreases msgs.len(),
{
    if msgs.len() == 0 {
        assert(msgs.push(m)[0] == m);
        assert(msgs.push(m).skip(1) =~= Seq::<Seq<char>>::empty());
        assert(rest_strings(Seq::<Seq<char>>::empty()) == Seq::<char>::empty());
        assert(seq![','] + string_json(m) + Seq::<char>::empty() =~= rest_strings(
            Seq::<Seq<char>>::empty(),
        ) + seq![','] + string_json(m));
    } else {
        assert(msgs.push(m).skip(1) =~= msgs.skip(1).push(m));
        lemma_rest_strings_snoc(msgs.skip(1), m);
        assert(msgs.push(m)[0] == msgs[0]);
        assert(seq![','] + string_json(msgs[0]) + (rest_strings(msgs.skip(1)) + seq![',']
            + string_json(m)) =~= (seq![','] + string_json(msgs[0]) + rest_strings(msgs.skip(1)))
            + seq![','] + string_json(m));
    }
}

proof fn lemma_rest_entries_snoc(es: Seq<(Seq<char>, Seq<Seq<char>>)>, e: (Seq<char>, Seq<Seq<char>>))
    ensures
        rest_entries(es.push(e)) == rest_entries(es) + seq![','] + entry_json(e),
    decreases es.len(),
{
    if es.len() == 0 {
        assert(es.push(e)[0] == e);
        assert(es.push(e).skip(1) =~= Seq::<(Seq<char>, Seq<Seq<char>>)>::empty());
        assert(rest_entries(Seq::<(Seq<char>, Seq<Seq<char>>)>::empty()) == Seq::<char>::empty());
        assert(seq![','] + entry_json(e) + Seq::<char>::empty() =~= rest_entries(
            Seq::<(Seq<char>, Seq<Seq<char>>)>::empty(),
        ) + seq![','] + entry_json(e));
    } else {
        assert(es.push(e).skip(1) =~= es.skip(1).push(e));
        lemma_rest_entries_snoc(es.skip(1), e);
        assert(es.push(e)[0] == es[0]);
        assert(seq![','] + entry_json(es[0]) + (rest_entries(es.skip(1)) + seq![','] + entry_json(
            e,
        )) =~= (seq![','] + entry_json(es[0]) + rest_entries(es.skip(1))) + seq![','] + entry_json(
            e,
        ));
    }
}

/// Append the JSON array of one field's messages.
fn push_messages(out: &mut Vec<char>, messages: &Vec<String>)
    ensures
        final(out)@ == old(out)@ + strings_json(messages.deep_view()),
{
    let ghost v: Seq<Seq<char>> = messages.deep_view();
    out.push('[');
    let n = messages.len();
    let mut i: usize = 0;
    while i < n
        invariant
            i <= n,
            n == messages@.len(),
            v == messages.deep_view(),
            i == 0 ==> out@ == old(out)@ + seq!['['],
            i > 0 ==> out@ == old(out)@ + seq!['['] + string_json(v[0]) + rest_strings(
                v.subrange(1, i as int),
            ),
        decreases n - i,
    {
        if i == 0 {
            out.push('"');
            crate::envelope::push_escaped(out, messages[i].as_str());
            out.push('"');
            proof {
                assert(v[0] == messages@[0]@);
                assert(out@ =~= old(out)@ + seq!['['] + string_json(v[0]) + rest_strings(
                    v.subrange(1, 1),
                ));
            }
        } else {
            out.push(',');
            out.push('"');
            crate::envelope::push_escaped(out, messages[i].as_str());
            out.push('"');
            proof {
                assert(v[i as int] == messages@[i as int]@);
                assert(v.subrange(1, i as int + 1) =~= v.subrange(1, i as int).push(v[i as int]));
                lemma_rest_strings_snoc(v.subrange(1, i as int), v[i as int]);
                assert(out@ =~= old(out)@ + seq!['['] + string_json(v[0]) + rest_strings(
                    v.subrange(1, i as int + 1),
                ));
            }
        }
        i = i + 1;
    }
    out.push(']');
    proof {
        if n == 0 {
            assert(out@ =~= old(out)@ + strings_json(v));
        } else {
            assert(v.subrange(1, n as int) =~= v.skip(1));
            assert(out@ =~= old(out)@ + strings_json(v));
        }
    }
}

impl ValidationErrorSet {
    /// Render the set as one JSON object mapping each violated field to
    /// its ordered messages.
    pub fn to_json(&self) -> (r: String)
        ensures
            r@ == errors_json(self@),
    {
        let ghost v: Seq<(Seq<char>, Seq<Seq<char>>)> = self@;
        let mut out: Vec<char> = Vec::new();
        out.push('{');
        let n = self.entries.len();
        let mut i: usize = 0;
        while i < n
            invariant
                i <= n,
                n == self.entries@.len(),
                v == self@,
                i == 0 ==> out@ == seq!['{'],
                i > 0 ==> out@ == seq!['{'] + entry_json(v[0]) + rest_entries(
                    v.subrange(1, i as int),
                ),
            decreases n - i,
        {
            let ghost pre: Seq<char> = out@;
            if i > 0 {
                out.push(',');
            }
            out.push('"');
            crate::envelope::push_escaped(&mut out, self.entries[i].field.as_str());
            out.push('"');
            out.push(':');
            push_messages(&mut out, &self.entries[i].messages);
            proof {
                assert(v[i as int] == self.entries@[i as int]@);
                if i == 0 {
                    assert(out@ =~= seq!['{'] + entry_json(v[0]) + rest_entries(v.subrange(1, 1)));
                } else {
                    assert(out@ =~= pre + seq![','] + entry_json(v[i as int]));
                    assert(v.subrange(1, i as int + 1) =~= v.subrange(1, i as int).push(
                        v[i as int],
                    ));
                    lemma_rest_entries_snoc(v.subrange(1, i as int), v[i as int]);
                    assert(out@ =~= seq!['{'] + entry_json(v[0]) + rest_entries(
                        v.subrange(1, i as int + 1),
                    ));
                }
            }
            i = i + 1;
        }
        out.push('}');
        proof {
            if n == 0 {
                assert(out@ =~= errors_json(v));
            } else {
                assert(v.subrange(1, n as int) =~= v.skip(1));
                assert(out@ =~= errors_json(v));
            }
        }
        crate::envelope::chars_to_string(out)
    }
}

/// Evaluate every rule against a value, collecting the message of each
/// violated rule.
fn eval_rules(rules: &Vec<FieldRule>, value: &str) -> (r: Vec<String>)
    ensures
        r.deep_view() == violation_msgs(rules@, value@),
{
    let mut out: Vec<String> = Vec::new();
    let n = rules.len();
    let mut i: usize = 0;
    proof {
        assert(rules@.skip(0) =~= rules@);
        assert(out.deep_view() =~= Seq::<Seq<char>>::empty());
    }
    while i < n
        invariant
            i <= n,
            n == rules@.len(),
            out.deep_view() + violation_msgs(rules@.skip(i as int), value@) == violation_msgs(
                rules@,
                value@,
            ),
        decreases n - i,
    {
        let ghost pre: Seq<Seq<char>> = out.deep_view();
        proof {
            assert(rules@.skip(i as int)[0] == rules@[i as int]);
            assert(rules@.skip(i as int).skip(1) =~= rules@.skip(i as int + 1));
        }
        let violated: bool = match &rules[i] {
            FieldRule::MinLength { min, message } => value.unicode_len() < *min,
            FieldRule::Email { message } => !email_is_valid(value),
        };
        if violated {
            let m: String = match &rules[i] {
                FieldRule::MinLength { min, message } => message.clone(),
                FieldRule::Email { message } => message.clone(),
            };
            proof {
                assert(m@ == rule_message(rules@[i as int]));
            }
            out.push(m);
            proof {
                assert(out.deep_view() =~= pre + seq![rule_message(rules@[i as int])]);
            }
        }
        i = i + 1;
    }
    proof {
        assert(rules@.skip(n as int) =~= Seq::<FieldRule>::empty());
        assert(out.deep_view() =~= out.deep_view() + violation_msgs(rules@.skip(n as int), value@));
    }
    out
}

/// Evaluate all rules of all fields, grouping every violation; a field
/// with no violation is absent from the result.
pub fn aggregate(fields: &Vec<FieldCheck>) -> (r: ValidationErrorSet)
    ensures
        r@ == aggregate_spec(fields@),
{
    let mut entries: Vec<FieldViolations> = Vec::new();
    let n = fields.len();
    let mut i: usize = 0;
    let ghost result_view = aggregate_spec(fields@);
    proof {
        assert(fields@.skip(0) =~= fields@);
        assert(Seq::new(entries@.len(), |t: int| entries@[t]@) =~= Seq::<(
            Seq<char>,
            Seq<Seq<char>>,
        )>::empty());
    }
    while i < n
        invariant
            i <= n,
            n == fields@.len(),
            result_view == aggregate_spec(fields@),
            Seq::new(entries@.len(), |t: int| entries@[t]@) + aggregate_spec(
                fields@.skip(i as int),
            ) == result_view,
        decreases n - i,
    {
        let ghost pre: Seq<(Seq<char>, Seq<Seq<char>>)> = Seq::new(
            entries@.len(),
            |t: int| entries@[t]@,
        );
        proof {
            assert(fields@.skip(i as int)[0] == fields@[i as int]);
            assert(fields@.skip(i as int).skip(1) =~= fields@.skip(i as int + 1));
        }
        let f = &fields[i];
        let msgs: Vec<String> = match &f.value {
            FieldValue::Required(s) => eval_rules(&f.rules, s.as_str()),
            FieldValue::Optional(o) => match o {
                Some(s) => {
                    if s.unicode_len() > 0 {
                        eval_rules(&f.rules, s.as_str())
                    } else {
                        Vec::new()
                    }
                },
                None => Vec::new(),
            },
        };
        proof {
            assert(msgs.deep_view() =~= field_msgs(fields@[i as int]));
        }
        if msgs.len() > 0 {
            proof {
                assert(msgs.deep_view().len() > 0);
            }
            entries.push(FieldViolations { field: f.name.clone(), messages: msgs });
            proof {
                assert(Seq::new(entries@.len(), |t: int| entries@[t]@) =~= pre + field_entry(
                    fields@[i as int],
                ));
            }
        } else {
            proof {
                assert(msgs.deep_view().len() == 0);
                assert(Seq::new(entries@.len(), |t: int| entries@[t]@) =~= pre + field_entry(
                    fields@[i as int],
                ));
            }
        }
        i = i + 1;
    }
    proof {
        assert(fields@.skip(n as int) =~= Seq::<FieldCheck>::empty());
        let fin = Seq::new(entries@.len(), |t: int| entries@[t]@);
        assert(fin =~= fin + aggregate_spec(fields@.skip(n as int)));
    }
    ValidationErrorSet { entries }
}

/// Unfolds the aggregate over a fixed two-field table.
pub proof fn lemma_aggregate2(f0: FieldCheck, f1: FieldCheck)
    ensures
        aggregate_spec(seq![f0, f1]) == field_entry(f0) + field_entry(f1),
{
    let fs = seq![f0, f1];
    assert(fs.skip(1) =~= seq![f1]);
    assert(aggregate_spec(Seq::<FieldCheck>::empty()) == Seq::<(
        Seq<char>,
        Seq<Seq<char>>,
    )>::empty());
    assert(seq![f1].skip(1) =~= Seq::<FieldCheck>::empty());
    assert(aggregate_spec(seq![f1]) == field_entry(f1) + aggregate_spec(
        Seq::<FieldCheck>::empty(),
    ));
    assert(field_entry(f1) + Seq::<(Seq<char>, Seq<Seq<char>>)>::empty() =~= field_entry(f1));
    assert(aggregate_spec(fs) == field_entry(f0) + aggregate_spec(seq![f1]));
}

/// Unfolds the aggregate over a fixed three-field table.
pub proof fn lemma_aggregate3(f0: FieldCheck, f1: FieldCheck, f2: FieldCheck)
    ensures
        aggregate_spec(seq![f0, f1, f2]) == field_entry(f0) + (field_entry(f1) + field_entry(f2)),
{
    let fs = seq![f0, f1, f2];
    assert(fs.skip(1) =~= seq![f1, f2]);
    lemma_aggregate2(f1, f2);
}

/// A single-rule field reports exactly that rule's outcome.
pub proof fn lemma_single_rule(r: FieldRule, value: Seq<char>)
    ensures
        violation_msgs(seq![r], value) == (if rule_violated(r, value) {
            seq![rule_message(r)]
        } else {
            Seq::<Seq<char>>::empty()
        }),
{
    let rs = seq![r];
    assert(rs.skip(1) =~= Seq::<FieldRule>::empty());
    assert(violation_msgs(Seq::<FieldRule>::empty(), value) == Seq::<Seq<char>>::empty());
    if rule_violated(r, value) {
        assert(violation_msgs(rs, value) == seq![rule_message(r)] + Seq::<Seq<char>>::empty());
        assert(seq![rule_message(r)] + Seq::<Seq<char>>::empty() =~= seq![rule_message(r)]);
    }
}

/// The aggregator collects every violated field and only those: an entry
/// for a field exists exactly when that field has at least one violated
/// rule, regardless of the other fields' outcomes, and the whole set is
/// empty exactly when no rule of any field is violated.
pub proof fn lemma_aggregate_complete(fields: Seq<FieldCheck>)
    ensures
        (aggregate_spec(fields).len() == 0) <==> (forall|i: int|
            0 <= i < fields.len() ==> field_msgs(#[trigger] fields[i]).len() == 0),
        forall|i: int|
            0 <= i < fields.len() && field_msgs(#[trigger] fields[i]).len() > 0 ==> exists|j: int|
                0 <= j < aggregate_spec(fields).len() && aggregate_spec(fields)[j] == (
                fields[i].name@,
                field_msgs(fields[i]),
            ),
    decreases fields.len(),
{
    if fields.len() > 0 {
        lemma_aggregate_complete(fields.skip(1));
        let rest = aggregate_spec(fields.skip(1));
        let head = field_entry(fields[0]);
        assert forall|i: int|
            0 <= i < fields.len() && field_msgs(#[trigger] fields[i]).len() > 0 implies exists|
            j: int,
        |
            0 <= j < aggregate_spec(fields).len() && aggregate_spec(fields)[j] == (
            fields[i].name@,
            field_msgs(fields[i]),
        ) by {
            if i == 0 {
                assert(aggregate_spec(fields)[0] == (fields[0].name@, field_msgs(fields[0])));
            } else {
                assert(fields.skip(1)[i - 1] == fields[i]);
                let j0 = choose|j0: int|
                    0 <= j0 < rest.len() && rest[j0] == (fields[i].name@, field_msgs(fields[i]));
                assert(aggregate_spec(fields)[head.len() + j0] == rest[j0]);
            }
        }
        if aggregate_spec(fields).len() == 0 {
            assert forall|i: int| 0 <= i < fields.len() implies field_msgs(
                #[trigger] fields[i],
            ).len() == 0 by {
                if i > 0 {
                    assert(fields.skip(1)[i - 1] == fields[i]);
                }
            }
        }
    }
}

} // verus!
