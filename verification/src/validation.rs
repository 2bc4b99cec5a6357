//! Validation of form fields against rules, with the framework's error
//! messages.
//!
//! Four rules are decided outside this module: `Min`, `Max` and `Numeric`
//! compare the value read as a floating-point number, and `Custom` runs a
//! caller's predicate. For those the caller passes whether the value passed,
//! one flag per rule; every other rule is decided here.

use vstd::prelude::*;
use crate::error::{FastError, Result};
use crate::http::parser::first_index;
use crate::strmap::StrMap;
use crate::text::{
    chars_of,
    decimal,
    is_alphabetic,
    is_alphanumeric,
    join_sep,
    push_decimal,
    push_joined,
    spec_is_alphabetic,
    spec_is_alphanumeric,
    str_eq,
    texts,
    trim,
    trim_bounds,
};

verus! {

/// A validation rule.
#[derive(Debug)]
pub enum Rule {
    /// The value, trimmed, is not empty.
    Required,
    /// The value has at least this many bytes.
    MinLen(usize),
    /// The value has at most this many bytes.
    MaxLen(usize),
    /// The value, read as a number, is not below the bound (written as the
    /// bound is displayed); decided by the caller.
    Min(String),
    /// The value, read as a number, is not above the bound (written as the
    /// bound is displayed); decided by the caller.
    Max(String),
    /// The value looks like an email address.
    Email,
    /// A regular expression; always reported as unsupported.
    Regex(String),
    /// The value is one of the list.
    In(Vec<String>),
    /// The value reads as a number; decided by the caller.
    Numeric,
    /// Every character is alphabetic.
    Alpha,
    /// Every character is alphanumeric.
    AlphaNumeric,
    /// The caller's predicate, with the message reported when it fails.
    Custom(String),
}

/// `local@domain` with a non-empty local part and a domain that holds a dot
/// and does not start with one (split at the first `@`).
pub open spec fn valid_email(s: Seq<char>) -> bool {
    let i = first_index(s, '@');
    let domain = s.skip(i + 1);
    &&& i < s.len()
    &&& i > 0
    &&& domain.contains('.')
    &&& !(domain.len() > 0 && domain[0] == '.')
}

/// `The <field>` followed by the rest of a message.
pub open spec fn field_message(field: Seq<char>, rest: Seq<char>) -> Seq<char> {
    "The "@ + field + rest
}

/// The message that `rule` reports for the value `val` of `field`, if it
/// fails; `passed` is the caller's outcome for the rules it decides.
pub open spec fn rule_error(field: Seq<char>, val: Seq<char>, rule: Rule, passed: bool) -> Option<
    Seq<char>,
> {
    match rule {
        Rule::Required => if trim(val).len() == 0 {
            Some(field_message(field, " field is required."@))
        } else {
            None
        },
        Rule::MinLen(n) => if vstd::utf8::encode_utf8(val).len() < n {
            Some(
                field_message(field, " field must be at least "@ + decimal(n as nat) + " characters."@),
            )
        } else {
            None
        },
        Rule::MaxLen(n) => if vstd::utf8::encode_utf8(val).len() > n {
            Some(
                field_message(
                    field,
                    " field may not be greater than "@ + decimal(n as nat) + " characters."@,
                ),
            )
        } else {
            None
        },
        Rule::Min(b) => if !passed {
            Some(field_message(field, " field must be at least "@ + b@ + "."@))
        } else {
            None
        },
        Rule::Max(b) => if !passed {
            Some(field_message(field, " field may not be greater than "@ + b@ + "."@))
        } else {
            None
        },
        Rule::Email => if !valid_email(val) {
            Some(field_message(field, " field must be a valid email address."@))
        } else {
            None
        },
        Rule::Numeric => if !passed {
            Some(field_message(field, " field must be numeric."@))
        } else {
            None
        },
        Rule::Alpha => if !(forall|i: int| 0 <= i < val.len() ==> spec_is_alphabetic(#[trigger] val[i])) {
            Some(field_message(field, " field may only contain letters."@))
        } else {
            None
        },
        Rule::AlphaNumeric => if !(forall|i: int|
            0 <= i < val.len() ==> spec_is_alphanumeric(#[trigger] val[i])) {
            Some(field_message(field, " field may only contain letters and numbers."@))
        } else {
            None
        },
        Rule::In(list) => if !texts(list@).contains(val) {
            Some(field_message(field, " field must be one of: "@ + join_sep(texts(list@), ", "@) + "."@))
        } else {
            None
        },
        Rule::Regex(_) => Some("Regex validation not supported without regex crate."@),
        Rule::Custom(msg) => if !passed {
            Some(msg@)
        } else {
            None
        },
    }
}

/// The messages of the failing rules, in the order of the rules.
pub open spec fn rule_errors(field: Seq<char>, val: Seq<char>, rules: Seq<Rule>, passed: Seq<bool>) -> Seq<
    Seq<char>,
>
    decreases rules.len(),
{
    if rules.len() == 0 {
        Seq::empty()
    } else {
        let prev = rule_errors(field, val, rules.drop_last(), passed);
        match rule_error(field, val, rules.last(), passed[rules.len() - 1]) {
            Some(m) => prev.push(m),
            None => prev,
        }
    }
}

/// The validator of one field: its name, its value (if any) and its rules.
#[derive(Debug)]
pub struct FieldValidator {
    pub field: String,
    pub value: Option<String>,
    pub rules: Vec<Rule>,
}

/// The value that the rules see: the field's value, or the empty text.
pub open spec fn checked_value(v: Option<String>) -> Seq<char> {
    match v {
        Some(s) => s@,
        None => Seq::empty(),
    }
}

/// The messages of a field validator's failing rules.
pub open spec fn field_errors(f: FieldValidator, passed: Seq<bool>) -> Seq<Seq<char>> {
    rule_errors(f.field@, checked_value(f.value), f.rules@, passed)
}

fn message(field: &str, rest: &str) -> (r: String)
    ensures
        r@ == field_message(field@, rest@),
{
    let mut s = String::new();
    s.append("The ");
    s.append(field);
    s.append(rest);
    s
}

fn count_message(field: &str, before: &str, n: usize, after: &str) -> (r: String)
    ensures
        r@ == field_message(field@, before@ + decimal(n as nat) + after@),
{
    let mut s = String::new();
    s.append("The ");
    s.append(field);
    s.append(before);
    push_decimal(&mut s, n as u64);
    s.append(after);
    assert(s@ =~= field_message(field@, before@ + decimal(n as nat) + after@));
    s
}

fn text_message(field: &str, before: &str, middle: &str, after: &str) -> (r: String)
    ensures
        r@ == field_message(field@, before@ + middle@ + after@),
{
    let mut s = String::new();
    s.append("The ");
    s.append(field);
    s.append(before);
    s.append(middle);
    s.append(after);
    assert(s@ =~= field_message(field@, before@ + middle@ + after@));
    s
}

/// Whether `s` looks like an email address.
pub fn is_valid_email(s: &str) -> (r: bool)
    ensures
        r == valid_email(s@),
{
    let v = chars_of(s);
    let n = v.len();
    let at = crate::http::parser::find_char(&v, 0, n, '@');
    assert(v@.subrange(0, n as int) =~= s@);
    if at == n || at == 0 {
        return false;
    }
    let dot = crate::http::parser::find_char(&v, at + 1, n, '.');
    let ghost domain = s@.skip(at + 1);
    assert(v@.subrange(at + 1, n as int) =~= domain);
    proof {
        crate::http::parser::lemma_first_index(domain, '.');
        if domain.contains('.') {
            let k = choose|k: int| 0 <= k < domain.len() && domain[k] == '.';
            assert(first_index(domain, '.') <= k);
        }
    }
    let has_dot = dot < n;
    let starts_with_dot = at + 1 < n && v[at + 1] == '.';
    has_dot && !starts_with_dot
}

fn is_blank(s: &str) -> (r: bool)
    ensures
        r == (trim(s@).len() == 0),
{
    let v = chars_of(s);
    assert(v@.subrange(0, v@.len() as int) =~= s@);
    let (lo, hi) = trim_bounds(&v, 0, v.len());
    assert(v@.subrange(lo as int, hi as int) == trim(s@));
    lo == hi
}

fn all_alphabetic(s: &str) -> (r: bool)
    ensures
        r == (forall|i: int| 0 <= i < s@.len() ==> spec_is_alphabetic(#[trigger] s@[i])),
{
    let v = chars_of(s);
    let mut i: usize = 0;
    while i < v.len()
        invariant
            v@ == s@,
            i <= v@.len(),
            forall|j: int| 0 <= j < i ==> spec_is_alphabetic(#[trigger] s@[j]),
        decreases v@.len() - i,
    {
        if !is_alphabetic(v[i]) {
            return false;
        }
        i += 1;
    }
    true
}

fn all_alphanumeric(s: &str) -> (r: bool)
    ensures
        r == (forall|i: int| 0 <= i < s@.len() ==> spec_is_alphanumeric(#[trigger] s@[i])),
{
    let v = chars_of(s);
    let mut i: usize = 0;
    while i < v.len()
        invariant
            v@ == s@,
            i <= v@.len(),
            forall|j: int| 0 <= j < i ==> spec_is_alphanumeric(#[trigger] s@[j]),
        decreases v@.len() - i,
    {
        if !is_alphanumeric(v[i]) {
            return false;
        }
        i += 1;
    }
    true
}

fn list_contains(list: &Vec<String>, s: &str) -> (r: bool)
    ensures
        r == texts(list@).contains(s@),
{
    let mut i: usize = 0;
    while i < list.len()
        invariant
            i <= list@.len(),
            forall|j: int| 0 <= j < i ==> texts(list@)[j] != s@,
        decreases list@.len() - i,
    {
        if str_eq(list[i].as_str(), s) {
            assert(texts(list@)[i as int] == s@);
            return true;
        }
        i += 1;
    }
    assert(!texts(list@).contains(s@)) by {
        if texts(list@).contains(s@) {
            let j = choose|j: int| 0 <= j < texts(list@).len() && texts(list@)[j] == s@;
            assert(texts(list@)[j] != s@);
        }
    }
    false
}

fn check_rule(field: &str, val: &str, rule: &Rule, passed: bool) -> (r: Option<String>)
    ensures
        match r {
            Some(m) => rule_error(field@, val@, *rule, passed) == Some(m@),
            None => rule_error(field@, val@, *rule, passed) is None,
        },
{
    match rule {
        Rule::Required => {
            if is_blank(val) {
                Some(message(field, " field is required."))
            } else {
                None
            }
        },
        Rule::MinLen(n) => {
            if val.as_bytes().len() < *n {
                Some(count_message(field, " field must be at least ", *n, " characters."))
            } else {
                None
            }
        },
        Rule::MaxLen(n) => {
            if val.as_bytes().len() > *n {
                Some(count_message(field, " field may not be greater than ", *n, " characters."))
            } else {
                None
            }
        },
        Rule::Min(b) => {
            if !passed {
                Some(text_message(field, " field must be at least ", b.as_str(), "."))
            } else {
                None
            }
        },
        Rule::Max(b) => {
            if !passed {
                Some(text_message(field, " field may not be greater than ", b.as_str(), "."))
            } else {
                None
            }
        },
        Rule::Email => {
            if !is_valid_email(val) {
                Some(message(field, " field must be a valid email address."))
            } else {
                None
            }
        },
        Rule::Numeric => {
            if !passed {
                Some(message(field, " field must be numeric."))
            } else {
                None
            }
        },
        Rule::Alpha => {
            if !all_alphabetic(val) {
                Some(message(field, " field may only contain letters."))
            } else {
                None
            }
        },
        Rule::AlphaNumeric => {
            if !all_alphanumeric(val) {
                Some(message(field, " field may only contain letters and numbers."))
            } else {
                None
            }
        },
        Rule::In(list) => {
            if !list_contains(list, val) {
                let mut joined = String::new();
                push_joined(&mut joined, list, ", ");
                Some(text_message(field, " field must be one of: ", joined.as_str(), "."))
            } else {
                None
            }
        },
        Rule::Regex(_) => Some("Regex validation not supported without regex crate.".to_string()),
        Rule::Custom(msg) => {
            if !passed {
                Some(msg.clone())
            } else {
                None
            }
        },
    }
}

impl FieldValidator {
    /// A validator of `field` with the given value and no rules.
    pub fn new(field: &str, value: Option<&str>) -> (r: Self)
        ensures
            r.field@ == field@,
            checked_value(r.value) == match value {
                Some(s) => s@,
                None => Seq::<char>::empty(),
            },
            r.value is Some <==> value is Some,
            r.rules@.len() == 0,
    {
        let value = match value {
            Some(s) => Some(s.to_string()),
            None => None,
        };
        FieldValidator { field: field.to_string(), value, rules: Vec::new() }
    }

    fn with_rule(self, rule: Rule) -> (r: Self)
        ensures
            r.field == self.field,
            r.value == self.value,
            r.rules@ == self.rules@.push(rule),
    {
        let mut rules = self.rules;
        rules.push(rule);
        FieldValidator { field: self.field, value: self.value, rules }
    }

    /// Adds the rule that the value is present and not blank.
    pub fn required(self) -> (r: Self)
        ensures
            r.field == self.field,
            r.value == self.value,
            r.rules@ == self.rules@.push(Rule::Required),
    {
        self.with_rule(Rule::Required)
    }

    /// Adds the rule that the value has at least `n` bytes.
    pub fn min_len(self, n: usize) -> (r: Self)
        ensures
            r.field == self.field,
            r.value == self.value,
            r.rules@ == self.rules@.push(Rule::MinLen(n)),
    {
        self.with_rule(Rule::MinLen(n))
    }

    /// Adds the rule that the value has at most `n` bytes.
    pub fn max_len(self, n: usize) -> (r: Self)
        ensures
            r.field == self.field,
            r.value == self.value,
            r.rules@ == self.rules@.push(Rule::MaxLen(n)),
    {
        self.with_rule(Rule::MaxLen(n))
    }

    /// Adds the rule that the value, as a number, is at least the bound
    /// written `bound`.
    pub fn min(self, bound: &str) -> (r: Self)
        ensures
            r.field == self.field,
            r.value == self.value,
            r.rules@.len() == self.rules@.len() + 1,
            r.rules@.take(self.rules@.len() as int) == self.rules@,
            r.rules@.last() matches Rule::Min(b) && b@ == bound@,
    {
        let r = self.with_rule(Rule::Min(bound.to_string()));
        assert(r.rules@.take(self.rules@.len() as int) =~= self.rules@);
        r
    }

    /// Adds the rule that the value, as a number, is at most the bound
    /// written `bound`.
    pub fn max(self, bound: &str) -> (r: Self)
        ensures
            r.field == self.field,
            r.value == self.value,
            r.rules@.len() == self.rules@.len() + 1,
            r.rules@.take(self.rules@.len() as int) == self.rules@,
            r.rules@.last() matches Rule::Max(b) && b@ == bound@,
    {
        let r = self.with_rule(Rule::Max(bound.to_string()));
        assert(r.rules@.take(self.rules@.len() as int) =~= self.rules@);
        r
    }

    /// Adds the rule that the value looks like an email address.
    pub fn email(self) -> (r: Self)
        ensures
            r.field == self.field,
            r.value == self.value,
            r.rules@ == self.rules@.push(Rule::Email),
    {
        self.with_rule(Rule::Email)
    }

    /// Adds the rule that the value reads as a number.
    pub fn numeric(self) -> (r: Self)
        ensures
            r.field == self.field,
            r.value == self.value,
            r.rules@ == self.rules@.push(Rule::Numeric),
    {
        self.with_rule(Rule::Numeric)
    }

    /// Adds the rule that every character is alphabetic.
    pub fn alpha(self) -> (r: Self)
        ensures
            r.field == self.field,
            r.value == self.value,
            r.rules@ == self.rules@.push(Rule::Alpha),
    {
        self.with_rule(Rule::Alpha)
    }

    /// Adds the rule that every character is alphanumeric.
    pub fn alpha_numeric(self) -> (r: Self)
        ensures
            r.field == self.field,
            r.value == self.value,
            r.rules@ == self.rules@.push(Rule::AlphaNumeric),
    {
        self.with_rule(Rule::AlphaNumeric)
    }

    /// Adds the rule that the value is one of `list`.
    pub fn in_list(self, list: Vec<String>) -> (r: Self)
        ensures
            r.field == self.field,
            r.value == self.value,
            r.rules@.len() == self.rules@.len() + 1,
            r.rules@.take(self.rules@.len() as int) == self.rules@,
            r.rules@.last() matches Rule::In(l) && l@ == list@,
    {
        let r = self.with_rule(Rule::In(list));
        assert(r.rules@.take(self.rules@.len() as int) =~= self.rules@);
        r
    }

    /// Adds a rule decided by the caller, reported with `message` when it
    /// fails.
    pub fn custom(self, message: &str) -> (r: Self)
        ensures
            r.field == self.field,
            r.value == self.value,
            r.rules@.len() == self.rules@.len() + 1,
            r.rules@.take(self.rules@.len() as int) == self.rules@,
            r.rules@.last() matches Rule::Custom(m) && m@ == message@,
    {
        let r = self.with_rule(Rule::Custom(message.to_string()));
        assert(r.rules@.take(self.rules@.len() as int) =~= self.rules@);
        r
    }

    /// The messages of the failing rules, in the order of the rules;
    /// `passed[i]` is the caller's outcome for rule `i` where the caller
    /// decides it, and is not read for the other rules.
    pub fn validate_with(&self, passed: &Vec<bool>) -> (r: Vec<String>)
        requires
            passed@.len() == self.rules@.len(),
        ensures
            texts(r@) == field_errors(*self, passed@),
    {
        let val: &str = match &self.value {
            Some(s) => s.as_str(),
            None => "",
        };
        proof {
            reveal_strlit("");
        }
        assert(val@ == checked_value(self.value));
        let mut errors: Vec<String> = Vec::new();
        let mut i: usize = 0;
        assert(self.rules@.take(0) =~= Seq::<Rule>::empty());
        while i < self.rules.len()
            invariant
                i <= self.rules@.len(),
                passed@.len() == self.rules@.len(),
                val@ == checked_value(self.value),
                texts(errors@) == rule_errors(
                    self.field@,
                    val@,
                    self.rules@.take(i as int),
                    passed@,
                ),
            decreases self.rules@.len() - i,
        {
            let ghost before = errors@;
            let ghost t = self.rules@.take(i + 1);
            assert(t.drop_last() =~= self.rules@.take(i as int));
            assert(t.last() == self.rules@[i as int]);
            match check_rule(self.field.as_str(), val, &self.rules[i], passed[i]) {
                Some(m) => {
                    errors.push(m);
                    assert(texts(errors@) =~= texts(before).push(m@));
                },
                None => {},
            }
            i += 1;
        }
        assert(self.rules@.take(self.rules@.len() as int) =~= self.rules@);
        errors
    }
}

// ── several fields ──────────────────────────────────────────────────────────

/// The errors of a list of fields: each field with errors, in the order in
/// which its name first had errors, with the errors of the last such
/// validator of that name.
pub open spec fn errors_by_field(fields: Seq<FieldValidator>, passed: Seq<Seq<bool>>) -> (
    Map<Seq<char>, Seq<Seq<char>>>,
    Seq<Seq<char>>,
)
    decreases fields.len(),
{
    if fields.len() == 0 {
        (Map::empty(), Seq::empty())
    } else {
        let (m, order) = errors_by_field(fields.drop_last(), passed);
        let f = fields.last();
        let errs = field_errors(f, passed[fields.len() - 1]);
        if errs.len() == 0 {
            (m, order)
        } else {
            (
                m.insert(f.field@, errs),
                if m.contains_key(f.field@) {
                    order
                } else {
                    order.push(f.field@)
                },
            )
        }
    }
}

/// All messages of the fields with errors, field after field in that order.
pub open spec fn all_messages(m: Map<Seq<char>, Seq<Seq<char>>>, order: Seq<Seq<char>>) -> Seq<
    Seq<char>,
>
    decreases order.len(),
{
    if order.len() == 0 {
        Seq::empty()
    } else {
        all_messages(m, order.drop_last()) + m[order.last()]
    }
}

/// The validator of several fields.
#[derive(Debug)]
pub struct Validator {
    pub fields: Vec<FieldValidator>,
}

/// Whether the caller's outcomes fit the validators' rules.
pub open spec fn outcomes_fit(fields: Seq<FieldValidator>, passed: Seq<Vec<bool>>) -> bool {
    &&& passed.len() == fields.len()
    &&& forall|i: int| 0 <= i < fields.len() ==> #[trigger] passed[i]@.len() == fields[i].rules@.len()
}

/// The outcomes as sequences.
pub open spec fn outcome_seqs(passed: Seq<Vec<bool>>) -> Seq<Seq<bool>> {
    passed.map_values(|v: Vec<bool>| v@)
}

impl Validator {
    /// A validator of no fields.
    pub fn new() -> (r: Self)
        ensures
            r.fields@.len() == 0,
    {
        Validator { fields: Vec::new() }
    }

    /// Adds a field.
    pub fn field(self, validator: FieldValidator) -> (r: Self)
        ensures
            r.fields@ == self.fields@.push(validator),
    {
        let mut fields = self.fields;
        fields.push(validator);
        Validator { fields }
    }

    /// The errors of every field that has some, by field name;
    /// `passed[i]` holds the caller's outcomes for field `i`.
    pub fn validate_with(&self, passed: &Vec<Vec<bool>>) -> (r: StrMap<Vec<String>>)
        requires
            outcomes_fit(self.fields@, passed@),
        ensures
            forall|k: Seq<char>|
                #[trigger] r@.contains_key(k) <==> errors_by_field(
                    self.fields@,
                    outcome_seqs(passed@),
                ).0.contains_key(k),
            forall|k: Seq<char>|
                #[trigger] r@.contains_key(k) ==> texts(r@[k]) == errors_by_field(
                    self.fields@,
                    outcome_seqs(passed@),
                ).0[k],
            r.key_order() == errors_by_field(self.fields@, outcome_seqs(passed@)).1,
    {
        let ghost ps = outcome_seqs(passed@);
        let mut out: StrMap<Vec<String>> = StrMap::new();
        let mut i: usize = 0;
        assert(self.fields@.take(0) =~= Seq::<FieldValidator>::empty());
        while i < self.fields.len()
            invariant
                i <= self.fields@.len(),
                outcomes_fit(self.fields@, passed@),
                ps == outcome_seqs(passed@),
                forall|k: Seq<char>|
                    #[trigger] out@.contains_key(k) <==> errors_by_field(
                        self.fields@.take(i as int),
                        ps,
                    ).0.contains_key(k),
                forall|k: Seq<char>|
                    #[trigger] out@.contains_key(k) ==> texts(out@[k]) == errors_by_field(
                        self.fields@.take(i as int),
                        ps,
                    ).0[k],
                out.key_order() == errors_by_field(self.fields@.take(i as int), ps).1,
            decreases self.fields@.len() - i,
        {
            let ghost t = self.fields@.take(i + 1);
            assert(t.drop_last() =~= self.fields@.take(i as int));
            assert(t.last() == self.fields@[i as int]);
            assert(passed@[i as int]@.len() == self.fields@[i as int].rules@.len());
            assert(ps[i as int] == passed@[i as int]@);
            let fv = &self.fields[i];
            let errs = fv.validate_with(&passed[i]);
            if errs.len() > 0 {
                out.insert(fv.field.clone(), errs);
            }
            i += 1;
        }
        assert(self.fields@.take(self.fields@.len() as int) =~= self.fields@);
        out
    }

    /// `Ok` when no field has errors; otherwise a validation error whose
    /// message is all messages, field after field, joined with `; `.
    pub fn check_with(&self, passed: &Vec<Vec<bool>>) -> (r: Result<()>)
        requires
            outcomes_fit(self.fields@, passed@),
        ensures
            ({
                let (m, order) = errors_by_field(self.fields@, outcome_seqs(passed@));
                &&& r is Ok <==> order.len() == 0
                &&& r is Err ==> crate::error::is_validation(
                    r->Err_0,
                    join_sep(all_messages(m, order), "; "@),
                )
            }),
    {
        let errors = self.validate_with(passed);
        let ghost (m, order) = errors_by_field(self.fields@, outcome_seqs(passed@));
        let n = errors.len();
        if n == 0 {
            return Ok(());
        }
        let mut msgs: Vec<String> = Vec::new();
        let mut i: usize = 0;
        proof {
            errors.lemma_entry_seq_len();
            assert(order.take(0) =~= Seq::<Seq<char>>::empty());
        }
        while i < n
            invariant
                i <= n,
                n == order.len(),
                errors.key_order() == order,
                forall|k: Seq<char>| #[trigger] errors@.contains_key(k) <==> m.contains_key(k),
                forall|k: Seq<char>| #[trigger] errors@.contains_key(k) ==> texts(errors@[k]) == m[k],
                texts(msgs@) == all_messages(m, order.take(i as int)),
            decreases n - i,
        {
            let (k, errs) = errors.entry_at(i);
            proof {
                errors.lemma_entry_seq_len();
                assert(order[i as int] == k@);
            }
            let mut j: usize = 0;
            let ghost start = texts(msgs@);
            assert(texts(errs@).take(0) =~= Seq::<Seq<char>>::empty());
            while j < errs.len()
                invariant
                    j <= errs@.len(),
                    texts(msgs@) == start + texts(errs@).take(j as int),
                decreases errs@.len() - j,
            {
                let ghost b = msgs@;
                msgs.push(errs[j].clone());
                assert(texts(msgs@) =~= texts(b).push(errs@[j as int]@));
                assert(texts(errs@).take(j + 1) =~= texts(errs@).take(j as int).push(errs@[j as int]@));
                j += 1;
            }
            assert(texts(errs@).take(errs@.len() as int) =~= texts(errs@));
            assert(order.take(i + 1).drop_last() =~= order.take(i as int));
            assert(order.take(i + 1).last() == k@);
            i += 1;
        }
        assert(order.take(n as int) =~= order);
        let mut msg = String::new();
        push_joined(&mut msg, &msgs, "; ");
        Err(FastError::Validation(msg))
    }
}

impl Default for Validator {
    fn default() -> (r: Self)
        ensures
            r.fields@.len() == 0,
    {
        Validator::new()
    }
}

/// The fields named in the errors are exactly those listed in their order.
proof fn lemma_errors_keys(fields: Seq<FieldValidator>, passed: Seq<Seq<bool>>)
    ensures
        forall|k: Seq<char>|
            #[trigger] errors_by_field(fields, passed).0.contains_key(k) <==> errors_by_field(
                fields,
                passed,
            ).1.contains(k),
    decreases fields.len(),
{
    if fields.len() > 0 {
        lemma_errors_keys(fields.drop_last(), passed);
        let (m, order) = errors_by_field(fields.drop_last(), passed);
        let f = fields.last();
        let (m2, order2) = errors_by_field(fields, passed);
        assert forall|k: Seq<char>| #[trigger] m2.contains_key(k) <==> order2.contains(k) by {
            if order2 != order {
                assert(order2 == order.push(f.field@));
                if order.contains(k) {
                    let j = choose|j: int| 0 <= j < order.len() && order[j] == k;
                    assert(order2[j] == k);
                }
                if order2.contains(k) && k != f.field@ {
                    let j = choose|j: int| 0 <= j < order2.len() && order2[j] == k;
                    assert(j < order.len());
                    assert(order[j] == k);
                }
                if k == f.field@ {
                    assert(order2[order.len() as int] == k);
                }
            }
        }
    }
}

/// Checking fails exactly when validating reports errors for some field.
pub proof fn law_check_fails_iff_errors(fields: Seq<FieldValidator>, passed: Seq<Seq<bool>>)
    ensures
        (errors_by_field(fields, passed).1.len() == 0) <==> (errors_by_field(
            fields,
            passed,
        ).0.dom() =~= Set::<Seq<char>>::empty()),
{
    lemma_errors_keys(fields, passed);
    let (m, order) = errors_by_field(fields, passed);
    if order.len() > 0 {
        assert(m.contains_key(order[0]));
    }
}

/// The `In` rule accepts exactly the values of its list: a value equal to
/// any of the listed values, at whatever place in the list, passes, and any
/// other value is reported with the list's values joined by `, `.
pub proof fn law_in_rule_accepts_listed(
    field: Seq<char>,
    val: Seq<char>,
    list: Vec<String>,
    passed: bool,
)
    ensures
        (exists|i: int| 0 <= i < list@.len() && (#[trigger] list@[i])@ == val) ==> rule_error(
            field,
            val,
            Rule::In(list),
            passed,
        ) is None,
        (forall|i: int| 0 <= i < list@.len() ==> (#[trigger] list@[i])@ != val) ==> rule_error(
            field,
            val,
            Rule::In(list),
            passed,
        ) == Some(
            "The "@ + field + " field must be one of: "@ + join_sep(texts(list@), ", "@) + "."@,
        ),
{
    if exists|i: int| 0 <= i < list@.len() && (#[trigger] list@[i])@ == val {
        let i = choose|i: int| 0 <= i < list@.len() && (#[trigger] list@[i])@ == val;
        assert(texts(list@)[i] == val);
    } else {
        assert forall|i: int| 0 <= i < texts(list@).len() implies texts(list@)[i] != val by {
            assert(list@[i]@ != val);
        }
    }
}

} // verus!
