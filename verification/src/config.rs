//! Configuration: a tree of values read by dotted paths
//! (`database.host`), with run-time overrides and overrides from
//! environment variables (`APP_DB_HOST` sets `app.db.host`).

use vstd::prelude::*;
use crate::http::parser::{split_on, lemma_first_index, find_char};
use crate::error::FastError;
use crate::text::{chars_of, string_of, texts, spec_to_lowercase, spec_is_uppercase, to_lowercase, is_uppercase};

verus! {

/// A configuration value, as JSON has them; a number is kept as its text.
#[derive(Debug)]
pub enum ConfValue {
    Null,
    Bool(bool),
    Number(String),
    Str(String),
    Array(Vec<ConfValue>),
    Object(Vec<(String, ConfValue)>),
}

/// The mathematical form of a configuration value.
pub ghost enum ConfV {
    Null,
    Bool(bool),
    Number(Seq<char>),
    Str(Seq<char>),
    Array(Seq<ConfV>),
    Object(Seq<(Seq<char>, ConfV)>),
}

/// The form of a configuration value.
pub open spec fn conf_view(v: ConfValue) -> ConfV
    decreases v, 0int,
{
    match v {
        ConfValue::Null => ConfV::Null,
        ConfValue::Bool(b) => ConfV::Bool(b),
        ConfValue::Number(n) => ConfV::Number(n@),
        ConfValue::Str(s) => ConfV::Str(s@),
        ConfValue::Array(items) => {
            proof {
                assert(decreases_to!(v => items));
            }
            ConfV::Array(items_view(items@))
        },
        ConfValue::Object(fields) => {
            proof {
                assert(decreases_to!(v => fields));
            }
            ConfV::Object(fields_view(fields@))
        },
    }
}

/// The forms of a list of values.
pub open spec fn items_view(items: Seq<ConfValue>) -> Seq<ConfV>
    decreases items, 1int,
{
    if items.len() == 0 {
        Seq::empty()
    } else {
        proof {
            assert(decreases_to!(items => items[items.len() - 1]));
        }
        items_view(items.drop_last()).push(conf_view(items.last()))
    }
}

/// The forms of the fields of an object.
pub open spec fn fields_view(fields: Seq<(String, ConfValue)>) -> Seq<(Seq<char>, ConfV)>
    decreases fields, 1int,
{
    if fields.len() == 0 {
        Seq::empty()
    } else {
        proof {
            assert(decreases_to!(fields => fields[fields.len() - 1]));
            assert(decreases_to!(fields[fields.len() - 1] => fields[fields.len() - 1].1));
        }
        fields_view(fields.drop_last()).push(
            (fields.last().0@, conf_view(fields.last().1)),
        )
    }
}

impl View for ConfValue {
    type V = ConfV;

    open spec fn view(&self) -> ConfV {
        conf_view(*self)
    }
}

/// The value of the first field named `k`.
pub open spec fn field_lookup(fields: Seq<(Seq<char>, ConfV)>, k: Seq<char>) -> Option<ConfV>
    decreases fields.len(),
{
    if fields.len() == 0 {
        None
    } else if fields[0].0 == k {
        Some(fields[0].1)
    } else {
        field_lookup(fields.drop_first(), k)
    }
}

/// The fields with the first field named `k` given the value `x`, or with
/// the field `k: x` added last when there is none.
pub open spec fn field_insert(fields: Seq<(Seq<char>, ConfV)>, k: Seq<char>, x: ConfV) -> Seq<
    (Seq<char>, ConfV),
>
    decreases fields.len(),
{
    if fields.len() == 0 {
        seq![(k, x)]
    } else if fields[0].0 == k {
        fields.update(0, (k, x))
    } else {
        seq![fields[0]] + field_insert(fields.drop_first(), k, x)
    }
}

/// The value found by following the keys `parts` from `v`, object by
/// object; none when a key is missing or the value on the way is not an
/// object.
pub open spec fn walk(v: ConfV, parts: Seq<Seq<char>>) -> Option<ConfV>
    decreases parts.len(),
{
    if parts.len() == 0 {
        Some(v)
    } else {
        match v {
            ConfV::Object(fields) => match field_lookup(fields, parts[0]) {
                Some(c) => walk(c, parts.drop_first()),
                None => None,
            },
            _ => None,
        }
    }
}

/// `v` with the value `x` set at the keys `parts`: objects missing on the
/// way are created; a value on the way that is not an object is left as it
/// is, and so is `v` when there are no keys.
pub open spec fn set_at(v: ConfV, parts: Seq<Seq<char>>, x: ConfV) -> ConfV
    decreases parts.len(),
{
    if parts.len() == 0 {
        v
    } else {
        match v {
            ConfV::Object(fields) => if parts.len() == 1 {
                ConfV::Object(field_insert(fields, parts[0], x))
            } else {
                let child = match field_lookup(fields, parts[0]) {
                    Some(c) => c,
                    None => ConfV::Object(Seq::empty()),
                };
                ConfV::Object(field_insert(fields, parts[0], set_at(child, parts.drop_first(), x)))
            },
            _ => v,
        }
    }
}

/// The parts of a dotted key.
pub open spec fn key_parts(key: Seq<char>) -> Seq<Seq<char>> {
    split_on(key, '.')
}

/// The text split at each `sep` (`str::split`).
pub fn split_text(s: &str, sep: char) -> (r: Vec<String>)
    ensures
        texts(r@) == split_on(s@, sep),
{
    let v = chars_of(s);
    let n = v.len();
    let mut out: Vec<String> = Vec::new();
    let mut pos: usize = 0;
    assert(v@.subrange(0, n as int) =~= s@);
    assert(texts(out@) =~= Seq::<Seq<char>>::empty());
    assert(texts(out@) + split_on(v@.subrange(0, n as int), sep) =~= split_on(s@, sep));
    loop
        invariant
            pos <= n,
            n == v@.len(),
            v@ == s@,
            texts(out@) + split_on(v@.subrange(pos as int, n as int), sep) == split_on(s@, sep),
        decreases n - pos,
    {
        let ghost rest = v@.subrange(pos as int, n as int);
        let i = find_char(&v, pos, n, sep);
        proof {
            lemma_first_index(rest, sep);
        }
        let piece = string_of(&v, pos, i);
        assert(piece@ =~= rest.take(i - pos));
        let ghost before = texts(out@);
        out.push(piece);
        assert(texts(out@) =~= before.push(piece@));
        if i == n {
            assert(rest.take(i - pos) =~= rest);
            assert(split_on(rest, sep) == seq![rest]);
            assert(texts(out@) =~= before + seq![rest]);
            return out;
        }
        assert(rest.skip(i - pos + 1) =~= v@.subrange(i + 1, n as int));
        assert(split_on(rest, sep) == seq![rest.take(i - pos)] + split_on(
            v@.subrange(i + 1, n as int),
            sep,
        ));
        assert(texts(out@) + split_on(v@.subrange(i + 1, n as int), sep) =~= before + split_on(
            rest,
            sep,
        ));
        pos = i + 1;
    }
}

fn find_field(fields: &Vec<(String, ConfValue)>, k: &str) -> (r: Option<usize>)
    ensures
        match r {
            Some(i) => i < fields@.len() && fields@[i as int].0@ == k@ && forall|j: int|
                0 <= j < i ==> fields@[j].0@ != k@,
            None => forall|j: int| 0 <= j < fields@.len() ==> fields@[j].0@ != k@,
        },
{
    let mut i: usize = 0;
    while i < fields.len()
        invariant
            i <= fields@.len(),
            forall|j: int| 0 <= j < i ==> fields@[j].0@ != k@,
        decreases fields@.len() - i,
    {
        if crate::text::str_eq(fields[i].0.as_str(), k) {
            return Some(i);
        }
        i += 1;
    }
    None
}

proof fn lemma_fields_view_index(fields: Seq<(String, ConfValue)>, i: int)
    requires
        0 <= i < fields.len(),
    ensures
        fields_view(fields).len() == fields.len(),
        fields_view(fields)[i] == (fields[i].0@, conf_view(fields[i].1)),
    decreases fields.len(),
{
    if i < fields.len() - 1 {
        lemma_fields_view_index(fields.drop_last(), i);
    }
    lemma_fields_view_len(fields);
}

proof fn lemma_fields_view_len(fields: Seq<(String, ConfValue)>)
    ensures
        fields_view(fields).len() == fields.len(),
    decreases fields.len(),
{
    if fields.len() > 0 {
        lemma_fields_view_len(fields.drop_last());
    }
}

/// Looking up the field at the first position with key `k`.
proof fn lemma_lookup_at(fs: Seq<(Seq<char>, ConfV)>, k: Seq<char>, i: int)
    requires
        0 <= i < fs.len(),
        fs[i].0 == k,
        forall|j: int| 0 <= j < i ==> fs[j].0 != k,
    ensures
        field_lookup(fs, k) == Some(fs[i].1),
        field_insert(fs, k, fs[i].1) == fs,
    decreases i,
{
    if i > 0 {
        lemma_lookup_at(fs.drop_first(), k, i - 1);
        assert(seq![fs[0]] + fs.drop_first() =~= fs);
    } else {
        assert(fs.update(0, (k, fs[0].1)) =~= fs);
    }
}

/// Replacing the value of the first field named `k`.
proof fn lemma_insert_at(fs: Seq<(Seq<char>, ConfV)>, k: Seq<char>, i: int, x: ConfV)
    requires
        0 <= i < fs.len(),
        fs[i].0 == k,
        forall|j: int| 0 <= j < i ==> fs[j].0 != k,
    ensures
        field_insert(fs, k, x) == fs.update(i, (k, x)),
    decreases i,
{
    if i > 0 {
        lemma_insert_at(fs.drop_first(), k, i - 1, x);
        assert(seq![fs[0]] + fs.drop_first().update(i - 1, (k, x)) =~= fs.update(i, (k, x)));
    }
}

/// With no field named `k`, the lookup finds none and an insertion adds
/// the field last.
proof fn lemma_absent(fs: Seq<(Seq<char>, ConfV)>, k: Seq<char>, x: ConfV)
    requires
        forall|j: int| 0 <= j < fs.len() ==> fs[j].0 != k,
    ensures
        field_lookup(fs, k) is None,
        field_insert(fs, k, x) == fs.push((k, x)),
    decreases fs.len(),
{
    if fs.len() > 0 {
        lemma_absent(fs.drop_first(), k, x);
        assert(seq![fs[0]] + fs.drop_first().push((k, x)) =~= fs.push((k, x)));
    }
}

proof fn lemma_fields_view_update(fields: Seq<(String, ConfValue)>, i: int, e: (String, ConfValue))
    requires
        0 <= i < fields.len(),
    ensures
        fields_view(fields.update(i, e)) == fields_view(fields).update(i, (e.0@, conf_view(e.1))),
    decreases fields.len(),
{
    lemma_fields_view_len(fields);
    lemma_fields_view_len(fields.update(i, e));
    if i < fields.len() - 1 {
        lemma_fields_view_update(fields.drop_last(), i, e);
        assert(fields.update(i, e).drop_last() =~= fields.drop_last().update(i, e));
    } else {
        assert(fields.update(i, e).drop_last() =~= fields.drop_last());
    }
    assert(fields_view(fields.update(i, e)) =~= fields_view(fields).update(i, (e.0@, conf_view(e.1))));
}

proof fn lemma_fields_view_push(fields: Seq<(String, ConfValue)>, e: (String, ConfValue))
    ensures
        fields_view(fields.push(e)) == fields_view(fields).push((e.0@, conf_view(e.1))),
{
    assert(fields.push(e).drop_last() =~= fields);
}

/// Sets `value` at the keys `parts[idx..]` in `cur`.
fn set_nested(cur: ConfValue, parts: &Vec<String>, idx: usize, value: ConfValue) -> (r: ConfValue)
    requires
        idx <= parts@.len(),
    ensures
        r@ == set_at(cur@, texts(parts@).skip(idx as int), value@),
    decreases parts@.len() - idx,
{
    let ghost ps = texts(parts@).skip(idx as int);
    if idx >= parts.len() {
        assert(ps.len() == 0);
        return cur;
    }
    proof {
        assert(ps[0] == parts@[idx as int]@);
        assert(ps.drop_first() =~= texts(parts@).skip(idx + 1));
    }
    let last = idx + 1 == parts.len();
    match cur {
        ConfValue::Object(fields) => {
            let ghost fv = fields_view(fields@);
            let ghost old_fields = fields@;
            let mut fields = fields;
            let key = parts[idx].as_str();
            let pos = find_field(&fields, key);
            proof {
                lemma_fields_view_len(old_fields);
                assert forall|j: int| 0 <= j < old_fields.len() implies fv[j].0 == old_fields[j].0@ by {
                    lemma_fields_view_index(old_fields, j);
                }
            }
            match pos {
                Some(p) => {
                    let (k, child) = fields.remove(p);
                    proof {
                        lemma_fields_view_index(old_fields, p as int);
                        lemma_lookup_at(fv, key@, p as int);
                    }
                    let nv = if last {
                        value
                    } else {
                        set_nested(child, parts, idx + 1, value)
                    };
                    let ghost e = (k, nv);
                    fields.insert(p, (k, nv));
                    proof {
                        assert(fields@ =~= old_fields.update(p as int, e));
                        lemma_fields_view_update(old_fields, p as int, e);
                        lemma_insert_at(fv, key@, p as int, conf_view(e.1));
                    }
                    ConfValue::Object(fields)
                },
                None => {
                    let nv = if last {
                        value
                    } else {
                        let empty = ConfValue::Object(Vec::new());
                        assert(empty@ == ConfV::Object(Seq::empty()));
                        set_nested(empty, parts, idx + 1, value)
                    };
                    let k = key.to_string();
                    let ghost e = (k, nv);
                    fields.push((k, nv));
                    proof {
                        lemma_absent(fv, key@, conf_view(e.1));
                        lemma_fields_view_push(old_fields, e);
                    }
                    ConfValue::Object(fields)
                },
            }
        },
        other => other,
    }
}

fn walk_ref<'a>(v: &'a ConfValue, parts: &Vec<String>, idx: usize) -> (r: Option<&'a ConfValue>)
    requires
        idx <= parts@.len(),
    ensures
        match r {
            Some(x) => walk(v@, texts(parts@).skip(idx as int)) == Some(x@),
            None => walk(v@, texts(parts@).skip(idx as int)) is None,
        },
    decreases parts@.len() - idx,
{
    let ghost ps = texts(parts@).skip(idx as int);
    if idx >= parts.len() {
        assert(ps.len() == 0);
        return Some(v);
    }
    proof {
        assert(ps[0] == parts@[idx as int]@);
        assert(ps.drop_first() =~= texts(parts@).skip(idx + 1));
    }
    match v {
        ConfValue::Object(fields) => {
            let ghost fv = fields_view(fields@);
            let key = parts[idx].as_str();
            proof {
                lemma_fields_view_len(fields@);
                assert forall|j: int| 0 <= j < fields@.len() implies fv[j].0 == fields@[j].0@ by {
                    lemma_fields_view_index(fields@, j);
                }
            }
            match find_field(fields, key) {
                Some(p) => {
                    proof {
                        lemma_fields_view_index(fields@, p as int);
                        lemma_lookup_at(fv, key@, p as int);
                    }
                    walk_ref(&fields[p].1, parts, idx + 1)
                },
                None => {
                    proof {
                        lemma_absent(fv, key@, ConfV::Null);
                    }
                    None
                },
            }
        },
        _ => None,
    }
}

/// Whether an environment variable's name takes part in overrides: every
/// character is upper case or `_`, and there is a `_`.
pub open spec fn env_name_ok(name: Seq<char>) -> bool {
    &&& forall|i: int| 0 <= i < name.len() ==> spec_is_uppercase(#[trigger] name[i]) || name[i] == '_'
    &&& name.contains('_')
}

/// The text with each `_` turned into `.`.
pub open spec fn underscores_to_dots(s: Seq<char>) -> Seq<char> {
    s.map_values(|c: char| if c == '_' { '.' } else { c })
}

/// The configuration keys that an environment variable's name stands for:
/// the name in lower case, split at each `_`.
pub open spec fn env_parts(name: Seq<char>) -> Seq<Seq<char>> {
    split_on(underscores_to_dots(spec_to_lowercase(name)), '.')
}

/// The tree after the overrides of the environment variables, in order:
/// each variable whose name takes part and stands for at least two keys
/// sets its value, as a string, at those keys.
pub open spec fn env_fold(v: ConfV, vars: Seq<(String, String)>) -> ConfV
    decreases vars.len(),
{
    if vars.len() == 0 {
        v
    } else {
        let prev = env_fold(v, vars.drop_last());
        let (name, val) = vars.last();
        if env_name_ok(name@) && env_parts(name@).len() > 1 {
            set_at(prev, env_parts(name@), ConfV::Str(val@))
        } else {
            prev
        }
    }
}

fn name_takes_part(name: &str) -> (r: bool)
    ensures
        r == env_name_ok(name@),
{
    let v = chars_of(name);
    let mut has_underscore = false;
    let mut i: usize = 0;
    while i < v.len()
        invariant
            v@ == name@,
            i <= v@.len(),
            forall|j: int| 0 <= j < i ==> spec_is_uppercase(#[trigger] name@[j]) || name@[j] == '_',
            has_underscore == (exists|j: int| 0 <= j < i && name@[j] == '_'),
        decreases v@.len() - i,
    {
        let c = v[i];
        if !(is_uppercase(c) || c == '_') {
            return false;
        }
        if c == '_' {
            has_underscore = true;
        }
        i += 1;
    }
    proof {
        if has_underscore {
            let j = choose|j: int| 0 <= j < i && name@[j] == '_';
            assert(name@.contains('_'));
        } else {
            assert(!name@.contains('_'));
        }
    }
    has_underscore
}

fn dots_for_underscores(s: &str) -> (r: String)
    ensures
        r@ == underscores_to_dots(s@),
{
    let v = chars_of(s);
    let mut out = String::new();
    let mut i: usize = 0;
    while i < v.len()
        invariant
            v@ == s@,
            i <= v@.len(),
            out@ == underscores_to_dots(s@).take(i as int),
        decreases v@.len() - i,
    {
        let c = v[i];
        let d = if c == '_' {
            '.'
        } else {
            c
        };
        crate::text::push_char(&mut out, d);
        assert(underscores_to_dots(s@).take(i + 1) =~= underscores_to_dots(s@).take(i as int).push(d));
        i += 1;
    }
    assert(underscores_to_dots(s@).take(v@.len() as int) =~= underscores_to_dots(s@));
    out
}

/// `serde_json::Value`, the tree that YAML text is read into.
#[verifier::external_type_specification]
#[verifier::external_body]
pub struct ExJsonValue(serde_json::Value);

/// The tree that `serde_yaml::from_str` reads from YAML text (into a
/// `serde_json::Value`), as a configuration value; none where serde_yaml
/// refuses the text.
pub uninterp spec fn yaml_tree(text: Seq<char>) -> Option<ConfV>;

/// The configuration value of a `serde_json::Value`, variant for variant: a
/// number keeps its text, an object its fields in the map's order. Used only
/// inside `parse_yaml`, whose contract covers it.
#[verifier::external_body]
fn conf_from_json(v: serde_json::Value) -> ConfValue {
    match v {
        serde_json::Value::Null => ConfValue::Null,
        serde_json::Value::Bool(b) => ConfValue::Bool(b),
        serde_json::Value::Number(n) => ConfValue::Number(n.to_string()),
        serde_json::Value::String(s) => ConfValue::Str(s),
        serde_json::Value::Array(a) => ConfValue::Array(a.into_iter().map(conf_from_json).collect()),
        serde_json::Value::Object(m) => ConfValue::Object(
            m.into_iter().map(|(k, x)| (k, conf_from_json(x))).collect(),
        ),
    }
}

/// `serde_yaml::from_str` into a `serde_json::Value`, converted to a
/// configuration value. The contract claims that the result is the tree
/// named `yaml_tree` of the text, and an error exactly where there is no
/// such tree; of the error's text (serde_yaml's `Display`) nothing is claimed.
#[verifier::external_body]
fn parse_yaml(text: &str) -> (r: core::result::Result<ConfValue, String>)
    ensures
        match r {
            Ok(c) => yaml_tree(text@) == Some(c@),
            Err(_) => yaml_tree(text@) is None,
        },
{
    match serde_yaml::from_str::<serde_json::Value>(text) {
        Ok(v) => Ok(conf_from_json(v)),
        Err(e) => Err(e.to_string()),
    }
}

/// The text that the message of a configuration that is not YAML begins with.
pub open spec fn yaml_error_prefix() -> Seq<char> {
    "Failed to parse YAML: "@
}

/// The configuration tree.
#[derive(Debug)]
pub struct Config {
    data: ConfValue,
}

impl Config {
    /// The tree's form.
    pub closed spec fn tree(&self) -> ConfV {
        self.data@
    }

    /// A configuration holding the given tree.
    pub fn from_value(data: ConfValue) -> (r: Config)
        ensures
            r.tree() == data@,
    {
        Config { data }
    }

    /// Reads YAML text into a configuration: the tree that serde_yaml reads
    /// from it, or a `Config` error whose message begins with
    /// `Failed to parse YAML: ` where serde_yaml refuses the text.
    pub fn from_str(yaml: &str) -> (r: core::result::Result<Config, FastError>)
        ensures
            match yaml_tree(yaml@) {
                Some(t) => r matches Ok(c) && c.tree() == t,
                None => r matches Err(e) && e matches FastError::Config(m) && m@.len()
                    >= yaml_error_prefix().len() && m@.take(yaml_error_prefix().len() as int)
                    == yaml_error_prefix(),
            },
    {
        match parse_yaml(yaml) {
            Ok(data) => Ok(Config { data }),
            Err(t) => {
                let mut m = String::new();
                m.append("Failed to parse YAML: ");
                m.append(t.as_str());
                assert(m@.take(yaml_error_prefix().len() as int) =~= yaml_error_prefix());
                Err(FastError::Config(m))
            },
        }
    }

    /// The whole tree.
    pub fn root(&self) -> (r: &ConfValue)
        ensures
            r@ == self.tree(),
    {
        &self.data
    }

    /// The value at a dotted key, following objects; none when the path
    /// does not lead to a value.
    pub fn get_raw(&self, key: &str) -> (r: Option<&ConfValue>)
        ensures
            match r {
                Some(x) => walk(self.tree(), key_parts(key@)) == Some(x@),
                None => walk(self.tree(), key_parts(key@)) is None,
            },
    {
        let parts = split_text(key, '.');
        assert(texts(parts@).skip(0) =~= texts(parts@));
        walk_ref(&self.data, &parts, 0)
    }

    /// Whether a dotted key leads to a value.
    pub fn has(&self, key: &str) -> (r: bool)
        ensures
            r == walk(self.tree(), key_parts(key@)) is Some,
    {
        self.get_raw(key).is_some()
    }

    /// Sets a value at a dotted key, creating the objects missing on the way.
    pub fn set(&mut self, key: &str, value: ConfValue)
        ensures
            final(self).tree() == set_at(old(self).tree(), key_parts(key@), value@),
    {
        let parts = split_text(key, '.');
        assert(texts(parts@).skip(0) =~= texts(parts@));
        let mut data = ConfValue::Null;
        std::mem::swap(&mut data, &mut self.data);
        self.data = set_nested(data, &parts, 0, value);
    }

    /// Applies the overrides of the given environment variables (name and
    /// value), in order.
    pub fn apply_env_overrides(&mut self, vars: &Vec<(String, String)>)
        ensures
            final(self).tree() == env_fold(old(self).tree(), vars@),
    {
        let mut i: usize = 0;
        assert(vars@.take(0) =~= Seq::<(String, String)>::empty());
        while i < vars.len()
            invariant
                i <= vars@.len(),
                self.tree() == env_fold(old(self).tree(), vars@.take(i as int)),
            decreases vars@.len() - i,
        {
            let ghost t = vars@.take(i + 1);
            assert(t.drop_last() =~= vars@.take(i as int));
            assert(t.last() == vars@[i as int]);
            let name = vars[i].0.as_str();
            if name_takes_part(name) {
                let lower = to_lowercase(name);
                let dotted = dots_for_underscores(lower.as_str());
                let parts = split_text(dotted.as_str(), '.');
                if parts.len() > 1 {
                    assert(texts(parts@).skip(0) =~= texts(parts@));
                    let value = ConfValue::Str(vars[i].1.clone());
                    let mut data = ConfValue::Null;
                    std::mem::swap(&mut data, &mut self.data);
                    self.data = set_nested(data, &parts, 0, value);
                }
            }
            i += 1;
        }
        assert(vars@.take(vars@.len() as int) =~= vars@);
    }
}

/// Every value met on the way along `parts` (all but the last key) is an
/// object, or is missing.
pub open spec fn path_open(v: ConfV, parts: Seq<Seq<char>>) -> bool
    decreases parts.len(),
{
    if parts.len() == 0 {
        true
    } else {
        match v {
            ConfV::Object(fields) => match field_lookup(fields, parts[0]) {
                Some(c) => parts.len() == 1 || path_open(c, parts.drop_first()),
                None => true,
            },
            _ => false,
        }
    }
}

proof fn lemma_lookup_after_insert(fs: Seq<(Seq<char>, ConfV)>, k: Seq<char>, x: ConfV)
    ensures
        field_lookup(field_insert(fs, k, x), k) == Some(x),
    decreases fs.len(),
{
    if fs.len() > 0 && fs[0].0 != k {
        lemma_lookup_after_insert(fs.drop_first(), k, x);
        assert((seq![fs[0]] + field_insert(fs.drop_first(), k, x)).drop_first() =~= field_insert(
            fs.drop_first(),
            k,
            x,
        ));
    }
}

proof fn lemma_fresh_path(parts: Seq<Seq<char>>)
    ensures
        path_open(ConfV::Object(Seq::empty()), parts),
{
}

/// A value set at a key is read back at that key, when the values met on
/// the way are objects (or missing, in which case they are created).
pub proof fn law_get_after_set(v: ConfV, parts: Seq<Seq<char>>, x: ConfV)
    requires
        parts.len() > 0,
        path_open(v, parts),
    ensures
        walk(set_at(v, parts, x), parts) == Some(x),
    decreases parts.len(),
{
    let fields = v->Object_0;
    let k = parts[0];
    if parts.len() == 1 {
        lemma_lookup_after_insert(fields, k, x);
        assert(parts.drop_first().len() == 0);
        assert(v == ConfV::Object(fields));
        assert(set_at(v, parts, x) == ConfV::Object(field_insert(fields, k, x)));
        assert(walk(ConfV::Object(field_insert(fields, k, x)), parts) == walk(x, parts.drop_first()));
        assert(walk(x, parts.drop_first()) == Some(x));
    } else {
        let child = match field_lookup(fields, k) {
            Some(c) => c,
            None => ConfV::Object(Seq::empty()),
        };
        lemma_fresh_path(parts.drop_first());
        law_get_after_set(child, parts.drop_first(), x);
        let y = set_at(child, parts.drop_first(), x);
        lemma_lookup_after_insert(fields, k, y);
        assert(v == ConfV::Object(fields));
        assert(set_at(v, parts, x) == ConfV::Object(field_insert(fields, k, y)));
        assert(walk(ConfV::Object(field_insert(fields, k, y)), parts) == walk(y, parts.drop_first()));
    }
}

/// An environment variable whose name takes part in overrides (upper case
/// with `_`) and stands for two or more keys (`APP_NAME`, `APP_DB_HOST`, ...)
/// sets its value, as a string, at the dotted key of its lower-cased parts:
/// after the overrides that end with it, reading that key gives the value,
/// whenever the values on the way were objects or missing.
pub proof fn law_env_override_is_read_back(
    v: ConfV,
    vars: Seq<(String, String)>,
    name: String,
    value: String,
)
    requires
        forall|i: int|
            0 <= i < name@.len() ==> spec_is_uppercase(#[trigger] name@[i]) || name@[i] == '_',
        name@.contains('_'),
        split_on(
            spec_to_lowercase(name@).map_values(|c: char| if c == '_' { '.' } else { c }),
            '.',
        ).len() >= 2,
        path_open(
            env_fold(v, vars),
            split_on(
                spec_to_lowercase(name@).map_values(|c: char| if c == '_' { '.' } else { c }),
                '.',
            ),
        ),
    ensures
        walk(
            env_fold(v, vars.push((name, value))),
            split_on(
                spec_to_lowercase(name@).map_values(|c: char| if c == '_' { '.' } else { c }),
                '.',
            ),
        ) == Some(ConfV::Str(value@)),
{
    let all = vars.push((name, value));
    assert(all.drop_last() =~= vars);
    assert(all.last() == (name, value));
    assert(env_parts(name@) == split_on(
        spec_to_lowercase(name@).map_values(|c: char| if c == '_' { '.' } else { c }),
        '.',
    ));
    law_get_after_set(env_fold(v, vars), env_parts(name@), ConfV::Str(value@));
}

} // verus!
