//! Reference and value resolution shared by the reconcilers.
use crate::controller::{concat3_strs, concat4_strs, Error};
use crate::crd::{
    ConfigMapKeySelector, LocalObjectReference, SchemaSpec, SecretKeySelector, ValueOrRefSource,
};
use crate::text::{chars_of, replace_chars, replace_all, string_of};
use vstd::prelude::*;
use vstd::utf8::{decode_utf8, valid_utf8};

verus! {

/// The namespace a reference points into: its own, or the namespace of the
/// referring resource when it names none.
pub fn resolve_namespace(reference: &LocalObjectReference, resource_ns: &str) -> (r: String)
    ensures
        r@ == match reference.namespace {
            Some(ns) => ns@,
            None => resource_ns@,
        },
{
    match &reference.namespace {
        Some(ns) => ns.clone(),
        None => resource_ns.to_owned(),
    }
}

/// The next step of resolving a value source.
#[derive(Debug, PartialEq)]
pub enum ValueStep {
    /// The value is known, or cannot be had.
    Done(Result<String, Error>),
    /// The value is a key of this Secret, to be read.
    ReadSecret(SecretKeySelector),
    /// The value is a key of this ConfigMap, to be read.
    ReadConfigMap(ConfigMapKeySelector),
}

/// How a value source is resolved: a raw value is taken as it is; otherwise
/// a Secret reference is read, or else a ConfigMap reference; a source with
/// none of these is a configuration error.
pub fn value_step(source: &ValueOrRefSource) -> (r: ValueStep)
    ensures
        match source.value {
            Some(v) => r == ValueStep::Done(Ok(v)),
            None => match source.value_from {
                Some(from) => match (from.secret_key_ref, from.config_map_ref) {
                    (Some(s), _) => r == ValueStep::ReadSecret(s),
                    (None, Some(c)) => r == ValueStep::ReadConfigMap(c),
                    (None, None) => r matches ValueStep::Done(Err(Error::ConfigError(m)))
                        && m@ == "ValueOrRefSource has neither value nor valueFrom specified"@,
                },
                None => r matches ValueStep::Done(Err(Error::ConfigError(m)))
                    && m@ == "ValueOrRefSource has neither value nor valueFrom specified"@,
            },
        },
{
    if let Some(v) = &source.value {
        return ValueStep::Done(Ok(v.clone()));
    }
    if let Some(from) = &source.value_from {
        if let Some(s) = &from.secret_key_ref {
            return ValueStep::ReadSecret(SecretKeySelector { name: s.name.clone(), key: s.key.clone() });
        }
        if let Some(c) = &from.config_map_ref {
            return ValueStep::ReadConfigMap(ConfigMapKeySelector { name: c.name.clone(), key: c.key.clone() });
        }
    }
    ValueStep::Done(Err(Error::ConfigError("ValueOrRefSource has neither value nor valueFrom specified".to_owned())))
}

/// The message of the error `String::from_utf8` gives for invalid bytes.
pub uninterp spec fn utf8_error_message(bytes: Seq<u8>) -> Seq<char>;

/// Calls `String::from_utf8`: the text of valid UTF-8, or else the message
/// of the error, which is named `utf8_error_message` of the bytes.
#[verifier::external_body]
fn string_from_utf8(bytes: Vec<u8>) -> (r: Result<String, String>)
    ensures
        r is Ok <==> valid_utf8(bytes@),
        r matches Ok(s) ==> s@ == decode_utf8(bytes@),
        r matches Err(m) ==> m@ == utf8_error_message(bytes@),
{
    String::from_utf8(bytes).map_err(|e| e.to_string())
}

/// The value stored under `key` in a list of entries with distinct keys.
pub open spec fn lookup<V>(entries: Seq<(String, V)>, key: Seq<char>) -> Option<V>
    decreases entries.len(),
{
    if entries.len() == 0 {
        None
    } else if entries[0].0@ == key {
        Some(entries[0].1)
    } else {
        lookup(entries.drop_first(), key)
    }
}

pub(crate) fn lookup_exec<V>(entries: &Vec<(String, V)>, key: &String) -> (r: Option<usize>)
    ensures
        match lookup(entries@, key@) {
            Some(v) => r is Some && r->0 < entries@.len() && entries@[r->0 as int].1 == v,
            None => r is None,
        },
{
    let mut i: usize = 0;
    assert(entries@.skip(0) =~= entries@);
    while i < entries.len()
        invariant
            i <= entries@.len(),
            lookup(entries@.skip(i as int), key@) == lookup(entries@, key@),
        decreases entries@.len() - i,
    {
        assert(entries@.skip(i as int)[0] == entries@[i as int]);
        assert(entries@.skip(i as int).drop_first() =~= entries@.skip(i + 1));
        if entries[i].0 == *key {
            return Some(i);
        }
        i = i + 1;
    }
    None
}

/// The value of a Secret key, from the outcome of reading the Secret: its
/// data, or the message of the failed read.
pub fn secret_value(
    selector: &SecretKeySelector,
    read: Result<Option<Vec<(String, Vec<u8>)>>, String>,
) -> (r: Result<String, Error>)
    ensures
        match read {
            Err(e) => r matches Err(Error::ConfigError(m)) && m@ == "Failed to read secret "@
                + selector.name@ + ": "@ + e@,
            Ok(data) => match (match data {
                Some(d) => lookup(d@, selector.key@),
                None => None,
            }) {
                Some(bytes) => if valid_utf8(bytes@) {
                    r matches Ok(v) && v@ == decode_utf8(bytes@)
                } else {
                    r matches Err(Error::ConfigError(m)) && m@ == "Secret key "@ + selector.key@
                        + " is not valid UTF-8: "@ + utf8_error_message(bytes@)
                },
                None => r matches Err(Error::ConfigError(m)) && m@ == "Key "@ + selector.key@
                    + " not found in secret "@ + selector.name@,
            },
        },
{
    match read {
        Err(e) => Err(Error::ConfigError(concat4_strs("Failed to read secret ", selector.name.as_str(), ": ", e.as_str()))),
        Ok(data) => {
            if let Some(d) = data {
                if let Some(i) = lookup_exec(&d, &selector.key) {
                    let bytes = d[i].1.clone();
                    return match string_from_utf8(bytes) {
                        Ok(v) => Ok(v),
                        Err(e) => Err(Error::ConfigError(concat4_strs("Secret key ", selector.key.as_str(), " is not valid UTF-8: ", e.as_str()))),
                    };
                }
            }
            Err(Error::ConfigError(concat4_strs("Key ", selector.key.as_str(), " not found in secret ", selector.name.as_str())))
        },
    }
}

/// The value of a ConfigMap key, from the outcome of reading the ConfigMap:
/// its data, or the message of the failed read.
pub fn config_map_value(
    selector: &ConfigMapKeySelector,
    read: Result<Option<Vec<(String, String)>>, String>,
) -> (r: Result<String, Error>)
    ensures
        match read {
            Err(e) => r matches Err(Error::ConfigError(m)) && m@ == "Failed to read ConfigMap "@
                + selector.name@ + ": "@ + e@,
            Ok(data) => match (match data {
                Some(d) => lookup(d@, selector.key@),
                None => None,
            }) {
                Some(v) => r matches Ok(x) && x@ == v@,
                None => r matches Err(Error::ConfigError(m)) && m@ == "Key "@ + selector.key@
                    + " not found in ConfigMap "@ + selector.name@,
            },
        },
{
    match read {
        Err(e) => Err(Error::ConfigError(concat4_strs("Failed to read ConfigMap ", selector.name.as_str(), ": ", e.as_str()))),
        Ok(data) => {
            if let Some(d) = data {
                if let Some(i) = lookup_exec(&d, &selector.key) {
                    return Ok(d[i].1.clone());
                }
            }
            Err(Error::ConfigError(concat4_strs("Key ", selector.key.as_str(), " not found in ConfigMap ", selector.name.as_str())))
        },
    }
}

/// The placeholder of a variable: `${name}`.
pub open spec fn placeholder(name: Seq<char>) -> Seq<char> {
    "${"@ + name + "}"@
}

/// `text` with the placeholder of each variable replaced by its value, one
/// variable after the other in the order given.
pub open spec fn interpolate(text: Seq<char>, vars: Seq<(String, String)>) -> Seq<char>
    decreases vars.len(),
{
    if vars.len() == 0 {
        text
    } else {
        let last = vars.last();
        replace_all(interpolate(text, vars.drop_last()), placeholder(last.0@), last.1@)
    }
}

/// Replaces the placeholder `${name}` of each variable by its value.
pub fn interpolate_schema(raw_schema_text: &str, variables: &Vec<(String, String)>) -> (r: String)
    ensures
        r@ == interpolate(raw_schema_text@, variables@),
{
    let mut text = chars_of(raw_schema_text);
    for i in 0..variables.len()
        invariant
            text@ == interpolate(raw_schema_text@, variables@.take(i as int)),
    {
        assert(variables@.take(i + 1).drop_last() =~= variables@.take(i as int));
        let pat = chars_of(concat3_strs("${", variables[i].0.as_str(), "}").as_str());
        proof {
            reveal_strlit("${");
            assert(pat@.len() >= 2);
        }
        let val = chars_of(variables[i].1.as_str());
        assert(pat@.len() > 0);
        text = replace_chars(text.as_slice(), pat.as_slice(), val.as_slice());
    }
    assert(variables@.take(variables@.len() as int) =~= variables@);
    string_of(text.as_slice())
}

/// The next step of resolving the text of a schema.
#[derive(Debug)]
pub enum TextStep {
    /// Resolve this value source in this namespace.
    Resolve { source: ValueOrRefSource, namespace: String },
    /// The text, with its variables interpolated, or the first error.
    Done(Result<String, Error>),
}

/// Whether a step gives this text.
pub open spec fn gives_text(step: TextStep, text: Seq<char>) -> bool {
    step matches TextStep::Done(Ok(t)) && t@ == text
}

/// Resolves the schema source of a Schema and then each of its variables,
/// in order, and interpolates the values into the schema text.
#[derive(Debug)]
pub struct SchemaTextResolver {
    pub namespace: String,
    pub schema: ValueOrRefSource,
    pub variables: Vec<(String, ValueOrRefSource)>,
    /// The schema text, once resolved.
    pub raw: Option<String>,
    /// The values of the variables resolved so far.
    pub values: Vec<(String, String)>,
}

/// The variables of a schema spec, in order.
pub open spec fn spec_variables(spec: SchemaSpec) -> Seq<(String, ValueOrRefSource)> {
    match spec.variables {
        Some(v) => v@,
        None => Seq::empty(),
    }
}

impl SchemaTextResolver {
    pub open spec fn well_formed(&self) -> bool {
        &&& self.raw is None ==> self.values@.len() == 0
        &&& self.values@.len() <= self.variables@.len()
        &&& forall|i: int| 0 <= i < self.values@.len() ==> #[trigger] self.values@[i].0 == self.variables@[i].0
    }

    /// Whether the resolver waits for a value.
    pub open spec fn waiting(&self) -> bool {
        self.raw is None || self.values@.len() < self.variables@.len()
    }

    /// How many values are still to be resolved.
    pub open spec fn pending(&self) -> nat {
        (self.variables@.len() - self.values@.len() + if self.raw is None { 1int } else { 0 }) as nat
    }

    /// `next` is this resolver after taking the value `v`: the schema text
    /// first, then the value of the next variable.
    pub open spec fn advanced(&self, next: SchemaTextResolver, v: String) -> bool {
        &&& next.namespace == self.namespace
        &&& next.schema == self.schema
        &&& next.variables == self.variables
        &&& next.raw == if self.raw is None {
            Some(v)
        } else {
            self.raw
        }
        &&& next.values@ == if self.raw is None {
            self.values@
        } else {
            self.values@.push((self.variables@[self.values@.len() as int].0, v))
        }
    }

    /// The interpolated text, once every value is known.
    pub open spec fn text(&self) -> Seq<char> {
        interpolate(self.raw->0@, self.values@)
    }

    /// The request for the next value.
    pub open spec fn requests(&self, step: TextStep) -> bool {
        &&& step matches TextStep::Resolve { source, namespace }
        &&& namespace == self.namespace
        &&& source == if self.raw is None {
            self.schema
        } else {
            self.variables@[self.values@.len() as int].1
        }
    }
}

fn clone_variables(v: &Option<Vec<(String, ValueOrRefSource)>>) -> (r: Vec<(String, ValueOrRefSource)>)
    ensures
        r@ == match *v {
            Some(x) => x@,
            None => Seq::empty(),
        },
{
    let mut r: Vec<(String, ValueOrRefSource)> = Vec::new();
    match v {
        Some(x) => {
            for i in 0..x.len()
                invariant
                    r@ == x@.take(i as int),
            {
                r.push((x[i].0.clone(), x[i].1.duplicate()));
                assert(x@.take(i + 1) =~= x@.take(i as int).push(x@[i as int]));
            }
            assert(x@.take(x@.len() as int) =~= x@);
        },
        None => {},
    }
    r
}

/// Starts resolving the text of a schema: its schema source first.
pub fn start_schema_text(spec: &SchemaSpec, namespace: &String) -> (r: (SchemaTextResolver, TextStep))
    ensures
        r.0.well_formed(),
        r.0.waiting(),
        r.0.raw is None,
        r.0.namespace == *namespace,
        r.0.schema == spec.schema,
        r.0.variables@ == spec_variables(*spec),
        r.0.requests(r.1),
{
    let resolver = SchemaTextResolver {
        namespace: namespace.clone(),
        schema: spec.schema.duplicate(),
        variables: clone_variables(&spec.variables),
        raw: None,
        values: Vec::new(),
    };
    let step = TextStep::Resolve { source: resolver.schema.duplicate(), namespace: namespace.clone() };
    (resolver, step)
}

impl SchemaTextResolver {
    fn next(&self) -> (step: TextStep)
        requires
            self.well_formed(),
            self.raw is Some,
        ensures
            self.waiting() ==> self.requests(step),
            !self.waiting() ==> gives_text(step, interpolate(self.raw->0@, self.values@)),
    {
        let n = self.values.len();
        if n < self.variables.len() {
            TextStep::Resolve { source: self.variables[n].1.duplicate(), namespace: self.namespace.clone() }
        } else {
            let raw = self.raw.as_ref().unwrap();
            TextStep::Done(Ok(interpolate_schema(raw.as_str(), &self.values)))
        }
    }

    /// Takes a resolved value and gives the next step: an error ends the
    /// resolution with that error; otherwise the next value is requested,
    /// or, once all are known, the interpolated text is given.
    pub fn resolved(&mut self, value: Result<String, Error>) -> (step: TextStep)
        requires
            old(self).well_formed(),
            old(self).waiting(),
        ensures
            final(self).well_formed(),
            final(self).namespace == old(self).namespace,
            final(self).schema == old(self).schema,
            final(self).variables == old(self).variables,
            match value {
                Err(e) => step == TextStep::Done(Err(e)),
                Ok(v) => {
                    &&& final(self).raw == if old(self).raw is None {
                        Some(v)
                    } else {
                        old(self).raw
                    }
                    &&& final(self).values@ == if old(self).raw is None {
                        old(self).values@
                    } else {
                        old(self).values@.push((old(self).variables@[old(self).values@.len() as int].0, v))
                    }
                    &&& final(self).pending() < old(self).pending()
                    &&& final(self).waiting() ==> final(self).requests(step)
                    &&& !final(self).waiting() ==> gives_text(
                        step,
                        interpolate(final(self).raw->0@, final(self).values@),
                    )
                },
            },
    {
        match value {
            Err(e) => TextStep::Done(Err(e)),
            Ok(v) => {
                if self.raw.is_none() {
                    self.raw = Some(v);
                } else {
                    let n = self.values.len();
                    let name = self.variables[n].0.clone();
                    self.values.push((name, v));
                }
                self.next()
            },
        }
    }
}

} // verus!
